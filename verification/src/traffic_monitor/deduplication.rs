//! Packet de-duplication across adapters: a table of recently seen packet
//! signatures, so that a packet captured on two adapters is counted once.
use vstd::prelude::*;
use dashmap::DashMap;

verus! {

#[verifier::external_type_specification]
#[verifier::external_body]
#[verifier::reject_recursive_types(K)]
#[verifier::reject_recursive_types(V)]
#[verifier::reject_recursive_types(S)]
pub struct ExDashMap<K, V, S>(dashmap::DashMap<K, V, S>);

/// When and where a packet signature was seen.
#[derive(Debug)]
pub struct SeenPacket {
    pub time: u64,
    pub adapter: String,
}

/// The signatures a table holds, each with the time it was seen and the
/// adapter it was seen on.
pub uninterp spec fn seen_signatures(m: DashMap<String, SeenPacket>) -> Map<Seq<char>, SeenPacket>;

/// `DashMap::new`. Trusted: the new table is empty.
#[verifier::external_body]
fn new_signature_table() -> (table: DashMap<String, SeenPacket>)
    ensures
        seen_signatures(table).dom() == Set::<Seq<char>>::empty(),
{
    DashMap::new()
}

/// `DashMap::contains_key`. Trusted: tells whether the signature is held.
#[verifier::external_body]
fn signature_known(m: &DashMap<String, SeenPacket>, signature: &str) -> (b: bool)
    ensures
        b == seen_signatures(*m).contains_key(signature@),
{
    m.contains_key(signature)
}

/// `DashMap::insert`. Trusted: afterwards the signature maps to `value`
/// and nothing else changed.
#[verifier::external_body]
fn signature_insert(m: &mut DashMap<String, SeenPacket>, signature: String, value: SeenPacket)
    ensures
        seen_signatures(*final(m)) == seen_signatures(*old(m)).insert(signature@, value),
{
    m.insert(signature, value);
}

/// Whether a signature seen at time `entry.0` is newer than `cutoff`.
pub fn seen_after(entry: &SeenPacket, cutoff: u64) -> (b: bool)
    ensures
        b == (entry.time > cutoff),
{
    entry.time > cutoff
}

/// The entries of `m` seen after `cutoff`.
pub open spec fn newer_than(m: Map<Seq<char>, SeenPacket>, cutoff: u64) -> Map<Seq<char>, SeenPacket> {
    m.restrict(m.dom().filter(|k: Seq<char>| m[k].time > cutoff))
}

/// `DashMap::retain` keeping the entries seen after `cutoff`. Trusted:
/// exactly those entries remain, unchanged.
#[verifier::external_body]
fn signature_retain_after(m: &mut DashMap<String, SeenPacket>, cutoff: u64)
    ensures
        seen_signatures(*final(m)) == newer_than(seen_signatures(*old(m)), cutoff),
{
    m.retain(|_k, v| seen_after(v, cutoff));
}

/// Reads the system clock: whole seconds since the Unix epoch, or zero when
/// the clock is set before the epoch. Nothing is claimed of the value.
#[verifier::external_body]
pub fn get_current_time() -> (t: u64) {
    match std::time::SystemTime::now().duration_since(std::time::UNIX_EPOCH) {
        Ok(d) => d.as_secs(),
        Err(_) => 0,
    }
}

/// Seconds a signature is remembered.
pub const SIGNATURE_LIFETIME: u64 = 10;

/// The table of recently seen packet signatures.
pub struct PacketDedup {
    pub entries: DashMap<String, SeenPacket>,
}

impl PacketDedup {
    /// An empty table.
    pub fn new() -> (d: PacketDedup)
        ensures
            seen_signatures(d.entries).dom() == Set::<Seq<char>>::empty(),
    {
        PacketDedup { entries: new_signature_table() }
    }

    /// Whether a packet with this signature was already counted.
    pub fn is_duplicate_packet(&self, signature: &str) -> (b: bool)
        ensures
            b == seen_signatures(self.entries).contains_key(signature@),
    {
        signature_known(&self.entries, signature)
    }

    /// Records a counted packet, seen at `now` on `adapter_name`.
    pub fn register_packet_at(&mut self, signature: String, adapter_name: String, now: u64)
        ensures
            seen_signatures(final(self).entries) == seen_signatures(old(self).entries).insert(signature@, (SeenPacket { time: now, adapter: adapter_name })),
    {
        signature_insert(&mut self.entries, signature, SeenPacket { time: now, adapter: adapter_name });
    }

    /// Records a counted packet, seen now on `adapter_name`.
    pub fn register_packet(&mut self, signature: String, adapter_name: String)
        ensures
            exists|t: u64| seen_signatures(final(self).entries)
                == #[trigger] seen_signatures(old(self).entries).insert(signature@, (SeenPacket { time: t, adapter: adapter_name })),
    {
        let now = get_current_time();
        self.register_packet_at(signature, adapter_name, now);
    }

    /// Forgets the signatures seen `SIGNATURE_LIFETIME` seconds or more
    /// before `now`.
    pub fn cleanup_old_signatures_at(&mut self, now: u64)
        requires
            now >= SIGNATURE_LIFETIME,
        ensures
            seen_signatures(final(self).entries)
                == newer_than(seen_signatures(old(self).entries), (now - SIGNATURE_LIFETIME) as u64),
    {
        signature_retain_after(&mut self.entries, now - SIGNATURE_LIFETIME);
    }

    /// Forgets the signatures seen ten seconds or more before now; does
    /// nothing while the clock reads less than ten seconds.
    pub fn cleanup_old_signatures(&mut self)
        ensures
            seen_signatures(final(self).entries) == seen_signatures(old(self).entries)
                || exists|now: u64| now >= SIGNATURE_LIFETIME && seen_signatures(final(self).entries)
                    == #[trigger] newer_than(seen_signatures(old(self).entries), (now - SIGNATURE_LIFETIME) as u64),
    {
        let now = get_current_time();
        if now >= SIGNATURE_LIFETIME {
            self.cleanup_old_signatures_at(now);
        }
    }
}

/// A registered packet is a duplicate from then on, until it is cleaned up
/// ten seconds or more after it was seen: registering then asking gives
/// `true`, and a cleanup soon after keeps it.
pub proof fn lemma_registered_packet_is_duplicate(
    m: Map<Seq<char>, SeenPacket>,
    signature: Seq<char>,
    adapter: String,
    seen: u64,
    now: u64,
)
    requires
        now >= SIGNATURE_LIFETIME,
        seen > now - SIGNATURE_LIFETIME,
    ensures
        m.insert(signature, (SeenPacket { time: seen, adapter })).contains_key(signature),
        newer_than(m.insert(signature, (SeenPacket { time: seen, adapter })), (now - SIGNATURE_LIFETIME) as u64).contains_key(signature),
{
    let r = m.insert(signature, SeenPacket { time: seen, adapter });
    assert(r.dom().filter(|k: Seq<char>| r[k].time > (now - SIGNATURE_LIFETIME) as u64).contains(signature));
}


/// The signatures an expiring table holds, each with the time it expires.
pub uninterp spec fn signature_expiries(m: DashMap<String, u64>) -> Map<Seq<char>, u64>;

/// `DashMap::new`. Trusted: the new table is empty.
#[verifier::external_body]
fn new_expiry_table() -> (table: DashMap<String, u64>)
    ensures
        signature_expiries(table).dom() == Set::<Seq<char>>::empty(),
{
    DashMap::new()
}

/// `DashMap::get`, copying the expiry out. Trusted: the stored expiry of
/// the signature, if it is held.
#[verifier::external_body]
fn expiry_of(m: &DashMap<String, u64>, signature: &str) -> (r: Option<u64>)
    ensures
        r == (if signature_expiries(*m).contains_key(signature@) {
            Some(signature_expiries(*m)[signature@])
        } else {
            None
        }),
{
    m.get(signature).map(|e| *e)
}

/// `DashMap::insert`. Trusted: afterwards the signature maps to `expiry`
/// and nothing else changed.
#[verifier::external_body]
fn expiry_insert(m: &mut DashMap<String, u64>, signature: String, expiry: u64)
    ensures
        signature_expiries(*final(m)) == signature_expiries(*old(m)).insert(signature@, expiry),
{
    m.insert(signature, expiry);
}

/// Whether an expiry lies after `now`.
pub fn expires_after(expiry: &u64, now: u64) -> (b: bool)
    ensures
        b == (*expiry > now),
{
    *expiry > now
}

/// The entries of `m` that expire after `now`.
pub open spec fn unexpired(m: Map<Seq<char>, u64>, now: u64) -> Map<Seq<char>, u64> {
    m.restrict(m.dom().filter(|k: Seq<char>| m[k] > now))
}

/// `DashMap::retain` keeping the entries that expire after `now`. Trusted:
/// exactly those entries remain, unchanged.
#[verifier::external_body]
fn expiry_retain_after(m: &mut DashMap<String, u64>, now: u64)
    ensures
        signature_expiries(*final(m)) == unexpired(signature_expiries(*old(m)), now),
{
    m.retain(|_k, v| expires_after(v, now));
}

/// Seconds a signature of the adapter engine stays registered.
pub const SIGNATURE_EXPIRY: u64 = 5;

/// Packet signatures of the adapter engine, each with an expiry time.
pub struct ExpiringSignatures {
    pub entries: DashMap<String, u64>,
}

impl ExpiringSignatures {
    /// An empty table.
    pub fn new() -> (t: ExpiringSignatures)
        ensures
            signature_expiries(t.entries).dom() == Set::<Seq<char>>::empty(),
    {
        ExpiringSignatures { entries: new_expiry_table() }
    }

    /// Whether the signature is registered and not yet expired at `now_secs`.
    pub fn is_duplicate_packet(&self, signature: &str, now_secs: u64) -> (b: bool)
        ensures
            b == (signature_expiries(self.entries).contains_key(signature@)
                && signature_expiries(self.entries)[signature@] > now_secs),
    {
        match expiry_of(&self.entries, signature) {
            Some(e) => e > now_secs,
            None => false,
        }
    }

    /// Registers a signature until `expiry_time_secs`.
    pub fn register_packet_signature(&mut self, signature: String, expiry_time_secs: u64)
        ensures
            signature_expiries(final(self).entries)
                == signature_expiries(old(self).entries).insert(signature@, expiry_time_secs),
    {
        expiry_insert(&mut self.entries, signature, expiry_time_secs);
    }

    /// Forgets the signatures that have expired at `now`.
    pub fn cleanup_packet_signatures_at(&mut self, now: u64)
        ensures
            signature_expiries(final(self).entries) == unexpired(signature_expiries(old(self).entries), now),
    {
        expiry_retain_after(&mut self.entries, now);
    }

    /// Forgets the signatures that have expired by now.
    pub fn cleanup_packet_signatures(&mut self)
        ensures
            exists|now: u64| signature_expiries(final(self).entries)
                == #[trigger] unexpired(signature_expiries(old(self).entries), now),
    {
        let now = get_current_time();
        self.cleanup_packet_signatures_at(now);
    }

    /// First sighting of a packet at `now`: a signature that is already
    /// registered makes it a duplicate (`false`, table unchanged); otherwise
    /// it is registered for `SIGNATURE_EXPIRY` seconds and `true` is given.
    pub fn admit_packet(&mut self, signature: String, now: u64) -> (fresh: bool)
        requires
            now <= u64::MAX - SIGNATURE_EXPIRY,
        ensures
            fresh == !signature_expiries(old(self).entries).contains_key(signature@),
            fresh ==> signature_expiries(final(self).entries)
                == signature_expiries(old(self).entries).insert(signature@, (now + SIGNATURE_EXPIRY) as u64),
            !fresh ==> signature_expiries(final(self).entries) == signature_expiries(old(self).entries),
    {
        if expiry_of(&self.entries, signature.as_str()).is_some() {
            return false;
        }
        self.register_packet_signature(signature, now + SIGNATURE_EXPIRY);
        true
    }
}

/// A signature registered with an expiry after `now` is a duplicate at
/// `now`, and a cleanup at `now` keeps it.
pub proof fn lemma_registered_signature_is_duplicate(m: Map<Seq<char>, u64>, signature: Seq<char>, expiry: u64, now: u64)
    requires
        expiry > now,
    ensures
        m.insert(signature, expiry).contains_key(signature) && m.insert(signature, expiry)[signature] > now,
        unexpired(m.insert(signature, expiry), now).contains_key(signature),
{
    let r = m.insert(signature, expiry);
    assert(r.dom().filter(|k: Seq<char>| r[k] > now).contains(signature));
}

} // verus!
