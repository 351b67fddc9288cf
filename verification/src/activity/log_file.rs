//! The encrypted activity log: each record is a 12-byte nonce, a 4-byte
//! little-endian length, and that many bytes of AES-256-GCM sealed text.
use vstd::prelude::*;
use vstd::utf8::{valid_utf8, decode_utf8, encode_utf8};
use vstd::slice::{slice_to_vec, slice_subrange};
use ring::aead::{Aad, LessSafeKey, Nonce, UnboundKey, AES_256_GCM};
use ring::error::Unspecified;
use ring::rand::{SecureRandom, SystemRandom};

verus! {

#[verifier::external_type_specification]
#[verifier::external_body]
pub struct ExUnspecified(ring::error::Unspecified);

/// Length of a record's nonce.
pub const NONCE_LEN: usize = 12;

/// Length of a record's header: nonce and length field.
pub const HEADER_LEN: usize = 16;

/// What AES-256-GCM sealing of `plain` under `key` and `nonce` produces:
/// the ciphertext followed by the authentication tag.
pub uninterp spec fn aes_gcm_seal(key: Seq<u8>, nonce: Seq<u8>, plain: Seq<u8>) -> Seq<u8>;

/// What AES-256-GCM opening of `sealed` under `key` and `nonce` produces:
/// the plaintext when the tag authenticates, nothing otherwise.
pub uninterp spec fn aes_gcm_open(key: Seq<u8>, nonce: Seq<u8>, sealed: Seq<u8>) -> Option<Seq<u8>>;

/// The longest input that AES-GCM in ring seals: its 32-bit block counter
/// covers `2^32 - 2` blocks of 16 bytes.
pub const AES_GCM_MAX_INPUT: u64 = 68719476704;

/// Seals `plain` with ring's AES-256-GCM (`LessSafeKey::seal_in_place_append_tag`,
/// empty associated data). Trusted: with a 32-byte key and a 12-byte nonce,
/// ring fails only on an input longer than `AES_GCM_MAX_INPUT` (the check in
/// its GCM context setup); on success the result is the sealed form, 16 tag
/// bytes longer than the input, and opening it with the same key and nonce
/// gives `plain` back.
#[verifier::external_body]
fn seal(key: &[u8; 32], nonce: &[u8], plain: Vec<u8>) -> (r: Result<Vec<u8>, Unspecified>)
    requires
        nonce@.len() == NONCE_LEN,
    ensures
        r is Ok <==> plain@.len() <= AES_GCM_MAX_INPUT,
        r matches Ok(c) ==> c@ == aes_gcm_seal(key@, nonce@, plain@),
        r matches Ok(c) ==> c@.len() == plain@.len() + 16,
        r matches Ok(c) ==> aes_gcm_open(key@, nonce@, c@) == Some(plain@),
{
    let sealing = LessSafeKey::new(UnboundKey::new(&AES_256_GCM, key)?);
    let mut data = plain;
    sealing.seal_in_place_append_tag(Nonce::try_assume_unique_for_key(nonce)?, Aad::empty(), &mut data)?;
    Ok(data)
}

/// Opens `sealed` with ring's AES-256-GCM (`LessSafeKey::open_in_place`,
/// empty associated data). Trusted: it succeeds exactly when the tag
/// authenticates, and then returns the plaintext.
#[verifier::external_body]
fn open(key: &[u8; 32], nonce: &[u8], sealed: Vec<u8>) -> (r: Result<Vec<u8>, Unspecified>)
    requires
        nonce@.len() == NONCE_LEN,
    ensures
        r is Ok <==> aes_gcm_open(key@, nonce@, sealed@) is Some,
        r matches Ok(p) ==> aes_gcm_open(key@, nonce@, sealed@) == Some(p@),
{
    let opening = LessSafeKey::new(UnboundKey::new(&AES_256_GCM, key)?);
    let mut data = sealed;
    let plain = opening.open_in_place(Nonce::try_assume_unique_for_key(nonce)?, Aad::empty(), &mut data)?;
    Ok(plain.to_vec())
}

/// Twelve bytes from ring's `SystemRandom`. Nothing is claimed of them:
/// they come from the operating system's random source.
#[verifier::external_body]
fn random_nonce() -> (r: Result<[u8; 12], Unspecified>) {
    let mut nonce = [0u8; 12];
    SystemRandom::new().fill(&mut nonce)?;
    Ok(nonce)
}

/// `String::from_utf8`, with the error replaced by ring's `Unspecified`.
/// Trusted: it succeeds exactly on valid UTF-8 and then holds the decoded
/// characters.
#[verifier::external_body]
fn string_from_utf8(bytes: Vec<u8>) -> (r: Result<String, Unspecified>)
    ensures
        r is Ok <==> valid_utf8(bytes@),
        r matches Ok(s) ==> s@ == decode_utf8(bytes@),
{
    String::from_utf8(bytes).map_err(|_| Unspecified)
}

/// The little-endian encoding of a 32-bit length.
pub open spec fn u32_le_bytes(n: u32) -> Seq<u8> {
    seq![(n % 256) as u8, ((n / 256) % 256) as u8, ((n / 65536) % 256) as u8, (n / 16777216) as u8]
}

/// The value of four little-endian bytes.
pub open spec fn le_u32(b: Seq<u8>) -> int {
    b[0] + 256 * b[1] + 65536 * b[2] + 16777216 * b[3]
}

/// The sealed length as the record header stores it (wrapped to 32 bits).
pub open spec fn stored_len(n: nat) -> u32 {
    (n % 4294967296) as u32
}

/// What `encrypt_with_nonce` returns: the stored length of the sealed
/// bytes, then the sealed bytes.
pub open spec fn encrypted_data(key: Seq<u8>, nonce: Seq<u8>, plain: Seq<u8>) -> Seq<u8> {
    let sealed = aes_gcm_seal(key, nonce, plain);
    u32_le_bytes(stored_len(sealed.len())) + sealed
}

/// `data` is `text` encrypted under `key` and `nonce`: the stored length
/// and the sealed bytes, which are 16 tag bytes longer than the UTF-8 text
/// and open back to it.
pub open spec fn encryption_of(data: Seq<u8>, key: Seq<u8>, nonce: Seq<u8>, text: Seq<char>) -> bool {
    let sealed = aes_gcm_seal(key, nonce, encode_utf8(text));
    &&& data == encrypted_data(key, nonce, encode_utf8(text))
    &&& sealed.len() == encode_utf8(text).len() + 16
    &&& aes_gcm_open(key, nonce, sealed) == Some(encode_utf8(text))
}

/// Encrypts `plaintext` under `nonce`: the length field followed by the
/// sealed bytes. Fails exactly when the text is too long to seal.
pub fn encrypt_with_nonce(plaintext: &str, key_bytes: &[u8; 32], nonce: [u8; 12]) -> (r: Result<Vec<u8>, Unspecified>)
    ensures
        r is Ok <==> encode_utf8(plaintext@).len() <= AES_GCM_MAX_INPUT,
        r matches Ok(data) ==> encryption_of(data@, key_bytes@, nonce@, plaintext@),
{
    let plain = slice_to_vec(plaintext.as_bytes());
    let sealed = seal(key_bytes, nonce.as_slice(), plain)?;
    let n = sealed.len();
    let len: u32 = (n as u64 % 4294967296) as u32;
    let mut data: Vec<u8> = Vec::new();
    data.push((len % 256) as u8);
    data.push(((len / 256) % 256) as u8);
    data.push(((len / 65536) % 256) as u8);
    data.push((len / 16777216) as u8);
    let ghost head = data@;
    let mut i: usize = 0;
    while i < sealed.len()
        invariant
            i <= sealed@.len(),
            data@ == head + sealed@.take(i as int),
        decreases sealed@.len() - i,
    {
        data.push(sealed[i]);
        i = i + 1;
        proof {
            assert(data@ =~= head + sealed@.take(i as int));
        }
    }
    proof {
        assert(sealed@.take(sealed@.len() as int) =~= sealed@);
        assert(head =~= u32_le_bytes(stored_len(sealed@.len())));
    }
    Ok(data)
}

/// Encrypts `plaintext` under a fresh random nonce. Returns the length
/// field followed by the sealed bytes, and the nonce. A text too long to
/// seal always fails; otherwise only the random source can fail.
pub fn encrypt_string(plaintext: &str, key_bytes: &[u8; 32]) -> (r: Result<(Vec<u8>, [u8; 12]), Unspecified>)
    ensures
        encode_utf8(plaintext@).len() > AES_GCM_MAX_INPUT ==> r is Err,
        r matches Ok((data, nonce)) ==> encryption_of(data@, key_bytes@, nonce@, plaintext@),
{
    let nonce = random_nonce()?;
    let data = encrypt_with_nonce(plaintext, key_bytes, nonce)?;
    Ok((data, nonce))
}

/// Decrypts a record's sealed bytes; fails when they do not authenticate
/// or the plaintext is not UTF-8.
pub fn decrypt_string(encrypted_data: Vec<u8>, key_bytes: &[u8; 32], nonce_bytes: &[u8]) -> (r: Result<String, Unspecified>)
    requires
        nonce_bytes@.len() == NONCE_LEN,
    ensures
        r is Ok <==> opens_to_text(key_bytes@, nonce_bytes@, encrypted_data@),
        r matches Ok(s) ==> aes_gcm_open(key_bytes@, nonce_bytes@, encrypted_data@) matches Some(p)
            && s@ == decode_utf8(p),
{
    let plain = open(key_bytes, nonce_bytes, encrypted_data)?;
    string_from_utf8(plain)
}

/// The sealed bytes open under `key` and `nonce` to valid UTF-8.
pub open spec fn opens_to_text(key: Seq<u8>, nonce: Seq<u8>, sealed: Seq<u8>) -> bool {
    aes_gcm_open(key, nonce, sealed) matches Some(p) && valid_utf8(p)
}


/// Splits a log into records `(nonce, sealed)` from the front, stopping at
/// the first incomplete record; the flag is `true` when the content ends
/// exactly at a record boundary.
pub open spec fn log_frames(c: Seq<u8>) -> (Seq<(Seq<u8>, Seq<u8>)>, bool)
    decreases c.len(),
{
    if c.len() == 0 {
        (Seq::empty(), true)
    } else if c.len() < 16 {
        (Seq::empty(), false)
    } else {
        let n = le_u32(c.subrange(12, 16));
        if c.len() - 16 < n {
            (Seq::empty(), false)
        } else {
            let rest = log_frames(c.subrange(16 + n, c.len() as int));
            (seq![(c.subrange(0, 12), c.subrange(16, 16 + n))] + rest.0, rest.1)
        }
    }
}

/// Every record of the log opens under `key` to text.
pub open spec fn records_readable(c: Seq<u8>, key: Seq<u8>) -> bool {
    forall|k: int| 0 <= k < log_frames(c).0.len()
        ==> opens_to_text(key, #[trigger] log_frames(c).0[k].0, log_frames(c).0[k].1)
}

/// A log is valid when it consists of whole records that all open to text.
pub open spec fn log_is_valid(c: Seq<u8>, key: Seq<u8>) -> bool {
    log_frames(c).1 && records_readable(c, key)
}

/// The text a record opens to.
pub open spec fn record_text(key: Seq<u8>, f: (Seq<u8>, Seq<u8>)) -> Seq<char> {
    decode_utf8(aes_gcm_open(key, f.0, f.1).unwrap())
}

/// One record at the front of `rest`: its parts, and where the next begins.
struct FrameStep {
    nonce: Vec<u8>,
    sealed: Vec<u8>,
    next: usize,
}

/// Reads the record that starts at `offset`, or nothing when the bytes left
/// do not hold a whole record.
fn read_frame(content: &[u8], offset: usize) -> (r: Option<FrameStep>)
    requires
        offset < content@.len(),
    ensures
        ({
            let rest = content@.subrange(offset as int, content@.len() as int);
            let f = log_frames(rest);
            match r {
                None => f.0.len() == 0 && !f.1,
                Some(st) => {
                    let n = le_u32(rest.subrange(12, 16));
                    &&& 16 + n <= rest.len()
                    &&& st.next == offset + 16 + n
                    &&& st.nonce@ == rest.subrange(0, 12)
                    &&& st.sealed@ == rest.subrange(16, 16 + n)
                    &&& st.nonce@.len() == NONCE_LEN
                    &&& f.0 == seq![(st.nonce@, st.sealed@)] + log_frames(content@.subrange(st.next as int, content@.len() as int)).0
                    &&& f.1 == log_frames(content@.subrange(st.next as int, content@.len() as int)).1
                },
            }
        }),
{
    let ghost rest = content@.subrange(offset as int, content@.len() as int);
    let len = content.len();
    if len - offset < HEADER_LEN {
        return None;
    }
    let b0 = content[offset + 12] as u64;
    let b1 = content[offset + 13] as u64;
    let b2 = content[offset + 14] as u64;
    let b3 = content[offset + 15] as u64;
    let n64: u64 = b0 + 256 * b1 + 65536 * b2 + 16777216 * b3;
    proof {
        assert(rest.subrange(12, 16)[0] == b0 && rest.subrange(12, 16)[1] == b1);
        assert(rest.subrange(12, 16)[2] == b2 && rest.subrange(12, 16)[3] == b3);
        assert(n64 == le_u32(rest.subrange(12, 16)));
    }
    let avail = len - offset - HEADER_LEN;
    if (avail as u64) < n64 {
        return None;
    }
    let n = n64 as usize;
    let nonce = slice_to_vec(slice_subrange(content, offset, offset + NONCE_LEN));
    let sealed = slice_to_vec(slice_subrange(content, offset + HEADER_LEN, offset + HEADER_LEN + n));
    let next = offset + HEADER_LEN + n;
    proof {
        assert(nonce@ =~= rest.subrange(0, 12));
        assert(sealed@ =~= rest.subrange(16, 16 + n));
        assert(rest.subrange(16 + n, rest.len() as int) =~= content@.subrange(next as int, content@.len() as int));
    }
    Some(FrameStep { nonce, sealed, next })
}

/// Whether the log consists of whole records that all decrypt under `key`
/// to text.
pub fn is_log_file_valid(content: &[u8], key: &[u8; 32]) -> (b: bool)
    ensures
        b == log_is_valid(content@, key@),
{
    let ghost c = content@;
    let ghost mut done: Seq<(Seq<u8>, Seq<u8>)> = Seq::empty();
    let mut offset: usize = 0;
    proof {
        assert(c.subrange(0, c.len() as int) =~= c);
    }
    while offset < content.len()
        invariant
            c == content@,
            offset <= c.len(),
            log_frames(c).0 == done + log_frames(c.subrange(offset as int, c.len() as int)).0,
            log_frames(c).1 == log_frames(c.subrange(offset as int, c.len() as int)).1,
            forall|k: int| 0 <= k < done.len() ==> opens_to_text(key@, #[trigger] done[k].0, done[k].1),
        decreases c.len() - offset,
    {
        let step = read_frame(content, offset);
        match step {
            None => {
                return false;
            },
            Some(st) => {
                let ghost f = (st.nonce@, st.sealed@);
                let ok = decrypt_string(st.sealed, key, st.nonce.as_slice()).is_ok();
                if !ok {
                    proof {
                        assert(log_frames(c).0[done.len() as int] == f);
                        assert(!opens_to_text(key@, log_frames(c).0[done.len() as int].0, log_frames(c).0[done.len() as int].1));
                    }
                    return false;
                }
                proof {
                    assert(done + (seq![f] + log_frames(c.subrange(st.next as int, c.len() as int)).0)
                        =~= done.push(f) + log_frames(c.subrange(st.next as int, c.len() as int)).0);
                    done = done.push(f);
                }
                offset = st.next;
            },
        }
    }
    proof {
        assert(c.subrange(offset as int, c.len() as int) =~= Seq::<u8>::empty());
        assert(log_frames(c).0 =~= done);
    }
    true
}

/// Decrypts the whole records of a log, in order, up to the first
/// incomplete one. Fails on the first record that does not decrypt to text.
pub fn read_log_lines(content: &[u8], key: &[u8; 32]) -> (r: Result<Vec<String>, String>)
    ensures
        r is Ok <==> records_readable(content@, key@),
        r matches Err(e) ==> e@ == "Decryption failed: Unspecified"@,
        r matches Ok(v) ==> v@.len() == log_frames(content@).0.len()
            && forall|k: int| 0 <= k < v@.len() ==> #[trigger] v@[k]@ == record_text(key@, log_frames(content@).0[k]),
{
    let ghost c = content@;
    let ghost mut done: Seq<(Seq<u8>, Seq<u8>)> = Seq::empty();
    let mut lines: Vec<String> = Vec::new();
    let mut offset: usize = 0;
    proof {
        assert(c.subrange(0, c.len() as int) =~= c);
    }
    while offset < content.len()
        invariant_except_break
            c == content@,
            offset <= c.len(),
            log_frames(c).0 == done + log_frames(c.subrange(offset as int, c.len() as int)).0,
            forall|k: int| 0 <= k < done.len() ==> opens_to_text(key@, #[trigger] done[k].0, done[k].1),
            lines@.len() == done.len(),
            forall|k: int| 0 <= k < done.len() ==> #[trigger] lines@[k]@ == record_text(key@, done[k]),
        ensures
            log_frames(c).0 == done,
            forall|k: int| 0 <= k < done.len() ==> opens_to_text(key@, #[trigger] done[k].0, done[k].1),
            lines@.len() == done.len(),
            forall|k: int| 0 <= k < done.len() ==> #[trigger] lines@[k]@ == record_text(key@, done[k]),
        decreases c.len() - offset,
    {
        let step = read_frame(content, offset);
        match step {
            None => {
                proof {
                    assert(log_frames(c).0 =~= done);
                }
                break;
            },
            Some(st) => {
                let ghost f = (st.nonce@, st.sealed@);
                let text = decrypt_string(st.sealed, key, st.nonce.as_slice());
                match text {
                    Err(_) => {
                        proof {
                            assert(log_frames(c).0[done.len() as int] == f);
                            assert(!opens_to_text(key@, log_frames(c).0[done.len() as int].0, log_frames(c).0[done.len() as int].1));
                        }
                        return Err(String::from_str("Decryption failed: Unspecified"));
                    },
                    Ok(line) => {
                        lines.push(line);
                        proof {
                            assert(done + (seq![f] + log_frames(c.subrange(st.next as int, c.len() as int)).0)
                                =~= done.push(f) + log_frames(c.subrange(st.next as int, c.len() as int)).0);
                            done = done.push(f);
                        }
                        offset = st.next;
                    },
                }
            },
        }
    }
    Ok(lines)
}


/// `rec` is one log record holding `message` encrypted under `key`: a
/// nonce, the stored length of the sealed bytes, and the sealed bytes,
/// which open under that nonce to the UTF-8 encoding of the message.
pub open spec fn is_record_of(rec: Seq<u8>, key: Seq<u8>, message: Seq<char>) -> bool {
    &&& rec.len() >= 16
    &&& rec.subrange(12, 16) == u32_le_bytes(stored_len((rec.len() - 16) as nat))
    &&& aes_gcm_open(key, rec.subrange(0, 12), rec.subrange(16, rec.len() as int)) == Some(encode_utf8(message))
}

/// The record that stores `message` in the log: a fresh nonce followed by
/// the encrypted message with its length. A message too long to seal always
/// fails; otherwise only the random source can fail.
pub fn encrypted_record(message: &str, key: &[u8; 32]) -> (r: Result<Vec<u8>, Unspecified>)
    ensures
        encode_utf8(message@).len() > AES_GCM_MAX_INPUT ==> r is Err,
        r matches Ok(rec) ==> rec@.len() >= NONCE_LEN
            && rec@ == rec@.take(12) + encrypted_data(key@, rec@.take(12), encode_utf8(message@)),
        r matches Ok(rec) ==> is_record_of(rec@, key@, message@),
{
    let (data, nonce) = encrypt_string(message, key)?;
    let mut rec: Vec<u8> = Vec::new();
    let mut i: usize = 0;
    while i < NONCE_LEN
        invariant
            i <= 12,
            rec@ == nonce@.take(i as int),
        decreases 12 - i,
    {
        rec.push(nonce[i]);
        i = i + 1;
        proof {
            assert(rec@ =~= nonce@.take(i as int));
        }
    }
    let ghost head = rec@;
    let mut j: usize = 0;
    while j < data.len()
        invariant
            j <= data@.len(),
            head == nonce@.take(12),
            rec@ == head + data@.take(j as int),
        decreases data@.len() - j,
    {
        rec.push(data[j]);
        j = j + 1;
        proof {
            assert(rec@ =~= head + data@.take(j as int));
        }
    }
    proof {
        let sealed = aes_gcm_seal(key@, nonce@, encode_utf8(message@));
        assert(data@.take(data@.len() as int) =~= data@);
        assert(nonce@.take(12) =~= nonce@);
        assert(rec@.subrange(0, 12) =~= nonce@);
        assert(rec@.subrange(12, 16) =~= u32_le_bytes(stored_len(sealed.len())));
        assert(rec@.subrange(16, rec@.len() as int) =~= sealed);
        assert(rec@.take(12) =~= nonce@);
        assert(rec@ =~= nonce@ + data@);
    }
    Ok(rec)
}

/// Decrypting what `encrypt_string` produced gives the text back: the data
/// is the UTF-8 text's length plus 20 bytes, its length field gives the
/// sealed length (the text's length plus 16, when that fits in 32 bits),
/// and the sealed bytes after the field open, under the same key and
/// nonce, to valid UTF-8 that decodes to the text, which is what
/// `decrypt_string` returns for them.
pub proof fn lemma_encryption_round_trip(data: Seq<u8>, key: Seq<u8>, nonce: Seq<u8>, text: Seq<char>)
    requires
        encryption_of(data, key, nonce, text),
    ensures
        data.len() == encode_utf8(text).len() + 20,
        encode_utf8(text).len() + 16 < 4294967296 ==> le_u32(data.subrange(0, 4)) == encode_utf8(text).len() + 16,
        opens_to_text(key, nonce, data.subrange(4, data.len() as int)),
        decode_utf8(aes_gcm_open(key, nonce, data.subrange(4, data.len() as int)).unwrap()) == text,
{
    vstd::utf8::encode_utf8_valid_utf8(text);
    vstd::utf8::encode_utf8_decode_utf8(text);
    let sealed = aes_gcm_seal(key, nonce, encode_utf8(text));
    let n = stored_len(sealed.len());
    lemma_le_u32_roundtrip(n);
    assert(data.subrange(0, 4) =~= u32_le_bytes(n));
    assert(data.subrange(4, data.len() as int) =~= sealed);
}

/// The four length bytes decode back to the length they encode.
pub proof fn lemma_le_u32_roundtrip(n: u32)
    ensures
        le_u32(u32_le_bytes(n)) == n,
{
    let b = u32_le_bytes(n);
    assert(b[0] == n % 256 && b[1] == (n / 256) % 256);
    assert(b[2] == (n / 65536) % 256 && b[3] == n / 16777216);
    assert((n % 256) + 256 * ((n / 256) % 256) + 65536 * ((n / 65536) % 256) + 16777216 * (n / 16777216) == n) by (nonlinear_arith);
}

/// Appending a record to a log that ends at a record boundary adds exactly
/// that record: what was stored is read back as the written message, and the
/// earlier records are untouched.
pub proof fn lemma_appended_record_reads_back(c: Seq<u8>, rec: Seq<u8>, key: Seq<u8>, message: Seq<char>)
    requires
        log_frames(c).1,
        is_record_of(rec, key, message),
        rec.len() - 16 < 4294967296,
    ensures
        log_frames(c + rec).0 == log_frames(c).0.push((rec.subrange(0, 12), rec.subrange(16, rec.len() as int))),
        log_frames(c + rec).1,
        opens_to_text(key, rec.subrange(0, 12), rec.subrange(16, rec.len() as int)),
        record_text(key, (rec.subrange(0, 12), rec.subrange(16, rec.len() as int))) == message,
        records_readable(c + rec, key) <==> records_readable(c, key),
    decreases c.len(),
{
    vstd::utf8::encode_utf8_valid_utf8(message);
    vstd::utf8::encode_utf8_decode_utf8(message);
    let f = (rec.subrange(0, 12), rec.subrange(16, rec.len() as int));
    let n = (rec.len() - 16) as nat;
    lemma_le_u32_roundtrip(stored_len(n));
    if c.len() == 0 {
        assert(c + rec =~= rec);
        assert(rec.subrange(16 + n as int, rec.len() as int) =~= Seq::<u8>::empty());
        assert(log_frames(Seq::<u8>::empty()).0 =~= Seq::<(Seq<u8>, Seq<u8>)>::empty());
        assert(log_frames(rec).0 =~= seq![f]);
        assert(log_frames(c).0 =~= Seq::<(Seq<u8>, Seq<u8>)>::empty());
        assert(log_frames(c).0.push(f) =~= seq![f]);
    } else {
        let m = le_u32(c.subrange(12, 16));
        let tail = c.subrange(16 + m, c.len() as int);
        lemma_appended_record_reads_back(tail, rec, key, message);
        assert((c + rec).subrange(12, 16) =~= c.subrange(12, 16));
        assert((c + rec).subrange(0, 12) =~= c.subrange(0, 12));
        assert((c + rec).subrange(16, 16 + m) =~= c.subrange(16, 16 + m));
        assert((c + rec).subrange(16 + m, (c + rec).len() as int) =~= tail + rec);
        let head = seq![(c.subrange(0, 12), c.subrange(16, 16 + m))];
        assert(log_frames(c).0 == head + log_frames(tail).0);
        assert(log_frames(c + rec).0 == head + log_frames(tail + rec).0);
        assert(head + log_frames(tail).0.push(f) =~= (head + log_frames(tail).0).push(f));
    }
    let fs = log_frames(c).0;
    let gs = log_frames(c + rec).0;
    assert(gs == fs.push(f));
    if records_readable(c, key) {
        assert forall|k: int| 0 <= k < gs.len() implies opens_to_text(key, #[trigger] gs[k].0, gs[k].1) by {
            if k < fs.len() {
                assert(gs[k] == fs[k]);
            }
        }
    }
    if records_readable(c + rec, key) {
        assert forall|k: int| 0 <= k < fs.len() implies opens_to_text(key, #[trigger] fs[k].0, fs[k].1) by {
            assert(gs[k] == fs[k]);
            assert(opens_to_text(key, gs[k].0, gs[k].1));
        }
    }
}

} // verus!
