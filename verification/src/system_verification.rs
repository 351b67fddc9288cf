//! Readiness checks for packet capture: where the capture library was
//! found, the platform's permission notes, and the user-facing texts.
use vstd::prelude::*;
use crate::text::{dec, push_str, push_decimal, has_infix, contains_str};

verus! {

/// One named check and its outcome.
pub struct RequirementCheck {
    pub name: String,
    pub outcome: Result<String, String>,
}

/// Where libpcap is looked for on macOS, in order.
pub open spec fn libpcap_paths() -> Seq<Seq<char>> {
    seq![
        "../Frameworks/libpcap.dylib"@,
        "../Frameworks/libpcap.1.dylib"@,
        "../Frameworks/libpcap.1.10.5.dylib"@,
        "../Frameworks/libpcap.1.10.4.dylib"@,
        "/opt/homebrew/lib/libpcap.dylib"@,
        "/usr/local/lib/libpcap.dylib"@,
        "/usr/lib/libpcap.dylib"@,
    ]
}

/// The libpcap search paths.
pub fn libpcap_search_paths() -> (v: Vec<&'static str>)
    ensures
        v@.len() == libpcap_paths().len(),
        forall|i: int| 0 <= i < v@.len() ==> #[trigger] v@[i]@ == libpcap_paths()[i],
{
    let v = vec![
        "../Frameworks/libpcap.dylib",
        "../Frameworks/libpcap.1.dylib",
        "../Frameworks/libpcap.1.10.5.dylib",
        "../Frameworks/libpcap.1.10.4.dylib",
        "/opt/homebrew/lib/libpcap.dylib",
        "/usr/local/lib/libpcap.dylib",
        "/usr/lib/libpcap.dylib",
    ];
    proof {
        assert(v@.len() == 7);
    }
    v
}

/// Position of the first `true`, or -1.
pub open spec fn first_found(exists: Seq<bool>) -> int
    decreases exists.len(),
{
    if exists.len() == 0 {
        -1
    } else if exists[0] {
        0
    } else {
        let r = first_found(exists.drop_first());
        if r < 0 { -1 } else { r + 1 }
    }
}

/// Position of the first `true`.
fn find_first(exists: &Vec<bool>) -> (r: Option<usize>)
    ensures
        match r {
            Some(i) => first_found(exists@) == i as int && i < exists@.len(),
            None => first_found(exists@) == -1,
        },
{
    let mut i = exists.len();
    let mut found: Option<usize> = None;
    proof {
        assert(exists@.subrange(i as int, exists@.len() as int) =~= Seq::<bool>::empty());
    }
    while i > 0
        invariant
            i <= exists@.len(),
            ({
                let t = exists@.subrange(i as int, exists@.len() as int);
                match found {
                    Some(k) => first_found(t) + i == k as int && i <= k < exists@.len(),
                    None => first_found(t) == -1,
                }
            }),
        decreases i,
    {
        let ghost t = exists@.subrange(i - 1, exists@.len() as int);
        proof {
            assert(t.drop_first() =~= exists@.subrange(i as int, exists@.len() as int));
            assert(t[0] == exists@[i - 1]);
        }
        if exists[i - 1] {
            found = Some(i - 1);
        }
        i = i - 1;
    }
    proof {
        assert(exists@.subrange(0, exists@.len() as int) =~= exists@);
    }
    found
}

/// Where libpcap was found, given which search paths exist (in the order of
/// `libpcap_search_paths`).
pub fn verify_libpcap_availability(exists: &Vec<bool>) -> (r: Result<String, String>)
    requires
        exists@.len() == libpcap_paths().len(),
    ensures
        first_found(exists@) >= 0 ==> (r matches Ok(m) && m@ == "libpcap found at: "@ + libpcap_paths()[first_found(exists@)]),
        first_found(exists@) < 0 ==> (r matches Err(m) && m@ == "libpcap not found in any expected location"@),
{
    let paths = libpcap_search_paths();
    match find_first(exists) {
        Some(i) => {
            let mut m = String::from_str("libpcap found at: ");
            push_str(&mut m, paths[i]);
            Ok(m)
        },
        None => Err(String::from_str("libpcap not found in any expected location")),
    }
}

/// The outcome of listing capture devices: how many there are, or the
/// listing error's text.
pub fn test_basic_packet_capture(device_count: Result<usize, String>) -> (r: Result<String, String>)
    ensures
        match device_count {
            Ok(n) => if n > 0 {
                r matches Ok(m) && m@ == "Found "@ + dec(n as nat) + " network devices"@
            } else {
                r matches Err(m) && m@ == "No network devices found"@
            },
            Err(e) => r matches Err(m) && m@ == "Failed to list network devices: "@ + e@,
        },
{
    match device_count {
        Ok(n) => {
            if n > 0 {
                let mut m = String::from_str("Found ");
                push_decimal(&mut m, n as u64);
                push_str(&mut m, " network devices");
                Ok(m)
            } else {
                Err(String::from_str("No network devices found"))
            }
        },
        Err(e) => {
            let mut m = String::from_str("Failed to list network devices: ");
            push_str(&mut m, e.as_str());
            Err(m)
        },
    }
}

/// Number of `true` values.
pub open spec fn count_true(v: Seq<bool>) -> nat
    decreases v.len(),
{
    if v.len() == 0 {
        0
    } else {
        count_true(v.drop_last()) + if v.last() { 1nat } else { 0nat }
    }
}

/// What listing the BPF devices tells about capture permissions on macOS,
/// given the listing's outcome: whether it succeeded and what it printed, or
/// why it could not run.
pub fn verify_macos_permissions(listing: Result<(bool, String), String>) -> (r: Result<String, String>)
    ensures
        match listing {
            Ok((true, out)) => if has_infix(out@, "bpf"@) {
                r matches Ok(m) && m@ == "BPF devices accessible"@
            } else {
                r matches Err(m) && m@ == "No BPF devices found"@
            },
            Ok((false, _)) => r matches Err(m) && m@ == "Cannot access BPF devices - may need elevated permissions"@,
            Err(e) => r matches Err(m) && m@ == "Failed to check BPF devices: "@ + e@,
        },
{
    match listing {
        Ok((success, out)) => {
            if !success {
                Err(String::from_str("Cannot access BPF devices - may need elevated permissions"))
            } else if contains_str(out.as_str(), "bpf") {
                Ok(String::from_str("BPF devices accessible"))
            } else {
                Err(String::from_str("No BPF devices found"))
            }
        },
        Err(e) => {
            let mut m = String::from_str("Failed to check BPF devices: ");
            push_str(&mut m, e.as_str());
            Err(m)
        },
    }
}

/// Where bundled Npcap DLLs are looked for on Windows.
pub fn bundled_npcap_paths() -> (v: Vec<&'static str>)
    ensures
        v@.len() == 4,
        v@[0]@ == "./libs/wpcap.dll"@ && v@[1]@ == "./libs/Packet.dll"@,
        v@[2]@ == "../libs/wpcap.dll"@ && v@[3]@ == "../libs/Packet.dll"@,
{
    vec!["./libs/wpcap.dll", "./libs/Packet.dll", "../libs/wpcap.dll", "../libs/Packet.dll"]
}

/// Where Npcap is installed system-wide, in order.
pub open spec fn npcap_system_paths() -> Seq<Seq<char>> {
    seq![
        "C:\\Windows\\System32\\Npcap\\wpcap.dll"@,
        "C:\\Windows\\SysWOW64\\Npcap\\wpcap.dll"@,
        "C:\\Program Files\\Npcap\\wpcap.dll"@,
        "C:\\Program Files (x86)\\Npcap\\wpcap.dll"@,
    ]
}

/// The system-wide Npcap paths, in order.
pub fn npcap_search_paths() -> (v: Vec<&'static str>)
    ensures
        v@.len() == npcap_system_paths().len(),
        forall|i: int| 0 <= i < v@.len() ==> #[trigger] v@[i]@ == npcap_system_paths()[i],
{
    let v = vec![
        "C:\\Windows\\System32\\Npcap\\wpcap.dll",
        "C:\\Windows\\SysWOW64\\Npcap\\wpcap.dll",
        "C:\\Program Files\\Npcap\\wpcap.dll",
        "C:\\Program Files (x86)\\Npcap\\wpcap.dll",
    ];
    proof {
        assert(v@.len() == 4);
    }
    v
}

/// Npcap availability on Windows, given which bundled DLL paths exist and
/// which system paths exist (in the order of `npcap_system_paths`): any
/// bundled DLL wins, then the first system installation.
pub fn verify_npcap_availability(bundled_exists: &Vec<bool>, system_exists: &Vec<bool>) -> (r: Result<String, String>)
    requires
        system_exists@.len() == npcap_system_paths().len(),
    ensures
        count_true(bundled_exists@) >= 1 ==> (r matches Ok(m)
            && m@ == "Bundled Npcap DLLs found ("@ + dec(count_true(bundled_exists@)) + " files)"@),
        count_true(bundled_exists@) == 0 && first_found(system_exists@) >= 0 ==> (r matches Ok(m)
            && m@ == "System Npcap found at: "@ + npcap_system_paths()[first_found(system_exists@)]),
        count_true(bundled_exists@) == 0 && first_found(system_exists@) < 0 ==> (r matches Err(m)
            && m@ == "Npcap not found. Please install from https://npcap.com/"@),
{
    let mut bundled: u64 = 0;
    let mut i: usize = 0;
    while i < bundled_exists.len()
        invariant
            i <= bundled_exists@.len(),
            bundled == count_true(bundled_exists@.take(i as int)),
            bundled <= i,
        decreases bundled_exists@.len() - i,
    {
        proof {
            assert(bundled_exists@.take(i as int + 1).drop_last() =~= bundled_exists@.take(i as int));
        }
        if bundled_exists[i] {
            bundled = bundled + 1;
        }
        i = i + 1;
    }
    proof {
        assert(bundled_exists@.take(bundled_exists@.len() as int) =~= bundled_exists@);
    }
    if bundled >= 1 {
        let mut m = String::from_str("Bundled Npcap DLLs found (");
        push_decimal(&mut m, bundled);
        push_str(&mut m, " files)");
        return Ok(m);
    }
    let paths: Vec<&'static str> = vec![
        "C:\\Windows\\System32\\Npcap\\wpcap.dll",
        "C:\\Windows\\SysWOW64\\Npcap\\wpcap.dll",
        "C:\\Program Files\\Npcap\\wpcap.dll",
        "C:\\Program Files (x86)\\Npcap\\wpcap.dll",
    ];
    match find_first(system_exists) {
        Some(k) => {
            let mut m = String::from_str("System Npcap found at: ");
            push_str(&mut m, paths[k]);
            Ok(m)
        },
        None => Err(String::from_str("Npcap not found. Please install from https://npcap.com/")),
    }
}

/// Packet capture permissions on Windows are assumed to be in place.
pub fn verify_windows_permissions() -> (r: Result<String, String>)
    ensures
        r matches Ok(m) && m@ == "Windows packet capture permissions (admin privileges may be required)"@,
{
    Ok(String::from_str("Windows packet capture permissions (admin privileges may be required)"))
}

/// The requirement checks on platforms other than macOS and Windows: a
/// single note that setup may be manual.
pub fn verify_system_requirements() -> (v: Vec<RequirementCheck>)
    ensures
        v@.len() == 1,
        v@[0].name@ == "Platform Check"@,
        v@[0].outcome matches Ok(m) && m@ == "Linux/Other platform - manual setup may be required"@,
{
    let mut v: Vec<RequirementCheck> = Vec::new();
    v.push(RequirementCheck {
        name: String::from_str("Platform Check"),
        outcome: Ok(String::from_str("Linux/Other platform - manual setup may be required")),
    });
    v
}

/// The requirement checks on macOS, from the three outcomes.
pub fn verify_system_requirements_macos(
    libpcap: Result<String, String>,
    permissions: Result<String, String>,
    capture: Result<String, String>,
) -> (v: Vec<RequirementCheck>)
    ensures
        v@.len() == 3,
        v@[0].name@ == "libpcap Library"@ && v@[0].outcome == libpcap,
        v@[1].name@ == "macOS Permissions"@ && v@[1].outcome == permissions,
        v@[2].name@ == "Packet Capture Test"@ && v@[2].outcome == capture,
{
    let mut v: Vec<RequirementCheck> = Vec::new();
    v.push(RequirementCheck { name: String::from_str("libpcap Library"), outcome: libpcap });
    v.push(RequirementCheck { name: String::from_str("macOS Permissions"), outcome: permissions });
    v.push(RequirementCheck { name: String::from_str("Packet Capture Test"), outcome: capture });
    v
}

/// The requirement checks on Windows, from the Npcap and capture-test
/// outcomes; the permissions entry is the fixed Windows note.
pub fn verify_system_requirements_windows(
    npcap: Result<String, String>,
    capture: Result<String, String>,
) -> (v: Vec<RequirementCheck>)
    ensures
        v@.len() == 3,
        v@[0].name@ == "Npcap Library"@ && v@[0].outcome == npcap,
        v@[1].name@ == "Windows Permissions"@,
        v@[1].outcome matches Ok(m)
            && m@ == "Windows packet capture permissions (admin privileges may be required)"@,
        v@[2].name@ == "Packet Capture Test"@ && v@[2].outcome == capture,
{
    let mut v: Vec<RequirementCheck> = Vec::new();
    v.push(RequirementCheck { name: String::from_str("Npcap Library"), outcome: npcap });
    v.push(RequirementCheck { name: String::from_str("Windows Permissions"), outcome: verify_windows_permissions() });
    v.push(RequirementCheck { name: String::from_str("Packet Capture Test"), outcome: capture });
    v
}

/// Where the runtime dependency check looks for libpcap, in order of
/// preference.
pub open spec fn dependency_paths() -> Seq<Seq<char>> {
    seq![
        "/usr/local/lib/innomonitor/libpcap.dylib"@,
        "/opt/homebrew/opt/libpcap/lib/libpcap.dylib"@,
        "/usr/local/opt/libpcap/lib/libpcap.dylib"@,
        "/opt/homebrew/lib/libpcap.dylib"@,
        "/usr/local/lib/libpcap.dylib"@,
        "/usr/lib/libpcap.dylib"@,
    ]
}

/// The paths the runtime dependency check looks at.
pub fn dependency_search_paths() -> (v: Vec<&'static str>)
    ensures
        v@.len() == dependency_paths().len(),
        forall|i: int| 0 <= i < v@.len() ==> #[trigger] v@[i]@ == dependency_paths()[i],
{
    let v = vec![
        "/usr/local/lib/innomonitor/libpcap.dylib",
        "/opt/homebrew/opt/libpcap/lib/libpcap.dylib",
        "/usr/local/opt/libpcap/lib/libpcap.dylib",
        "/opt/homebrew/lib/libpcap.dylib",
        "/usr/local/lib/libpcap.dylib",
        "/usr/lib/libpcap.dylib",
    ];
    proof {
        assert(v@.len() == 6);
    }
    v
}

/// The libpcap the dependency check reports, given which of its search
/// paths exist: the first one that does.
pub fn locate_libpcap(exists: &Vec<bool>) -> (r: Option<&'static str>)
    requires
        exists@.len() == dependency_paths().len(),
    ensures
        match r {
            Some(p) => first_found(exists@) >= 0 && p@ == dependency_paths()[first_found(exists@)],
            None => first_found(exists@) < 0,
        },
{
    let paths = dependency_search_paths();
    match find_first(exists) {
        Some(i) => Some(paths[i]),
        None => None,
    }
}

/// What the runtime dependency check found: where libpcap is and, when
/// known, its version.
pub struct DependencyStatus {
    pub libpcap_path: Option<String>,
    pub libpcap_version: Option<String>,
}

/// The user-facing summary of the dependency check.
pub open spec fn dependency_message(check: Result<DependencyStatus, String>) -> Seq<char> {
    match check {
        Ok(st) => match st.libpcap_path {
            Some(p) => match st.libpcap_version {
                Some(v) => "✅ Dependencies OK - libpcap "@ + v@ + " found at "@ + p@,
                None => "✅ Dependencies OK - libpcap found at "@ + p@,
            },
            None => "❌ Dependencies missing - run install-macos-deps.sh"@,
        },
        Err(e) => "⚠️ Dependency check failed: "@ + e@,
    }
}

/// The user-facing summary of the dependency check.
pub fn get_dependency_status_message(check: Result<DependencyStatus, String>) -> (m: String)
    ensures
        m@ == dependency_message(check),
{
    match check {
        Ok(st) => match st.libpcap_path {
            Some(p) => match st.libpcap_version {
                Some(v) => {
                    let mut m = String::from_str("✅ Dependencies OK - libpcap ");
                    push_str(&mut m, v.as_str());
                    push_str(&mut m, " found at ");
                    push_str(&mut m, p.as_str());
                    m
                },
                None => {
                    let mut m = String::from_str("✅ Dependencies OK - libpcap found at ");
                    push_str(&mut m, p.as_str());
                    m
                },
            },
            None => String::from_str("❌ Dependencies missing - run install-macos-deps.sh"),
        },
        Err(e) => {
            let mut m = String::from_str("⚠️ Dependency check failed: ");
            push_str(&mut m, e.as_str());
            m
        },
    }
}

/// The instructions for granting packet-capture permission on macOS.
pub open spec fn permission_text() -> Seq<char> {
    "🚨 macOS Network Permission Required\n\nYour application needs permission to monitor network traffic.\n\n💡 Solution Options:\n\nOption 1 - Developer Tools Permission (Recommended):\n1. Open System Preferences → Security & Privacy\n2. Click the Privacy tab\n3. Select 'Developer Tools' from the left sidebar\n4. Check the box next to your application\n5. Restart the application\n\nOption 2 - Run with elevated privileges:\nsudo ./InnoMonitor\n\nOption 3 - Fix BPF device permissions:\nsudo chmod +r /dev/bpf*\n\nℹ️  This permission is required because network packet capture\nrequires low-level system access to network interfaces.\n\n🔒 Privacy Note: InnoMonitor only reads packet headers,\nnever the content of your communications."@
}

/// Instructions for granting packet-capture permission on macOS.
pub fn get_permission_instructions() -> (s: String)
    ensures
        s@ == permission_text(),
{
    String::from_str("🚨 macOS Network Permission Required\n\nYour application needs permission to monitor network traffic.\n\n💡 Solution Options:\n\nOption 1 - Developer Tools Permission (Recommended):\n1. Open System Preferences → Security & Privacy\n2. Click the Privacy tab\n3. Select 'Developer Tools' from the left sidebar\n4. Check the box next to your application\n5. Restart the application\n\nOption 2 - Run with elevated privileges:\nsudo ./InnoMonitor\n\nOption 3 - Fix BPF device permissions:\nsudo chmod +r /dev/bpf*\n\nℹ️  This permission is required because network packet capture\nrequires low-level system access to network interfaces.\n\n🔒 Privacy Note: InnoMonitor only reads packet headers,\nnever the content of your communications.")
}

/// Comprehensive monitoring runs when more than one adapter monitor exists
/// and at least one of them is monitoring.
pub fn is_comprehensive_monitoring_running(monitoring: &Vec<bool>) -> (b: bool)
    ensures
        b == (monitoring@.len() > 1 && exists|i: int| 0 <= i < monitoring@.len() && #[trigger] monitoring@[i]),
{
    if monitoring.len() <= 1 {
        return false;
    }
    let mut i: usize = 0;
    while i < monitoring.len()
        invariant
            i <= monitoring@.len(),
            monitoring@.len() > 1,
            forall|j: int| 0 <= j < i ==> !#[trigger] monitoring@[j],
        decreases monitoring@.len() - i,
    {
        if monitoring[i] {
            proof {
                assert(monitoring@[i as int]);
            }
            return true;
        }
        i = i + 1;
    }
    false
}

} // verus!
