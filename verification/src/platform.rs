use vstd::prelude::*;
use vstd::string::StringSliceAdditionalSpecFns;
use crate::reg_hook::{le32, reg_sz_bytes, RegValue, HKEY_LOCAL_MACHINE, REG_DWORD, REG_SZ};
use crate::unlocker::{ascii_lower, eq_ignore_case};

verus! {

pub const ERROR_SUCCESS: u32 = 0;
pub const ERROR_INVALID_PARAMETER: u32 = 87;
pub const ERROR_INSUFFICIENT_BUFFER: u32 = 122;

/// Whether a cabinet serial number is usable: exactly 15 ASCII characters.
pub open spec fn serial_ok(serial: Seq<char>) -> bool {
    serial.len() == 15 && vstd::utf8::is_ascii_chars(serial)
}

/// Checks the configured cabinet serial number.
pub fn validate_serial(serial: &str) -> (r: Result<(), String>)
    ensures
        r is Ok <==> serial_ok(serial@),
{
    let ascii = serial.is_ascii();
    let n = serial.as_bytes().len();
    proof {
        vstd::string::is_ascii_spec_bytes(serial);
        assert(ascii == vstd::utf8::is_ascii_chars(serial@));
    }
    if ascii && n == 15 {
        assert(serial.spec_bytes().len() == serial@.len());
        assert(serial_ok(serial@));
        Ok(())
    } else {
        assert(!serial_ok(serial@));
        proof {
            if ascii {
                assert(serial.spec_bytes().len() == serial@.len());
            }
        }
        Err(String::from_str("PCBID serialNo must contain exactly 15 ASCII characters"))
    }
}

/// The answer to `GetComputerNameA`.
pub enum ComputerName {
    /// A buffer or size pointer is missing.
    InvalidParameter,
    /// No serial is configured: the real function answers.
    PassThrough,
    /// The buffer is too small: fail with `ERROR_INSUFFICIENT_BUFFER`.
    BufferTooSmall,
    /// Write these bytes (the serial and a NUL), store `len` as the size and
    /// succeed.
    Serial { bytes: Vec<u8>, len: u32 },
}

/// Answers `GetComputerNameA` with the cabinet serial: `capacity` is the
/// size the caller's size pointer holds, when both pointers are given.
pub fn computer_name_reply(serial: Option<&str>, capacity: Option<u32>) -> (r: ComputerName)
    requires
        serial matches Some(s) ==> s.spec_bytes().len() < 0xFFFF_FFFF,
    ensures
        capacity is None ==> r is InvalidParameter,
        capacity matches Some(cap) ==> match serial {
            None => r is PassThrough,
            Some(s) => if s.spec_bytes().len() + 1 > cap {
                r is BufferTooSmall
            } else {
                r matches ComputerName::Serial { bytes, len } && bytes@ == s.spec_bytes().push(0) && len == s.spec_bytes().len()
            },
        },
{
    let cap = match capacity {
        Some(c) => c,
        None => {
            return ComputerName::InvalidParameter;
        },
    };
    let s = match serial {
        Some(s) => s,
        None => {
            return ComputerName::PassThrough;
        },
    };
    let b = s.as_bytes();
    let len = b.len() as u32;
    if len + 1 > cap {
        return ComputerName::BufferTooSmall;
    }
    let mut bytes = vstd::slice::slice_to_vec(b);
    bytes.push(0);
    ComputerName::Serial { bytes, len }
}

/// `CdRom` as UTF-16.
pub open spec fn cdrom_units() -> Seq<u16> {
    seq![67u16, 100, 82, 111, 109]
}

/// Whether `s` contains `CdRom`, exactly.
pub open spec fn mentions_cdrom(s: Seq<u16>) -> bool {
    exists|i: int| 0 <= i <= s.len() - 5 && #[trigger] s.subrange(i, i + 5) == cdrom_units()
}

/// What `QueryDosDeviceW` returns once its result is filtered: a device
/// whose target names a CD-ROM is hidden (0), anything else passes.
/// `target` holds the first `result` units the real function wrote.
pub fn query_dos_device_result(result: u32, target: Option<&[u16]>) -> (r: u32)
    ensures
        (result == 0 || target is None) ==> r == result,
        result != 0 ==> (target matches Some(t) ==> r == (if mentions_cdrom(t@) { 0 } else { result })),
{
    if result == 0 {
        return result;
    }
    let t = match target {
        Some(t) => t,
        None => {
            return result;
        },
    };
    assert(target == Some(t));
    let n = t.len();
    if n < 5 {
        return result;
    }
    let mut i: usize = 0;
    while i <= n - 5
        invariant
            target == Some(t),
            result != 0,
            n == t@.len(),
            n >= 5,
            i <= n - 4,
            forall|j: int| 0 <= j < i ==> #[trigger] t@.subrange(j, j + 5) != cdrom_units(),
        decreases n - 4 - i,
    {
        if t[i] == 67 && t[i + 1] == 100 && t[i + 2] == 82 && t[i + 3] == 111 && t[i + 4] == 109 {
            assert(t@.subrange(i as int, i + 5) =~= cdrom_units());
            return 0;
        }
        assert(t@.subrange(i as int, i + 5) != cdrom_units()) by {
            let w = t@.subrange(i as int, i + 5);
            if w == cdrom_units() {
                assert(w[0] == t@[i as int] && w[1] == t@[i + 1] && w[2] == t@[i + 2] && w[3] == t@[i + 3] && w[4] == t@[i + 4]);
            }
        }
        i = i + 1;
    }
    result
}

/// Whether `v` is a string value `name` = `text`.
pub open spec fn is_string_value(v: RegValue, name: Seq<char>, text: Seq<char>) -> bool {
    v.name@ == name && v.ty == REG_SZ && v.bytes@ == reg_sz_bytes(text)
}

/// Whether `v` is a 32-bit value `name` = `value`.
pub open spec fn is_dword_value(v: RegValue, name: Seq<char>, value: u32) -> bool {
    v.name@ == name && v.ty == REG_DWORD && v.bytes@ == le32(value)
}

/// A key to register: its root, its path and its values.
pub struct KeySpec {
    pub root: usize,
    pub path: &'static str,
    pub values: Vec<RegValue>,
}

/// The platform keys of the emulated cabinet, to register in order: the OS
/// version, the static platform properties, and, unless the game may write
/// the master key itself, the master key with the next process to start.
pub fn platform_keys(allow_master_key_write: bool, next_process: &str) -> (keys: Vec<KeySpec>)
    ensures
        keys@.len() == (if allow_master_key_write { 2int } else { 3int }),
        keys@[0].root == HKEY_LOCAL_MACHINE && keys@[0].path@ == "SYSTEM\\SEGA\\SystemProperty"@,
        keys@[0].values@.len() == 1 && is_string_value(keys@[0].values@[0], "OSVersion"@, "0_0_0"@),
        keys@[1].root == HKEY_LOCAL_MACHINE && keys@[1].path@ == "SYSTEM\\SEGA\\SystemProperty\\static"@,
        keys@[1].values@.len() == 4,
        is_dword_value(keys@[1].values@[0], "CpuTempError"@, 100),
        is_dword_value(keys@[1].values@[1], "CpuTempWarning"@, 95),
        is_string_value(keys@[1].values@[2], "PlatformId"@, "ACA1"@),
        is_string_value(keys@[1].values@[3], "PlatformName"@, "ALLS MX2.1"@),
        !allow_master_key_write ==> {
            &&& keys@[2].root == HKEY_LOCAL_MACHINE && keys@[2].path@ == "SYSTEM\\SEGA\\SystemProperty\\Master"@
            &&& keys@[2].values@.len() == 3
            &&& is_dword_value(keys@[2].values@[0], "AppLoaderCount"@, 1)
            &&& is_string_value(keys@[2].values@[1], "NextProcess"@, next_process@)
            &&& is_string_value(keys@[2].values@[2], "SystemError"@, ""@)
        },
{
    let mut keys: Vec<KeySpec> = Vec::new();
    keys.push(KeySpec { root: HKEY_LOCAL_MACHINE, path: "SYSTEM\\SEGA\\SystemProperty", values: vec![RegValue::string("OSVersion", "0_0_0")] });
    keys.push(KeySpec {
        root: HKEY_LOCAL_MACHINE,
        path: "SYSTEM\\SEGA\\SystemProperty\\static",
        values: vec![
            RegValue::dword("CpuTempError", 100),
            RegValue::dword("CpuTempWarning", 95),
            RegValue::string("PlatformId", "ACA1"),
            RegValue::string("PlatformName", "ALLS MX2.1"),
        ],
    });
    if !allow_master_key_write {
        keys.push(KeySpec {
            root: HKEY_LOCAL_MACHINE,
            path: "SYSTEM\\SEGA\\SystemProperty\\Master",
            values: vec![
                RegValue::dword("AppLoaderCount", 1),
                RegValue::string("NextProcess", next_process),
                RegValue::string("SystemError", ""),
            ],
        });
    }
    keys
}

/// The AMVideo keys the display service reads, to register in order.
pub fn amvideo_keys() -> (keys: Vec<KeySpec>)
    ensures
        keys@.len() == 2,
        keys@[0].root == HKEY_LOCAL_MACHINE && keys@[0].path@ == "SYSTEM\\SEGA\\SystemProperty\\amVideo"@,
        keys@[0].values@.len() == 2,
        is_string_value(keys@[0].values@[0], "name"@, "$amvideo"@),
        is_string_value(keys@[0].values@[1], "name_x86"@, "$amvideo"@),
        keys@[1].root == HKEY_LOCAL_MACHINE && keys@[1].path@ == "SYSTEM\\SEGA\\SystemProperty\\sgsetdisplaysetting\\CurrentSetting"@,
        keys@[1].values@.len() == 13,
        is_string_value(keys@[1].values@[0], "monitor_setting_1"@, "0"@),
        is_string_value(keys@[1].values@[1], "monitor_setting_2"@, "0"@),
        is_dword_value(keys@[1].values@[2], "port_1"@, 1),
        is_dword_value(keys@[1].values@[3], "port_2"@, 1),
        is_dword_value(keys@[1].values@[4], "port_3"@, 1),
        is_dword_value(keys@[1].values@[5], "port_4"@, 1),
        is_dword_value(keys@[1].values@[6], "port_5"@, 1),
        is_dword_value(keys@[1].values@[7], "port_6"@, 1),
        is_dword_value(keys@[1].values@[8], "port_7"@, 1),
        is_dword_value(keys@[1].values@[9], "port_8"@, 1),
        is_string_value(keys@[1].values@[10], "resolution_1"@, "1920x1080"@),
        is_string_value(keys@[1].values@[11], "resolution_2"@, "1920x1080"@),
        is_dword_value(keys@[1].values@[12], "use_segatiming"@, 0),
{
    let mut keys: Vec<KeySpec> = Vec::new();
    keys.push(KeySpec {
        root: HKEY_LOCAL_MACHINE,
        path: "SYSTEM\\SEGA\\SystemProperty\\amVideo",
        values: vec![RegValue::string("name", "$amvideo"), RegValue::string("name_x86", "$amvideo")],
    });
    keys.push(KeySpec {
        root: HKEY_LOCAL_MACHINE,
        path: "SYSTEM\\SEGA\\SystemProperty\\sgsetdisplaysetting\\CurrentSetting",
        values: vec![
            RegValue::string("monitor_setting_1", "0"),
            RegValue::string("monitor_setting_2", "0"),
            RegValue::dword("port_1", 1),
            RegValue::dword("port_2", 1),
            RegValue::dword("port_3", 1),
            RegValue::dword("port_4", 1),
            RegValue::dword("port_5", 1),
            RegValue::dword("port_6", 1),
            RegValue::dword("port_7", 1),
            RegValue::dword("port_8", 1),
            RegValue::string("resolution_1", "1920x1080"),
            RegValue::string("resolution_2", "1920x1080"),
            RegValue::dword("use_segatiming", 0),
        ],
    });
    keys
}

/// A path folded for comparison: `/` becomes `\` and ASCII letters lower
/// case.
pub open spec fn fold_path(p: Seq<u8>) -> Seq<u8> {
    p.map_values(|b: u8| ascii_lower(crate::reg_hook::to_backslash(b)))
}

/// `amvideo.dll` and `$amvideo` as bytes.
pub open spec fn amvideo_dll() -> Seq<u8> {
    seq![97u8, 109, 118, 105, 100, 101, 111, 46, 100, 108, 108]
}

pub open spec fn amvideo_device() -> Seq<u8> {
    seq![36u8, 97, 109, 118, 105, 100, 101, 111]
}

/// Whether a library path names the emulated AMVideo DLL: any path ending in
/// `amvideo.dll`, or the device name `$amvideo`, ignoring ASCII case.
pub open spec fn is_amvideo_path_spec(path: Seq<u8>) -> bool {
    let f = fold_path(path);
    (f.len() >= 11 && f.skip(f.len() - 11) == amvideo_dll()) || f == amvideo_device()
}

/// Whether a library path names the emulated AMVideo DLL.
pub fn is_amvideo_path(path: &str) -> (b: bool)
    ensures
        b == is_amvideo_path_spec(path.spec_bytes()),
{
    let bytes = path.as_bytes();
    let n = bytes.len();
    let mut folded: Vec<u8> = Vec::new();
    let mut i: usize = 0;
    while i < n
        invariant
            n == bytes@.len(),
            i <= n,
            folded@ == fold_path(bytes@.take(i as int)),
        decreases n - i,
    {
        let b = bytes[i];
        let c: u8 = if b == 47 { 92 } else { b };
        let l: u8 = if 65 <= c && c <= 90 { c + 32 } else { c };
        proof {
            assert(fold_path(bytes@.take(i + 1)) =~= fold_path(bytes@.take(i as int)).push(l));
        }
        folded.push(l);
        i = i + 1;
    }
    assert(bytes@.take(n as int) =~= bytes@);
    let dll: [u8; 11] = [97u8, 109, 118, 105, 100, 101, 111, 46, 100, 108, 108];
    let dev: [u8; 8] = [36u8, 97, 109, 118, 105, 100, 101, 111];
    assert(dll@ =~= amvideo_dll());
    assert(dev@ =~= amvideo_device());
    if n >= 11 {
        let (_, tail) = folded.as_slice().split_at(n - 11);
        if crate::proc_addr::bytes_equal(tail, &dll) {
            return true;
        }
    }
    crate::proc_addr::bytes_equal(folded.as_slice(), &dev)
}

/// The AMVideo functions the emulated DLL exports.
#[derive(Clone, Copy, PartialEq, Eq, Debug, Structural)]
pub enum AmVideoProc {
    Open,
    Close,
    SetResolution,
    GetVBiosVersion,
}

/// The emulated AMVideo function named `name`, if any (exact match).
pub fn amvideo_proc(name: &str) -> (r: Option<AmVideoProc>)
    ensures
        name.spec_bytes() == "amDllVideoOpen".spec_bytes() ==> r == Some(AmVideoProc::Open),
        name.spec_bytes() == "amDllVideoClose".spec_bytes() ==> r == Some(AmVideoProc::Close),
        name.spec_bytes() == "amDllVideoSetResolution".spec_bytes() ==> r == Some(AmVideoProc::SetResolution),
        name.spec_bytes() == "amDllVideoGetVBiosVersion".spec_bytes() ==> r == Some(AmVideoProc::GetVBiosVersion),
        r is None <==> (name.spec_bytes() != "amDllVideoOpen".spec_bytes() && name.spec_bytes() != "amDllVideoClose".spec_bytes()
            && name.spec_bytes() != "amDllVideoSetResolution".spec_bytes() && name.spec_bytes()
            != "amDllVideoGetVBiosVersion".spec_bytes()),
{
    proof {
        reveal_strlit("amDllVideoOpen");
        reveal_strlit("amDllVideoClose");
        reveal_strlit("amDllVideoSetResolution");
        reveal_strlit("amDllVideoGetVBiosVersion");
        assert(vstd::string::is_ascii("amDllVideoOpen"));
        assert(vstd::string::is_ascii("amDllVideoClose"));
        assert(vstd::string::is_ascii("amDllVideoSetResolution"));
        assert(vstd::string::is_ascii("amDllVideoGetVBiosVersion"));
        vstd::string::is_ascii_spec_bytes("amDllVideoOpen");
        vstd::string::is_ascii_spec_bytes("amDllVideoClose");
        vstd::string::is_ascii_spec_bytes("amDllVideoSetResolution");
        vstd::string::is_ascii_spec_bytes("amDllVideoGetVBiosVersion");
    }
    let b = name.as_bytes();
    if crate::proc_addr::bytes_equal(b, "amDllVideoOpen".as_bytes()) {
        Some(AmVideoProc::Open)
    } else if crate::proc_addr::bytes_equal(b, "amDllVideoClose".as_bytes()) {
        Some(AmVideoProc::Close)
    } else if crate::proc_addr::bytes_equal(b, "amDllVideoSetResolution".as_bytes()) {
        Some(AmVideoProc::SetResolution)
    } else if crate::proc_addr::bytes_equal(b, "amDllVideoGetVBiosVersion".as_bytes()) {
        Some(AmVideoProc::GetVBiosVersion)
    } else {
        None
    }
}

/// `01.02.03.04.05` and its NUL: the firmware version the emulated AMVideo
/// reports.
pub open spec fn vbios_version() -> Seq<u8> {
    seq![48u8, 49, 46, 48, 50, 46, 48, 51, 46, 48, 52, 46, 48, 53, 0]
}

/// The bytes `amDllVideoGetVBiosVersion` writes into a buffer of `len`
/// bytes: the version cut to the buffer, its last byte made NUL; `None` (the
/// call returns -1) without a buffer or for an empty one.
pub fn vbios_version_reply(has_buffer: bool, len: usize) -> (r: Option<Vec<u8>>)
    ensures
        (!has_buffer || len == 0) ==> r is None,
        (has_buffer && len > 0) ==> (r matches Some(b) && b@ == ({
            let n = if len < 15 { len as int } else { 15 };
            vbios_version().take(n).update(n - 1, 0u8)
        })),
{
    if !has_buffer || len == 0 {
        return None;
    }
    let version: [u8; 15] = [48, 49, 46, 48, 50, 46, 48, 51, 46, 48, 52, 46, 48, 53, 0];
    assert(version@ =~= vbios_version());
    let n: usize = if len < 15 { len } else { 15 };
    let mut out: Vec<u8> = Vec::new();
    let mut i: usize = 0;
    while i < n
        invariant
            n <= 15,
            i <= n,
            version@ == vbios_version(),
            out@ == vbios_version().take(i as int),
        decreases n - i,
    {
        out.push(version[i]);
        i = i + 1;
        assert(out@ =~= vbios_version().take(i as int));
    }
    out.set(n - 1, 0);
    Some(out)
}

/// What the hooked `ExitWindowsEx` returns: `None` to let the real function
/// shut the machine down (reboots allowed and the function known); else the
/// value to return without doing anything: 1 (success) when reboots are not
/// allowed, 0 when allowed but the real function is unknown.
pub fn exit_windows_reply(allow_reboot: bool, has_original: bool) -> (r: Option<i32>)
    ensures
        r == (if !allow_reboot { Some(1i32) } else if has_original { None } else { Some(0i32) }),
{
    if !allow_reboot {
        Some(1)
    } else if has_original {
        None
    } else {
        Some(0)
    }
}

} // verus!
