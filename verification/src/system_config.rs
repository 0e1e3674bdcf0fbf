use vstd::prelude::*;
use vstd::string::StringSliceAdditionalSpecFns;
use crate::unlocker::{bytes_eq_ignore_case, eq_ignore_case};

verus! {

#[verifier::external_type_specification]
#[verifier::external_body]
pub struct ExTomlValue(toml::Value);

/// The cabinet model: SP runs at 120 Hz, CVT at 60 Hz.
#[derive(Clone, Copy, Debug, PartialEq, Eq, Structural)]
pub enum CabinetMode {
    Sp,
    Cvt,
}

/// The string that a TOML value holds, `None` when the value is not a string:
/// what `toml::Value::as_str` returns, as characters.
pub uninterp spec fn toml_string(v: toml::Value) -> Option<Seq<char>>;

/// Calls `toml::Value::as_str`, which returns the string of a `String` value
/// and `None` for every other kind of value. The contract ties the result to
/// `toml_string` of the value; which values are strings is not stated, the
/// value being opaque here.
#[verifier::external_body]
fn toml_as_str(value: &toml::Value) -> (r: Option<&str>)
    ensures
        toml_string(*value) == (match r {
            Some(s) => Some(s@),
            None => None::<Seq<char>>,
        }),
{
    value.as_str()
}

/// Whether a character has the Unicode `White_Space` property.
pub open spec fn is_white_space(c: char) -> bool {
    let v = c as u32;
    (0x09 <= v <= 0x0D) || v == 0x20 || v == 0x85 || v == 0xA0 || v == 0x1680 || (0x2000 <= v <= 0x200A) || v
        == 0x2028 || v == 0x2029 || v == 0x202F || v == 0x205F || v == 0x3000
}

/// A string without its leading and trailing white space.
pub open spec fn trim_spec(s: Seq<char>) -> Seq<char>
    decreases s.len(),
{
    if s.len() == 0 {
        s
    } else if is_white_space(s[0]) {
        trim_spec(s.drop_first())
    } else if is_white_space(s.last()) {
        trim_spec(s.drop_last())
    } else {
        s
    }
}

/// Calls `str::trim`. The contract claims what its documentation says: the
/// result is the string with leading and trailing white space removed, white
/// space being the characters with the Unicode `White_Space` property.
#[verifier::external_body]
fn trim_str(s: &str) -> (t: &str)
    ensures
        t@ == trim_spec(s@),
{
    s.trim()
}

/// The cabinet mode that a trimmed setting names: `sp` or `cvt`, in any ASCII
/// letter case.
pub open spec fn mode_of_trimmed_spec(t: Seq<u8>) -> Option<CabinetMode> {
    if eq_ignore_case(t, seq![115u8, 112]) {
        Some(CabinetMode::Sp)
    } else if eq_ignore_case(t, seq![99u8, 118, 116]) {
        Some(CabinetMode::Cvt)
    } else {
        None
    }
}

/// The cabinet mode that an already trimmed setting names (see
/// `mode_of_trimmed_spec`).
pub fn cabinet_mode_of_trimmed(t: &str) -> (m: Option<CabinetMode>)
    ensures
        m == mode_of_trimmed_spec(t.spec_bytes()),
{
    let sp: [u8; 2] = [115, 112];
    let cvt: [u8; 3] = [99, 118, 116];
    assert(sp@ =~= seq![115u8, 112]);
    assert(cvt@ =~= seq![99u8, 118, 116]);
    let b = t.as_bytes();
    if bytes_eq_ignore_case(b, sp.as_slice()) {
        Some(CabinetMode::Sp)
    } else if bytes_eq_ignore_case(b, cvt.as_slice()) {
        Some(CabinetMode::Cvt)
    } else {
        None
    }
}

/// The cabinet mode that a setting names, surrounding white space aside.
pub fn cabinet_mode_of_str(s: &str) -> (m: Option<CabinetMode>)
    ensures
        m == mode_of_trimmed_spec(vstd::utf8::encode_utf8(trim_spec(s@))),
{
    let t = trim_str(s);
    cabinet_mode_of_trimmed(t)
}

impl CabinetMode {
    /// Reads the cabinet mode from a TOML value: a string naming `SP` or `CVT`,
    /// in any letter case and with surrounding white space; anything else
    /// gives `None`.
    pub fn parse(value: &toml::Value) -> (m: Option<CabinetMode>)
        ensures
            m == (match toml_string(*value) {
                Some(s) => mode_of_trimmed_spec(vstd::utf8::encode_utf8(trim_spec(s))),
                None => None,
            }),
    {
        match toml_as_str(value) {
            Some(s) => cabinet_mode_of_str(s),
            None => None,
        }
    }
}

/// The system section of the configuration.
#[derive(Clone, Copy)]
pub struct SystemConfig {
    pub enabled: bool,
    pub enable_console: bool,
    pub lan_slave: bool,
    pub mode: CabinetMode,
}

impl Default for SystemConfig {
    /// Enabled, with its own console, as the master of an SP cabinet.
    fn default() -> (c: Self)
        ensures
            c.enabled && c.enable_console && !c.lan_slave && c.mode == CabinetMode::Sp,
    {
        SystemConfig { enabled: true, enable_console: true, lan_slave: false, mode: CabinetMode::Sp }
    }
}

impl SystemConfig {
    /// Whether the cabinet is an SP.
    pub fn is_sp_mode(&self) -> (b: bool)
        ensures
            b == (self.mode == CabinetMode::Sp),
    {
        match self.mode {
            CabinetMode::Sp => true,
            CabinetMode::Cvt => false,
        }
    }

    /// The three DIP switches: distribution server (not a LAN slave), 60 Hz
    /// monitor, and CVT cabinet; a CVT sets both of the last two.
    pub fn dipsw(&self) -> (sw: [bool; 3])
        ensures
            sw@ == seq![!self.lan_slave, self.mode == CabinetMode::Cvt, self.mode == CabinetMode::Cvt],
    {
        let is_cvt = match self.mode {
            CabinetMode::Sp => false,
            CabinetMode::Cvt => true,
        };
        let sw = [!self.lan_slave, is_cvt, is_cvt];
        assert(sw@ =~= seq![!self.lan_slave, self.mode == CabinetMode::Cvt, self.mode == CabinetMode::Cvt]);
        sw
    }
}

/// Whether the cabinet counts as SP: when the system section is missing or
/// switched off, or names an SP.
pub fn is_sp_mode(system: Option<&SystemConfig>) -> (b: bool)
    ensures
        b == (match system {
            Some(c) => !c.enabled || c.mode == CabinetMode::Sp,
            None => true,
        }),
{
    match system {
        Some(c) => !c.enabled || c.is_sp_mode(),
        None => true,
    }
}

} // verus!
