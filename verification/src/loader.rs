use vstd::prelude::*;
use vstd::string::StringSliceAdditionalSpecFns;
use vstd::string::StrSliceExecFns;
use crate::unlocker::{bytes_eq_ignore_case, eq_ignore_case};
use crate::text::{dec_digits, push_all, push_dec_padded, zero_pad};

verus! {

/// `AppleChu.dll` as bytes.
pub open spec fn bundled_name() -> Seq<u8> {
    seq![65u8, 112, 112, 108, 101, 67, 104, 117, 46, 100, 108, 108]
}

/// Whether a DLL in the mods directory is loaded as an external mod: every
/// one but a copy of this library (`AppleChu.dll` in any ASCII case).
pub fn should_load_external_mod(name: &str) -> (b: bool)
    ensures
        b == !eq_ignore_case(name.spec_bytes(), bundled_name()),
{
    let bundled: [u8; 12] = [65, 112, 112, 108, 101, 67, 104, 117, 46, 100, 108, 108];
    assert(bundled@ =~= bundled_name());
    !bytes_eq_ignore_case(name.as_bytes(), bundled.as_slice())
}

/// A mod's file name without its `.dll` (or `.DLL`) extension.
pub open spec fn mod_stem_spec(name: Seq<char>) -> Seq<char> {
    let n = name.len() as int;
    if n >= 4 && (name.skip(n - 4) == seq!['.', 'd', 'l', 'l'] || name.skip(n - 4) == seq!['.', 'D', 'L', 'L']) {
        name.take(n - 4)
    } else {
        name
    }
}

/// A mod's file name without its `.dll` (or `.DLL`) extension.
pub fn mod_stem(name: &str) -> (stem: &str)
    ensures
        stem@ == mod_stem_spec(name@),
{
    let n = name.unicode_len();
    if n < 4 {
        return name;
    }
    let dot = name.get_char(n - 4);
    let a = name.get_char(n - 3);
    let b = name.get_char(n - 2);
    let c = name.get_char(n - 1);
    let lower = dot == '.' && a == 'd' && b == 'l' && c == 'l';
    let upper = dot == '.' && a == 'D' && b == 'L' && c == 'L';
    proof {
        let t = name@.skip(n - 4);
        assert(t =~= seq![dot, a, b, c]);
    }
    if lower || upper {
        name.substring_char(0, n - 4)
    } else {
        name
    }
}

/// The files a mod is started with, below the game directory: its log, its
/// TOML and INI configurations, and its manifest, all named after its stem.
pub struct ModPaths {
    pub log: String,
    pub toml_config: String,
    pub ini_config: String,
    pub manifest: String,
}

/// The files mod `stem` is started with, below the game directory
/// `base_dir`: `mods\log\{stem}.log`, `mods\config\{stem}.toml` and
/// `.ini`, and `mods\manifest\{stem}.toml`.
pub fn mod_paths(base_dir: &str, stem: &str) -> (p: ModPaths)
    ensures
        p.log@ == base_dir@ + "\\mods\\log\\"@ + stem@ + ".log"@,
        p.toml_config@ == base_dir@ + "\\mods\\config\\"@ + stem@ + ".toml"@,
        p.ini_config@ == base_dir@ + "\\mods\\config\\"@ + stem@ + ".ini"@,
        p.manifest@ == base_dir@ + "\\mods\\manifest\\"@ + stem@ + ".toml"@,
{
    ModPaths {
        log: String::from_str(base_dir).concat("\\mods\\log\\").concat(stem).concat(".log"),
        toml_config: String::from_str(base_dir).concat("\\mods\\config\\").concat(stem).concat(".toml"),
        ini_config: String::from_str(base_dir).concat("\\mods\\config\\").concat(stem).concat(".ini"),
        manifest: String::from_str(base_dir).concat("\\mods\\manifest\\").concat(stem).concat(".toml"),
    }
}

/// Whether a mod's start-up counts as accepted: its init function ran and
/// returned 0. `None` stands for an init function that did not return.
pub fn mod_init_accepted(ret: Option<i32>) -> (b: bool)
    ensures
        b == (ret == Some(0i32)),
{
    match ret {
        Some(r) => r == 0,
        None => false,
    }
}

/// The severity of a log line.
#[derive(Clone, Copy, PartialEq, Eq, Debug, Structural)]
pub enum LogLevel {
    Info,
    Warn,
    Error,
}

impl LogLevel {
    /// The tag printed in front of a line.
    pub fn label(self) -> (s: &'static str)
        ensures
            s@ == (match self {
                LogLevel::Info => "INFO"@,
                LogLevel::Warn => "WARN"@,
                LogLevel::Error => "ERROR"@,
            }),
    {
        match self {
            LogLevel::Info => "INFO",
            LogLevel::Warn => "WARN",
            LogLevel::Error => "ERROR",
        }
    }

    /// The colour of a line's text on the console: grey, yellow or red.
    pub fn body_ansi(self) -> (s: &'static str)
        ensures
            s@ == (match self {
                LogLevel::Info => "\x1b[37m"@,
                LogLevel::Warn => "\x1b[93m"@,
                LogLevel::Error => "\x1b[91m"@,
            }),
    {
        match self {
            LogLevel::Info => "\x1b[37m",
            LogLevel::Warn => "\x1b[93m",
            LogLevel::Error => "\x1b[91m",
        }
    }
}

/// One line handed to the loader log.
pub struct LogEntry {
    pub level: LogLevel,
    pub message: String,
}

/// A log line at info level.
pub fn log_info(msg: &str) -> (e: LogEntry)
    ensures
        e.level == LogLevel::Info && e.message@ == msg@,
{
    LogEntry { level: LogLevel::Info, message: msg.to_owned() }
}

/// A log line at warning level.
pub fn log_warn(msg: &str) -> (e: LogEntry)
    ensures
        e.level == LogLevel::Warn && e.message@ == msg@,
{
    LogEntry { level: LogLevel::Warn, message: msg.to_owned() }
}

/// A log line at error level.
pub fn log_error(msg: &str) -> (e: LogEntry)
    ensures
        e.level == LogLevel::Error && e.message@ == msg@,
{
    LogEntry { level: LogLevel::Error, message: msg.to_owned() }
}

/// A log line's tag as bytes: `INFO`, `WARN` or `ERROR`.
pub open spec fn label_bytes(level: LogLevel) -> Seq<u8> {
    match level {
        LogLevel::Info => seq![73u8, 78, 70, 79],
        LogLevel::Warn => seq![87u8, 65, 82, 78],
        LogLevel::Error => seq![69u8, 82, 82, 79, 82],
    }
}

/// The console colour of a line's text as bytes (see `LogLevel::body_ansi`).
pub open spec fn body_ansi_bytes(level: LogLevel) -> Seq<u8> {
    match level {
        LogLevel::Info => ansi_gray(),
        LogLevel::Warn => seq![27u8, 91, 57, 51, 109],
        LogLevel::Error => seq![27u8, 91, 57, 49, 109],
    }
}

/// `ESC[0m`: back to the console's default colour.
pub open spec fn ansi_reset() -> Seq<u8> {
    seq![27u8, 91, 48, 109]
}

/// `ESC[92m`: the colour of the time stamp.
pub open spec fn ansi_time() -> Seq<u8> {
    seq![27u8, 91, 57, 50, 109]
}

/// `ESC[96m`: the colour of the `[loader]` tag and of banner rules.
pub open spec fn ansi_cyan() -> Seq<u8> {
    seq![27u8, 91, 57, 54, 109]
}

/// `ESC[37m`: grey.
pub open spec fn ansi_gray() -> Seq<u8> {
    seq![27u8, 91, 51, 55, 109]
}

/// `HH:MM:SS.mmm` of a local time, each field zero-padded (wider values are
/// printed whole).
pub open spec fn timestamp_spec(hour: u16, minute: u16, second: u16, millis: u16) -> Seq<u8> {
    zero_pad(dec_digits(hour as nat), 2) + seq![58u8] + zero_pad(dec_digits(minute as nat), 2) + seq![58u8]
        + zero_pad(dec_digits(second as nat), 2) + seq![46u8] + zero_pad(dec_digits(millis as nat), 3)
}

/// The time stamp of a log line (see `timestamp_spec`).
pub fn timestamp(hour: u16, minute: u16, second: u16, millis: u16) -> (t: Vec<u8>)
    ensures
        t@ == timestamp_spec(hour, minute, second, millis),
{
    let mut t: Vec<u8> = Vec::new();
    push_dec_padded(&mut t, hour as u64, 2);
    t.push(58u8);
    push_dec_padded(&mut t, minute as u64, 2);
    t.push(58u8);
    push_dec_padded(&mut t, second as u64, 2);
    t.push(46u8);
    push_dec_padded(&mut t, millis as u64, 3);
    assert(t@ =~= timestamp_spec(hour, minute, second, millis));
    t
}

/// `[time] [loader] [LEVEL] message` and a newline: the line written to the
/// log files, and to outputs without colour.
pub open spec fn plain_line_spec(time: Seq<u8>, level: LogLevel, msg: Seq<u8>) -> Seq<u8> {
    seq![91u8] + time + seq![93u8, 32, 91, 108, 111, 97, 100, 101, 114, 93, 32, 91] + label_bytes(level) + seq![
        93u8,
        32,
    ] + msg + seq![10u8]
}

/// The same line for a console that shows colour: a green time stamp, a
/// cyan `[loader]` tag, and the level and message in the level's colour.
pub open spec fn colored_line_spec(time: Seq<u8>, level: LogLevel, msg: Seq<u8>) -> Seq<u8> {
    ansi_time() + seq![91u8] + time + seq![93u8] + ansi_reset() + seq![32u8] + ansi_cyan() + seq![
        91u8,
        108,
        111,
        97,
        100,
        101,
        114,
        93,
    ] + ansi_reset() + seq![32u8] + body_ansi_bytes(level) + seq![91u8] + label_bytes(level) + seq![93u8, 32]
        + msg + ansi_reset() + seq![10u8]
}

fn label_array(level: LogLevel) -> (b: Vec<u8>)
    ensures
        b@ == label_bytes(level),
{
    match level {
        LogLevel::Info => vec![73u8, 78, 70, 79],
        LogLevel::Warn => vec![87u8, 65, 82, 78],
        LogLevel::Error => vec![69u8, 82, 82, 79, 82],
    }
}

fn body_ansi_array(level: LogLevel) -> (b: Vec<u8>)
    ensures
        b@ == body_ansi_bytes(level),
{
    match level {
        LogLevel::Info => vec![27u8, 91, 51, 55, 109],
        LogLevel::Warn => vec![27u8, 91, 57, 51, 109],
        LogLevel::Error => vec![27u8, 91, 57, 49, 109],
    }
}

/// The plain form of a loader log line (see `plain_line_spec`).
pub fn plain_line(time: &[u8], level: LogLevel, msg: &str) -> (line: Vec<u8>)
    ensures
        line@ == plain_line_spec(time@, level, msg.spec_bytes()),
{
    let mut out: Vec<u8> = vec![91u8];
    push_all(&mut out, time);
    let tag: [u8; 12] = [93, 32, 91, 108, 111, 97, 100, 101, 114, 93, 32, 91];
    push_all(&mut out, tag.as_slice());
    let label = label_array(level);
    push_all(&mut out, label.as_slice());
    out.push(93u8);
    out.push(32u8);
    push_all(&mut out, msg.as_bytes());
    out.push(10u8);
    assert(out@ =~= plain_line_spec(time@, level, msg.spec_bytes()));
    out
}

/// The coloured form of a loader log line (see `colored_line_spec`).
pub fn colored_line(time: &[u8], level: LogLevel, msg: &str) -> (line: Vec<u8>)
    ensures
        line@ == colored_line_spec(time@, level, msg.spec_bytes()),
{
    let time_color: [u8; 5] = [27, 91, 57, 50, 109];
    let reset: [u8; 4] = [27, 91, 48, 109];
    let cyan: [u8; 5] = [27, 91, 57, 54, 109];
    let loader_tag: [u8; 8] = [91, 108, 111, 97, 100, 101, 114, 93];
    let mut out: Vec<u8> = Vec::new();
    push_all(&mut out, time_color.as_slice());
    out.push(91u8);
    push_all(&mut out, time);
    out.push(93u8);
    push_all(&mut out, reset.as_slice());
    out.push(32u8);
    push_all(&mut out, cyan.as_slice());
    push_all(&mut out, loader_tag.as_slice());
    push_all(&mut out, reset.as_slice());
    out.push(32u8);
    let body = body_ansi_array(level);
    push_all(&mut out, body.as_slice());
    out.push(91u8);
    let label = label_array(level);
    push_all(&mut out, label.as_slice());
    out.push(93u8);
    out.push(32u8);
    push_all(&mut out, msg.as_bytes());
    push_all(&mut out, reset.as_slice());
    out.push(10u8);
    assert(time_color@ =~= ansi_time());
    assert(reset@ =~= ansi_reset());
    assert(cyan@ =~= ansi_cyan());
    assert(out@ =~= colored_line_spec(time@, level, msg.spec_bytes()));
    out
}

/// `[time] message` and a newline: a banner line without colour.
pub open spec fn banner_plain_spec(time: Seq<u8>, msg: Seq<u8>) -> Seq<u8> {
    seq![91u8] + time + seq![93u8, 32] + msg + seq![10u8]
}

/// A banner line for a colour console: a green time stamp, then the message
/// in the banner's colour `ansi`.
pub open spec fn banner_colored_spec(time: Seq<u8>, ansi: Seq<u8>, msg: Seq<u8>) -> Seq<u8> {
    ansi_time() + seq![91u8] + time + seq![93u8] + ansi_reset() + seq![32u8] + ansi + msg + ansi_reset() + seq![10u8]
}

/// The two forms of a banner line: `(plain, coloured)`.
pub fn banner_lines(time: &[u8], ansi: &[u8], msg: &str) -> (r: (Vec<u8>, Vec<u8>))
    ensures
        r.0@ == banner_plain_spec(time@, msg.spec_bytes()),
        r.1@ == banner_colored_spec(time@, ansi@, msg.spec_bytes()),
{
    let mut plain: Vec<u8> = vec![91u8];
    push_all(&mut plain, time);
    plain.push(93u8);
    plain.push(32u8);
    push_all(&mut plain, msg.as_bytes());
    plain.push(10u8);
    assert(plain@ =~= banner_plain_spec(time@, msg.spec_bytes()));
    let time_color: [u8; 5] = [27, 91, 57, 50, 109];
    let reset: [u8; 4] = [27, 91, 48, 109];
    let mut colored: Vec<u8> = Vec::new();
    push_all(&mut colored, time_color.as_slice());
    colored.push(91u8);
    push_all(&mut colored, time);
    colored.push(93u8);
    push_all(&mut colored, reset.as_slice());
    colored.push(32u8);
    push_all(&mut colored, ansi);
    push_all(&mut colored, msg.as_bytes());
    push_all(&mut colored, reset.as_slice());
    colored.push(10u8);
    assert(time_color@ =~= ansi_time());
    assert(reset@ =~= ansi_reset());
    assert(colored@ =~= banner_colored_spec(time@, ansi@, msg.spec_bytes()));
    (plain, colored)
}

/// Where the loader's log lines are shown besides the log files.
#[derive(Clone, Copy, PartialEq, Eq, Debug, Structural)]
pub enum OutputSink {
    /// Nowhere.
    Nowhere,
    /// A console, by its handle; `ansi_enabled` when it shows colour codes.
    Console { handle: usize, ansi_enabled: bool },
    /// A redirected standard output (file or pipe), by its handle.
    Stream(usize),
}

/// What a line is written as to an output sink.
pub enum OutputWrite<'a> {
    /// The sink is `None`: nothing is written.
    Nothing,
    /// Written to the console as UTF-16: the coloured form where the console
    /// shows colour, else the plain form.
    Console { handle: usize, text: &'a [u8] },
    /// The plain form, written as bytes.
    Stream { handle: usize, text: &'a [u8] },
}

/// Which form of a line goes to the sink (see `OutputWrite`).
pub fn output_write<'a>(sink: OutputSink, plain: &'a [u8], colored: &'a [u8]) -> (w: OutputWrite<'a>)
    ensures
        match sink {
            OutputSink::Nowhere => w is Nothing,
            OutputSink::Console { handle, ansi_enabled } => w matches OutputWrite::Console { handle: h, text } && h
                == handle && text@ == (if ansi_enabled { colored@ } else { plain@ }),
            OutputSink::Stream(handle) => w matches OutputWrite::Stream { handle: h, text } && h == handle && text@
                == plain@,
        },
{
    match sink {
        OutputSink::Nowhere => OutputWrite::Nothing,
        OutputSink::Console { handle, ansi_enabled } => OutputWrite::Console {
            handle,
            text: if ansi_enabled { colored } else { plain },
        },
        OutputSink::Stream(handle) => OutputWrite::Stream { handle, text: plain },
    }
}

/// The length handed to a Win32 write call: the buffer's length, or
/// `u32::MAX` for a buffer longer than that.
pub fn write_len(len: usize) -> (n: u32)
    ensures
        n == (if len <= u32::MAX { len as u32 } else { u32::MAX }),
{
    if len <= 0xFFFF_FFFFusize { len as u32 } else { 0xFFFF_FFFF }
}

/// How many bytes of a `vsnprintf` buffer of `capacity` bytes hold the
/// formatted text: none when it failed (negative), else its length, at most
/// one less than the buffer.
pub fn formatted_len(len: i32, capacity: usize) -> (n: usize)
    requires
        1 <= capacity <= i32::MAX,
    ensures
        n == (if len < 0 { 0 } else if len <= capacity - 1 { len as int } else { capacity - 1 }),
{
    if len < 0 {
        0
    } else {
        let cap: i32 = (capacity - 1) as i32;
        if len <= cap { len as usize } else { cap as usize }
    }
}

/// The console mode requested when the loader sets up its own console:
/// processed output and virtual-terminal sequences turned on.
pub fn console_mode_request(mode: u32) -> (m: u32)
    ensures
        m == mode | 0x0005u32,
{
    mode | 0x0005u32
}

/// The sink the loader writes to, from what the standard output turned out
/// to be: no sink for a missing or invalid handle; a stream where the console
/// mode cannot be read (output is redirected); else a console that shows
/// colour when the loader enabled it (`configured`, with `set_ok` telling
/// whether the new mode was accepted) or when the existing mode already has
/// virtual-terminal processing (bit 4).
pub fn console_sink(handle: usize, handle_valid: bool, mode: Option<u32>, configured: bool, set_ok: bool) -> (sink: OutputSink)
    ensures
        sink == (if !handle_valid {
            OutputSink::Nowhere
        } else {
            match mode {
                None => OutputSink::Stream(handle),
                Some(m) => OutputSink::Console {
                    handle,
                    ansi_enabled: if configured { set_ok } else { m & 0x0004u32 != 0 },
                },
            }
        }),
{
    if !handle_valid {
        OutputSink::Nowhere
    } else {
        match mode {
            None => OutputSink::Stream(handle),
            Some(m) => OutputSink::Console {
                handle,
                ansi_enabled: if configured { set_ok } else { m & 0x0004u32 != 0 },
            },
        }
    }
}

} // verus!
