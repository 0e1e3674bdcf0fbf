use vstd::prelude::*;
pub use crate::patch_engine::EarlyLog;
use crate::patch_engine::{log_lines, PatchImage};
use crate::patches::{apply_pre_tls, pre_tls_lines, pre_tls_spec, PatchConfig};

verus! {

/// Messages logged before the logger is up, oldest first.
pub struct EarlyLogs {
    entries: Vec<EarlyLog>,
}

impl View for EarlyLogs {
    type V = Seq<EarlyLog>;

    closed spec fn view(&self) -> Seq<EarlyLog> {
        self.entries@
    }
}

impl EarlyLogs {
    /// No messages.
    pub fn new() -> (l: Self)
        ensures
            l@ == Seq::<EarlyLog>::empty(),
    {
        EarlyLogs { entries: Vec::new() }
    }

    /// Queues an informational message.
    pub fn log_info(&mut self, message: String)
        ensures
            final(self)@ == old(self)@.push(EarlyLog::Info(message)),
    {
        self.entries.push(EarlyLog::Info(message));
    }

    /// Queues a warning.
    pub fn log_warn(&mut self, message: String)
        ensures
            final(self)@ == old(self)@.push(EarlyLog::Warn(message)),
    {
        self.entries.push(EarlyLog::Warn(message));
    }
}

/// Hands out every queued message, oldest first, and empties the queue; the
/// caller passes them on to the logger.
pub fn flush_logs(logs: &mut EarlyLogs) -> (out: Vec<EarlyLog>)
    ensures
        out@ == old(logs)@,
        final(logs)@ == Seq::<EarlyLog>::empty(),
{
    let mut taken: Vec<EarlyLog> = Vec::new();
    std::mem::swap(&mut taken, &mut logs.entries);
    taken
}

/// Applies the patches that run before the game starts, unless the
/// configuration failed validation, in which case a warning is queued and
/// the image is left alone. Tells whether the patches ran.
pub fn apply_pre_tls_if_valid(image: &mut PatchImage, config_valid: bool, config: &PatchConfig, logs: &mut EarlyLogs) -> (applied: bool)
    ensures
        applied == config_valid,
        final(image).base == old(image).base,
        final(image).sections@ == old(image).sections@,
        config_valid ==> final(image).bytes@ == pre_tls_spec(old(image).base, old(image).sections@, old(image).bytes@, *config),
        config_valid ==> log_lines(final(image).log@) == log_lines(old(image).log@) + pre_tls_lines(
            old(image).base,
            old(image).sections@,
            old(image).bytes@,
            *config,
        ),
        config_valid ==> final(logs)@ == old(logs)@,
        !config_valid ==> final(image).bytes@ == old(image).bytes@,
        !config_valid ==> final(image).log@ == old(image).log@,
        !config_valid ==> final(logs)@.len() == old(logs)@.len() + 1 && final(logs)@.drop_last() == old(logs)@
            && final(logs)@.last() is Warn,
{
    if !config_valid {
        logs.log_warn(String::from_str("early patch skipped: invalid AppleChu.toml"));
        return false;
    }
    apply_pre_tls(image, config);
    true
}

} // verus!
