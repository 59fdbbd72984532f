use vstd::prelude::*;
use vstd::string::StringSliceAdditionalSpecFns;

verus! {

/// The levels of wlroots' log (`wlr_log_importance`).
#[derive(Debug, Clone, Copy, PartialEq, Eq)]
pub enum LogLevel {
    Silent,
    Error,
    Info,
    Debug,
}

/// The `wlr_log_importance` value of a level: `WLR_SILENT` is 0,
/// `WLR_ERROR` 1, `WLR_INFO` 2 and `WLR_DEBUG` 3.
pub open spec fn importance(level: LogLevel) -> u32 {
    match level {
        LogLevel::Silent => 0,
        LogLevel::Error => 1,
        LogLevel::Info => 2,
        LogLevel::Debug => 3,
    }
}

impl From<LogLevel> for u32 {
    fn from(level: LogLevel) -> (v: u32) {
        match level {
            LogLevel::Silent => 0,
            LogLevel::Error => 1,
            LogLevel::Info => 2,
            LogLevel::Debug => 3,
        }
    }
}

impl vstd::std_specs::convert::FromSpecImpl<LogLevel> for u32 {
    open spec fn obeys_from_spec() -> bool {
        true
    }

    open spec fn from_spec(v: LogLevel) -> u32 {
        importance(v)
    }
}

/// Whether `wlr_log` can take a message: `CString::new` refuses one that
/// holds a NUL byte (and logging it then panics).
pub fn loggable(msg: &str) -> (ok: bool)
    ensures
        ok == !msg.spec_bytes().contains(0u8),
{
    let bytes = msg.as_bytes();
    let mut i: usize = 0;
    while i < bytes.len()
        invariant
            0 <= i <= bytes@.len(),
            bytes@ == msg.spec_bytes(),
            forall|j: int| 0 <= j < i ==> bytes@[j] != 0u8,
        decreases bytes@.len() - i,
    {
        if bytes[i] == 0 {
            return false;
        }
        i = i + 1;
    }
    true
}

} // verus!
