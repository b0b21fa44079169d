//! The log channel with the Xposed module.
use vstd::prelude::*;

verus! {

/// The message sent back when the Xposed module sent nothing.
pub const XPOSED_MISSING: &'static str = "未能获取Xposed日志，请确认LSPosed中Frozen是否已经勾选系统框架";

/// Queries to the Xposed module over the log channel.
pub trait Xposed {
    type Error;

    /// Whether the Xposed module answers.
    fn GetXposedStatus(&self) -> Result<bool, Self::Error>;

    /// The module's log.
    fn GetXposedLog(&self) -> Result<String, Self::Error>;
}

/// What to make of a message received from the Xposed module.
pub struct XposedStatus {
    /// The module is active.
    pub active: bool,
    /// The text to send back, if any.
    pub reply: Option<String>,
}

/// An empty message means the module is not active, and the user is told to
/// enable it; any other message means it is active.
pub fn xposed_status(received: &str) -> (r: XposedStatus)
    ensures
        r.active == (received@.len() > 0),
        r.active ==> r.reply is None,
        !r.active ==> (r.reply matches Some(m) && m@ == XPOSED_MISSING@),
{
    if received.is_empty() {
        XposedStatus { active: false, reply: Some(XPOSED_MISSING.to_owned()) }
    } else {
        XposedStatus { active: true, reply: None }
    }
}

} // verus!
