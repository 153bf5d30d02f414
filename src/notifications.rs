//! Desktop notifications for server events: the kinds of event and the tray
//! icon each one is shown with.

use vstd::prelude::*;

verus! {

/// An event that the server reports and the desktop announces.
#[derive(Debug, Clone, Copy, PartialEq, Eq, Structural)]
pub enum NotificationType {
    ApprovalRequested,
    ExecutionCompleted,
    ExecutionFailed,
    ExecutionStarted,
}

/// The icon a notification of kind `t` is shown with.
pub open spec fn icon_of(t: NotificationType) -> Seq<char> {
    match t {
        NotificationType::ApprovalRequested => "tray-attention"@,
        NotificationType::ExecutionCompleted => "tray-idle"@,
        NotificationType::ExecutionFailed => "tray-attention"@,
        NotificationType::ExecutionStarted => "tray-running"@,
    }
}

/// The icon for a notification of kind `t`.
pub fn notification_icon(t: NotificationType) -> (r: String)
    ensures
        r@ == icon_of(t),
{
    match t {
        NotificationType::ApprovalRequested => String::from_str("tray-attention"),
        NotificationType::ExecutionCompleted => String::from_str("tray-idle"),
        NotificationType::ExecutionFailed => String::from_str("tray-attention"),
        NotificationType::ExecutionStarted => String::from_str("tray-running"),
    }
}

} // verus!
