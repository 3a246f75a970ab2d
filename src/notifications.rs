//! Notifications that the application shows to the user.

use vstd::prelude::*;

verus! {

/// A request to the notification bus.
#[derive(Debug, Clone)]
pub enum NotificationRequest {
    New(Notification),
}

/// A message to show, with its level.
#[derive(Debug, Clone, PartialEq, Eq)]
pub struct Notification {
    pub text: String,
    pub level: NotificationLevel,
}

/// How a notification is shown.
#[derive(Debug, Clone, Copy, PartialEq, Eq, Structural)]
pub enum NotificationLevel {
    Success,
    Info,
    Warning,
    Error,
}

} // verus!
