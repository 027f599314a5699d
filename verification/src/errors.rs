use vstd::prelude::*;

verus! {

/// The error surfaced by the shell facade: the operation has no
/// implementation on the current platform.
#[derive(Debug, Clone, Copy, PartialEq, Eq, Structural)]
pub enum ShellError {
    Unsupported,
}

/// Failures of the menu integration layer on a Cocoa-style platform.
#[derive(Debug, Clone, Copy, PartialEq, Eq, Structural)]
pub enum MacMenuError {
    Unsupported,
    BadCommandId,
    NotOnMainThread,
}

/// Failures of the menu integration layer on a Win32-style platform.
#[derive(Debug, Clone, Copy, PartialEq, Eq, Structural)]
pub enum WinMenuError {
    Unsupported,
}

/// Failures of the menu integration layer where no backend exists.
#[derive(Debug, Clone, Copy, PartialEq, Eq, Structural)]
pub enum LinuxMenuError {
    Unsupported,
}

/// Failures of the tray integration layer on a Cocoa-style platform.
#[derive(Debug, Clone, Copy, PartialEq, Eq, Structural)]
pub enum MacTrayError {
    Unsupported,
    BadIcon,
    BadCommandId,
    NotOnMainThread,
}

/// Failures of the tray integration layer on a Win32-style platform.
#[derive(Debug, Clone, Copy, PartialEq, Eq, Structural)]
pub enum WindowsTrayError {
    Unsupported,
    BadIcon,
    BadCommandId,
    RegisterClassFailed,
}

/// Failures of the tray integration layer where no backend exists.
#[derive(Debug, Clone, Copy, PartialEq, Eq, Structural)]
pub enum LinuxTrayError {
    Unsupported,
}

/// The empty handle returned where no tray backend exists.
#[derive(Debug, Clone, Copy, PartialEq, Eq, Structural)]
pub struct LinuxTrayHandle;

/// Failures of the notification layer on a Cocoa-style platform.
#[derive(Debug, Clone, Copy, PartialEq, Eq, Structural)]
pub enum MacNotificationError {
    Unsupported,
    NotOnMainThread,
}

} // verus!
