//! Plain-value models of the protocol events the core consumes and of
//! the requests it asks the connection layer to issue.

use vstd::prelude::*;
use crate::keybind::Keycode;

verus! {

/// A window identifier: an opaque handle assigned by the display server.
pub type Window = u32;

/// How a window is mapped, as an attribute query reports it.
#[derive(Clone, Copy, Debug, PartialEq, Eq)]
pub enum MapState {
    Unmapped,
    Unviewable,
    Viewable,
}

/// The window attributes the core reads when deciding whether a window
/// is eligible for management.
#[derive(Clone, Copy, Debug, PartialEq, Eq)]
pub struct WindowAttributes {
    pub override_redirect: bool,
    pub map_state: MapState,
}

/// A window geometry, as a geometry query reports it.
#[derive(Clone, Copy, Debug, PartialEq, Eq)]
pub struct Geometry {
    pub x: i16,
    pub y: i16,
    pub width: u16,
    pub height: u16,
    pub border_width: u16,
}

/// One child window found by the startup scan, together with the
/// outcomes of its attribute and geometry queries; a failed query leaves
/// the corresponding field empty.
#[derive(Clone, Copy, Debug, PartialEq, Eq)]
pub struct ScanItem {
    pub window: Window,
    pub attr: Option<WindowAttributes>,
    pub geom: Option<Geometry>,
}

/// Which mapping a mapping-notify event concerns.
#[derive(Clone, Copy, Debug, PartialEq, Eq)]
pub enum MappingKind {
    Modifier,
    Keyboard,
    Pointer,
}

/// Bit of the configure value mask selecting the x coordinate.
pub const CONFIG_X: u16 = 1;

/// Bit of the configure value mask selecting the y coordinate.
pub const CONFIG_Y: u16 = 2;

/// Bit of the configure value mask selecting the width.
pub const CONFIG_WIDTH: u16 = 4;

/// Bit of the configure value mask selecting the height.
pub const CONFIG_HEIGHT: u16 = 8;

/// Bit of the configure value mask selecting the border width.
pub const CONFIG_BORDER_WIDTH: u16 = 16;

/// Bit of the configure value mask selecting the sibling.
pub const CONFIG_SIBLING: u16 = 32;

/// Bit of the configure value mask selecting the stack mode.
pub const CONFIG_STACK_MODE: u16 = 64;

/// A configure request received for a window: the requested geometry and
/// stacking fields, with the value mask saying which of them the client set.
#[derive(Clone, Copy, Debug, PartialEq, Eq)]
pub struct ConfigureRequest {
    pub window: Window,
    pub x: i16,
    pub y: i16,
    pub width: u16,
    pub height: u16,
    pub border_width: u16,
    pub sibling: Window,
    pub stack_mode: u32,
    pub value_mask: u16,
}

/// A configure command to forward to the server: each field is present
/// exactly when the client's request set it.
#[derive(Clone, Copy, Debug, PartialEq, Eq)]
pub struct ConfigureCommand {
    pub window: Window,
    pub x: Option<i32>,
    pub y: Option<i32>,
    pub width: Option<u32>,
    pub height: Option<u32>,
    pub border_width: Option<u32>,
    pub sibling: Option<Window>,
    pub stack_mode: Option<u32>,
}

impl ConfigureRequest {
    /// The command that forwards the request verbatim: each field of the
    /// request is passed on exactly when its value-mask bit is set.
    pub open spec fn forwarded(self) -> ConfigureCommand {
        ConfigureCommand {
            window: self.window,
            x: if self.value_mask & CONFIG_X != 0 {
                Some(self.x as i32)
            } else {
                None
            },
            y: if self.value_mask & CONFIG_Y != 0 {
                Some(self.y as i32)
            } else {
                None
            },
            width: if self.value_mask & CONFIG_WIDTH != 0 {
                Some(self.width as u32)
            } else {
                None
            },
            height: if self.value_mask & CONFIG_HEIGHT != 0 {
                Some(self.height as u32)
            } else {
                None
            },
            border_width: if self.value_mask & CONFIG_BORDER_WIDTH != 0 {
                Some(self.border_width as u32)
            } else {
                None
            },
            sibling: if self.value_mask & CONFIG_SIBLING != 0 {
                Some(self.sibling)
            } else {
                None
            },
            stack_mode: if self.value_mask & CONFIG_STACK_MODE != 0 {
                Some(self.stack_mode)
            } else {
                None
            },
        }
    }

    /// Builds the forwarded configure command.
    pub fn to_command(&self) -> (c: ConfigureCommand)
        ensures
            c == self.forwarded(),
    {
        ConfigureCommand {
            window: self.window,
            x: if self.value_mask & CONFIG_X != 0 {
                Some(self.x as i32)
            } else {
                None
            },
            y: if self.value_mask & CONFIG_Y != 0 {
                Some(self.y as i32)
            } else {
                None
            },
            width: if self.value_mask & CONFIG_WIDTH != 0 {
                Some(self.width as u32)
            } else {
                None
            },
            height: if self.value_mask & CONFIG_HEIGHT != 0 {
                Some(self.height as u32)
            } else {
                None
            },
            border_width: if self.value_mask & CONFIG_BORDER_WIDTH != 0 {
                Some(self.border_width as u32)
            } else {
                None
            },
            sibling: if self.value_mask & CONFIG_SIBLING != 0 {
                Some(self.sibling)
            } else {
                None
            },
            stack_mode: if self.value_mask & CONFIG_STACK_MODE != 0 {
                Some(self.stack_mode)
            } else {
                None
            },
        }
    }
}

/// An inbound protocol event, reduced to the fields the core reads.
/// Event categories the core does not handle arrive as `Other`.
#[derive(Clone, Copy, Debug, PartialEq, Eq)]
pub enum Event {
    DestroyNotify { window: Window },
    UnmapNotify { window: Window },
    ConfigureRequest(ConfigureRequest),
    MapRequest { window: Window },
    MappingNotify { request: MappingKind, first_keycode: Keycode, count: u8 },
    KeyPress { detail: Keycode, state: u16 },
    EnterNotify,
    ButtonPress,
    ButtonRelease,
    MotionNotify,
    Other,
}

/// An outbound request the core asks the connection layer to issue.
#[derive(Clone, Copy, Debug, PartialEq, Eq)]
pub enum Command {
    /// Forward a configure request to the server.
    Configure(ConfigureCommand),
    /// Query the attributes of a window and hand the outcome back to the
    /// map-request handler.
    QueryAttributes(Window),
    /// Re-fetch the keyboard mapping for a key-code range.
    GetKeyboardMapping(Keycode, u8),
    /// Release every key grab on the root window.
    UngrabAllKeys,
    /// Grab one key code under one exact modifier mask on the root window.
    GrabKey(Keycode, u16),
    /// Grab any key under any modifier mask on the root window.
    GrabAnyKey,
    /// Forcefully terminate the client owning a window.
    KillClient(Window),
}

/// The outcome of the registration request on the root window, as the
/// connection layer reports it.
#[derive(Clone, Copy, Debug, PartialEq, Eq)]
pub enum RegisterReply {
    /// The server accepted the event-mask change.
    Success,
    /// The server reported an access violation: another process already
    /// holds the substructure redirect.
    X11Access,
    /// The server reported some other protocol error.
    X11Other,
    /// The connection itself failed.
    Connection,
}

/// Why registration failed.
#[derive(Clone, Copy, Debug, PartialEq, Eq)]
pub enum RegisterError {
    /// Another window manager is already running: fatal, the process
    /// must report the condition and terminate.
    AlreadyRunning,
    /// A connection-level failure: fatal, propagated to the caller.
    Failed,
}

/// An error an event handler reports to the dispatch loop.
#[derive(Clone, Copy, Debug, PartialEq, Eq)]
pub enum WmError {
    /// A kill was requested while no client is focused.
    NoFocusedClient,
}

} // verus!
