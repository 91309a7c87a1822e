//! Control core of a minimalist X11 window manager: a verified client
//! registry with a focus ring, a keybind table, and the pure decision
//! logic of the event dispatch loop. All exchanges with the display
//! server happen outside this crate; the core consumes plain event
//! values and produces plain command values.

pub mod client;
pub mod config;
pub mod events;
pub mod keybind;
pub mod wm;

pub use client::Client;
pub use events::{
    Command, ConfigureCommand, ConfigureRequest, Event, Geometry, MapState, MappingKind,
    RegisterError, RegisterReply, ScanItem, Window, WindowAttributes, WmError,
};
pub use keybind::{FallibleMutAction, Keybind, KeybindFunction, Keycode, MutAction};
pub use config::{bind_keys, MOD_4, MOD_SHIFT};
pub use wm::{MapDecision, WindowManager, WmState};
