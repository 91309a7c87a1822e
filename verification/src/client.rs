//! The record kept for one managed top-level window.

use vstd::prelude::*;
use crate::events::Window;

verus! {

/// One managed client window: the server-assigned window identifier
/// together with the geometry observed when the window was adopted.
#[derive(Clone, Copy, Debug, PartialEq, Eq)]
pub struct Client {
    pub window: Window,
    pub x: i16,
    pub y: i16,
    pub w: u16,
    pub h: u16,
    pub border_width: u16,
}

impl Client {
    /// Builds a client record from its window identifier and geometry.
    pub fn new(window: Window, x: i16, y: i16, w: u16, h: u16, border_width: u16) -> (c: Client)
        ensures
            c == (Client { window, x, y, w, h, border_width }),
    {
        Client { window, x, y, w, h, border_width }
    }
}

} // verus!
