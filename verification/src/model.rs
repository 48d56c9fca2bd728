//! Plain data carried between the display-server side of the program and the
//! core: window handles, output identifiers and geometry reports, window
//! type/state vocabularies, and key combinations.

use vstd::prelude::*;

verus! {

/// A handle to a top-level window, issued by the display server. Equality is
/// by identity; the core attaches no further meaning to the number.
#[derive(Debug, PartialEq, Eq, Structural, Hash, Clone, Copy)]
pub struct WindowId(pub u32);

/// Identifier of a physical output (a CRTC), issued by the display server.
pub type Crtc = u32;

/// Geometry of an output: origin and size in pixels, as the display server
/// reports them.
#[derive(Debug, PartialEq, Eq, Structural, Clone, Copy)]
pub struct CrtcInfo {
    pub x: i16,
    pub y: i16,
    pub width: u16,
    pub height: u16,
}

/// A change report for one output. Zero width or height signals that the
/// output is gone.
#[derive(Debug, PartialEq, Eq, Structural, Clone, Copy)]
pub struct CrtcChange {
    pub timestamp: u32,
    pub window: u32,
    pub crtc: Crtc,
    pub mode: u32,
    pub rotation: u16,
    pub x: i16,
    pub y: i16,
    pub width: u16,
    pub height: u16,
}

impl CrtcChange {
    /// The geometry carried by this change report.
    pub fn info(&self) -> (r: CrtcInfo)
        ensures
            r == (CrtcInfo { x: self.x, y: self.y, width: self.width, height: self.height }),
    {
        CrtcInfo { x: self.x, y: self.y, width: self.width, height: self.height }
    }
}

/// The window types of the desktop-hints vocabulary; unknown types reported
/// by a window are ignored rather than treated as errors.
#[derive(Copy, Clone, Debug, PartialEq, Eq, Structural)]
pub enum WindowType {
    Desktop,
    Dock,
    Toolbar,
    Menu,
    Utility,
    Splash,
    Dialog,
    DropdownMenu,
    PopupMenu,
    Tooltip,
    Notification,
    Combo,
    Dnd,
    Normal,
}

/// The window states of the desktop-hints vocabulary.
#[derive(Copy, Clone, Debug, PartialEq, Eq, Structural)]
pub enum WindowState {
    Modal,
    Sticky,
    MaximizedVert,
    MaximizedHorz,
    Shaded,
    SkipTaskbar,
    SkipPager,
    Hidden,
    Fullscreen,
    Above,
    Below,
    DemandsAttention,
}

/// A pressed key: the modifier mask together with the key symbol.
#[derive(Debug, PartialEq, Eq, Structural, Hash, Clone, Copy)]
pub struct KeyCombo {
    pub mod_mask: u32,
    pub keysym: u32,
}

} // verus!
