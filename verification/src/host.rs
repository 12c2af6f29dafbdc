//! The host handle: the narrow capability widgets get to talk back to the
//! windowing shell. Instead of touching the window, event handlers record
//! cursor-shape requests, redraw requests and button clicks here; the shell
//! drains the record after each event and acts on it.

use vstd::prelude::*;

use crate::geometry::Vector2;

verus! {

/// The pointer shapes the widgets ask for.
#[derive(Debug, Clone, Copy, PartialEq, Eq, Structural)]
pub enum CursorIcon {
    /// The default arrow pointer.
    Arrow,
    /// The hand shown over clickable widgets.
    Hand,
}

/// One qualifying button press: which click handler the shell should run,
/// where the press was in screen space, and where relative to the offset
/// the button was laid out at.
#[derive(Debug, Clone, Copy, PartialEq, Eq, Structural)]
pub struct ButtonClickEvent {
    /// The handler tag the button was built with; the shell maps it to a
    /// callback.
    pub handler: u64,
    pub mouse_position: Vector2,
    pub mouse_position_relative: Vector2,
}

/// What one event dispatch asked of the host, in call order.
pub struct Host {
    /// Cursor shapes requested, oldest first.
    pub cursor_calls: Vec<CursorIcon>,
    /// Whether some widget asked for another frame.
    pub redraw_requested: bool,
    /// Qualifying button presses, oldest first.
    pub clicks: Vec<ButtonClickEvent>,
}

impl Host {
    /// A host record with nothing requested yet.
    pub fn new() -> (h: Self)
        ensures
            h.cursor_calls@ == Seq::<CursorIcon>::empty(),
            h.redraw_requested == false,
            h.clicks@ == Seq::<ButtonClickEvent>::empty(),
    {
        Self { cursor_calls: Vec::new(), redraw_requested: false, clicks: Vec::new() }
    }

    /// Ask the shell to change the pointer shape.
    pub fn set_cursor_icon(&mut self, icon: CursorIcon)
        ensures
            final(self).cursor_calls@ == old(self).cursor_calls@.push(icon),
            final(self).redraw_requested == old(self).redraw_requested,
            final(self).clicks@ == old(self).clicks@,
    {
        self.cursor_calls.push(icon);
    }

    /// Ask the shell to schedule another frame.
    pub fn request_redraw(&mut self)
        ensures
            final(self).cursor_calls@ == old(self).cursor_calls@,
            final(self).redraw_requested == true,
            final(self).clicks@ == old(self).clicks@,
    {
        self.redraw_requested = true;
    }

    /// Record a qualifying button press for the shell to dispatch.
    pub fn record_click(&mut self, click: ButtonClickEvent)
        ensures
            final(self).cursor_calls@ == old(self).cursor_calls@,
            final(self).redraw_requested == old(self).redraw_requested,
            final(self).clicks@ == old(self).clicks@.push(click),
    {
        self.clicks.push(click);
    }
}

/// One input event, positioned in the same screen space as widget offsets
/// and measured boxes.
#[derive(Debug, Clone, Copy, PartialEq, Eq, Structural)]
pub enum GUIEvent {
    MousePressed(Vector2),
    MouseReleased(Vector2),
    CursorMoved(Vector2),
}

} // verus!
