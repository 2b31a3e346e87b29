use vstd::prelude::*;
use crate::geom::{CellSize, PixelPoint, Viewport, MAX_SCROLL};
use crate::doc::Document;
use crate::sel::{Affinity, Point};
use crate::hit::{pick, spec_pick};

verus! {

/// The key codes the editor reacts to.
#[derive(Clone, Copy, PartialEq, Eq, Structural, Debug)]
pub enum KeyCode {
    ReturnKey,
    Delete,
    Backspace,
    Unknown,
}

#[derive(Clone, Copy, PartialEq, Eq, Structural, Debug)]
pub struct KeyEvent {
    pub key_code: KeyCode,
}

#[derive(Clone, Debug)]
pub struct TextInputEvent {
    pub input: String,
}

/// Pointer events carry viewport-relative pixel coordinates.
#[derive(Clone, Copy, PartialEq, Eq, Structural, Debug)]
pub struct MouseDownEvent {
    pub x: i64,
    pub y: i64,
    pub alt: bool,
}

#[derive(Clone, Copy, PartialEq, Eq, Structural, Debug)]
pub struct MouseUpEvent {
    pub x: i64,
    pub y: i64,
}

#[derive(Clone, Copy, PartialEq, Eq, Structural, Debug)]
pub struct MouseMoveEvent {
    pub x: i64,
    pub y: i64,
}

#[derive(Clone, Copy, PartialEq, Eq, Structural, Debug)]
pub struct ScrollEvent {
    pub dx: i64,
    pub dy: i64,
}

#[derive(Clone, Copy, PartialEq, Eq, Structural, Debug)]
pub struct TimerEvent {
    pub timer_id: u64,
}

/// One platform input event, as marshalled by the host shell.
#[derive(Clone, Debug)]
pub enum OpenHarmonyEvent {
    Paint,
    MouseDown(MouseDownEvent),
    MouseUp(MouseUpEvent),
    MouseMove(MouseMoveEvent),
    Scroll(ScrollEvent),
    KeyDown(KeyEvent),
    KeyUp(KeyEvent),
    TextInput(TextInputEvent),
    Timer(TimerEvent),
}

/// The session mutation the editor asks its document collaborator to
/// perform in response to one event.
#[derive(Clone, Debug)]
pub enum EditAction {
    Insert { text: String },
    Enter,
    Delete,
    Backspace,
    SetCursor { cursor: Point, affinity: Affinity },
    AddCursor { cursor: Point, affinity: Affinity },
    MoveTo { cursor: Point, affinity: Affinity },
}

/// The action decided for one event: text input inserts, the return,
/// delete and backspace keys edit, a mouse press sets (or, with alt held,
/// adds) a cursor at the picked position, a drag moves it; everything
/// else asks for nothing.
pub open spec fn spec_handle_event(
    doc: Document,
    cell: CellSize,
    viewport: Viewport,
    event: OpenHarmonyEvent,
) -> Option<EditAction> {
    match event {
        OpenHarmonyEvent::TextInput(e) => Some(EditAction::Insert { text: e.input }),
        OpenHarmonyEvent::KeyDown(e) => match e.key_code {
            KeyCode::ReturnKey => Some(EditAction::Enter),
            KeyCode::Delete => Some(EditAction::Delete),
            KeyCode::Backspace => Some(EditAction::Backspace),
            KeyCode::Unknown => None,
        },
        OpenHarmonyEvent::MouseDown(e) => match spec_pick(
            doc,
            cell,
            viewport,
            PixelPoint { x: e.x, y: e.y },
        ) {
            Some((cursor, affinity)) => {
                if e.alt {
                    Some(EditAction::AddCursor { cursor, affinity })
                } else {
                    Some(EditAction::SetCursor { cursor, affinity })
                }
            },
            None => None,
        },
        OpenHarmonyEvent::MouseMove(e) => match spec_pick(
            doc,
            cell,
            viewport,
            PixelPoint { x: e.x, y: e.y },
        ) {
            Some((cursor, affinity)) => Some(EditAction::MoveTo { cursor, affinity }),
            None => None,
        },
        _ => None,
    }
}

/// Decides the session action for one platform event.
pub fn handle_event(
    doc: &Document,
    cell: CellSize,
    viewport: &Viewport,
    event: OpenHarmonyEvent,
) -> (r: Option<EditAction>)
    requires
        doc.wf(),
        cell.wf(),
        viewport.wf(),
        match event {
            OpenHarmonyEvent::MouseDown(e) => -MAX_SCROLL <= e.x <= MAX_SCROLL && -MAX_SCROLL
                <= e.y <= MAX_SCROLL,
            OpenHarmonyEvent::MouseMove(e) => -MAX_SCROLL <= e.x <= MAX_SCROLL && -MAX_SCROLL
                <= e.y <= MAX_SCROLL,
            _ => true,
        },
    ensures
        r == spec_handle_event(*doc, cell, *viewport, event),
{
    match event {
        OpenHarmonyEvent::TextInput(e) => Some(EditAction::Insert { text: e.input }),
        OpenHarmonyEvent::KeyDown(e) => match e.key_code {
            KeyCode::ReturnKey => Some(EditAction::Enter),
            KeyCode::Delete => Some(EditAction::Delete),
            KeyCode::Backspace => Some(EditAction::Backspace),
            KeyCode::Unknown => None,
        },
        OpenHarmonyEvent::MouseDown(e) => {
            match pick(doc, cell, viewport, PixelPoint { x: e.x, y: e.y }) {
                Some((cursor, affinity)) => {
                    if e.alt {
                        Some(EditAction::AddCursor { cursor, affinity })
                    } else {
                        Some(EditAction::SetCursor { cursor, affinity })
                    }
                },
                None => None,
            }
        },
        OpenHarmonyEvent::MouseMove(e) => {
            match pick(doc, cell, viewport, PixelPoint { x: e.x, y: e.y }) {
                Some((cursor, affinity)) => Some(EditAction::MoveTo { cursor, affinity }),
                None => None,
            }
        },
        _ => None,
    }
}

} // verus!
