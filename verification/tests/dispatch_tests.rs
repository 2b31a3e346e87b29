use code_editor_core::dispatch::{
    EditAction, KeyCode, KeyEvent, MouseDownEvent, MouseMoveEvent, OpenHarmonyEvent,
    TextInputEvent, TimerEvent, handle_event,
};
use code_editor_core::doc::{Block, Document};
use code_editor_core::geom::{CellSize, PixelPoint, PixelSize, Viewport};
use code_editor_core::sel::{Affinity, Point};
use code_editor_core::text::{LineData, Wrapped};

fn doc() -> Document {
    let line = LineData {
        segments: vec![
            Wrapped::Text { is_inlay: false, text: "hello world".chars().collect() },
        ],
        tokens: vec![],
        scale: 1,
        wrap_indent_column_count: 0,
    };
    Document {
        blocks: vec![Block::Line { is_inlay: false, line }],
        tab_column_count: 4,
    }
}

fn cell() -> CellSize {
    CellSize { width: 8, height: 16 }
}

fn viewport() -> Viewport {
    Viewport { pos: PixelPoint { x: 0, y: 0 }, size: PixelSize { width: 200, height: 100 } }
}

#[test]
fn text_input_asks_for_an_insert() {
    let ev = OpenHarmonyEvent::TextInput(TextInputEvent { input: String::from("ab") });
    match handle_event(&doc(), cell(), &viewport(), ev) {
        Some(EditAction::Insert { text }) => assert_eq!(text, "ab"),
        other => panic!("unexpected action: {:?}", other),
    }
}

#[test]
fn edit_keys_ask_for_their_edits() {
    let d = doc();
    let enter = handle_event(
        &d,
        cell(),
        &viewport(),
        OpenHarmonyEvent::KeyDown(KeyEvent { key_code: KeyCode::ReturnKey }),
    );
    assert!(matches!(enter, Some(EditAction::Enter)));
    let del = handle_event(
        &d,
        cell(),
        &viewport(),
        OpenHarmonyEvent::KeyDown(KeyEvent { key_code: KeyCode::Delete }),
    );
    assert!(matches!(del, Some(EditAction::Delete)));
    let back = handle_event(
        &d,
        cell(),
        &viewport(),
        OpenHarmonyEvent::KeyDown(KeyEvent { key_code: KeyCode::Backspace }),
    );
    assert!(matches!(back, Some(EditAction::Backspace)));
    let other = handle_event(
        &d,
        cell(),
        &viewport(),
        OpenHarmonyEvent::KeyDown(KeyEvent { key_code: KeyCode::Unknown }),
    );
    assert!(other.is_none());
}

#[test]
fn mouse_press_sets_the_cursor_at_the_picked_position() {
    let ev = OpenHarmonyEvent::MouseDown(MouseDownEvent { x: 41, y: 8, alt: false });
    match handle_event(&doc(), cell(), &viewport(), ev) {
        Some(EditAction::SetCursor { cursor, affinity }) => {
            assert_eq!(cursor, Point { line: 0, byte: 5 });
            assert_eq!(affinity, Affinity::After);
        },
        other => panic!("unexpected action: {:?}", other),
    }
}

#[test]
fn mouse_press_with_alt_adds_a_cursor() {
    let ev = OpenHarmonyEvent::MouseDown(MouseDownEvent { x: 3, y: 8, alt: true });
    match handle_event(&doc(), cell(), &viewport(), ev) {
        Some(EditAction::AddCursor { cursor, affinity }) => {
            assert_eq!(cursor, Point { line: 0, byte: 0 });
            assert_eq!(affinity, Affinity::After);
        },
        other => panic!("unexpected action: {:?}", other),
    }
}

#[test]
fn drag_moves_the_cursor() {
    let ev = OpenHarmonyEvent::MouseMove(MouseMoveEvent { x: 5, y: 8 });
    match handle_event(&doc(), cell(), &viewport(), ev) {
        Some(EditAction::MoveTo { cursor, affinity }) => {
            assert_eq!(cursor, Point { line: 0, byte: 1 });
            assert_eq!(affinity, Affinity::Before);
        },
        other => panic!("unexpected action: {:?}", other),
    }
}

#[test]
fn pointer_outside_content_asks_for_nothing() {
    let ev = OpenHarmonyEvent::MouseDown(MouseDownEvent { x: 5, y: 50, alt: false });
    assert!(handle_event(&doc(), cell(), &viewport(), ev).is_none());
}

#[test]
fn paint_and_timer_events_ask_for_nothing() {
    let d = doc();
    assert!(handle_event(&d, cell(), &viewport(), OpenHarmonyEvent::Paint).is_none());
    assert!(
        handle_event(
            &d,
            cell(),
            &viewport(),
            OpenHarmonyEvent::Timer(TimerEvent { timer_id: 3 }),
        ).is_none()
    );
}
