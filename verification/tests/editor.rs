use modal_edit::editor::Actions;
use modal_edit::editor::Editor;
use modal_edit::editor::Event;
use modal_edit::editor::Key;
use modal_edit::editor::Mode;
use modal_edit::editor::TAB_SPACES;

fn key(code: Key) -> Event {
    Event::Key { code, alt: false }
}

fn alt_key(code: Key) -> Event {
    Event::Key { code, alt: true }
}

fn line_as_string(e: &Editor, y: usize) -> String {
    e.buffer.render_line(y).into_iter().collect()
}

#[test]
fn new_editor_initial_state() {
    let e = Editor::new((80, 24));
    assert_eq!(e.cx, 0);
    assert_eq!(e.cy, 0);
    assert_eq!(e.mode, Mode::Normal);
    assert_eq!(e.size, (80, 24));
    assert_eq!(e.buffer.line_count(), 1);
    assert_eq!(e.buffer.line_len(0), 0);
}

#[test]
fn arrows_translate_in_both_modes() {
    let mut e = Editor::new((80, 24));
    for mode_switch in [false, true] {
        if mode_switch {
            e.apply_action(Actions::ModeToInsert);
        }
        assert_eq!(e.handle_event(key(Key::Up)), Some(Actions::MoveUp));
        assert_eq!(e.handle_event(key(Key::Down)), Some(Actions::MoveDown));
        assert_eq!(e.handle_event(key(Key::Left)), Some(Actions::MoveLeft));
        assert_eq!(e.handle_event(key(Key::Right)), Some(Actions::MoveRight));
    }
}

#[test]
fn normal_mode_translation() {
    let mut e = Editor::new((80, 24));
    assert_eq!(e.handle_event(key(Key::Char('q'))), Some(Actions::Exit));
    assert_eq!(e.handle_event(alt_key(Key::Char('i'))), Some(Actions::ModeToInsert));
    assert_eq!(e.handle_event(key(Key::Char('i'))), None);
    assert_eq!(e.handle_event(key(Key::Char('d'))), Some(Actions::DeleteChar));
    assert_eq!(e.handle_event(key(Key::Delete)), Some(Actions::DeleteChar));
    assert_eq!(e.handle_event(key(Key::Char('x'))), None);
    assert_eq!(e.handle_event(key(Key::Enter)), None);
    assert_eq!(e.handle_event(key(Key::Backspace)), None);
    assert_eq!(e.handle_event(key(Key::Tab)), None);
}

#[test]
fn insert_mode_translation() {
    let mut e = Editor::new((80, 24));
    e.apply_action(Actions::ModeToInsert);
    assert_eq!(e.handle_event(alt_key(Key::Char('i'))), Some(Actions::ModeToNormal));
    assert_eq!(e.handle_event(key(Key::Char('i'))), Some(Actions::AddChar('i')));
    assert_eq!(e.handle_event(key(Key::Char('q'))), Some(Actions::AddChar('q')));
    assert_eq!(e.handle_event(key(Key::Backspace)), Some(Actions::Backspace));
    assert_eq!(e.handle_event(key(Key::Enter)), Some(Actions::NewLine));
    assert_eq!(e.handle_event(key(Key::Tab)), Some(Actions::Tab));
    assert_eq!(e.handle_event(key(Key::Delete)), None);
    assert_eq!(e.handle_event(key(Key::Other)), None);
}

#[test]
fn resize_updates_cached_size_and_maps_to_nothing() {
    let mut e = Editor::new((80, 24));
    assert_eq!(e.handle_event(Event::Resize(120, 40)), None);
    assert_eq!(e.size, (120, 40));
    assert_eq!(e.handle_event(Event::Other), None);
    assert_eq!(e.size, (120, 40));
}

#[test]
fn scenario_insert_hi() {
    let mut e = Editor::new((80, 24));
    e.apply_action(Actions::ModeToInsert);
    e.apply_action(Actions::AddChar('h'));
    e.apply_action(Actions::AddChar('i'));
    assert_eq!(line_as_string(&e, 0), "hi");
    assert_eq!(e.cx, 2);
    assert_eq!(e.cy, 0);
}

#[test]
fn scenario_newline_after_hi() {
    let mut e = Editor::new((80, 24));
    e.apply_action(Actions::ModeToInsert);
    e.apply_action(Actions::AddChar('h'));
    e.apply_action(Actions::AddChar('i'));
    e.apply_action(Actions::NewLine);
    assert_eq!(e.cy, 1);
    assert_eq!(e.cx, 0);
    assert_eq!(e.buffer.line_count(), 2);
    assert_eq!(e.buffer.line_len(1), 0);
    assert_eq!(line_as_string(&e, 0), "hi");
}

#[test]
fn scenario_backspace_at_column_zero() {
    let mut e = Editor::new((80, 24));
    e.apply_action(Actions::ModeToInsert);
    e.apply_action(Actions::AddChar('h'));
    e.apply_action(Actions::AddChar('i'));
    e.apply_action(Actions::NewLine);
    e.apply_action(Actions::Backspace);
    assert_eq!(e.cy, 0);
    assert_eq!(e.cx, 0);
    assert_eq!(e.buffer.line_count(), 2);
    assert_eq!(line_as_string(&e, 0), "hi");
    assert_eq!(e.buffer.line_len(1), 0);
}

#[test]
fn scenario_delete_beyond_line_end() {
    let mut e = Editor::new((80, 24));
    e.apply_action(Actions::ModeToInsert);
    e.apply_action(Actions::AddChar('h'));
    e.apply_action(Actions::AddChar('i'));
    // cursor now sits just past the last character
    e.apply_action(Actions::DeleteChar);
    assert_eq!(line_as_string(&e, 0), "hi");
    assert_eq!(e.buffer.line_count(), 1);
    assert_eq!(e.cx, 2);
    assert_eq!(e.cy, 0);
}

#[test]
fn move_right_at_line_end_never_changes_cx() {
    let mut e = Editor::new((80, 24));
    e.apply_action(Actions::ModeToInsert);
    e.apply_action(Actions::AddChar('a'));
    e.apply_action(Actions::AddChar('b'));
    // place the cursor on the last character
    e.apply_action(Actions::MoveLeft);
    assert_eq!(e.cx, 1);
    for _ in 0..5 {
        e.apply_action(Actions::MoveRight);
        assert_eq!(e.cx, 1);
    }
}

#[test]
fn move_left_saturates_at_zero() {
    let mut e = Editor::new((80, 24));
    e.apply_action(Actions::MoveLeft);
    assert_eq!(e.cx, 0);
    e.apply_action(Actions::ModeToInsert);
    e.apply_action(Actions::AddChar('a'));
    e.apply_action(Actions::MoveLeft);
    assert_eq!(e.cx, 0);
    e.apply_action(Actions::MoveLeft);
    assert_eq!(e.cx, 0);
}

#[test]
fn move_down_lands_at_end_of_next_line() {
    let mut e = Editor::new((80, 24));
    e.apply_action(Actions::ModeToInsert);
    e.apply_action(Actions::NewLine);
    e.apply_action(Actions::AddChar('a'));
    e.apply_action(Actions::AddChar('b'));
    e.apply_action(Actions::AddChar('c'));
    e.apply_action(Actions::MoveUp);
    assert_eq!(e.cy, 0);
    e.apply_action(Actions::MoveDown);
    assert_eq!(e.cy, 1);
    assert_eq!(e.cx, 3);
}

#[test]
fn move_down_past_last_line_is_noop() {
    let mut e = Editor::new((80, 24));
    e.apply_action(Actions::MoveDown);
    assert_eq!(e.cy, 0);
    assert_eq!(e.cx, 0);
}

#[test]
fn move_up_clamps_column_to_new_line() {
    let mut e = Editor::new((80, 24));
    e.apply_action(Actions::ModeToInsert);
    e.apply_action(Actions::AddChar('a'));
    e.apply_action(Actions::NewLine);
    e.apply_action(Actions::AddChar('x'));
    e.apply_action(Actions::AddChar('y'));
    e.apply_action(Actions::AddChar('z'));
    assert_eq!(e.cx, 3);
    e.apply_action(Actions::MoveUp);
    assert_eq!(e.cy, 0);
    assert_eq!(e.cx, 1);
}

#[test]
fn tab_inserts_spaces_and_advances() {
    let mut e = Editor::new((80, 24));
    e.apply_action(Actions::ModeToInsert);
    e.apply_action(Actions::AddChar('a'));
    e.apply_action(Actions::MoveLeft);
    e.apply_action(Actions::Tab);
    assert_eq!(e.cx, TAB_SPACES);
    assert_eq!(line_as_string(&e, 0), "    a");
}

#[test]
fn backspace_removes_previous_char() {
    let mut e = Editor::new((80, 24));
    e.apply_action(Actions::ModeToInsert);
    e.apply_action(Actions::AddChar('a'));
    e.apply_action(Actions::AddChar('b'));
    e.apply_action(Actions::Backspace);
    assert_eq!(line_as_string(&e, 0), "a");
    assert_eq!(e.cx, 1);
}

#[test]
fn add_line_break_char_changes_nothing() {
    let mut e = Editor::new((80, 24));
    e.apply_action(Actions::AddChar('\n'));
    assert_eq!(e.cx, 0);
    assert_eq!(e.cy, 0);
    assert_eq!(e.buffer.line_count(), 1);
    assert_eq!(e.buffer.line_len(0), 0);
}

#[test]
fn status_line_text() {
    let mut e = Editor::new((80, 24));
    let s: String = e.status_line().into_iter().collect();
    assert_eq!(s, "NORMAL [0, 0]");
    e.apply_action(Actions::ModeToInsert);
    for _ in 0..12 {
        e.apply_action(Actions::AddChar('a'));
    }
    let s: String = e.status_line().into_iter().collect();
    assert_eq!(s, "INSERT [12, 0]");
    e.apply_action(Actions::NewLine);
    e.apply_action(Actions::NewLine);
    let s: String = e.status_line().into_iter().collect();
    assert_eq!(s, "INSERT [0, 2]");
}

#[test]
fn exit_changes_nothing() {
    let mut e = Editor::new((80, 24));
    e.apply_action(Actions::ModeToInsert);
    e.apply_action(Actions::AddChar('a'));
    e.apply_action(Actions::Exit);
    assert_eq!(e.cx, 1);
    assert_eq!(e.cy, 0);
    assert_eq!(e.mode, Mode::Insert);
    assert_eq!(line_as_string(&e, 0), "a");
}
