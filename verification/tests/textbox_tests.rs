use bevy_rui::widgets::clipboard::{text_from_reading, RuiClipboard};
use bevy_rui::widgets::textbox::{handle_textbox_input, EditKeys, RuiTextBox, RuiTextBoxMode, TextEditFault};

fn no_keys() -> EditKeys {
    EditKeys {
        ctrl: false,
        shift: false,
        z: false,
        y: false,
        a: false,
        c: false,
        x: false,
        v: false,
        left: false,
        right: false,
        up: false,
        down: false,
        home: false,
        end: false,
        enter: false,
        backspace: false,
        delete: false,
        space: false,
        tab: false,
        typed: vec![],
    }
}

fn typing(s: &[&str]) -> EditKeys {
    let mut k = no_keys();
    k.typed = s.iter().map(|t| t.to_string()).collect();
    k
}

fn boxed(text: &str, cursor: usize) -> RuiTextBox {
    let mut tb = RuiTextBox::default();
    tb.text = text.to_string();
    tb.cursor_index = cursor;
    tb
}

#[test]
fn typing_inserts_at_cursor() {
    let mut tb = RuiTextBox::default();
    let mut clip = RuiClipboard::new();
    let r = handle_textbox_input(&mut tb, &typing(&["a", "b"]), &mut clip);
    assert_eq!(r, Ok(true));
    assert_eq!(tb.text, "ab");
    assert_eq!(tb.cursor_index, 2);
    assert_eq!(tb.undo_stack.len(), 1);
    assert_eq!(tb.undo_stack[0].text, "");
}

#[test]
fn typing_in_the_middle() {
    let mut tb = boxed("hd", 1);
    let mut clip = RuiClipboard::new();
    let r = handle_textbox_input(&mut tb, &typing(&["ello worl"]), &mut clip);
    assert_eq!(r, Ok(true));
    assert_eq!(tb.text, "hello world");
    assert_eq!(tb.cursor_index, 10);
}

#[test]
fn backspace_and_delete() {
    let mut tb = boxed("abc", 2);
    let mut clip = RuiClipboard::new();
    let mut k = no_keys();
    k.backspace = true;
    assert_eq!(handle_textbox_input(&mut tb, &k, &mut clip), Ok(true));
    assert_eq!(tb.text, "ac");
    assert_eq!(tb.cursor_index, 1);
    let mut k = no_keys();
    k.delete = true;
    assert_eq!(handle_textbox_input(&mut tb, &k, &mut clip), Ok(true));
    assert_eq!(tb.text, "a");
    assert_eq!(tb.cursor_index, 1);
    // Nothing after the cursor: delete does nothing.
    assert_eq!(handle_textbox_input(&mut tb, &k, &mut clip), Ok(false));
    assert_eq!(tb.text, "a");
}

#[test]
fn backspace_at_start_does_nothing() {
    let mut tb = boxed("abc", 0);
    let mut clip = RuiClipboard::new();
    let mut k = no_keys();
    k.backspace = true;
    assert_eq!(handle_textbox_input(&mut tb, &k, &mut clip), Ok(false));
    assert_eq!(tb.text, "abc");
    assert!(tb.undo_stack.is_empty());
}

#[test]
fn undo_then_redo() {
    let mut tb = RuiTextBox::default();
    let mut clip = RuiClipboard::new();
    handle_textbox_input(&mut tb, &typing(&["ab"]), &mut clip).unwrap();
    let mut k = no_keys();
    k.backspace = true;
    handle_textbox_input(&mut tb, &k, &mut clip).unwrap();
    assert_eq!(tb.text, "a");
    let mut undo = no_keys();
    undo.ctrl = true;
    undo.z = true;
    assert_eq!(handle_textbox_input(&mut tb, &undo, &mut clip), Ok(true));
    assert_eq!(tb.text, "ab");
    assert_eq!(tb.cursor_index, 2);
    assert_eq!(tb.redo_stack.len(), 1);
    let mut redo = no_keys();
    redo.ctrl = true;
    redo.y = true;
    assert_eq!(handle_textbox_input(&mut tb, &redo, &mut clip), Ok(true));
    assert_eq!(tb.text, "a");
    assert_eq!(tb.cursor_index, 1);
    handle_textbox_input(&mut tb, &undo, &mut clip).unwrap();
    handle_textbox_input(&mut tb, &undo, &mut clip).unwrap();
    assert_eq!(tb.text, "");
    // Nothing left to undo.
    assert_eq!(handle_textbox_input(&mut tb, &undo, &mut clip), Ok(false));
}

#[test]
fn new_edit_clears_redo() {
    let mut tb = RuiTextBox::default();
    let mut clip = RuiClipboard::new();
    handle_textbox_input(&mut tb, &typing(&["a"]), &mut clip).unwrap();
    let mut undo = no_keys();
    undo.ctrl = true;
    undo.z = true;
    handle_textbox_input(&mut tb, &undo, &mut clip).unwrap();
    assert_eq!(tb.redo_stack.len(), 1);
    handle_textbox_input(&mut tb, &typing(&["b"]), &mut clip).unwrap();
    assert!(tb.redo_stack.is_empty());
    assert_eq!(tb.text, "b");
}

#[test]
fn undo_history_keeps_fifty() {
    let mut tb = RuiTextBox::default();
    let mut clip = RuiClipboard::new();
    for _ in 0..60 {
        handle_textbox_input(&mut tb, &typing(&["x"]), &mut clip).unwrap();
    }
    assert_eq!(tb.text.len(), 60);
    assert_eq!(tb.undo_stack.len(), 50);
    assert_eq!(tb.undo_stack[0].text.len(), 10);
}

#[test]
fn character_limit_is_kept() {
    let mut tb = RuiTextBox::default();
    tb.max_characters = Some(3);
    let mut clip = RuiClipboard::new();
    handle_textbox_input(&mut tb, &typing(&["abcdef"]), &mut clip).unwrap();
    assert_eq!(tb.text, "abc");
    assert_eq!(tb.cursor_index, 3);
    let mut k = no_keys();
    k.space = true;
    assert_eq!(handle_textbox_input(&mut tb, &k, &mut clip), Ok(false));
    assert_eq!(tb.text, "abc");
}

#[test]
fn readonly_ignores_typing() {
    let mut tb = boxed("fixed", 5);
    tb.readonly = true;
    let mut clip = RuiClipboard::new();
    assert_eq!(handle_textbox_input(&mut tb, &typing(&["x"]), &mut clip), Ok(false));
    let mut k = no_keys();
    k.backspace = true;
    assert_eq!(handle_textbox_input(&mut tb, &k, &mut clip), Ok(false));
    assert_eq!(tb.text, "fixed");
}

#[test]
fn typing_with_ctrl_is_ignored() {
    let mut tb = RuiTextBox::default();
    let mut clip = RuiClipboard::new();
    let mut k = typing(&["q"]);
    k.ctrl = true;
    assert_eq!(handle_textbox_input(&mut tb, &k, &mut clip), Ok(false));
    assert_eq!(tb.text, "");
}

#[test]
fn typed_space_is_ignored_but_space_key_inserts() {
    let mut tb = RuiTextBox::default();
    let mut clip = RuiClipboard::new();
    assert_eq!(handle_textbox_input(&mut tb, &typing(&[" "]), &mut clip), Ok(false));
    let mut k = no_keys();
    k.space = true;
    assert_eq!(handle_textbox_input(&mut tb, &k, &mut clip), Ok(true));
    assert_eq!(tb.text, " ");
}

#[test]
fn select_all_then_type_replaces() {
    let mut tb = boxed("old text", 2);
    let mut clip = RuiClipboard::new();
    let mut k = no_keys();
    k.ctrl = true;
    k.a = true;
    assert_eq!(handle_textbox_input(&mut tb, &k, &mut clip), Ok(true));
    assert_eq!(tb.selection, Some((0, 8)));
    assert_eq!(tb.selection_anchor, Some(0));
    assert_eq!(tb.cursor_index, 8);
    handle_textbox_input(&mut tb, &typing(&["new"]), &mut clip).unwrap();
    assert_eq!(tb.text, "new");
    assert_eq!(tb.selection, None);
}

#[test]
fn shift_arrows_select() {
    let mut tb = boxed("abcd", 3);
    let mut clip = RuiClipboard::new();
    let mut k = no_keys();
    k.shift = true;
    k.left = true;
    handle_textbox_input(&mut tb, &k, &mut clip).unwrap();
    handle_textbox_input(&mut tb, &k, &mut clip).unwrap();
    assert_eq!(tb.cursor_index, 1);
    assert_eq!(tb.selection, Some((3, 1)));
    let mut k = no_keys();
    k.backspace = true;
    handle_textbox_input(&mut tb, &k, &mut clip).unwrap();
    assert_eq!(tb.text, "ad");
    assert_eq!(tb.cursor_index, 1);
}

#[test]
fn arrow_without_shift_collapses_selection() {
    let mut tb = boxed("abcd", 3);
    tb.selection = Some((3, 1));
    tb.selection_anchor = Some(3);
    let mut clip = RuiClipboard::new();
    let mut k = no_keys();
    k.right = true;
    handle_textbox_input(&mut tb, &k, &mut clip).unwrap();
    assert_eq!(tb.cursor_index, 3);
    assert_eq!(tb.selection, None);
    assert_eq!(tb.selection_anchor, None);
}

#[test]
fn home_and_end() {
    let mut tb = boxed("abcd", 2);
    let mut clip = RuiClipboard::new();
    let mut k = no_keys();
    k.home = true;
    handle_textbox_input(&mut tb, &k, &mut clip).unwrap();
    assert_eq!(tb.cursor_index, 0);
    let mut k = no_keys();
    k.end = true;
    handle_textbox_input(&mut tb, &k, &mut clip).unwrap();
    assert_eq!(tb.cursor_index, 4);
}

#[test]
fn enter_only_in_multiline() {
    let mut single = boxed("ab", 1);
    let mut clip = RuiClipboard::new();
    let mut k = no_keys();
    k.enter = true;
    assert_eq!(handle_textbox_input(&mut single, &k, &mut clip), Ok(false));
    assert_eq!(single.text, "ab");
    let mut multi = boxed("ab", 1);
    multi.mode = RuiTextBoxMode::MultiLine;
    assert_eq!(handle_textbox_input(&mut multi, &k, &mut clip), Ok(true));
    assert_eq!(multi.text, "a\nb");
    assert_eq!(multi.cursor_index, 2);
}

#[test]
fn up_and_down_keep_the_column() {
    let mut tb = boxed("abcd\nef\nghij", 3);
    tb.mode = RuiTextBoxMode::MultiLine;
    let mut clip = RuiClipboard::new();
    let mut down = no_keys();
    down.down = true;
    handle_textbox_input(&mut tb, &down, &mut clip).unwrap();
    // Column 3 does not exist on "ef": the cursor stops at its end.
    assert_eq!(tb.cursor_index, 7);
    handle_textbox_input(&mut tb, &down, &mut clip).unwrap();
    assert_eq!(tb.cursor_index, 10);
    let mut up = no_keys();
    up.up = true;
    handle_textbox_input(&mut tb, &up, &mut clip).unwrap();
    assert_eq!(tb.cursor_index, 7);
}

#[test]
fn cut_removes_selection_and_paste_puts_it_back() {
    let mut tb = boxed("hello world", 0);
    tb.selection = Some((0, 6));
    tb.selection_anchor = Some(0);
    let mut clip = RuiClipboard::new();
    let mut cut = no_keys();
    cut.ctrl = true;
    cut.x = true;
    assert_eq!(handle_textbox_input(&mut tb, &cut, &mut clip), Ok(true));
    assert_eq!(tb.text, "world");
    assert_eq!(clip.local_buffer, "hello ");
    assert_eq!(tb.cursor_index, 0);
}

#[test]
fn copy_without_selection_copies_everything() {
    let mut tb = boxed("all of it", 0);
    let mut clip = RuiClipboard::new();
    let mut copy = no_keys();
    copy.ctrl = true;
    copy.c = true;
    assert_eq!(handle_textbox_input(&mut tb, &copy, &mut clip), Ok(false));
    assert_eq!(clip.local_buffer, "all of it");
    assert_eq!(tb.text, "all of it");
}

#[test]
fn out_of_range_selection_is_an_error() {
    let mut tb = boxed("ab", 0);
    tb.selection = Some((0, 9));
    let mut clip = RuiClipboard::new();
    let mut k = no_keys();
    k.backspace = true;
    assert_eq!(handle_textbox_input(&mut tb, &k, &mut clip), Err(TextEditFault::OutOfRange));
}

#[test]
fn click_places_cursor_and_drag_selects() {
    let mut tb = boxed("abcdef", 0);
    tb.apply_click(4, true);
    assert_eq!(tb.cursor_index, 4);
    assert_eq!(tb.selection_anchor, Some(4));
    assert_eq!(tb.selection, None);
    assert!(tb.show_cursor);
    tb.apply_click(99, false);
    assert_eq!(tb.cursor_index, 6);
    assert_eq!(tb.selection, Some((4, 6)));
    tb.apply_click(4, false);
    assert_eq!(tb.selection, None);
}

#[test]
fn placeholder_shows_when_empty_and_unfocused() {
    let tb = RuiTextBox::new("Type here".to_string(), RuiTextBoxMode::SingleLine);
    assert_eq!(tb.display_text(false), "Type here");
    assert_eq!(tb.display_text(true), "");
    let tb2 = boxed("x", 1);
    assert_eq!(tb2.display_text(false), "x");
}

#[test]
fn longest_line_and_cursor_position() {
    let mut tb = boxed("ab\nabcde\nx", 5);
    tb.mode = RuiTextBoxMode::MultiLine;
    assert_eq!(tb.longest_line(), 5);
    assert_eq!(tb.cursor_row_col(80), (1, 2));
    let empty = RuiTextBox::default();
    assert_eq!(empty.longest_line(), 1);
}

#[test]
fn wrapped_rows_count_in_cursor_position() {
    let mut tb = boxed("abcdefgh", 7);
    tb.mode = RuiTextBoxMode::MultiLine;
    tb.word_wrap = true;
    assert_eq!(tb.cursor_row_col(3), (2, 1));
}

#[test]
fn cursor_tracking_flags_changes() {
    let mut tb = boxed("abc", 2);
    tb.track_cursor_changes(true);
    assert!(tb.cursor_moved);
    assert_eq!(tb.previous_cursor_index, 2);
    assert_eq!(tb.previous_text_len, 3);
    assert!(tb.previous_focused);
    tb.cursor_moved = false;
    tb.track_cursor_changes(true);
    assert!(!tb.cursor_moved);
}

#[test]
fn clipboard_keeps_a_local_copy() {
    let mut clip = RuiClipboard::new();
    clip.set_text("copied".to_string());
    assert_eq!(clip.local_buffer, "copied");
    assert!(clip.get_text().is_some());
}

#[test]
fn paste_text_comes_from_reading_or_buffer() {
    assert_eq!(text_from_reading(Some("from system".to_string()), &"local".to_string()), "from system");
    assert_eq!(text_from_reading(None, &"local".to_string()), "local");
}

#[test]
fn character_limit_is_kept_through_undo_and_redo() {
    let mut tb = RuiTextBox::default();
    tb.max_characters = Some(2);
    let mut clip = RuiClipboard::new();
    handle_textbox_input(&mut tb, &typing(&["x"]), &mut clip).unwrap();
    handle_textbox_input(&mut tb, &typing(&["yz"]), &mut clip).unwrap();
    assert_eq!(tb.text, "xy");
    let mut undo = no_keys();
    undo.ctrl = true;
    undo.z = true;
    handle_textbox_input(&mut tb, &undo, &mut clip).unwrap();
    assert_eq!(tb.text, "x");
    let mut redo = no_keys();
    redo.ctrl = true;
    redo.y = true;
    handle_textbox_input(&mut tb, &redo, &mut clip).unwrap();
    assert_eq!(tb.text, "xy");
    assert!(tb.text.chars().count() <= 2);
    assert!(tb.undo_stack.iter().all(|s| s.text.chars().count() <= 2));
}

#[test]
fn textbox_positions_stay_within_the_text() {
    let mut tb = boxed("hello", 5);
    let mut clip = RuiClipboard::new();
    let mut sel = no_keys();
    sel.shift = true;
    sel.left = true;
    handle_textbox_input(&mut tb, &sel, &mut clip).unwrap();
    handle_textbox_input(&mut tb, &sel, &mut clip).unwrap();
    assert_eq!(tb.selection, Some((5, 3)));
    let mut del = no_keys();
    del.delete = true;
    handle_textbox_input(&mut tb, &del, &mut clip).unwrap();
    assert_eq!(tb.text, "hel");
    let len = tb.text.chars().count();
    assert!(tb.cursor_index <= len);
    assert_eq!(tb.selection, None);
    let mut end = no_keys();
    end.end = true;
    handle_textbox_input(&mut tb, &end, &mut clip).unwrap();
    assert_eq!(tb.cursor_index, 3);
}

#[test]
fn readonly_box_leaves_the_clipboard_alone() {
    let mut tb = boxed("fixed", 5);
    tb.readonly = true;
    let mut clip = RuiClipboard::new();
    let mut k = no_keys();
    k.ctrl = true;
    k.v = true;
    assert_eq!(handle_textbox_input(&mut tb, &k, &mut clip), Ok(false));
    assert!(clip.clipboard.is_none());
    assert_eq!(clip.local_buffer, "");
    assert_eq!(tb.text, "fixed");
}
