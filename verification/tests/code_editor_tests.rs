use bevy_rui::widgets::clipboard::RuiClipboard;
use bevy_rui::widgets::code_editor::{gutter_text, handle_code_editor_input, indentation_of, RuiCodeEditor};
use bevy_rui::widgets::textbox::EditKeys;

fn no_keys() -> EditKeys {
    EditKeys {
        ctrl: false,
        shift: false,
        z: false,
        y: false,
        a: false,
        c: false,
        x: false,
        v: false,
        left: false,
        right: false,
        up: false,
        down: false,
        home: false,
        end: false,
        enter: false,
        backspace: false,
        delete: false,
        space: false,
        tab: false,
        typed: vec![],
    }
}

fn editor(text: &str, cursor: usize) -> RuiCodeEditor {
    let mut e = RuiCodeEditor::new(text, "rs".to_string());
    e.cursor_index = cursor;
    e
}

#[test]
fn default_editor_is_empty_rust() {
    let e = RuiCodeEditor::default();
    assert_eq!(e.text.to_string(), "");
    assert_eq!(e.language, "rs");
    assert_eq!(e.cursor_index, 0);
    assert!(e.undo_stack.is_empty());
}

#[test]
fn enter_keeps_indentation() {
    let mut e = editor("    let x", 9);
    let mut clip = RuiClipboard::new();
    let mut k = no_keys();
    k.enter = true;
    assert_eq!(handle_code_editor_input(&mut e, &k, &mut clip), Ok(true));
    assert_eq!(e.text.to_string(), "    let x\n    ");
    assert_eq!(e.cursor_index, 14);
}

#[test]
fn enter_without_indentation() {
    let mut e = editor("ab", 1);
    let mut clip = RuiClipboard::new();
    let mut k = no_keys();
    k.enter = true;
    handle_code_editor_input(&mut e, &k, &mut clip).unwrap();
    assert_eq!(e.text.to_string(), "a\nb");
    assert_eq!(e.cursor_index, 2);
}

#[test]
fn tab_inserts_four_spaces() {
    let mut e = editor("x", 0);
    let mut clip = RuiClipboard::new();
    let mut k = no_keys();
    k.tab = true;
    handle_code_editor_input(&mut e, &k, &mut clip).unwrap();
    assert_eq!(e.text.to_string(), "    x");
    assert_eq!(e.cursor_index, 4);
}

#[test]
fn typing_then_undo() {
    let mut e = editor("", 0);
    let mut clip = RuiClipboard::new();
    let mut k = no_keys();
    k.typed = vec!["fn".to_string(), " ".to_string(), "main".to_string()];
    handle_code_editor_input(&mut e, &k, &mut clip).unwrap();
    assert_eq!(e.text.to_string(), "fnmain");
    assert_eq!(e.cursor_index, 6);
    let mut undo = no_keys();
    undo.ctrl = true;
    undo.z = true;
    assert_eq!(handle_code_editor_input(&mut e, &undo, &mut clip), Ok(true));
    assert_eq!(e.text.to_string(), "");
    assert_eq!(e.cursor_index, 0);
}

#[test]
fn copy_needs_a_selection() {
    let mut e = editor("abc", 0);
    let mut clip = RuiClipboard::new();
    let mut copy = no_keys();
    copy.ctrl = true;
    copy.c = true;
    handle_code_editor_input(&mut e, &copy, &mut clip).unwrap();
    assert_eq!(clip.local_buffer, "");
    e.selection = Some((1, 3));
    handle_code_editor_input(&mut e, &copy, &mut clip).unwrap();
    assert_eq!(clip.local_buffer, "bc");
}

#[test]
fn home_and_end_stay_on_the_line() {
    let mut e = editor("ab\ncde\nf", 4);
    let mut clip = RuiClipboard::new();
    let mut k = no_keys();
    k.end = true;
    handle_code_editor_input(&mut e, &k, &mut clip).unwrap();
    assert_eq!(e.cursor_index, 6);
    let mut k = no_keys();
    k.home = true;
    handle_code_editor_input(&mut e, &k, &mut clip).unwrap();
    assert_eq!(e.cursor_index, 3);
}

#[test]
fn up_and_down_between_lines() {
    let mut e = editor("abcd\nxy\n", 3);
    let mut clip = RuiClipboard::new();
    let mut down = no_keys();
    down.down = true;
    handle_code_editor_input(&mut e, &down, &mut clip).unwrap();
    assert_eq!(e.cursor_index, 7);
    let mut up = no_keys();
    up.up = true;
    handle_code_editor_input(&mut e, &up, &mut clip).unwrap();
    assert_eq!(e.cursor_index, 2);
    handle_code_editor_input(&mut e, &up, &mut clip).unwrap();
    assert_eq!(e.cursor_index, 0);
}

#[test]
fn readonly_editor_keeps_text() {
    let mut e = editor("const", 5);
    e.readonly = true;
    let mut clip = RuiClipboard::new();
    let mut k = no_keys();
    k.backspace = true;
    k.typed = vec!["x".to_string()];
    assert_eq!(handle_code_editor_input(&mut e, &k, &mut clip), Ok(false));
    assert_eq!(e.text.to_string(), "const");
}

#[test]
fn indentation_is_leading_blanks() {
    assert_eq!(indentation_of("  \tfoo  "), "  \t");
    assert_eq!(indentation_of("bar"), "");
    assert_eq!(indentation_of("   "), "   ");
}

#[test]
fn gutter_numbers_every_line() {
    assert_eq!(gutter_text(3), "1\n2\n3\n");
    assert_eq!(gutter_text(0), "");
    assert_eq!(gutter_text(12).lines().last(), Some("12"));
}

#[test]
fn click_maps_to_character() {
    let e = editor("abc\nde\nfghij", 0);
    assert_eq!(e.click_index(0, 2), 2);
    // Past the end of a middle line: stops before its line break.
    assert_eq!(e.click_index(1, 9), 6);
    // Past the last line: the last line.
    assert_eq!(e.click_index(7, 3), 10);
}

#[test]
fn click_and_drag_select() {
    let mut e = editor("abcdef", 0);
    e.apply_click(2, true);
    assert_eq!(e.cursor_index, 2);
    assert_eq!(e.selection_anchor, Some(2));
    e.apply_click(5, false);
    assert_eq!(e.selection, Some((2, 5)));
}

#[test]
fn line_and_column_of_cursor() {
    let e = editor("ab\ncde\nf", 5);
    assert_eq!(e.cursor_line_col(), (1, 2));
    assert_eq!(e.line_count(), 3);
    assert_eq!(e.widest_line(), 3);
    let empty = editor("", 0);
    assert_eq!(empty.line_count(), 1);
    assert_eq!(empty.widest_line(), 1);
}

#[test]
fn editor_undo_history_keeps_fifty() {
    let mut e = editor("", 0);
    let mut clip = RuiClipboard::new();
    for _ in 0..55 {
        let mut k = no_keys();
        k.typed = vec!["x".to_string()];
        handle_code_editor_input(&mut e, &k, &mut clip).unwrap();
    }
    assert_eq!(e.text.len_chars(), 55);
    assert_eq!(e.undo_stack.len(), 50);
    assert_eq!(e.undo_stack[0].text.len_chars(), 5);
}

#[test]
fn end_on_last_line_stops_before_its_last_character() {
    let mut e = editor("ab\ncde\nfg", 7);
    let mut clip = RuiClipboard::new();
    let mut k = no_keys();
    k.end = true;
    handle_code_editor_input(&mut e, &k, &mut clip).unwrap();
    assert_eq!(e.cursor_index, 8);
}

#[test]
fn down_on_last_line_goes_to_end() {
    let mut e = editor("ab\ncd", 3);
    let mut clip = RuiClipboard::new();
    let mut k = no_keys();
    k.down = true;
    handle_code_editor_input(&mut e, &k, &mut clip).unwrap();
    assert_eq!(e.cursor_index, 5);
}

#[test]
fn shift_select_then_tab_replaces_selection() {
    let mut e = editor("abcd", 4);
    let mut clip = RuiClipboard::new();
    let mut k = no_keys();
    k.shift = true;
    k.home = true;
    handle_code_editor_input(&mut e, &k, &mut clip).unwrap();
    assert_eq!(e.selection, Some((4, 0)));
    let mut t = no_keys();
    t.tab = true;
    handle_code_editor_input(&mut e, &t, &mut clip).unwrap();
    assert_eq!(e.text.to_string(), "    ");
    assert_eq!(e.cursor_index, 4);
}

#[test]
fn every_unicode_line_break_starts_a_line() {
    let e = editor("a\r\nb\rc\u{0B}d\u{0C}e\u{85}f\u{2028}g\u{2029}h\ni", 0);
    assert_eq!(e.line_count(), 9);
    let e = editor("one\r\n", 0);
    assert_eq!(e.line_count(), 2);
}

#[test]
fn cursor_and_selection_stay_within_the_text() {
    let mut e = editor("ab\ncd", 5);
    let mut clip = RuiClipboard::new();
    let mut sel = no_keys();
    sel.shift = true;
    sel.up = true;
    handle_code_editor_input(&mut e, &sel, &mut clip).unwrap();
    let mut bs = no_keys();
    bs.backspace = true;
    handle_code_editor_input(&mut e, &bs, &mut clip).unwrap();
    let len = e.text.len_chars();
    assert!(e.cursor_index <= len);
    if let Some((a, b)) = e.selection {
        assert!(a <= len && b <= len);
    }
    let mut undo = no_keys();
    undo.ctrl = true;
    undo.z = true;
    handle_code_editor_input(&mut e, &undo, &mut clip).unwrap();
    assert_eq!(e.text.to_string(), "ab\ncd");
    assert!(e.cursor_index <= e.text.len_chars());
}
