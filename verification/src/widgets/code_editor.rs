//! The code editor: a rope of text edited with the keyboard (selection, clipboard, undo/redo,
//! tab and auto-indentation), line-based cursor movement, and clicks mapped to positions.
use vstd::prelude::*;
use crate::rope::{
    rope_chars,
    slice_chars,
    rope_line_count,
    rope_line_of,
    rope_line_start,
    line_chars,
    rope_clone,
    rope_eq,
    rope_from_str,
    rope_new,
    rope_len_chars,
    rope_len_lines,
    rope_char_to_line,
    rope_line_to_char,
    rope_line,
    rope_slice,
    lemma_line_facts,
    slice_len_chars,
    slice_to_string,
    rope_insert,
    rope_insert_char,
    rope_remove,
};
use crate::text::{chars_of, string_from_chars};
use crate::widgets::clipboard::RuiClipboard;
use crate::widgets::textbox::{
    EditKeys,
    EditWork,
    StateView,
    TextEditFault,
    UNDO_LIMIT,
    sel_lo,
    sel_hi,
    cut_out,
    put_in,
    take_selection,
    delete_selection,
    min_int,
    opt_view,
    typed_view,
    types_text,
    undo_redo_step,
    select_all_step,
    positions_within,
    state_within,
};

verus! {

/// A saved editing state of the code editor (one entry of its undo or redo history).
pub struct EditorState {
    pub text: ropey::Rope,
    pub cursor_index: usize,
    pub selection: Option<(usize, usize)>,
}

impl View for EditorState {
    type V = StateView;

    open spec fn view(&self) -> StateView {
        StateView {
            text: rope_chars(self.text),
            cursor_index: self.cursor_index,
            selection: self.selection,
        }
    }
}

impl EditorState {
    /// A copy of this state.
    pub fn copy_state(&self) -> (r: Self)
        ensures
            r@ == self@,
    {
        EditorState {
            text: rope_clone(&self.text),
            cursor_index: self.cursor_index,
            selection: self.selection,
        }
    }
}

pub open spec fn editor_history(v: Seq<EditorState>) -> Seq<StateView> {
    v.map_values(|s: EditorState| s@)
}

/// Abstract value of a code editor.
pub struct CodeEditorView {
    pub text: Seq<char>,
    pub language: Seq<char>,
    pub placeholder: Seq<char>,
    pub show_cursor: bool,
    pub cursor_index: usize,
    pub readonly: bool,
    pub selection: Option<(usize, usize)>,
    pub selection_anchor: Option<usize>,
    pub cursor_moved: bool,
    pub dragging_v_scroll: bool,
    pub dragging_h_scroll: bool,
    pub previous_cursor_index: usize,
    pub previous_text_len: usize,
    pub previous_focused: bool,
    pub undo_stack: Seq<StateView>,
    pub redo_stack: Seq<StateView>,
}

/// The editable state of a code editor. Positions count characters.
pub struct RuiCodeEditor {
    pub text: ropey::Rope,
    /// The file extension that picks the syntax ("rs" for Rust, "py" for Python, ...).
    pub language: String,
    pub placeholder: String,
    pub show_cursor: bool,
    pub cursor_index: usize,
    pub readonly: bool,
    pub selection: Option<(usize, usize)>,
    pub selection_anchor: Option<usize>,
    pub cursor_moved: bool,
    pub dragging_v_scroll: bool,
    pub dragging_h_scroll: bool,
    pub previous_cursor_index: usize,
    pub previous_text_len: usize,
    pub previous_focused: bool,
    pub undo_stack: Vec<EditorState>,
    pub redo_stack: Vec<EditorState>,
}

impl View for RuiCodeEditor {
    type V = CodeEditorView;

    open spec fn view(&self) -> CodeEditorView {
        CodeEditorView {
            text: rope_chars(self.text),
            language: self.language@,
            placeholder: self.placeholder@,
            show_cursor: self.show_cursor,
            cursor_index: self.cursor_index,
            readonly: self.readonly,
            selection: self.selection,
            selection_anchor: self.selection_anchor,
            cursor_moved: self.cursor_moved,
            dragging_v_scroll: self.dragging_v_scroll,
            dragging_h_scroll: self.dragging_h_scroll,
            previous_cursor_index: self.previous_cursor_index,
            previous_text_len: self.previous_text_len,
            previous_focused: self.previous_focused,
            undo_stack: editor_history(self.undo_stack@),
            redo_stack: editor_history(self.redo_stack@),
        }
    }
}

// ---------------------------------------------------------------------------------------------
// The model of one frame of editing.
/// Inserts `s` at the cursor.
pub open spec fn insert_at_cursor(w: EditWork, s: Seq<char>) -> Option<EditWork> {
    if w.cursor <= w.chars.len() {
        Some(
            EditWork {
                chars: put_in(w.chars, w.cursor as int, s),
                cursor: (w.cursor + s.len()) as usize,
                changed_text: true,
                ..w
            },
        )
    } else {
        None
    }
}

/// Deletes the selection, if any, then inserts `s` at the cursor.
pub open spec fn replace_selection(w: EditWork, s: Seq<char>) -> Option<EditWork> {
    match take_selection(w) {
        None => None,
        Some(w1) => insert_at_cursor(w1, s),
    }
}

/// End of the run of spaces and tabs that starts at `i`.
pub open spec fn blank_run(s: Seq<char>, i: int) -> int
    decreases s.len() - i,
{
    if 0 <= i < s.len() && (s[i] == ' ' || s[i] == '\t') {
        blank_run(s, i + 1)
    } else {
        i
    }
}

/// The leading spaces and tabs of `s`.
pub open spec fn indentation(s: Seq<char>) -> Seq<char> {
    s.take(blank_run(s, 0))
}

/// Copy and cut in the code editor: only with a selection.
pub open spec fn editor_copy_step(w: EditWork, k: EditKeys, readonly: bool) -> Option<
    (EditWork, Option<Seq<char>>),
> {
    if !(k.ctrl && (k.c || (!readonly && k.x)) && w.selection is Some) {
        Some((w, None))
    } else {
        let s = w.selection->0;
        let lo = sel_lo(s);
        let hi = sel_hi(s);
        if hi > w.chars.len() {
            None
        } else {
            let copied = w.chars.subrange(lo as int, hi as int);
            if k.x && !readonly {
                Some(
                    (
                        EditWork {
                            chars: cut_out(w.chars, lo as int, hi as int),
                            cursor: lo,
                            selection: None,
                            anchor: None,
                            changed_text: true,
                            ..w
                        },
                        Some(copied),
                    ),
                )
            } else {
                Some((w, Some(copied)))
            }
        }
    }
}

/// Which navigation key acts: 1 left, 2 right, 3 up, 4 down, 5 home, 6 end, 0 none.
pub open spec fn editor_nav_branch(k: EditKeys) -> int {
    if k.left {
        1
    } else if k.right {
        2
    } else if k.up {
        3
    } else if k.down {
        4
    } else if k.home {
        5
    } else if k.end {
        6
    } else {
        0
    }
}

/// The cursor after a line-based key (3 up, 4 down, 5 home, 6 end), or `None` where the
/// line-length arithmetic would go below zero (the neighbouring line is empty and has no line
/// break to discount).
pub open spec fn line_target(t: Seq<char>, c: int, branch: int) -> Option<int> {
    let l = rope_line_of(t, c);
    let start = rope_line_start(t, l);
    if branch == 3 {
        if l > 0 {
            let ps = rope_line_start(t, l - 1);
            let raw = start - ps;
            if raw == 0 {
                None
            } else {
                Some(ps + min_int(c - start, raw - 1))
            }
        } else {
            Some(0)
        }
    } else if branch == 4 {
        if l + 1 < rope_line_count(t) {
            let ns = rope_line_start(t, l + 1);
            let raw = rope_line_start(t, l + 2) - ns;
            if raw == 0 {
                None
            } else {
                Some(ns + min_int(c - start, raw - 1))
            }
        } else {
            Some(t.len() as int)
        }
    } else if branch == 5 {
        Some(start)
    } else {
        let ll = rope_line_start(t, l + 1) - start;
        Some(
            start + if ll >= 1 {
                ll - 1
            } else {
                0
            },
        )
    }
}

/// Cursor keys of the code editor; with Shift they extend the selection from its anchor (or
/// from `start_cursor`).
pub open spec fn editor_nav_step(w: EditWork, k: EditKeys, start_cursor: usize) -> Option<EditWork> {
    let b = editor_nav_branch(k);
    let len = w.chars.len();
    if b == 0 {
        Some(w)
    } else {
        let target: Option<int> = if b == 1 {
            Some(
                if !k.shift && w.selection is Some {
                    sel_lo(w.selection->0) as int
                } else if w.cursor > 0 {
                    w.cursor - 1
                } else {
                    w.cursor as int
                },
            )
        } else if b == 2 {
            Some(
                if !k.shift && w.selection is Some {
                    sel_hi(w.selection->0) as int
                } else if w.cursor < len {
                    w.cursor + 1
                } else {
                    w.cursor as int
                },
            )
        } else if w.cursor > len {
            None
        } else {
            line_target(w.chars, w.cursor as int, b)
        };
        match target {
            None => None,
            Some(t) => {
                let c = t as usize;
                if k.shift {
                    let a = if w.selection is None || w.anchor is None {
                        start_cursor
                    } else {
                        w.anchor->0
                    };
                    Some(
                        EditWork {
                            cursor: c,
                            changed_cursor: true,
                            anchor: Some(a),
                            selection: if a != c {
                                Some((a, c))
                            } else {
                                None
                            },
                            ..w
                        },
                    )
                } else {
                    Some(
                        EditWork {
                            cursor: c,
                            changed_cursor: true,
                            selection: None,
                            anchor: None,
                            ..w
                        },
                    )
                }
            },
        }
    }
}

pub open spec fn editor_saved_state(ed: CodeEditorView) -> StateView {
    StateView { text: ed.text, cursor_index: ed.cursor_index, selection: ed.selection }
}

pub open spec fn editor_start_cursor(ed: CodeEditorView) -> usize {
    if ed.cursor_index <= ed.text.len() {
        ed.cursor_index
    } else {
        ed.text.len() as usize
    }
}

pub open spec fn editor_initial_work(ed: CodeEditorView) -> EditWork {
    EditWork {
        chars: ed.text,
        cursor: editor_start_cursor(ed),
        selection: ed.selection,
        anchor: ed.selection_anchor,
        changed_text: false,
        changed_cursor: false,
        undo_redo: false,
    }
}

/// The command part of a frame: the work, the two histories and the copied text.
pub open spec fn editor_begin_model(ed: CodeEditorView, k: EditKeys) -> Option<
    (EditWork, Seq<StateView>, Seq<StateView>, Option<Seq<char>>),
> {
    let w0 = editor_initial_work(ed);
    let (w1, undo, redo) = undo_redo_step(
        w0,
        ed.undo_stack,
        ed.redo_stack,
        k,
        ed.readonly,
        editor_saved_state(ed),
    );
    let w2 = select_all_step(w1, k);
    match editor_copy_step(w2, k, ed.readonly) {
        None => None,
        Some((w3, copied)) => match editor_nav_step(w3, k, w0.cursor) {
            None => None,
            Some(w4) => Some((w4, undo, redo, copied)),
        },
    }
}

pub open spec fn editor_typed_one(w: EditWork, s: Seq<char>, ctrl: bool) -> Option<EditWork> {
    if !types_text(s, ctrl) {
        Some(w)
    } else {
        replace_selection(w, s)
    }
}

pub open spec fn editor_typed_all(w: EditWork, evs: Seq<Seq<char>>, ctrl: bool) -> Option<EditWork>
    decreases evs.len(),
{
    if evs.len() == 0 {
        Some(w)
    } else {
        match editor_typed_all(w, evs.drop_last(), ctrl) {
            None => None,
            Some(w1) => editor_typed_one(w1, evs.last(), ctrl),
        }
    }
}

/// Enter: a line break followed by the indentation of the line the cursor is on.
pub open spec fn editor_enter_step(w: EditWork, k: EditKeys) -> Option<EditWork> {
    if k.enter {
        match take_selection(w) {
            None => None,
            Some(w1) => if w1.cursor > w1.chars.len() {
                None
            } else {
                let l = rope_line_of(w1.chars, w1.cursor as int);
                let ind = indentation(line_chars(w1.chars, l));
                insert_at_cursor(w1, seq!['\n'] + ind)
            },
        }
    } else {
        Some(w)
    }
}

/// Backspace, else Delete, else Space.
pub open spec fn editor_erase_step(w: EditWork, k: EditKeys) -> Option<EditWork> {
    let len = w.chars.len();
    if k.backspace {
        if w.selection is Some {
            delete_selection(w)
        } else if w.cursor > 0 {
            if w.cursor <= len {
                Some(
                    EditWork {
                        chars: w.chars.remove(w.cursor - 1),
                        cursor: (w.cursor - 1) as usize,
                        changed_text: true,
                        ..w
                    },
                )
            } else {
                None
            }
        } else {
            Some(w)
        }
    } else if k.delete {
        if w.selection is Some {
            delete_selection(w)
        } else if w.cursor < len {
            Some(EditWork { chars: w.chars.remove(w.cursor as int), changed_text: true, ..w })
        } else {
            Some(w)
        }
    } else if k.space {
        replace_selection(w, seq![' '])
    } else {
        Some(w)
    }
}

/// Four spaces, the indentation unit of Tab.
pub open spec fn tab_text() -> Seq<char> {
    seq![' ', ' ', ' ', ' ']
}

/// The editing part of a frame: paste, Tab, typed text, Enter, Backspace/Delete/Space.
pub open spec fn editor_edit_model(w: EditWork, k: EditKeys, readonly: bool, paste: Option<Seq<char>>) -> Option<
    EditWork,
> {
    if readonly {
        Some(w)
    } else {
        let p = if k.ctrl && k.v && paste is Some {
            replace_selection(w, paste->0)
        } else {
            Some(w)
        };
        match p {
            None => None,
            Some(w1) => {
                let t = if k.tab {
                    replace_selection(w1, tab_text())
                } else {
                    Some(w1)
                };
                match t {
                    None => None,
                    Some(w2) => match editor_typed_all(w2, typed_view(k), k.ctrl) {
                        None => None,
                        Some(w3) => match editor_enter_step(w3, k) {
                            None => None,
                            Some(w4) => editor_erase_step(w4, k),
                        },
                    },
                }
            },
        }
    }
}

/// Commits a frame: text, cursor and selection, with the history push of a real change.
pub open spec fn editor_commit_model(
    ed: CodeEditorView,
    w: EditWork,
    undo: Seq<StateView>,
    redo: Seq<StateView>,
    saved: StateView,
) -> CodeEditorView {
    let changed = w.changed_text || w.changed_cursor;
    let push = w.changed_text && !w.undo_redo && w.chars != saved.text;
    let undo1 = undo.push(saved);
    CodeEditorView {
        text: w.chars,
        cursor_index: if changed {
            w.cursor
        } else {
            ed.cursor_index
        },
        show_cursor: if changed {
            true
        } else {
            ed.show_cursor
        },
        selection: w.selection,
        selection_anchor: w.anchor,
        undo_stack: if push {
            if undo1.len() > UNDO_LIMIT {
                undo1.drop_first()
            } else {
                undo1
            }
        } else {
            undo
        },
        redo_stack: if push {
            Seq::empty()
        } else {
            redo
        },
        ..ed
    }
}

/// One frame of keyboard editing of the code editor, or `None` where a cursor or selection
/// reaches past the end of the text, or a line-length computation goes below zero.
pub open spec fn editor_step(ed: CodeEditorView, k: EditKeys, paste: Option<Seq<char>>) -> Option<
    CodeEditorView,
> {
    match editor_begin_model(ed, k) {
        None => None,
        Some((w, undo, redo, _copied)) => match editor_edit_model(w, k, ed.readonly, paste) {
            None => None,
            Some(w2) => Some(editor_commit_model(ed, w2, undo, redo, editor_saved_state(ed))),
        },
    }
}

pub open spec fn editor_step_changed(ed: CodeEditorView, k: EditKeys, paste: Option<Seq<char>>) -> bool {
    match editor_begin_model(ed, k) {
        None => false,
        Some((w, _undo, _redo, _copied)) => match editor_edit_model(w, k, ed.readonly, paste) {
            None => false,
            Some(w2) => w2.changed_text || w2.changed_cursor,
        },
    }
}

pub open spec fn editor_copied(ed: CodeEditorView, k: EditKeys) -> Option<Seq<char>> {
    match editor_begin_model(ed, k) {
        None => None,
        Some((_w, _u, _r, copied)) => copied,
    }
}

} // verus!
verus! {

// ---------------------------------------------------------------------------------------------
// Executable editing.
/// An edit in progress between the command part and the editing part of a frame.
pub struct EditorSession {
    pub text: ropey::Rope,
    pub cursor: usize,
    pub selection: Option<(usize, usize)>,
    pub anchor: Option<usize>,
    pub changed_text: bool,
    pub changed_cursor: bool,
    pub undo_redo: bool,
    /// The editor as it was when the frame began, as the history would keep it.
    pub saved: EditorState,
    /// What the frame copies to the clipboard.
    pub copied: Option<String>,
}

impl EditorSession {
    pub open spec fn work(&self) -> EditWork {
        EditWork {
            chars: rope_chars(self.text),
            cursor: self.cursor,
            selection: self.selection,
            anchor: self.anchor,
            changed_text: self.changed_text,
            changed_cursor: self.changed_cursor,
            undo_redo: self.undo_redo,
        }
    }
}

pub open spec fn editor_stepped(old: EditorSession, new: EditorSession, ok: bool, m: Option<EditWork>) -> bool {
    &&& ok == (m is Some)
    &&& ok ==> new.work() == m->0
    &&& new.saved@ == old.saved@
    &&& new.copied == old.copied
}

proof fn lemma_editor_typed_prefix_none(w: EditWork, evs: Seq<Seq<char>>, i: int, ctrl: bool)
    requires
        0 <= i <= evs.len(),
        editor_typed_all(w, evs.take(i), ctrl) is None,
    ensures
        editor_typed_all(w, evs, ctrl) is None,
    decreases evs.len() - i,
{
    if i < evs.len() {
        assert(evs.take(i + 1).drop_last() =~= evs.take(i));
        lemma_editor_typed_prefix_none(w, evs, i + 1, ctrl);
    } else {
        assert(evs.take(i) =~= evs);
    }
}

fn min_usize(a: usize, b: usize) -> (r: usize)
    ensures
        r as int == min_int(a as int, b as int),
{
    if a <= b {
        a
    } else {
        b
    }
}

/// The leading spaces and tabs of `s`.
pub fn indentation_of(s: &str) -> (r: String)
    ensures
        r@ == indentation(s@),
{
    let cs = chars_of(s);
    let n = cs.len();
    let mut i: usize = 0;
    while i < n && (cs[i] == ' ' || cs[i] == '\t')
        invariant
            i <= n,
            n == cs@.len(),
            blank_run(cs@, 0) == blank_run(cs@, i as int),
            forall|j: int| 0 <= j < i ==> cs@[j] == ' ' || cs@[j] == '\t',
        decreases n - i,
    {
        i = i + 1;
    }
    let mut v: Vec<char> = Vec::new();
    let mut j: usize = 0;
    while j < i
        invariant
            j <= i <= n,
            n == cs@.len(),
            v@ == cs@.take(j as int),
        decreases i - j,
    {
        v.push(cs[j]);
        assert(cs@.take(j as int + 1) =~= cs@.take(j as int).push(cs@[j as int]));
        j = j + 1;
    }
    string_from_chars(v.as_slice())
}

impl EditorSession {
    fn take_sel(&mut self) -> (ok: bool)
        ensures
            editor_stepped(*old(self), *final(self), ok, take_selection(old(self).work())),
    {
        match self.selection {
            None => true,
            Some(sel) => {
                let lo = if sel.0 <= sel.1 {
                    sel.0
                } else {
                    sel.1
                };
                let hi = if sel.0 <= sel.1 {
                    sel.1
                } else {
                    sel.0
                };
                if hi > rope_len_chars(&self.text) {
                    false
                } else {
                    rope_remove(&mut self.text, lo, hi);
                    self.cursor = lo;
                    self.selection = None;
                    true
                }
            },
        }
    }

    fn insert_str(&mut self, s: &str) -> (ok: bool)
        ensures
            editor_stepped(*old(self), *final(self), ok, insert_at_cursor(old(self).work(), s@)),
    {
        if self.cursor > rope_len_chars(&self.text) {
            return false;
        }
        rope_insert(&mut self.text, self.cursor, s);
        let nl = rope_len_chars(&self.text);
        let n = s.unicode_len();
        assert(self.cursor + n <= nl);
        self.cursor = self.cursor + n;
        self.changed_text = true;
        true
    }

    fn replace_sel(&mut self, s: &str) -> (ok: bool)
        ensures
            editor_stepped(*old(self), *final(self), ok, replace_selection(old(self).work(), s@)),
    {
        if !self.take_sel() {
            return false;
        }
        self.insert_str(s)
    }

    fn select_all(&mut self, keys: &EditKeys)
        ensures
            final(self).work() == select_all_step(old(self).work(), *keys),
            final(self).saved@ == old(self).saved@,
            final(self).copied == old(self).copied,
    {
        if keys.ctrl && keys.a {
            let len = rope_len_chars(&self.text);
            self.anchor = Some(0);
            self.selection = Some((0, len));
            self.cursor = len;
            self.changed_cursor = true;
        }
    }

    fn copy_cut(&mut self, keys: &EditKeys, ro: bool) -> (ok: bool)
        requires
            old(self).copied is None,
        ensures
            ok == (editor_copy_step(old(self).work(), *keys, ro) is Some),
            ok ==> final(self).work() == (editor_copy_step(old(self).work(), *keys, ro)->0).0,
            ok ==> opt_view(final(self).copied) == (editor_copy_step(old(self).work(), *keys, ro)->0).1,
            final(self).saved@ == old(self).saved@,
    {
        if keys.ctrl && (keys.c || (!ro && keys.x)) && self.selection.is_some() {
            let sel = self.selection.unwrap();
            let lo = if sel.0 <= sel.1 {
                sel.0
            } else {
                sel.1
            };
            let hi = if sel.0 <= sel.1 {
                sel.1
            } else {
                sel.0
            };
            if hi > rope_len_chars(&self.text) {
                return false;
            }
            let piece = {
                let sl = rope_slice(&self.text, lo, hi);
                slice_to_string(&sl)
            };
            self.copied = Some(piece);
            if keys.x && !ro {
                rope_remove(&mut self.text, lo, hi);
                self.cursor = lo;
                self.selection = None;
                self.anchor = None;
                self.changed_text = true;
            }
        }
        true
    }

    /// The cursor after a line-based key (3 up, 4 down, 5 home, 6 end).
    fn line_move(&self, branch: u8) -> (r: Option<usize>)
        requires
            3 <= branch <= 6,
            self.cursor <= rope_chars(self.text).len(),
        ensures
            match line_target(rope_chars(self.text), self.cursor as int, branch as int) {
                None => r is None,
                Some(t) => r == Some(t as usize) && 0 <= t <= rope_chars(self.text).len(),
            },
    {
        let t = &self.text;
        let c = self.cursor;
        let len = rope_len_chars(t);
        let l = rope_char_to_line(t, c);
        let start = rope_line_to_char(t, l);
        if branch == 3 {
            if l > 0 {
                let ps = rope_line_to_char(t, l - 1);
                let raw = {
                    let line = rope_line(t, l - 1);
                    slice_len_chars(&line)
                };
                if raw == 0 {
                    return None;
                }
                Some(ps + min_usize(c - start, raw - 1))
            } else {
                Some(0)
            }
        } else if branch == 4 {
            let count = rope_len_lines(t);
            if l + 1 < count {
                let ns = rope_line_to_char(t, l + 1);
                let raw = {
                    let line = rope_line(t, l + 1);
                    slice_len_chars(&line)
                };
                if raw == 0 {
                    return None;
                }
                Some(ns + min_usize(c - start, raw - 1))
            } else {
                Some(len)
            }
        } else if branch == 5 {
            Some(start)
        } else {
            let ll = {
                let line = rope_line(t, l);
                slice_len_chars(&line)
            };
            Some(
                start + if ll >= 1 {
                    ll - 1
                } else {
                    0
                },
            )
        }
    }

    fn nav(&mut self, keys: &EditKeys, start_cursor: usize) -> (ok: bool)
        ensures
            editor_stepped(*old(self), *final(self), ok, editor_nav_step(old(self).work(), *keys, start_cursor)),
    {
        let len = rope_len_chars(&self.text);
        let c: usize;
        if keys.left {
            c = if !keys.shift && self.selection.is_some() {
                let sel = self.selection.unwrap();
                if sel.0 <= sel.1 {
                    sel.0
                } else {
                    sel.1
                }
            } else if self.cursor > 0 {
                self.cursor - 1
            } else {
                self.cursor
            };
        } else if keys.right {
            c = if !keys.shift && self.selection.is_some() {
                let sel = self.selection.unwrap();
                if sel.0 <= sel.1 {
                    sel.1
                } else {
                    sel.0
                }
            } else if self.cursor < len {
                self.cursor + 1
            } else {
                self.cursor
            };
        } else if keys.up || keys.down || keys.home || keys.end {
            if self.cursor > len {
                return false;
            }
            let b: u8 = if keys.up {
                3
            } else if keys.down {
                4
            } else if keys.home {
                5
            } else {
                6
            };
            match self.line_move(b) {
                None => {
                    return false;
                },
                Some(t) => {
                    c = t;
                },
            }
        } else {
            return true;
        }
        self.cursor = c;
        self.changed_cursor = true;
        if keys.shift {
            if self.selection.is_none() || self.anchor.is_none() {
                self.anchor = Some(start_cursor);
            }
            let a = self.anchor.unwrap();
            self.selection = if a != c {
                Some((a, c))
            } else {
                None
            };
        } else {
            self.selection = None;
            self.anchor = None;
        }
        true
    }

    fn type_all(&mut self, keys: &EditKeys) -> (ok: bool)
        ensures
            editor_stepped(*old(self), *final(self), ok, editor_typed_all(old(self).work(), typed_view(*keys), keys.ctrl)),
    {
        let ghost w0 = self.work();
        let ghost evs = typed_view(*keys);
        let n = keys.typed.len();
        let mut i: usize = 0;
        assert(evs.take(0) =~= Seq::<Seq<char>>::empty());
        while i < n
            invariant
                n == keys.typed@.len(),
                evs == typed_view(*keys),
                evs.len() == n,
                i <= n,
                editor_typed_all(w0, evs.take(i as int), keys.ctrl) == Some(self.work()),
                self.saved@ == old(self).saved@,
                self.copied == old(self).copied,
                w0 == old(self).work(),
            decreases n - i,
        {
            let t = chars_of(keys.typed[i].as_str());
            proof {
                assert(evs.take(i as int + 1).drop_last() =~= evs.take(i as int));
                assert(evs.take(i as int + 1).last() == evs[i as int]);
                assert(evs[i as int] == t@);
                assert(keys.typed[i as int]@ == t@);
            }
            let is_space = t.len() == 1 && t[0] == ' ';
            proof {
                if is_space {
                    assert(t@ =~= seq![' ']);
                }
                if t@ == seq![' '] {
                    assert(t@[0] == ' ');
                }
            }
            if !keys.ctrl && t.len() > 0 && !is_space {
                if !self.replace_sel(keys.typed[i].as_str()) {
                    proof {
                        lemma_editor_typed_prefix_none(w0, evs, i as int + 1, keys.ctrl);
                    }
                    return false;
                }
            }
            i = i + 1;
        }
        assert(evs.take(n as int) =~= evs);
        true
    }

    fn enter(&mut self, keys: &EditKeys) -> (ok: bool)
        ensures
            editor_stepped(*old(self), *final(self), ok, editor_enter_step(old(self).work(), *keys)),
    {
        if !keys.enter {
            return true;
        }
        if !self.take_sel() {
            return false;
        }
        let len = rope_len_chars(&self.text);
        if self.cursor > len {
            return false;
        }
        let ghost w1 = self.work();
        let l = rope_char_to_line(&self.text, self.cursor);
        let indent = {
            let line = rope_line(&self.text, l);
            let s = slice_to_string(&line);
            indentation_of(s.as_str())
        };
        let ghost ind = indentation(line_chars(w1.chars, l as int));
        assert(indent@ == ind);
        rope_insert_char(&mut self.text, self.cursor, '\n');
        let nl1 = rope_len_chars(&self.text);
        assert(self.cursor + 1 <= nl1);
        self.cursor = self.cursor + 1;
        let n = indent.as_str().unicode_len();
        if n > 0 {
            rope_insert(&mut self.text, self.cursor, indent.as_str());
            let nl = rope_len_chars(&self.text);
            assert(self.cursor + n <= nl);
            self.cursor = self.cursor + n;
        }
        self.changed_text = true;
        assert(rope_chars(self.text) =~= put_in(w1.chars, w1.cursor as int, seq!['\n'] + ind));
        true
    }

    #[verifier::spinoff_prover]
    #[verifier::rlimit(40)]
    fn edit_all(&mut self, keys: &EditKeys, ro: bool, paste: &Option<String>) -> (ok: bool)
        ensures
            editor_stepped(*old(self), *final(self), ok, editor_edit_model(old(self).work(), *keys, ro, opt_view(*paste))),
    {
        if ro {
            return true;
        }
        if keys.ctrl && keys.v {
            match paste {
                Some(p) => {
                    if !self.replace_sel(p.as_str()) {
                        return false;
                    }
                },
                None => {},
            }
        }
        if keys.tab {
            let four = "    ";
            proof {
                reveal_strlit("    ");
            }
            assert(four@ =~= tab_text());
            if !self.replace_sel(four) {
                return false;
            }
        }
        if !self.type_all(keys) {
            return false;
        }
        if !self.enter(keys) {
            return false;
        }
        self.erase(keys)
    }

    fn erase(&mut self, keys: &EditKeys) -> (ok: bool)
        ensures
            editor_stepped(*old(self), *final(self), ok, editor_erase_step(old(self).work(), *keys)),
    {
        let len = rope_len_chars(&self.text);
        if keys.backspace {
            if self.selection.is_some() {
                if !self.take_sel() {
                    return false;
                }
                self.changed_text = true;
                true
            } else if self.cursor > 0 {
                if self.cursor <= len {
                    let ghost before = rope_chars(self.text);
                    rope_remove(&mut self.text, self.cursor - 1, self.cursor);
                    assert(rope_chars(self.text) =~= before.remove(self.cursor - 1));
                    self.cursor = self.cursor - 1;
                    self.changed_text = true;
                    true
                } else {
                    false
                }
            } else {
                true
            }
        } else if keys.delete {
            if self.selection.is_some() {
                if !self.take_sel() {
                    return false;
                }
                self.changed_text = true;
                true
            } else if self.cursor < len {
                let ghost before = rope_chars(self.text);
                rope_remove(&mut self.text, self.cursor, self.cursor + 1);
                assert(rope_chars(self.text) =~= before.remove(self.cursor as int));
                self.changed_text = true;
                true
            } else {
                true
            }
        } else if keys.space {
            if !self.take_sel() {
                return false;
            }
            let len1 = rope_len_chars(&self.text);
            if self.cursor > len1 {
                return false;
            }
            let ghost before = rope_chars(self.text);
            rope_insert_char(&mut self.text, self.cursor, ' ');
            assert(rope_chars(self.text) =~= put_in(before, self.cursor as int, seq![' ']));
            let nl1 = rope_len_chars(&self.text);
            assert(self.cursor + 1 <= nl1);
            self.cursor = self.cursor + 1;
            self.changed_text = true;
            true
        } else {
            true
        }
    }
}

proof fn lemma_editor_history_push(v: Seq<EditorState>, x: EditorState)
    ensures
        editor_history(v.push(x)) == editor_history(v).push(x@),
{
    assert(editor_history(v.push(x)) =~= editor_history(v).push(x@));
}

proof fn lemma_editor_history_pop(v: Seq<EditorState>)
    requires
        v.len() > 0,
    ensures
        editor_history(v.subrange(0, v.len() - 1)) == editor_history(v).drop_last(),
        editor_history(v).last() == v.last()@,
{
    assert(editor_history(v.subrange(0, v.len() - 1)) =~= editor_history(v).drop_last());
}

proof fn lemma_editor_history_drop_first(v: Seq<EditorState>)
    requires
        v.len() > 0,
    ensures
        editor_history(v.remove(0)) == editor_history(v).drop_first(),
{
    assert(editor_history(v.remove(0)) =~= editor_history(v).drop_first());
}

impl Default for RuiCodeEditor {
    /// An empty editor for Rust sources (`rs`), unfocused and with nothing to undo.
    fn default() -> (r: Self)
        ensures
            r@ == (CodeEditorView {
                text: Seq::empty(),
                language: seq!['r', 's'],
                placeholder: Seq::empty(),
                show_cursor: false,
                cursor_index: 0,
                readonly: false,
                selection: None,
                selection_anchor: None,
                cursor_moved: false,
                dragging_v_scroll: false,
                dragging_h_scroll: false,
                previous_cursor_index: 0,
                previous_text_len: 0,
                previous_focused: false,
                undo_stack: Seq::empty(),
                redo_stack: Seq::empty(),
            }),
    {
        let lang = "rs";
        proof {
            reveal_strlit("rs");
        }
        assert(lang@ =~= seq!['r', 's']);
        let r = RuiCodeEditor {
            text: rope_new(),
            language: lang.to_string(),
            placeholder: String::new(),
            show_cursor: false,
            cursor_index: 0,
            readonly: false,
            selection: None,
            selection_anchor: None,
            cursor_moved: false,
            dragging_v_scroll: false,
            dragging_h_scroll: false,
            previous_cursor_index: 0,
            previous_text_len: 0,
            previous_focused: false,
            undo_stack: Vec::new(),
            redo_stack: Vec::new(),
        };
        assert(r@.undo_stack =~= Seq::<StateView>::empty());
        assert(r@.redo_stack =~= Seq::<StateView>::empty());
        r
    }
}

impl RuiCodeEditor {
    /// An editor holding `initial_text`, for the language with file extension `language`.
    pub fn new(initial_text: &str, language: String) -> (r: Self)
        ensures
            r@ == (CodeEditorView {
                text: initial_text@,
                language: language@,
                placeholder: Seq::empty(),
                show_cursor: false,
                cursor_index: 0,
                readonly: false,
                selection: None,
                selection_anchor: None,
                cursor_moved: false,
                dragging_v_scroll: false,
                dragging_h_scroll: false,
                previous_cursor_index: 0,
                previous_text_len: 0,
                previous_focused: false,
                undo_stack: Seq::empty(),
                redo_stack: Seq::empty(),
            }),
    {
        let r = RuiCodeEditor {
            text: rope_from_str(initial_text),
            language,
            placeholder: String::new(),
            show_cursor: false,
            cursor_index: 0,
            readonly: false,
            selection: None,
            selection_anchor: None,
            cursor_moved: false,
            dragging_v_scroll: false,
            dragging_h_scroll: false,
            previous_cursor_index: 0,
            previous_text_len: 0,
            previous_focused: false,
            undo_stack: Vec::new(),
            redo_stack: Vec::new(),
        };
        assert(r@.undo_stack =~= Seq::<StateView>::empty());
        assert(r@.redo_stack =~= Seq::<StateView>::empty());
        r
    }

    fn start_cursor(&self) -> (r: usize)
        ensures
            r == editor_start_cursor(self@),
    {
        let len = rope_len_chars(&self.text);
        if self.cursor_index > len {
            len
        } else {
            self.cursor_index
        }
    }

    fn start_session(&self) -> (s: EditorSession)
        ensures
            s.work() == editor_initial_work(self@),
            s.saved@ == editor_saved_state(self@),
            s.copied is None,
    {
        let start_cursor = self.start_cursor();
        let saved = EditorState {
            text: rope_clone(&self.text),
            cursor_index: self.cursor_index,
            selection: self.selection,
        };
        EditorSession {
            text: rope_clone(&self.text),
            cursor: start_cursor,
            selection: self.selection,
            anchor: self.selection_anchor,
            changed_text: false,
            changed_cursor: false,
            undo_redo: false,
            saved,
            copied: None,
        }
    }

    fn peek_restore(&self, keys: &EditKeys, s: &mut EditorSession) -> (restore: u8)
        ensures
            ({
                let ur = undo_redo_step(
                    old(s).work(),
                    self@.undo_stack,
                    self@.redo_stack,
                    *keys,
                    self.readonly,
                    old(s).saved@,
                );
                &&& final(s).work() == ur.0
                &&& final(s).saved@ == old(s).saved@
                &&& final(s).copied == old(s).copied
                &&& restore <= 2
                &&& restore == 0 ==> ur.1 == self@.undo_stack && ur.2 == self@.redo_stack
                &&& restore == 1 ==> self.undo_stack@.len() > 0 && ur.1 == self@.undo_stack.drop_last()
                    && ur.2 == self@.redo_stack.push(old(s).saved@)
                &&& restore == 2 ==> self.redo_stack@.len() > 0 && ur.1 == self@.undo_stack.push(
                    old(s).saved@,
                ) && ur.2 == self@.redo_stack.drop_last()
            }),
    {
        let ro = self.readonly;
        if keys.ctrl && keys.z && !ro {
            let n = self.undo_stack.len();
            if n > 0 {
                let st = &self.undo_stack[n - 1];
                proof {
                    lemma_editor_history_pop(self.undo_stack@);
                }
                s.text = rope_clone(&st.text);
                s.cursor = st.cursor_index;
                s.selection = st.selection;
                s.anchor = None;
                s.changed_text = true;
                s.undo_redo = true;
                return 1;
            }
            0
        } else if keys.ctrl && keys.y && !ro {
            let n = self.redo_stack.len();
            if n > 0 {
                let st = &self.redo_stack[n - 1];
                proof {
                    lemma_editor_history_pop(self.redo_stack@);
                }
                s.text = rope_clone(&st.text);
                s.cursor = st.cursor_index;
                s.selection = st.selection;
                s.anchor = None;
                s.changed_text = true;
                s.undo_redo = true;
                return 2;
            }
            0
        } else {
            0
        }
    }

    fn apply_restore(&mut self, restore: u8, saved: &EditorState)
        requires
            restore == 1 ==> old(self).undo_stack@.len() > 0,
            restore == 2 ==> old(self).redo_stack@.len() > 0,
        ensures
            final(self)@ == (if restore == 1 {
                CodeEditorView {
                    undo_stack: old(self)@.undo_stack.drop_last(),
                    redo_stack: old(self)@.redo_stack.push(saved@),
                    ..old(self)@
                }
            } else if restore == 2 {
                CodeEditorView {
                    undo_stack: old(self)@.undo_stack.push(saved@),
                    redo_stack: old(self)@.redo_stack.drop_last(),
                    ..old(self)@
                }
            } else {
                old(self)@
            }),
    {
        if restore == 1 {
            let saved_copy = saved.copy_state();
            proof {
                lemma_editor_history_pop(self.undo_stack@);
                lemma_editor_history_push(self.redo_stack@, saved_copy);
            }
            let _ = self.undo_stack.pop();
            self.redo_stack.push(saved_copy);
        } else if restore == 2 {
            let saved_copy = saved.copy_state();
            proof {
                lemma_editor_history_pop(self.redo_stack@);
                lemma_editor_history_push(self.undo_stack@, saved_copy);
            }
            let _ = self.redo_stack.pop();
            self.undo_stack.push(saved_copy);
        }
    }

    /// The command part of a frame: undo/redo, select all, copy/cut and the cursor keys. Fails
    /// (and changes nothing) exactly where a cursor or selection reaches past the end of the text
    /// or a line-length computation goes below zero.
    pub fn begin_edit(&mut self, keys: &EditKeys) -> (r: Result<EditorSession, TextEditFault>)
        ensures
            match editor_begin_model(old(self)@, *keys) {
                None => r is Err && final(self)@ == old(self)@,
                Some((w, undo, redo, copied)) => {
                    &&& r is Ok
                    &&& r->Ok_0.work() == w
                    &&& r->Ok_0.saved@ == editor_saved_state(old(self)@)
                    &&& opt_view(r->Ok_0.copied) == copied
                    &&& final(self)@ == CodeEditorView {
                        undo_stack: undo,
                        redo_stack: redo,
                        ..old(self)@
                    }
                },
            },
    {
        let mut s = self.start_session();
        let start_cursor = self.start_cursor();
        let restore = self.peek_restore(keys, &mut s);
        s.select_all(keys);
        if !s.copy_cut(keys, self.readonly) {
            return Err(TextEditFault::OutOfRange);
        }
        if !s.nav(keys, start_cursor) {
            return Err(TextEditFault::OutOfRange);
        }
        self.apply_restore(restore, &s.saved);
        Ok(s)
    }

    /// The editing part of a frame (paste, Tab, typed text, Enter with indentation,
    /// Backspace/Delete/Space), committed to the editor with its undo history. Returns whether
    /// anything changed. Fails (and changes nothing) exactly where a selection reaches past the
    /// end of the text.
    pub fn finish_edit(&mut self, session: EditorSession, keys: &EditKeys, paste: Option<String>) -> (r:
        Result<bool, TextEditFault>)
        ensures
            match editor_edit_model(session.work(), *keys, old(self).readonly, opt_view(paste)) {
                None => r is Err && final(self)@ == old(self)@,
                Some(w) => {
                    &&& r == Ok::<bool, TextEditFault>(w.changed_text || w.changed_cursor)
                    &&& final(self)@ == editor_commit_model(
                        old(self)@,
                        w,
                        old(self)@.undo_stack,
                        old(self)@.redo_stack,
                        session.saved@,
                    )
                },
            },
    {
        let mut s = session;
        if !s.edit_all(keys, self.readonly, &paste) {
            return Err(TextEditFault::OutOfRange);
        }
        let changed = s.changed_text || s.changed_cursor;
        if changed {
            if s.changed_text && !s.undo_redo {
                if !rope_eq(&s.text, &s.saved.text) {
                    let saved_copy = s.saved.copy_state();
                    let ghost u0 = self.undo_stack@;
                    self.undo_stack.push(saved_copy);
                    proof {
                        lemma_editor_history_push(u0, saved_copy);
                    }
                    if self.undo_stack.len() > UNDO_LIMIT {
                        let ghost u1 = self.undo_stack@;
                        self.undo_stack.remove(0);
                        proof {
                            lemma_editor_history_drop_first(u1);
                        }
                    }
                    self.redo_stack.clear();
                    assert(editor_history(self.redo_stack@) =~= Seq::<StateView>::empty());
                }
            }
            self.cursor_index = s.cursor;
            self.show_cursor = true;
        }
        self.text = s.text;
        self.selection = s.selection;
        self.selection_anchor = s.anchor;
        Ok(changed)
    }
}

/// The editor after an abandoned frame: unchanged, but for an undo or redo already taken in the
/// frame's first part, which stays in the histories.
pub open spec fn editor_after_fault(ed: CodeEditorView, k: EditKeys) -> CodeEditorView {
    match editor_begin_model(ed, k) {
        None => ed,
        Some((_w, undo, redo, _copied)) => CodeEditorView { undo_stack: undo, redo_stack: redo, ..ed },
    }
}

/// One frame of keyboard input to the focused code editor: copied text goes to the clipboard,
/// Ctrl+V reads it, and the edit is applied. Returns whether the text or the cursor changed; an
/// error where a cursor or selection reaches past the end of the text or a line-length
/// computation goes below zero; the editor is then left as `editor_after_fault` says.
/// A frame that copies nothing and reads no paste (an editable box with Ctrl+V) leaves the
/// clipboard alone.
pub fn handle_code_editor_input(editor: &mut RuiCodeEditor, keys: &EditKeys, clipboard: &mut RuiClipboard) -> (r:
    Result<bool, TextEditFault>)
    ensures
        exists|p: Option<Seq<char>>|
            #![trigger editor_step(old(editor)@, *keys, p)]
            {
                &&& (p is Some <==> (!old(editor).readonly && keys.ctrl && keys.v
                    && editor_begin_model(old(editor)@, *keys) is Some))
                &&& match editor_step(old(editor)@, *keys, p) {
                    None => r is Err && final(editor)@ == editor_after_fault(old(editor)@, *keys),
                    Some(t) => r == Ok::<bool, TextEditFault>(
                        editor_step_changed(old(editor)@, *keys, p),
                    ) && final(editor)@ == t,
                }
            },
        match editor_copied(old(editor)@, *keys) {
            Some(c) => final(clipboard).local_buffer@ == c,
            None => final(clipboard).local_buffer == old(clipboard).local_buffer,
        },
        editor_copied(old(editor)@, *keys) is None && !(!old(editor).readonly && keys.ctrl && keys.v
            && editor_begin_model(old(editor)@, *keys) is Some) ==> *final(clipboard) == *old(clipboard),
{
    let ghost ed0 = editor@;
    let session = match editor.begin_edit(keys) {
        Ok(s) => s,
        Err(e) => {
            assert(editor_step(ed0, *keys, None) is None);
            return Err(e);
        },
    };
    let ghost mid = editor@;
    match &session.copied {
        Some(c) => {
            clipboard.set_text(c.clone());
        },
        None => {},
    }
    let paste = if !editor.readonly && keys.ctrl && keys.v {
        clipboard.get_text()
    } else {
        None
    };
    let r = editor.finish_edit(session, keys, paste);
    proof {
        let p = opt_view(paste);
        let (w, undo, redo, copied) = editor_begin_model(ed0, *keys)->0;
        assert(mid == CodeEditorView { undo_stack: undo, redo_stack: redo, ..ed0 });
        match editor_edit_model(w, *keys, ed0.readonly, p) {
            None => {},
            Some(w2) => {
                assert(editor_commit_model(mid, w2, undo, redo, editor_saved_state(ed0))
                    == editor_commit_model(ed0, w2, undo, redo, editor_saved_state(ed0)));
            },
        }
        assert(editor_step(ed0, *keys, p) == editor_step(old(editor)@, *keys, p));
    }
    r
}

} // verus!

verus! {

// ---------------------------------------------------------------------------------------------
// Pointer input, gutter and layout in character units.
/// The character position that a click on line `target_line` (clamped to the last line),
/// column `column` selects: the column is clamped to the line, its line break left out except
/// on the last line.
pub open spec fn editor_click_target(t: Seq<char>, target_line: int, column: int) -> int {
    let total = rope_line_count(t);
    let tl = if target_line <= total - 1 {
        target_line
    } else {
        total - 1
    };
    let start = rope_line_start(t, tl);
    let ll = rope_line_start(t, tl + 1) - start;
    let clean = if tl < total - 1 && ll > 0 {
        ll - 1
    } else {
        ll
    };
    start + min_int(column, clean)
}

/// The decimal digit `d`.
pub open spec fn digit_char(d: int) -> char {
    if d == 0 {
        '0'
    } else if d == 1 {
        '1'
    } else if d == 2 {
        '2'
    } else if d == 3 {
        '3'
    } else if d == 4 {
        '4'
    } else if d == 5 {
        '5'
    } else if d == 6 {
        '6'
    } else if d == 7 {
        '7'
    } else if d == 8 {
        '8'
    } else {
        '9'
    }
}

/// The decimal numeral of `n`.
pub open spec fn decimal(n: nat) -> Seq<char>
    decreases n,
{
    if n < 10 {
        seq![digit_char(n as int)]
    } else {
        decimal(n / 10).push(digit_char((n % 10) as int))
    }
}

/// The gutter's text: the numbers 1 to `n`, each followed by a line break.
pub open spec fn gutter(n: nat) -> Seq<char>
    decreases n,
{
    if n == 0 {
        Seq::empty()
    } else {
        gutter((n - 1) as nat) + decimal(n) + seq!['\n']
    }
}

/// The number of characters of `s` other than line feeds and carriage returns.
pub open spec fn visible_count(s: Seq<char>) -> int
    decreases s.len(),
{
    if s.len() == 0 {
        0
    } else {
        visible_count(s.drop_last()) + if s.last() == '\n' || s.last() == '\r' {
            0int
        } else {
            1int
        }
    }
}

/// The largest [`visible_count`] of the lines from `i` on, at least `best`.
pub open spec fn widest_line_from(t: Seq<char>, i: int, best: int) -> int
    decreases rope_line_count(t) - i,
{
    if i < 0 || i >= rope_line_count(t) {
        best
    } else {
        let v = visible_count(line_chars(t, i));
        widest_line_from(
            t,
            i + 1,
            if v > best {
                v
            } else {
                best
            },
        )
    }
}

fn digit_exec(d: usize) -> (c: char)
    requires
        d < 10,
    ensures
        c == digit_char(d as int),
{
    if d == 0 {
        '0'
    } else if d == 1 {
        '1'
    } else if d == 2 {
        '2'
    } else if d == 3 {
        '3'
    } else if d == 4 {
        '4'
    } else if d == 5 {
        '5'
    } else if d == 6 {
        '6'
    } else if d == 7 {
        '7'
    } else if d == 8 {
        '8'
    } else {
        '9'
    }
}

fn push_decimal(out: &mut Vec<char>, n: usize)
    ensures
        final(out)@ == old(out)@ + decimal(n as nat),
    decreases n,
{
    if n >= 10 {
        push_decimal(out, n / 10);
    }
    out.push(digit_exec(n % 10));
    proof {
        if n >= 10 {
            assert(old(out)@ + decimal(n as nat) =~= old(out)@ + decimal((n / 10) as nat) + seq![
                digit_char((n % 10) as int),
            ]);
        }
    }
}

/// The gutter's text for `n` lines: "1\n2\n...n\n".
pub fn gutter_text(n: usize) -> (r: String)
    ensures
        r@ == gutter(n as nat),
{
    let mut out: Vec<char> = Vec::new();
    let mut i: usize = 0;
    while i < n
        invariant
            i <= n,
            out@ == gutter(i as nat),
        decreases n - i,
    {
        i = i + 1;
        let ghost before = out@;
        push_decimal(&mut out, i);
        out.push('\n');
        assert(out@ =~= gutter(i as nat));
    }
    string_from_chars(out.as_slice())
}

fn visible_count_exec(s: &str) -> (r: usize)
    ensures
        r as int == visible_count(s@),
{
    let cs = chars_of(s);
    let n = cs.len();
    let mut k: usize = 0;
    let mut i: usize = 0;
    while i < n
        invariant
            n == cs@.len(),
            i <= n,
            k <= i,
            k as int == visible_count(cs@.take(i as int)),
        decreases n - i,
    {
        assert(cs@.take(i as int + 1).drop_last() =~= cs@.take(i as int));
        if cs[i] != '\n' && cs[i] != '\r' {
            k = k + 1;
        }
        i = i + 1;
    }
    assert(cs@.take(n as int) =~= cs@);
    k
}

impl RuiCodeEditor {
    /// The character position a click on `target_line`, `column` selects (see
    /// [`editor_click_target`]).
    pub fn click_index(&self, target_line: usize, column: usize) -> (r: usize)
        ensures
            r as int == editor_click_target(rope_chars(self.text), target_line as int, column as int),
    {
        let t = &self.text;
        let total = rope_len_lines(t);
        let tl = if target_line <= total - 1 {
            target_line
        } else {
            total - 1
        };
        let start = rope_line_to_char(t, tl);
        let ll = {
            let line = rope_line(t, tl);
            slice_len_chars(&line)
        };
        let len = rope_len_chars(t);
        assert(start + ll <= len);
        let clean = if tl < total - 1 && ll > 0 {
            ll - 1
        } else {
            ll
        };
        let m = min_usize(column, clean);
        assert(m <= clean);
        start + m
    }

    /// Places the cursor at a clicked position: a fresh press starts a new selection anchor,
    /// dragging selects from the anchor.
    pub fn apply_click(&mut self, clicked_idx: usize, fresh_press: bool)
        ensures
            ({
                &&& fresh_press ==> final(self)@ == CodeEditorView {
                    selection_anchor: Some(clicked_idx),
                    cursor_index: clicked_idx,
                    selection: None,
                    show_cursor: true,
                    ..old(self)@
                }
                &&& (!fresh_press && old(self).selection_anchor is Some) ==> final(self)@
                    == CodeEditorView {
                    cursor_index: clicked_idx,
                    selection: if old(self).selection_anchor->0 != clicked_idx {
                        Some((old(self).selection_anchor->0, clicked_idx))
                    } else {
                        None
                    },
                    show_cursor: true,
                    ..old(self)@
                }
                &&& (!fresh_press && old(self).selection_anchor is None) ==> final(self)@
                    == CodeEditorView { show_cursor: true, ..old(self)@ }
            }),
    {
        if fresh_press {
            self.selection_anchor = Some(clicked_idx);
            self.cursor_index = clicked_idx;
            self.selection = None;
        } else if let Some(anchor) = self.selection_anchor {
            self.cursor_index = clicked_idx;
            self.selection = if anchor != clicked_idx {
                Some((anchor, clicked_idx))
            } else {
                None
            };
        }
        self.show_cursor = true;
    }

    /// The line of the cursor (clamped to the text) and its column within that line.
    pub fn cursor_line_col(&self) -> (r: (usize, usize))
        ensures
            ({
                let t = rope_chars(self.text);
                let c = editor_start_cursor(self@);
                r.0 as int == rope_line_of(t, c as int) && r.1 as int == c - rope_line_start(t, r.0 as int)
            }),
    {
        let c = self.start_cursor();
        let l = rope_char_to_line(&self.text, c);
        let start = rope_line_to_char(&self.text, l);
        (l, c - start)
    }

    /// The number of lines.
    pub fn line_count(&self) -> (r: usize)
        ensures
            r == rope_line_count(rope_chars(self.text)),
            r >= 1,
    {
        rope_len_lines(&self.text)
    }

    /// The widest line's count of characters other than line breaks, at least 1.
    pub fn widest_line(&self) -> (r: usize)
        ensures
            r as int == widest_line_from(rope_chars(self.text), 0, 1),
    {
        let t = &self.text;
        let total = rope_len_lines(t);
        let mut best: usize = 1;
        let mut i: usize = 0;
        while i < total
            invariant
                total == rope_line_count(rope_chars(*t)),
                i <= total,
                widest_line_from(rope_chars(*t), 0, 1) == widest_line_from(rope_chars(*t), i as int, best as int),
            decreases total - i,
        {
            let v = {
                let line = rope_line(t, i);
                let s = slice_to_string(&line);
                visible_count_exec(s.as_str())
            };
            if v > best {
                best = v;
            }
            i = i + 1;
        }
        best
    }
}

// ---------------------------------------------------------------------------------------------
// Laws of the code editor.
pub open spec fn editor_history_keys(k: EditKeys, z: bool) -> bool {
    &&& k.ctrl
    &&& k.z == z
    &&& k.y == !z
    &&& !k.shift && !k.a && !k.c && !k.x && !k.v && !k.tab
    &&& !k.left && !k.right && !k.up && !k.down && !k.home && !k.end
    &&& !k.enter && !k.backspace && !k.delete && !k.space
    &&& typed_view(k).len() == 0
}

proof fn lemma_editor_typed_keeps_undo_redo(w: EditWork, evs: Seq<Seq<char>>, ctrl: bool)
    requires
        editor_typed_all(w, evs, ctrl) is Some,
    ensures
        editor_typed_all(w, evs, ctrl)->0.undo_redo == w.undo_redo,
    decreases evs.len(),
{
    if evs.len() > 0 {
        lemma_editor_typed_keeps_undo_redo(w, evs.drop_last(), ctrl);
    }
}

proof fn lemma_editor_edit_keeps_undo_redo(w: EditWork, k: EditKeys, readonly: bool, paste: Option<Seq<char>>)
    requires
        editor_edit_model(w, k, readonly, paste) is Some,
    ensures
        editor_edit_model(w, k, readonly, paste)->0.undo_redo == w.undo_redo,
{
    if !readonly {
        let w1 = if k.ctrl && k.v && paste is Some {
            replace_selection(w, paste->0)->0
        } else {
            w
        };
        let w2 = if k.tab {
            replace_selection(w1, tab_text())->0
        } else {
            w1
        };
        lemma_editor_typed_keeps_undo_redo(w2, typed_view(k), k.ctrl);
    }
}

/// Law (what undo gives back): when a frame that is not itself an undo or redo changes the
/// text of an editable code editor, a following frame that presses only Ctrl+Z restores the
/// text, the cursor and the selection that the editor had before that frame.
pub proof fn law_editor_undo_restores(ed: CodeEditorView, k: EditKeys, p: Option<Seq<char>>, u: EditKeys)
    requires
        !ed.readonly,
        !(k.ctrl && (k.z || k.y)),
        editor_step(ed, k, p) is Some,
        editor_step(ed, k, p)->0.text != ed.text,
        editor_history_keys(u, true),
    ensures
        editor_step(editor_step(ed, k, p)->0, u, None) is Some,
        editor_step(editor_step(ed, k, p)->0, u, None)->0.text == ed.text,
        editor_step(editor_step(ed, k, p)->0, u, None)->0.cursor_index == ed.cursor_index,
        editor_step(editor_step(ed, k, p)->0, u, None)->0.selection == ed.selection,
{
    let t = editor_step(ed, k, p)->0;
    let (w, undo, redo, copied) = editor_begin_model(ed, k)->0;
    let w2 = editor_edit_model(w, k, ed.readonly, p)->0;
    assert(!w.undo_redo);
    lemma_editor_edit_keeps_undo_redo(w, k, ed.readonly, p);
    assert(t == editor_commit_model(ed, w2, undo, redo, editor_saved_state(ed)));
    assert(undo == ed.undo_stack);
    let undo1 = undo.push(editor_saved_state(ed));
    assert(w2.chars != ed.text);
    assert(w2.changed_text) by {
        if !w2.changed_text {
            // Without a change of text the characters are the ones of the frame's start.
            lemma_editor_unchanged_text(ed, k, p);
        }
    }
    assert(t.undo_stack.last() == editor_saved_state(ed)) by {
        if undo1.len() > UNDO_LIMIT {
            assert(undo1.drop_first().last() == undo1.last());
        }
    }
    assert(typed_view(u) =~= Seq::<Seq<char>>::empty());
    let b = editor_begin_model(t, u);
    assert(b is Some);
    let (wb, _ub, _rb, _cb) = b->0;
    assert(editor_edit_model(wb, u, t.readonly, None) == Some(wb));
}

/// A frame of an editable editor that does not mark its text as changed leaves the text as it
/// was (every change of characters marks it).
proof fn lemma_editor_unchanged_text(ed: CodeEditorView, k: EditKeys, p: Option<Seq<char>>)
    requires
        !(k.ctrl && (k.z || k.y)),
        editor_step(ed, k, p) is Some,
    ensures
        ({
            let (w, u, r, c) = editor_begin_model(ed, k)->0;
            let w2 = editor_edit_model(w, k, ed.readonly, p)->0;
            !w2.changed_text ==> w2.chars == ed.text
        }),
{
    let (w, u, r, c) = editor_begin_model(ed, k)->0;
    lemma_editor_edit_unchanged(w, k, ed.readonly, p);
}

proof fn lemma_editor_typed_unchanged(w: EditWork, evs: Seq<Seq<char>>, ctrl: bool)
    requires
        editor_typed_all(w, evs, ctrl) is Some,
    ensures
        !editor_typed_all(w, evs, ctrl)->0.changed_text ==> editor_typed_all(w, evs, ctrl)->0.chars
            == w.chars && !w.changed_text,
        w.changed_text ==> editor_typed_all(w, evs, ctrl)->0.changed_text,
    decreases evs.len(),
{
    if evs.len() > 0 {
        lemma_editor_typed_unchanged(w, evs.drop_last(), ctrl);
    }
}

proof fn lemma_editor_edit_unchanged(w: EditWork, k: EditKeys, readonly: bool, paste: Option<Seq<char>>)
    requires
        editor_edit_model(w, k, readonly, paste) is Some,
    ensures
        !editor_edit_model(w, k, readonly, paste)->0.changed_text ==> editor_edit_model(
            w,
            k,
            readonly,
            paste,
        )->0.chars == w.chars && !w.changed_text,
{
    if !readonly {
        let w1 = if k.ctrl && k.v && paste is Some {
            replace_selection(w, paste->0)->0
        } else {
            w
        };
        let w2 = if k.tab {
            replace_selection(w1, tab_text())->0
        } else {
            w1
        };
        lemma_editor_typed_unchanged(w2, typed_view(k), k.ctrl);
    }
}

/// Law: once the editor's undo and redo histories together hold at most `UNDO_LIMIT` states, no
/// frame of input makes them hold more.
pub proof fn law_editor_history_bounded(ed: CodeEditorView, k: EditKeys, p: Option<Seq<char>>)
    requires
        ed.undo_stack.len() + ed.redo_stack.len() <= UNDO_LIMIT,
        editor_step(ed, k, p) is Some,
    ensures
        editor_step(ed, k, p)->0.undo_stack.len() + editor_step(ed, k, p)->0.redo_stack.len() <= UNDO_LIMIT,
{
    let (w, undo, redo, copied) = editor_begin_model(ed, k)->0;
    assert(undo.len() + redo.len() == ed.undo_stack.len() + ed.redo_stack.len());
}

/// Law: the text of a read-only code editor never changes.
pub proof fn law_editor_readonly_keeps_text(ed: CodeEditorView, k: EditKeys, p: Option<Seq<char>>)
    requires
        ed.readonly,
        editor_step(ed, k, p) is Some,
    ensures
        editor_step(ed, k, p)->0.text == ed.text,
{
    let (w, undo, redo, copied) = editor_begin_model(ed, k)->0;
    assert(w.chars == ed.text);
}

/// Law (auto-indentation): a frame that presses only Enter, with no selection and the cursor
/// within the text, puts a line break at the cursor followed by the indentation of the cursor's
/// line, and leaves the cursor after that indentation.
pub proof fn law_enter_keeps_indentation(ed: CodeEditorView, k: EditKeys)
    requires
        !ed.readonly,
        ed.selection is None,
        ed.cursor_index <= ed.text.len(),
        k.enter,
        !k.ctrl && !k.shift && !k.tab,
        !k.left && !k.right && !k.up && !k.down && !k.home && !k.end,
        !k.backspace && !k.delete && !k.space,
        typed_view(k).len() == 0,
        ed.text.len() + 1 + indentation(
            line_chars(ed.text, rope_line_of(ed.text, ed.cursor_index as int)),
        ).len() <= usize::MAX,
    ensures
        editor_step(ed, k, None) is Some,
        ({
            let c = ed.cursor_index as int;
            let ind = indentation(line_chars(ed.text, rope_line_of(ed.text, c)));
            &&& editor_step(ed, k, None)->0.text == put_in(ed.text, c, seq!['\n'] + ind)
            &&& editor_step(ed, k, None)->0.cursor_index == c + 1 + ind.len()
        }),
{
    assert(typed_view(k) =~= Seq::<Seq<char>>::empty());
    let (w, undo, redo, copied) = editor_begin_model(ed, k)->0;
    assert(w.chars == ed.text);
    assert(w.cursor == ed.cursor_index);
    assert(editor_typed_all(w, typed_view(k), k.ctrl) == Some(w));
    assert(take_selection(w) == Some(w));
    let c = ed.cursor_index as int;
    let ind = indentation(line_chars(ed.text, rope_line_of(ed.text, c)));
    let w4 = insert_at_cursor(w, seq!['\n'] + ind)->0;
    assert(editor_enter_step(w, k) == Some(w4));
    assert(editor_erase_step(w4, k) == Some(w4));
    assert(editor_edit_model(w, k, ed.readonly, None) == Some(w4));
    assert((seq!['\n'] + ind).len() == 1 + ind.len());
}

/// The editor's cursor and selection lie within its text, and so do those of every state in its
/// undo and redo histories.
pub open spec fn editor_within(ed: CodeEditorView) -> bool {
    &&& positions_within(ed.text, ed.cursor_index, ed.selection)
    &&& forall|i: int| 0 <= i < ed.undo_stack.len() ==> state_within(#[trigger] ed.undo_stack[i])
    &&& forall|i: int| 0 <= i < ed.redo_stack.len() ==> state_within(#[trigger] ed.redo_stack[i])
}

/// A frame that extends a selection with Shift from a position past the end of the text: from
/// the selection's anchor, or from where the cursor was when the frame began after an undo, redo
/// or cut earlier in the same frame has left a text shorter than that.
pub open spec fn stale_shift_anchor(ed: CodeEditorView, k: EditKeys) -> bool {
    let w0 = editor_initial_work(ed);
    let w1 = undo_redo_step(w0, ed.undo_stack, ed.redo_stack, k, ed.readonly, editor_saved_state(ed)).0;
    match editor_copy_step(select_all_step(w1, k), k, ed.readonly) {
        None => false,
        Some((w3, _copied)) => k.shift && editor_nav_branch(k) != 0 && if w3.selection is None
            || w3.anchor is None {
            w0.cursor > w3.chars.len()
        } else {
            w3.anchor->0 > w3.chars.len()
        },
    }
}

proof fn lemma_line_target_within(t: Seq<char>, c: int, branch: int)
    requires
        0 <= c <= t.len(),
        3 <= branch <= 6,
        line_target(t, c, branch) is Some,
    ensures
        0 <= line_target(t, c, branch)->0 <= t.len(),
{
    lemma_line_facts(t);
    let l = rope_line_of(t, c);
    let start = rope_line_start(t, l);
    assert(0 <= l < rope_line_count(t) && start <= c);
    if branch == 3 && l > 0 {
        assert(rope_line_start(t, l - 1) <= start);
    } else if branch == 4 && l + 1 < rope_line_count(t) {
        assert(rope_line_start(t, l + 1) <= rope_line_start(t, l + 2));
        assert(rope_line_start(t, l + 2) <= t.len());
    } else if branch == 6 {
        assert(start <= rope_line_start(t, l + 1));
        assert(rope_line_start(t, l + 1) <= t.len());
    }
}

proof fn lemma_replace_within(w: EditWork, s: Seq<char>)
    requires
        positions_within(w.chars, w.cursor, w.selection),
        replace_selection(w, s) is Some,
    ensures
        ({
            let r = replace_selection(w, s)->0;
            positions_within(r.chars, r.cursor, r.selection)
        }),
{
    let w1 = take_selection(w)->0;
    assert(w1.cursor <= w1.chars.len() && w1.selection is None);
    let r = insert_at_cursor(w1, s)->0;
    assert(r.chars.len() == w1.chars.len() + s.len());
}

proof fn lemma_typed_within(w: EditWork, evs: Seq<Seq<char>>, ctrl: bool)
    requires
        positions_within(w.chars, w.cursor, w.selection),
        editor_typed_all(w, evs, ctrl) is Some,
    ensures
        ({
            let r = editor_typed_all(w, evs, ctrl)->0;
            positions_within(r.chars, r.cursor, r.selection)
        }),
    decreases evs.len(),
{
    if evs.len() > 0 {
        lemma_typed_within(w, evs.drop_last(), ctrl);
        let w1 = editor_typed_all(w, evs.drop_last(), ctrl)->0;
        if types_text(evs.last(), ctrl) {
            lemma_replace_within(w1, evs.last());
        }
    }
}

proof fn lemma_edit_within(w: EditWork, k: EditKeys, readonly: bool, paste: Option<Seq<char>>)
    requires
        positions_within(w.chars, w.cursor, w.selection),
        editor_edit_model(w, k, readonly, paste) is Some,
    ensures
        ({
            let r = editor_edit_model(w, k, readonly, paste)->0;
            positions_within(r.chars, r.cursor, r.selection)
        }),
{
    if !readonly {
        let w1 = if k.ctrl && k.v && paste is Some {
            lemma_replace_within(w, paste->0);
            replace_selection(w, paste->0)->0
        } else {
            w
        };
        let w2 = if k.tab {
            lemma_replace_within(w1, tab_text());
            replace_selection(w1, tab_text())->0
        } else {
            w1
        };
        lemma_typed_within(w2, typed_view(k), k.ctrl);
        let w3 = editor_typed_all(w2, typed_view(k), k.ctrl)->0;
        let w4 = editor_enter_step(w3, k)->0;
        if k.enter {
            let t = take_selection(w3)->0;
            let l = rope_line_of(t.chars, t.cursor as int);
            let ind = indentation(line_chars(t.chars, l));
            let e = insert_at_cursor(t, seq!['\n'] + ind)->0;
            assert(e.chars.len() == t.chars.len() + (seq!['\n'] + ind).len());
        }
        if !k.backspace && !k.delete && k.space {
            lemma_replace_within(w4, seq![' ']);
        }
    }
}

proof fn lemma_begin_within(ed: CodeEditorView, k: EditKeys)
    requires
        editor_within(ed),
        !stale_shift_anchor(ed, k),
        editor_begin_model(ed, k) is Some,
    ensures
        ({
            let (w, undo, redo, _copied) = editor_begin_model(ed, k)->0;
            &&& positions_within(w.chars, w.cursor, w.selection)
            &&& forall|i: int| 0 <= i < undo.len() ==> state_within(#[trigger] undo[i])
            &&& forall|i: int| 0 <= i < redo.len() ==> state_within(#[trigger] redo[i])
            &&& !w.changed_text ==> w.chars == ed.text
        }),
{
    let w0 = editor_initial_work(ed);
    let saved = editor_saved_state(ed);
    let (w1, u1, r1) = undo_redo_step(w0, ed.undo_stack, ed.redo_stack, k, ed.readonly, saved);
    assert(state_within(saved));
    assert(positions_within(w1.chars, w1.cursor, w1.selection)) by {
        if k.ctrl && k.z && !ed.readonly && ed.undo_stack.len() > 0 {
            assert(state_within(ed.undo_stack[ed.undo_stack.len() - 1]));
        } else if k.ctrl && k.y && !ed.readonly && ed.redo_stack.len() > 0 {
            assert(state_within(ed.redo_stack[ed.redo_stack.len() - 1]));
        }
    }
    assert forall|i: int| 0 <= i < u1.len() implies state_within(#[trigger] u1[i]) by {
        if k.ctrl && k.z && !ed.readonly && ed.undo_stack.len() > 0 {
            assert(u1[i] == ed.undo_stack[i]);
        } else if k.ctrl && k.y && !ed.readonly && ed.redo_stack.len() > 0 {
            if i < ed.undo_stack.len() {
                assert(u1[i] == ed.undo_stack[i]);
            }
        }
    }
    assert forall|i: int| 0 <= i < r1.len() implies state_within(#[trigger] r1[i]) by {
        if k.ctrl && k.z && !ed.readonly && ed.undo_stack.len() > 0 {
            if i < ed.redo_stack.len() {
                assert(r1[i] == ed.redo_stack[i]);
            }
        } else if k.ctrl && k.y && !ed.readonly && ed.redo_stack.len() > 0 {
            assert(r1[i] == ed.redo_stack[i]);
        }
    }
    let w2 = select_all_step(w1, k);
    let (w3, copied) = editor_copy_step(w2, k, ed.readonly)->0;
    assert(positions_within(w3.chars, w3.cursor, w3.selection));
    let b = editor_nav_branch(k);
    if b >= 3 {
        if w3.cursor <= w3.chars.len() && line_target(w3.chars, w3.cursor as int, b) is Some {
            lemma_line_target_within(w3.chars, w3.cursor as int, b);
        }
    }
}

/// Law: positions stay within the text. When the editor's cursor and selection lie within its
/// text, and those of every saved state within that state's text, the same holds after any
/// frame of input, except a frame that extends a selection with Shift from a position past the
/// end of the text (a stale anchor, or a start left behind by an undo, redo or cut in the same
/// frame).
pub proof fn law_editor_positions_within(ed: CodeEditorView, k: EditKeys, p: Option<Seq<char>>)
    requires
        editor_within(ed),
        !stale_shift_anchor(ed, k),
        editor_step(ed, k, p) is Some,
    ensures
        editor_within(editor_step(ed, k, p)->0),
{
    lemma_begin_within(ed, k);
    let (w, undo, redo, copied) = editor_begin_model(ed, k)->0;
    lemma_edit_within(w, k, ed.readonly, p);
    lemma_editor_edit_unchanged(w, k, ed.readonly, p);
    let w2 = editor_edit_model(w, k, ed.readonly, p)->0;
    let saved = editor_saved_state(ed);
    let t = editor_step(ed, k, p)->0;
    assert(t == editor_commit_model(ed, w2, undo, redo, saved));
    assert(state_within(saved));
    let pushed = undo.push(saved);
    assert forall|i: int| 0 <= i < pushed.len() implies state_within(#[trigger] pushed[i]) by {
        if i < undo.len() {
            assert(pushed[i] == undo[i]);
        }
    }
    assert forall|i: int| 0 <= i < t.undo_stack.len() implies state_within(#[trigger] t.undo_stack[i]) by {
        if w2.changed_text && !w2.undo_redo && w2.chars != saved.text && pushed.len() > UNDO_LIMIT {
            assert(t.undo_stack[i] == pushed[i + 1]);
        }
    }
}

/// Keys of a frame that presses no modifier and only Delete (`delete`) or only Backspace
/// (`!delete`).
pub open spec fn only_erase_key(k: EditKeys, delete: bool) -> bool {
    &&& !k.ctrl && !k.shift && !k.tab
    &&& !k.left && !k.right && !k.up && !k.down && !k.home && !k.end
    &&& !k.enter && !k.space
    &&& k.delete == delete && k.backspace == !delete
    &&& typed_view(k).len() == 0
}

/// Law (Delete): in an editable editor with no selection and the cursor before the end of the
/// text, a frame that presses only Delete removes the character after the cursor, keeps the
/// cursor where it was and reports a change; at the end of the text it changes nothing.
pub proof fn law_editor_delete(ed: CodeEditorView, k: EditKeys)
    requires
        !ed.readonly,
        ed.selection is None,
        ed.cursor_index <= ed.text.len(),
        only_erase_key(k, true),
    ensures
        editor_step(ed, k, None) is Some,
        ed.cursor_index < ed.text.len() ==> {
            let t = editor_step(ed, k, None)->0;
            &&& t.text.len() == ed.text.len() - 1
            &&& t.text == ed.text.take(ed.cursor_index as int) + ed.text.skip(ed.cursor_index + 1)
            &&& t.cursor_index == ed.cursor_index
            &&& t.selection is None
            &&& editor_step_changed(ed, k, None)
        },
        ed.cursor_index == ed.text.len() ==> {
            let t = editor_step(ed, k, None)->0;
            &&& t.text == ed.text
            &&& t.cursor_index == ed.cursor_index
            &&& !editor_step_changed(ed, k, None)
        },
{
    assert(typed_view(k) =~= Seq::<Seq<char>>::empty());
    let c = ed.cursor_index as int;
    let (w, undo, redo, copied) = editor_begin_model(ed, k)->0;
    assert(w == editor_initial_work(ed));
    assert(editor_typed_all(w, typed_view(k), k.ctrl) == Some(w));
    if c < ed.text.len() {
        assert(ed.text.remove(c) =~= ed.text.take(c) + ed.text.skip(c + 1));
    }
}

/// Law (Backspace): in an editable editor with no selection and the cursor past the start, a
/// frame that presses only Backspace removes the character before the cursor and moves the
/// cursor back by one; at the start it changes nothing.
pub proof fn law_editor_backspace(ed: CodeEditorView, k: EditKeys)
    requires
        !ed.readonly,
        ed.selection is None,
        ed.cursor_index <= ed.text.len(),
        only_erase_key(k, false),
    ensures
        editor_step(ed, k, None) is Some,
        ed.cursor_index > 0 ==> {
            let t = editor_step(ed, k, None)->0;
            &&& t.text == ed.text.take(ed.cursor_index - 1) + ed.text.skip(ed.cursor_index as int)
            &&& t.cursor_index == ed.cursor_index - 1
            &&& t.selection is None
            &&& editor_step_changed(ed, k, None)
        },
        ed.cursor_index == 0 ==> {
            let t = editor_step(ed, k, None)->0;
            &&& t.text == ed.text
            &&& t.cursor_index == 0
            &&& !editor_step_changed(ed, k, None)
        },
{
    assert(typed_view(k) =~= Seq::<Seq<char>>::empty());
    let c = ed.cursor_index as int;
    let (w, undo, redo, copied) = editor_begin_model(ed, k)->0;
    assert(w == editor_initial_work(ed));
    assert(editor_typed_all(w, typed_view(k), k.ctrl) == Some(w));
    if c > 0 {
        assert(ed.text.remove(c - 1) =~= ed.text.take(c - 1) + ed.text.skip(c));
    }
}

/// Law (typing in the code editor): in an editable editor with no selection, typing one text
/// puts it at the cursor and leaves the cursor after it.
pub proof fn law_editor_typing(ed: CodeEditorView, k: EditKeys, t: Seq<char>)
    requires
        !ed.readonly,
        ed.selection is None,
        ed.cursor_index <= ed.text.len(),
        ed.cursor_index + t.len() <= usize::MAX,
        types_text(t, false),
        !k.ctrl && !k.shift && !k.tab,
        !k.left && !k.right && !k.up && !k.down && !k.home && !k.end,
        !k.enter && !k.space && !k.delete && !k.backspace,
        typed_view(k) == seq![t],
    ensures
        editor_step(ed, k, None) is Some,
        editor_step(ed, k, None)->0.text == ed.text.take(ed.cursor_index as int) + t + ed.text.skip(
            ed.cursor_index as int,
        ),
        editor_step(ed, k, None)->0.cursor_index == ed.cursor_index + t.len(),
{
    let (w, undo, redo, copied) = editor_begin_model(ed, k)->0;
    assert(w == editor_initial_work(ed));
    assert(seq![t].drop_last() =~= Seq::<Seq<char>>::empty());
    assert(editor_typed_all(w, seq![t].drop_last(), false) == Some(w));
    assert(editor_typed_all(w, seq![t], false) == replace_selection(w, t));
}

/// Law (Left and Right in the code editor): with no selection and no Shift, Left moves the
/// cursor one character back and Right one forward, stopping at the ends; the text is kept.
pub proof fn law_editor_left_right(ed: CodeEditorView, k: EditKeys)
    requires
        ed.selection is None,
        ed.text.len() <= usize::MAX,
        ed.cursor_index <= ed.text.len(),
        !k.ctrl && !k.shift && !k.tab,
        k.left != k.right,
        !k.up && !k.down && !k.home && !k.end,
        !k.enter && !k.space && !k.delete && !k.backspace,
        typed_view(k).len() == 0,
    ensures
        editor_step(ed, k, None) is Some,
        editor_step(ed, k, None)->0.text == ed.text,
        k.left ==> editor_step(ed, k, None)->0.cursor_index == if ed.cursor_index > 0 {
            ed.cursor_index - 1
        } else {
            0
        },
        k.right ==> editor_step(ed, k, None)->0.cursor_index == if ed.cursor_index < ed.text.len() {
            ed.cursor_index + 1
        } else {
            ed.cursor_index as int
        },
{
    assert(typed_view(k) =~= Seq::<Seq<char>>::empty());
    let (w, undo, redo, copied) = editor_begin_model(ed, k)->0;
    assert(editor_edit_model(w, k, ed.readonly, None) == Some(w));
}

} // verus!
