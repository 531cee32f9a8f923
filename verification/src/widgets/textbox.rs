//! Single- and multi-line text boxes: keyboard editing with selection, clipboard,
//! undo/redo, and the mapping from clicks to character positions.
use vstd::prelude::*;
use crate::text::{chars_of, string_from_chars};
use crate::widgets::clipboard::RuiClipboard;

verus! {

/// How many states the undo history keeps.
pub const UNDO_LIMIT: usize = 50;

/// Abstract value of a saved editing state.
pub struct StateView {
    pub text: Seq<char>,
    pub cursor_index: usize,
    pub selection: Option<(usize, usize)>,
}

/// A saved editing state (one entry of the undo or redo history).
pub struct TextBoxState {
    pub text: String,
    pub cursor_index: usize,
    pub selection: Option<(usize, usize)>,
}

impl View for TextBoxState {
    type V = StateView;

    open spec fn view(&self) -> StateView {
        StateView { text: self.text@, cursor_index: self.cursor_index, selection: self.selection }
    }
}

impl TextBoxState {
    /// A copy of this state.
    pub fn copy_state(&self) -> (r: Self)
        ensures
            r@ == self@,
    {
        TextBoxState {
            text: self.text.clone(),
            cursor_index: self.cursor_index,
            selection: self.selection,
        }
    }
}

/// The abstract values of a history, in order.
pub open spec fn history(v: Seq<TextBoxState>) -> Seq<StateView> {
    v.map_values(|s: TextBoxState| s@)
}

#[derive(Clone, Copy, PartialEq, Eq, Structural, Debug)]
pub enum RuiTextBoxMode {
    SingleLine,
    MultiLine,
}

impl Default for RuiTextBoxMode {
    fn default() -> (r: Self)
        ensures
            r == RuiTextBoxMode::SingleLine,
    {
        RuiTextBoxMode::SingleLine
    }
}

/// Abstract value of a text box.
pub struct TextBoxView {
    pub text: Seq<char>,
    pub placeholder: Seq<char>,
    pub show_cursor: bool,
    pub cursor_index: usize,
    pub mode: RuiTextBoxMode,
    pub max_characters: Option<usize>,
    pub readonly: bool,
    pub selection: Option<(usize, usize)>,
    pub selection_anchor: Option<usize>,
    pub word_wrap: bool,
    pub cursor_moved: bool,
    pub dragging_v_scroll: bool,
    pub dragging_h_scroll: bool,
    pub previous_cursor_index: usize,
    pub previous_text_len: usize,
    pub previous_focused: bool,
    pub undo_stack: Seq<StateView>,
    pub redo_stack: Seq<StateView>,
}

/// The editable state of a text box. Positions (`cursor_index`, the selection ends and the
/// anchor) count characters, not bytes.
pub struct RuiTextBox {
    pub text: String,
    pub placeholder: String,
    pub show_cursor: bool,
    pub cursor_index: usize,
    pub mode: RuiTextBoxMode,
    pub max_characters: Option<usize>,
    pub readonly: bool,
    pub selection: Option<(usize, usize)>,
    pub selection_anchor: Option<usize>,
    pub word_wrap: bool,
    pub cursor_moved: bool,
    pub dragging_v_scroll: bool,
    pub dragging_h_scroll: bool,
    pub previous_cursor_index: usize,
    pub previous_text_len: usize,
    pub previous_focused: bool,
    pub undo_stack: Vec<TextBoxState>,
    pub redo_stack: Vec<TextBoxState>,
}

impl View for RuiTextBox {
    type V = TextBoxView;

    open spec fn view(&self) -> TextBoxView {
        TextBoxView {
            text: self.text@,
            placeholder: self.placeholder@,
            show_cursor: self.show_cursor,
            cursor_index: self.cursor_index,
            mode: self.mode,
            max_characters: self.max_characters,
            readonly: self.readonly,
            selection: self.selection,
            selection_anchor: self.selection_anchor,
            word_wrap: self.word_wrap,
            cursor_moved: self.cursor_moved,
            dragging_v_scroll: self.dragging_v_scroll,
            dragging_h_scroll: self.dragging_h_scroll,
            previous_cursor_index: self.previous_cursor_index,
            previous_text_len: self.previous_text_len,
            previous_focused: self.previous_focused,
            undo_stack: history(self.undo_stack@),
            redo_stack: history(self.redo_stack@),
        }
    }
}

/// The keys of one frame that the editor reacts to, and the text of the character keys pressed
/// in this frame, in order.
pub struct EditKeys {
    /// Control (or the platform's command key) is held.
    pub ctrl: bool,
    /// Shift is held.
    pub shift: bool,
    pub z: bool,
    pub y: bool,
    pub a: bool,
    pub c: bool,
    pub x: bool,
    pub v: bool,
    pub left: bool,
    pub right: bool,
    pub up: bool,
    pub down: bool,
    pub home: bool,
    pub end: bool,
    pub enter: bool,
    pub backspace: bool,
    pub delete: bool,
    pub space: bool,
    pub tab: bool,
    pub typed: Vec<String>,
}

/// The character keys of the frame, each as the text it produces.
pub open spec fn typed_view(k: EditKeys) -> Seq<Seq<char>> {
    k.typed@.map_values(|s: String| s@)
}

/// Why an edit is abandoned: a cursor or selection reaches past the end of the text
/// (`OutOfRange`), or a position computation overflows (`Overflow`).
#[derive(Clone, Copy, PartialEq, Eq, Structural, Debug)]
pub enum TextEditFault {
    OutOfRange,
    Overflow,
}

// ---------------------------------------------------------------------------------------------
// The model of one frame of editing.
/// The working state of an edit in progress.
pub struct EditWork {
    pub chars: Seq<char>,
    pub cursor: usize,
    pub selection: Option<(usize, usize)>,
    pub anchor: Option<usize>,
    pub changed_text: bool,
    pub changed_cursor: bool,
    pub undo_redo: bool,
}

pub open spec fn sel_lo(s: (usize, usize)) -> usize {
    if s.0 <= s.1 {
        s.0
    } else {
        s.1
    }
}

pub open spec fn sel_hi(s: (usize, usize)) -> usize {
    if s.0 <= s.1 {
        s.1
    } else {
        s.0
    }
}

/// `c` with the positions `lo..hi` cut out.
pub open spec fn cut_out(c: Seq<char>, lo: int, hi: int) -> Seq<char> {
    c.take(lo) + c.skip(hi)
}

/// `c` with `s` placed at position `at`.
pub open spec fn put_in(c: Seq<char>, at: int, s: Seq<char>) -> Seq<char> {
    c.take(at) + s + c.skip(at)
}

/// How many of `n` new characters fit into a text of length `len` under `limit`.
pub open spec fn room(limit: Option<usize>, len: nat, n: nat) -> nat {
    match limit {
        None => n,
        Some(l) => if l <= len {
            0
        } else if n <= l - len {
            n
        } else {
            (l - len) as nat
        },
    }
}

/// Deletes the selected characters, if there is a selection, and puts the cursor at its start.
pub open spec fn take_selection(w: EditWork) -> Option<EditWork> {
    match w.selection {
        None => Some(w),
        Some(s) => if sel_hi(s) <= w.chars.len() {
            Some(
                EditWork {
                    chars: cut_out(w.chars, sel_lo(s) as int, sel_hi(s) as int),
                    cursor: sel_lo(s),
                    selection: None,
                    ..w
                },
            )
        } else {
            None
        },
    }
}

/// Inserts as much of `s` at the cursor as the character limit allows.
pub open spec fn insert_limited(w: EditWork, s: Seq<char>, limit: Option<usize>) -> Option<
    EditWork,
> {
    let k = room(limit, w.chars.len(), s.len());
    if k == 0 {
        Some(w)
    } else if w.cursor <= w.chars.len() {
        Some(
            EditWork {
                chars: put_in(w.chars, w.cursor as int, s.take(k as int)),
                cursor: (w.cursor + k) as usize,
                changed_text: true,
                ..w
            },
        )
    } else {
        None
    }
}

/// Start of the line that holds position `i`.
pub open spec fn line_start(s: Seq<char>, i: int) -> int
    decreases i,
{
    if i <= 0 {
        0
    } else if s[i - 1] == '\n' {
        i
    } else {
        line_start(s, i - 1)
    }
}

/// End of the line that holds position `i`: the next newline at or after `i`, or the end.
pub open spec fn line_end(s: Seq<char>, i: int) -> int
    decreases s.len() - i,
{
    if i >= s.len() {
        s.len() as int
    } else if s[i] == '\n' {
        i
    } else {
        line_end(s, i + 1)
    }
}

pub open spec fn min_int(a: int, b: int) -> int {
    if a <= b {
        a
    } else {
        b
    }
}

/// The cursor one line up, keeping the column where the line above is long enough.
pub open spec fn cursor_up(s: Seq<char>, c: int) -> int {
    let ls = line_start(s, c);
    if ls == 0 {
        c
    } else {
        let ps = line_start(s, ls - 1);
        ps + min_int(c - ls, ls - 1 - ps)
    }
}

/// The cursor one line down, keeping the column where the line below is long enough.
pub open spec fn cursor_down(s: Seq<char>, c: int) -> int {
    let col = c - line_start(s, c);
    let le = line_end(s, c);
    if le >= s.len() {
        c
    } else {
        let ne = line_end(s, le + 1);
        le + 1 + min_int(col, ne - (le + 1))
    }
}

/// The state saved in the history for the text box as it was when the frame began.
pub open spec fn saved_state(tb: TextBoxView) -> StateView {
    StateView { text: tb.text, cursor_index: tb.cursor_index, selection: tb.selection }
}

/// The cursor clamped to the text.
pub open spec fn clamped_cursor(tb: TextBoxView) -> usize {
    if tb.cursor_index <= tb.text.len() {
        tb.cursor_index
    } else {
        tb.text.len() as usize
    }
}

pub open spec fn initial_work(tb: TextBoxView) -> EditWork {
    EditWork {
        chars: tb.text,
        cursor: clamped_cursor(tb),
        selection: tb.selection,
        anchor: tb.selection_anchor,
        changed_text: false,
        changed_cursor: false,
        undo_redo: false,
    }
}

/// Undo (Ctrl+Z) or redo (Ctrl+Y): the result is the work and the two histories.
pub open spec fn undo_redo_step(
    w: EditWork,
    undo: Seq<StateView>,
    redo: Seq<StateView>,
    k: EditKeys,
    readonly: bool,
    saved: StateView,
) -> (EditWork, Seq<StateView>, Seq<StateView>) {
    if k.ctrl && k.z && !readonly {
        if undo.len() > 0 {
            let st = undo.last();
            (
                EditWork {
                    chars: st.text,
                    cursor: st.cursor_index,
                    selection: st.selection,
                    anchor: None,
                    changed_text: true,
                    undo_redo: true,
                    ..w
                },
                undo.drop_last(),
                redo.push(saved),
            )
        } else {
            (w, undo, redo)
        }
    } else if k.ctrl && k.y && !readonly {
        if redo.len() > 0 {
            let st = redo.last();
            (
                EditWork {
                    chars: st.text,
                    cursor: st.cursor_index,
                    selection: st.selection,
                    anchor: None,
                    changed_text: true,
                    undo_redo: true,
                    ..w
                },
                undo.push(saved),
                redo.drop_last(),
            )
        } else {
            (w, undo, redo)
        }
    } else {
        (w, undo, redo)
    }
}

/// Select all (Ctrl+A).
pub open spec fn select_all_step(w: EditWork, k: EditKeys) -> EditWork {
    if k.ctrl && k.a {
        EditWork {
            anchor: Some(0),
            selection: Some((0, w.chars.len() as usize)),
            cursor: w.chars.len() as usize,
            changed_cursor: true,
            ..w
        }
    } else {
        w
    }
}

/// Whether Ctrl+C / Ctrl+X copy something: with a selection, or Ctrl+C without one (the whole
/// text).
pub open spec fn copy_wanted(w: EditWork, k: EditKeys, readonly: bool) -> bool {
    k.ctrl && (k.c || (!readonly && k.x)) && (w.selection is Some || k.c)
}

pub open spec fn copy_range(w: EditWork) -> (usize, usize) {
    match w.selection {
        Some(s) => s,
        None => (0, w.chars.len() as usize),
    }
}

/// Copy and cut: the work afterwards and the copied text.
pub open spec fn copy_step(w: EditWork, k: EditKeys, readonly: bool) -> Option<
    (EditWork, Option<Seq<char>>),
> {
    if !copy_wanted(w, k, readonly) {
        Some((w, None))
    } else {
        let r = copy_range(w);
        let lo = sel_lo(r);
        let hi = sel_hi(r);
        if hi > w.chars.len() {
            None
        } else {
            let copied = w.chars.subrange(lo as int, hi as int);
            if k.x && !readonly {
                Some(
                    (
                        EditWork {
                            chars: cut_out(w.chars, lo as int, hi as int),
                            cursor: lo,
                            selection: None,
                            anchor: None,
                            changed_text: true,
                            ..w
                        },
                        Some(copied),
                    ),
                )
            } else {
                Some((w, Some(copied)))
            }
        }
    }
}

/// Which navigation key acts: 1 left, 2 right, 3 up, 4 down, 5 home, 6 end, 0 none.
pub open spec fn nav_branch(k: EditKeys, multiline: bool) -> int {
    if k.left {
        1
    } else if k.right {
        2
    } else if k.up && multiline {
        3
    } else if k.down && multiline {
        4
    } else if k.home {
        5
    } else if k.end {
        6
    } else {
        0
    }
}

/// The cursor after the navigation key `branch`.
pub open spec fn nav_target(w: EditWork, k: EditKeys, branch: int) -> usize {
    let len = w.chars.len();
    if branch == 1 {
        if !k.shift && w.selection is Some {
            sel_lo(w.selection->0)
        } else if w.cursor > 0 {
            (w.cursor - 1) as usize
        } else {
            w.cursor
        }
    } else if branch == 2 {
        if !k.shift && w.selection is Some {
            sel_hi(w.selection->0)
        } else if w.cursor < len {
            (w.cursor + 1) as usize
        } else {
            w.cursor
        }
    } else if branch == 3 {
        cursor_up(w.chars, w.cursor as int) as usize
    } else if branch == 4 {
        cursor_down(w.chars, w.cursor as int) as usize
    } else if branch == 5 {
        0
    } else {
        len as usize
    }
}

/// Cursor keys; with Shift they extend the selection from its anchor (or from `start_cursor`,
/// where the cursor was when the frame began).
pub open spec fn nav_step(w: EditWork, k: EditKeys, multiline: bool, start_cursor: usize) -> Option<
    EditWork,
> {
    let b = nav_branch(k, multiline);
    if b == 0 {
        Some(w)
    } else if (b == 3 || b == 4) && w.cursor > w.chars.len() {
        None
    } else {
        let c = nav_target(w, k, b);
        if k.shift {
            let a = if w.selection is None || w.anchor is None {
                start_cursor
            } else {
                w.anchor->0
            };
            Some(
                EditWork {
                    cursor: c,
                    changed_cursor: true,
                    anchor: Some(a),
                    selection: if a != c {
                        Some((a, c))
                    } else {
                        None
                    },
                    ..w
                },
            )
        } else {
            Some(EditWork { cursor: c, changed_cursor: true, selection: None, anchor: None, ..w })
        }
    }
}

/// The first part of a frame (commands and navigation): the work, the two histories and the
/// copied text; `None` where a cursor or selection reaches past the end of the text.
pub open spec fn begin_model(tb: TextBoxView, k: EditKeys) -> Option<
    (EditWork, Seq<StateView>, Seq<StateView>, Option<Seq<char>>),
> {
    let w0 = initial_work(tb);
    let (w1, undo, redo) = undo_redo_step(
        w0,
        tb.undo_stack,
        tb.redo_stack,
        k,
        tb.readonly,
        saved_state(tb),
    );
    let w2 = select_all_step(w1, k);
    match copy_step(w2, k, tb.readonly) {
        None => None,
        Some((w3, copied)) => match nav_step(
            w3,
            k,
            tb.mode == RuiTextBoxMode::MultiLine,
            w0.cursor,
        ) {
            None => None,
            Some(w4) => Some((w4, undo, redo, copied)),
        },
    }
}

/// Whether a frame with these keys reads the clipboard (Ctrl+V on an editable box).
pub open spec fn paste_wanted(tb: TextBoxView, k: EditKeys) -> bool {
    !tb.readonly && k.ctrl && k.v
}

pub open spec fn paste_step(w: EditWork, k: EditKeys, paste: Option<Seq<char>>, limit: Option<
    usize,
>) -> Option<EditWork> {
    if k.ctrl && k.v {
        match paste {
            Some(p) => match take_selection(w) {
                None => None,
                Some(w1) => insert_limited(w1, p, limit),
            },
            None => Some(w),
        }
    } else {
        Some(w)
    }
}

/// Whether a character key's text is typed: not while Control is held, and not the empty text
/// or a single space (the space key is handled on its own).
pub open spec fn types_text(s: Seq<char>, ctrl: bool) -> bool {
    !ctrl && s.len() > 0 && s != seq![' ']
}

pub open spec fn typed_one(w: EditWork, s: Seq<char>, ctrl: bool, limit: Option<usize>) -> Option<
    EditWork,
> {
    if !types_text(s, ctrl) {
        Some(w)
    } else {
        match take_selection(w) {
            None => None,
            Some(w1) => insert_limited(w1, s, limit),
        }
    }
}

pub open spec fn typed_all(w: EditWork, evs: Seq<Seq<char>>, ctrl: bool, limit: Option<usize>) -> Option<
    EditWork,
>
    decreases evs.len(),
{
    if evs.len() == 0 {
        Some(w)
    } else {
        match typed_all(w, evs.drop_last(), ctrl, limit) {
            None => None,
            Some(w1) => typed_one(w1, evs.last(), ctrl, limit),
        }
    }
}

pub open spec fn enter_step(w: EditWork, k: EditKeys, multiline: bool, limit: Option<usize>) -> Option<
    EditWork,
> {
    if k.enter && multiline {
        match take_selection(w) {
            None => None,
            Some(w1) => insert_limited(w1, seq!['\n'], limit),
        }
    } else {
        Some(w)
    }
}

/// Deletes the selection and marks the text as changed.
pub open spec fn delete_selection(w: EditWork) -> Option<EditWork> {
    match take_selection(w) {
        None => None,
        Some(w1) => Some(EditWork { changed_text: true, ..w1 }),
    }
}

/// Backspace, else Delete, else Space.
pub open spec fn erase_step(w: EditWork, k: EditKeys, limit: Option<usize>) -> Option<EditWork> {
    let len = w.chars.len();
    if k.backspace {
        if w.selection is Some {
            delete_selection(w)
        } else if w.cursor > 0 {
            if w.cursor - 1 < len {
                Some(
                    EditWork {
                        chars: w.chars.remove(w.cursor - 1),
                        cursor: (w.cursor - 1) as usize,
                        changed_text: true,
                        ..w
                    },
                )
            } else {
                None
            }
        } else {
            Some(w)
        }
    } else if k.delete {
        if w.selection is Some {
            delete_selection(w)
        } else if w.cursor < len {
            Some(EditWork { chars: w.chars.remove(w.cursor as int), changed_text: true, ..w })
        } else {
            Some(w)
        }
    } else if k.space {
        match take_selection(w) {
            None => None,
            Some(w1) => insert_limited(w1, seq![' '], limit),
        }
    } else {
        Some(w)
    }
}

/// The editing part of a frame (paste, typing, Enter, Backspace/Delete/Space); nothing on a
/// read-only box.
pub open spec fn edit_model(
    w: EditWork,
    k: EditKeys,
    readonly: bool,
    multiline: bool,
    limit: Option<usize>,
    paste: Option<Seq<char>>,
) -> Option<EditWork> {
    if readonly {
        Some(w)
    } else {
        match paste_step(w, k, paste, limit) {
            None => None,
            Some(w1) => match typed_all(w1, typed_view(k), k.ctrl, limit) {
                None => None,
                Some(w2) => match enter_step(w2, k, multiline, limit) {
                    None => None,
                    Some(w3) => erase_step(w3, k, limit),
                },
            },
        }
    }
}

/// The history after a change: the saved state is pushed (the oldest entry drops out past the
/// limit) and the redo history is emptied, when the text really changed.
pub open spec fn commit_model(
    tb: TextBoxView,
    w: EditWork,
    undo: Seq<StateView>,
    redo: Seq<StateView>,
    saved: StateView,
) -> TextBoxView {
    let changed = w.changed_text || w.changed_cursor;
    let push = w.changed_text && !w.undo_redo && w.chars != saved.text;
    let undo1 = undo.push(saved);
    TextBoxView {
        text: if w.changed_text {
            w.chars
        } else {
            tb.text
        },
        cursor_index: if changed {
            w.cursor
        } else {
            tb.cursor_index
        },
        show_cursor: if changed {
            true
        } else {
            tb.show_cursor
        },
        selection: w.selection,
        selection_anchor: w.anchor,
        undo_stack: if push {
            if undo1.len() > UNDO_LIMIT {
                undo1.drop_first()
            } else {
                undo1
            }
        } else {
            undo
        },
        redo_stack: if push {
            Seq::empty()
        } else {
            redo
        },
        ..tb
    }
}

/// One frame of keyboard editing: the text box afterwards, or `None` where a cursor or
/// selection reaches past the end of the text. `paste` is what the clipboard gave, if it was read.
pub open spec fn textbox_step(tb: TextBoxView, k: EditKeys, paste: Option<Seq<char>>) -> Option<
    TextBoxView,
> {
    match begin_model(tb, k) {
        None => None,
        Some((w, undo, redo, _copied)) => match edit_model(
            w,
            k,
            tb.readonly,
            tb.mode == RuiTextBoxMode::MultiLine,
            tb.max_characters,
            paste,
        ) {
            None => None,
            Some(w2) => Some(commit_model(tb, w2, undo, redo, saved_state(tb))),
        },
    }
}

/// Whether a frame changed the text or the cursor (the caller then restarts the cursor blink).
pub open spec fn textbox_step_changed(tb: TextBoxView, k: EditKeys, paste: Option<Seq<char>>) -> bool {
    match begin_model(tb, k) {
        None => false,
        Some((w, _undo, _redo, _copied)) => match edit_model(
            w,
            k,
            tb.readonly,
            tb.mode == RuiTextBoxMode::MultiLine,
            tb.max_characters,
            paste,
        ) {
            None => false,
            Some(w2) => w2.changed_text || w2.changed_cursor,
        },
    }
}

/// The text that a frame with these keys puts on the clipboard, if any.
pub open spec fn textbox_copied(tb: TextBoxView, k: EditKeys) -> Option<Seq<char>> {
    match begin_model(tb, k) {
        None => None,
        Some((_w, _u, _r, copied)) => copied,
    }
}

// ---------------------------------------------------------------------------------------------
// Executable editing.
pub open spec fn opt_view(o: Option<String>) -> Option<Seq<char>> {
    match o {
        Some(s) => Some(s@),
        None => None,
    }
}

/// An edit in progress between the command part and the editing part of a frame.
pub struct TextEditSession {
    pub chars: Vec<char>,
    pub cursor: usize,
    pub selection: Option<(usize, usize)>,
    pub anchor: Option<usize>,
    pub changed_text: bool,
    pub changed_cursor: bool,
    pub undo_redo: bool,
    /// The text box as it was when the frame began, as the history would keep it.
    pub saved: TextBoxState,
    /// What the frame copies to the clipboard.
    pub copied: Option<String>,
}

impl TextEditSession {
    pub open spec fn work(&self) -> EditWork {
        EditWork {
            chars: self.chars@,
            cursor: self.cursor,
            selection: self.selection,
            anchor: self.anchor,
            changed_text: self.changed_text,
            changed_cursor: self.changed_cursor,
            undo_redo: self.undo_redo,
        }
    }
}

/// `new` is the outcome `m` of a step from `old` (`ok` tells whether it succeeded).
pub open spec fn stepped(
    old: TextEditSession,
    new: TextEditSession,
    ok: bool,
    m: Option<EditWork>,
) -> bool {
    &&& ok == (m is Some)
    &&& ok ==> new.work() == m->0
    &&& new.saved == old.saved
    &&& new.copied == old.copied
}

fn cut_vec(v: &mut Vec<char>, lo: usize, hi: usize)
    requires
        lo <= hi <= old(v)@.len(),
    ensures
        final(v)@ == cut_out(old(v)@, lo as int, hi as int),
{
    let mut tail = v.split_off(hi);
    v.truncate(lo);
    v.append(&mut tail);
    assert(v@ =~= cut_out(old(v)@, lo as int, hi as int));
}

fn put_vec(v: &mut Vec<char>, at: usize, s: &Vec<char>, k: usize)
    requires
        at <= old(v)@.len(),
        k <= s@.len(),
    ensures
        final(v)@ == put_in(old(v)@, at as int, s@.take(k as int)),
{
    let ghost orig = v@;
    let mut tail = v.split_off(at);
    let mut i: usize = 0;
    while i < k
        invariant
            i <= k,
            k <= s@.len(),
            at <= orig.len(),
            v@ == orig.take(at as int) + s@.take(i as int),
            tail@ == orig.skip(at as int),
        decreases k - i,
    {
        v.push(s[i]);
        assert(s@.take(i as int + 1) =~= s@.take(i as int).push(s@[i as int]));
        i = i + 1;
    }
    v.append(&mut tail);
    assert(v@ =~= put_in(orig, at as int, s@.take(k as int)));
}

fn room_exec(limit: Option<usize>, len: usize, n: usize) -> (r: usize)
    ensures
        r as nat == room(limit, len as nat, n as nat),
{
    match limit {
        None => n,
        Some(l) => if l <= len {
            0
        } else if n <= l - len {
            n
        } else {
            l - len
        },
    }
}

/// Start of the line that holds position `i`.
pub fn find_line_start(s: &Vec<char>, i: usize) -> (r: usize)
    requires
        i <= s@.len(),
    ensures
        r as int == line_start(s@, i as int),
        r <= i,
{
    let mut j = i;
    while j > 0 && s[j - 1] != '\n'
        invariant
            j <= i,
            i <= s@.len(),
            line_start(s@, i as int) == line_start(s@, j as int),
        decreases j,
    {
        j = j - 1;
    }
    j
}

/// End of the line that holds position `i`.
pub fn find_line_end(s: &Vec<char>, i: usize) -> (r: usize)
    requires
        i <= s@.len(),
    ensures
        r as int == line_end(s@, i as int),
        i <= r <= s@.len(),
{
    let mut j = i;
    while j < s.len() && s[j] != '\n'
        invariant
            i <= j <= s@.len(),
            line_end(s@, i as int) == line_end(s@, j as int),
        decreases s@.len() - j,
    {
        j = j + 1;
    }
    j
}

fn min_usize(a: usize, b: usize) -> (r: usize)
    ensures
        r as int == min_int(a as int, b as int),
{
    if a <= b {
        a
    } else {
        b
    }
}

/// The cursor one line up (see [`cursor_up`]).
pub fn cursor_up_exec(s: &Vec<char>, c: usize) -> (r: usize)
    requires
        c <= s@.len(),
    ensures
        r as int == cursor_up(s@, c as int),
        r <= c,
{
    let ls = find_line_start(s, c);
    if ls == 0 {
        c
    } else {
        let ps = find_line_start(s, ls - 1);
        ps + min_usize(c - ls, ls - 1 - ps)
    }
}

/// The cursor one line down (see [`cursor_down`]).
pub fn cursor_down_exec(s: &Vec<char>, c: usize) -> (r: usize)
    requires
        c <= s@.len(),
    ensures
        r as int == cursor_down(s@, c as int),
        r <= s@.len(),
{
    let ls = find_line_start(s, c);
    let col = c - ls;
    let le = find_line_end(s, c);
    if le >= s.len() {
        c
    } else {
        let ne = find_line_end(s, le + 1);
        le + 1 + min_usize(col, ne - (le + 1))
    }
}

proof fn lemma_typed_prefix_none(
    w: EditWork,
    evs: Seq<Seq<char>>,
    i: int,
    ctrl: bool,
    limit: Option<usize>,
)
    requires
        0 <= i <= evs.len(),
        typed_all(w, evs.take(i), ctrl, limit) is None,
    ensures
        typed_all(w, evs, ctrl, limit) is None,
    decreases evs.len() - i,
{
    if i < evs.len() {
        assert(evs.take(i + 1).drop_last() =~= evs.take(i));
        lemma_typed_prefix_none(w, evs, i + 1, ctrl, limit);
    } else {
        assert(evs.take(i) =~= evs);
    }
}

impl TextEditSession {
    fn select_all(&mut self, keys: &EditKeys)
        ensures
            final(self).work() == select_all_step(old(self).work(), *keys),
            final(self).saved == old(self).saved,
            final(self).copied == old(self).copied,
    {
        if keys.ctrl && keys.a {
            let len = self.chars.len();
            self.anchor = Some(0);
            self.selection = Some((0, len));
            self.cursor = len;
            self.changed_cursor = true;
        }
    }

    fn copy_cut(&mut self, keys: &EditKeys, ro: bool) -> (ok: bool)
        requires
            old(self).copied is None,
        ensures
            ok == (copy_step(old(self).work(), *keys, ro) is Some),
            ok ==> final(self).work() == (copy_step(old(self).work(), *keys, ro)->0).0,
            ok ==> opt_view(final(self).copied) == (copy_step(old(self).work(), *keys, ro)->0).1,
            final(self).saved == old(self).saved,
    {
        // Copy and cut.
        if keys.ctrl && (keys.c || (!ro && keys.x)) && (self.selection.is_some() || keys.c) {
            let r = match self.selection {
                Some(x) => x,
                None => (0, self.chars.len()),
            };
            let lo = if r.0 <= r.1 {
                r.0
            } else {
                r.1
            };
            let hi = if r.0 <= r.1 {
                r.1
            } else {
                r.0
            };
            if hi > self.chars.len() {
                return false;
            }
            let mut piece: Vec<char> = Vec::new();
            let mut i = lo;
            while i < hi
                invariant
                    lo <= i <= hi,
                    hi <= self.chars@.len(),
                    piece@ == self.chars@.subrange(lo as int, i as int),
                decreases hi - i,
            {
                piece.push(self.chars[i]);
                assert(self.chars@.subrange(lo as int, i as int + 1) =~= self.chars@.subrange(
                    lo as int,
                    i as int,
                ).push(self.chars@[i as int]));
                i = i + 1;
            }
            self.copied = Some(string_from_chars(piece.as_slice()));
            if keys.x && !ro {
                cut_vec(&mut self.chars, lo, hi);
                self.cursor = lo;
                self.selection = None;
                self.anchor = None;
                self.changed_text = true;
            }
        }
        true
    }

    fn take_sel(&mut self) -> (ok: bool)
        ensures
            stepped(*old(self), *final(self), ok, take_selection(old(self).work())),
    {
        match self.selection {
            None => true,
            Some(sel) => {
                let lo = if sel.0 <= sel.1 {
                    sel.0
                } else {
                    sel.1
                };
                let hi = if sel.0 <= sel.1 {
                    sel.1
                } else {
                    sel.0
                };
                if hi > self.chars.len() {
                    false
                } else {
                    cut_vec(&mut self.chars, lo, hi);
                    self.cursor = lo;
                    self.selection = None;
                    true
                }
            },
        }
    }

    fn insert_lim(&mut self, s: &Vec<char>, limit: Option<usize>) -> (ok: bool)
        ensures
            stepped(*old(self), *final(self), ok, insert_limited(old(self).work(), s@, limit)),
    {
        let k = room_exec(limit, self.chars.len(), s.len());
        if k == 0 {
            true
        } else if self.cursor <= self.chars.len() {
            put_vec(&mut self.chars, self.cursor, s, k);
            let nl = self.chars.len();
            assert(self.cursor + k <= nl);
            self.cursor = self.cursor + k;
            self.changed_text = true;
            true
        } else {
            false
        }
    }

    fn nav(&mut self, keys: &EditKeys, multiline: bool, start_cursor: usize) -> (ok: bool)
        ensures
            stepped(*old(self), *final(self), ok, nav_step(old(self).work(), *keys, multiline, start_cursor)),
    {
        let len = self.chars.len();
        let c: usize;
        if keys.left {
            c = if !keys.shift && self.selection.is_some() {
                let sel = self.selection.unwrap();
                if sel.0 <= sel.1 {
                    sel.0
                } else {
                    sel.1
                }
            } else if self.cursor > 0 {
                self.cursor - 1
            } else {
                self.cursor
            };
        } else if keys.right {
            c = if !keys.shift && self.selection.is_some() {
                let sel = self.selection.unwrap();
                if sel.0 <= sel.1 {
                    sel.1
                } else {
                    sel.0
                }
            } else if self.cursor < len {
                self.cursor + 1
            } else {
                self.cursor
            };
        } else if keys.up && multiline {
            if self.cursor > len {
                return false;
            }
            c = cursor_up_exec(&self.chars, self.cursor);
        } else if keys.down && multiline {
            if self.cursor > len {
                return false;
            }
            c = cursor_down_exec(&self.chars, self.cursor);
        } else if keys.home {
            c = 0;
        } else if keys.end {
            c = len;
        } else {
            return true;
        }
        self.cursor = c;
        self.changed_cursor = true;
        if keys.shift {
            if self.selection.is_none() || self.anchor.is_none() {
                self.anchor = Some(start_cursor);
            }
            let a = self.anchor.unwrap();
            self.selection = if a != c {
                Some((a, c))
            } else {
                None
            };
        } else {
            self.selection = None;
            self.anchor = None;
        }
        true
    }

    fn paste(&mut self, keys: &EditKeys, paste: &Option<String>, limit: Option<usize>) -> (ok: bool)
        ensures
            stepped(*old(self), *final(self), ok, paste_step(old(self).work(), *keys, opt_view(*paste), limit)),
    {
        if keys.ctrl && keys.v {
            match paste {
                Some(p) => {
                    let pc = chars_of(p.as_str());
                    if !self.take_sel() {
                        return false;
                    }
                    self.insert_lim(&pc, limit)
                },
                None => true,
            }
        } else {
            true
        }
    }

    fn type_all(&mut self, keys: &EditKeys, limit: Option<usize>) -> (ok: bool)
        ensures
            stepped(*old(self), *final(self), ok, typed_all(old(self).work(), typed_view(*keys), keys.ctrl, limit)),
    {
        let ghost w0 = self.work();
        let ghost evs = typed_view(*keys);
        let n = keys.typed.len();
        let mut i: usize = 0;
        assert(evs.take(0) =~= Seq::<Seq<char>>::empty());
        while i < n
            invariant
                n == keys.typed@.len(),
                evs == typed_view(*keys),
                evs.len() == n,
                i <= n,
                typed_all(w0, evs.take(i as int), keys.ctrl, limit) == Some(self.work()),
                self.saved == old(self).saved,
                self.copied == old(self).copied,
                w0 == old(self).work(),
            decreases n - i,
        {
            let t = chars_of(keys.typed[i].as_str());
            proof {
                assert(evs.take(i as int + 1).drop_last() =~= evs.take(i as int));
                assert(evs.take(i as int + 1).last() == evs[i as int]);
                assert(evs[i as int] == t@);
            }
            let is_space = t.len() == 1 && t[0] == ' ';
            proof {
                if is_space {
                    assert(t@ =~= seq![' ']);
                }
                if t@ == seq![' '] {
                    assert(t@[0] == ' ');
                }
            }
            let types = !keys.ctrl && t.len() > 0 && !is_space;
            if types {
                if !self.take_sel() {
                    proof {
                        lemma_typed_prefix_none(w0, evs, i as int + 1, keys.ctrl, limit);
                    }
                    return false;
                }
                if !self.insert_lim(&t, limit) {
                    proof {
                        lemma_typed_prefix_none(w0, evs, i as int + 1, keys.ctrl, limit);
                    }
                    return false;
                }
            }
            i = i + 1;
        }
        assert(evs.take(n as int) =~= evs);
        true
    }

    fn enter(&mut self, keys: &EditKeys, multiline: bool, limit: Option<usize>) -> (ok: bool)
        ensures
            stepped(*old(self), *final(self), ok, enter_step(old(self).work(), *keys, multiline, limit)),
    {
        if keys.enter && multiline {
            if !self.take_sel() {
                return false;
            }
            let mut nl: Vec<char> = Vec::new();
            nl.push('\n');
            assert(nl@ =~= seq!['\n']);
            self.insert_lim(&nl, limit)
        } else {
            true
        }
    }

    fn erase(&mut self, keys: &EditKeys, limit: Option<usize>) -> (ok: bool)
        ensures
            stepped(*old(self), *final(self), ok, erase_step(old(self).work(), *keys, limit)),
    {
        let len = self.chars.len();
        if keys.backspace {
            if self.selection.is_some() {
                if !self.take_sel() {
                    return false;
                }
                self.changed_text = true;
                true
            } else if self.cursor > 0 {
                if self.cursor - 1 < len {
                    self.chars.remove(self.cursor - 1);
                    self.cursor = self.cursor - 1;
                    self.changed_text = true;
                    true
                } else {
                    false
                }
            } else {
                true
            }
        } else if keys.delete {
            if self.selection.is_some() {
                if !self.take_sel() {
                    return false;
                }
                self.changed_text = true;
                true
            } else if self.cursor < len {
                self.chars.remove(self.cursor);
                self.changed_text = true;
                true
            } else {
                true
            }
        } else if keys.space {
            if !self.take_sel() {
                return false;
            }
            let mut sp: Vec<char> = Vec::new();
            sp.push(' ');
            assert(sp@ =~= seq![' ']);
            self.insert_lim(&sp, limit)
        } else {
            true
        }
    }
}

proof fn lemma_history_push(v: Seq<TextBoxState>, x: TextBoxState)
    ensures
        history(v.push(x)) == history(v).push(x@),
{
    assert(history(v.push(x)) =~= history(v).push(x@));
}

proof fn lemma_history_pop(v: Seq<TextBoxState>)
    requires
        v.len() > 0,
    ensures
        history(v.subrange(0, v.len() - 1)) == history(v).drop_last(),
        history(v).last() == v.last()@,
{
    assert(history(v.subrange(0, v.len() - 1)) =~= history(v).drop_last());
}

proof fn lemma_history_drop_first(v: Seq<TextBoxState>)
    requires
        v.len() > 0,
    ensures
        history(v.remove(0)) == history(v).drop_first(),
{
    assert(history(v.remove(0)) =~= history(v).drop_first());
}

fn clamped_cursor_exec(tb: &RuiTextBox) -> (r: usize)
    ensures
        r == clamped_cursor(tb@),
{
    let len = tb.text.as_str().unicode_len();
    if tb.cursor_index > len {
        len
    } else {
        tb.cursor_index
    }
}

impl RuiTextBox {
    /// The command part of a frame: undo/redo, select all, copy/cut and the cursor keys. The
    /// histories are updated here; the rest of the edit is carried by the returned session.
    /// Fails (and changes nothing) exactly where a cursor or selection reaches past the end of
    /// the text.
    pub fn begin_edit(&mut self, keys: &EditKeys) -> (r: Result<TextEditSession, TextEditFault>)
        ensures
            match begin_model(old(self)@, *keys) {
                None => r is Err && final(self)@ == old(self)@,
                Some((w, undo, redo, copied)) => {
                    &&& r is Ok
                    &&& r->Ok_0.work() == w
                    &&& r->Ok_0.saved@ == saved_state(old(self)@)
                    &&& opt_view(r->Ok_0.copied) == copied
                    &&& final(self)@ == TextBoxView {
                        undo_stack: undo,
                        redo_stack: redo,
                        ..old(self)@
                    }
                },
            },
    {
        let ghost tb0 = self@;
        let mut s = self.start_session();
        let restore = self.peek_restore(keys, &mut s);
        s.select_all(keys);
        if !s.copy_cut(keys, self.readonly) {
            return Err(TextEditFault::OutOfRange);
        }
        if !s.nav(keys, self.mode == RuiTextBoxMode::MultiLine, clamped_cursor_exec(self)) {
            return Err(TextEditFault::OutOfRange);
        }
        self.apply_restore(restore, &s.saved);
        Ok(s)
    }

    fn start_session(&self) -> (s: TextEditSession)
        ensures
            s.work() == initial_work(self@),
            s.saved@ == saved_state(self@),
            s.copied is None,
    {
        let chars = chars_of(self.text.as_str());
        let start_cursor = clamped_cursor_exec(self);
        let saved = TextBoxState {
            text: self.text.clone(),
            cursor_index: self.cursor_index,
            selection: self.selection,
        };
        TextEditSession {
            chars,
            cursor: start_cursor,
            selection: self.selection,
            anchor: self.selection_anchor,
            changed_text: false,
            changed_cursor: false,
            undo_redo: false,
            saved,
            copied: None,
        }
    }

    /// Reads the state that undo/redo restores into the session (0: none, 1: undo, 2: redo).
    fn peek_restore(&self, keys: &EditKeys, s: &mut TextEditSession) -> (restore: u8)
        ensures
            ({
                let ur = undo_redo_step(
                    old(s).work(),
                    self@.undo_stack,
                    self@.redo_stack,
                    *keys,
                    self.readonly,
                    old(s).saved@,
                );
                &&& final(s).work() == ur.0
                &&& final(s).saved == old(s).saved
                &&& final(s).copied == old(s).copied
                &&& restore <= 2
                &&& restore == 0 ==> ur.1 == self@.undo_stack && ur.2 == self@.redo_stack
                &&& restore == 1 ==> self.undo_stack@.len() > 0 && ur.1 == self@.undo_stack.drop_last()
                    && ur.2 == self@.redo_stack.push(old(s).saved@)
                &&& restore == 2 ==> self.redo_stack@.len() > 0 && ur.1 == self@.undo_stack.push(
                    old(s).saved@,
                ) && ur.2 == self@.redo_stack.drop_last()
            }),
    {
        let ro = self.readonly;
        if keys.ctrl && keys.z && !ro {
            let n = self.undo_stack.len();
            if n > 0 {
                let st = &self.undo_stack[n - 1];
                proof {
                    lemma_history_pop(self.undo_stack@);
                }
                s.chars = chars_of(st.text.as_str());
                s.cursor = st.cursor_index;
                s.selection = st.selection;
                s.anchor = None;
                s.changed_text = true;
                s.undo_redo = true;
                return 1;
            }
            0
        } else if keys.ctrl && keys.y && !ro {
            let n = self.redo_stack.len();
            if n > 0 {
                let st = &self.redo_stack[n - 1];
                proof {
                    lemma_history_pop(self.redo_stack@);
                }
                s.chars = chars_of(st.text.as_str());
                s.cursor = st.cursor_index;
                s.selection = st.selection;
                s.anchor = None;
                s.changed_text = true;
                s.undo_redo = true;
                return 2;
            }
            0
        } else {
            0
        }
    }

    /// Moves the restored state out of its history and saves `saved` in the other one.
    fn apply_restore(&mut self, restore: u8, saved: &TextBoxState)
        requires
            restore == 1 ==> old(self).undo_stack@.len() > 0,
            restore == 2 ==> old(self).redo_stack@.len() > 0,
        ensures
            final(self)@ == (if restore == 1 {
                TextBoxView {
                    undo_stack: old(self)@.undo_stack.drop_last(),
                    redo_stack: old(self)@.redo_stack.push(saved@),
                    ..old(self)@
                }
            } else if restore == 2 {
                TextBoxView {
                    undo_stack: old(self)@.undo_stack.push(saved@),
                    redo_stack: old(self)@.redo_stack.drop_last(),
                    ..old(self)@
                }
            } else {
                old(self)@
            }),
    {
        if restore == 1 {
            let saved_copy = saved.copy_state();
            proof {
                lemma_history_pop(self.undo_stack@);
                lemma_history_push(self.redo_stack@, saved_copy);
            }
            let _ = self.undo_stack.pop();
            self.redo_stack.push(saved_copy);
        } else if restore == 2 {
            let saved_copy = saved.copy_state();
            proof {
                lemma_history_pop(self.redo_stack@);
                lemma_history_push(self.undo_stack@, saved_copy);
            }
            let _ = self.redo_stack.pop();
            self.undo_stack.push(saved_copy);
        }
    }

    /// The editing part of a frame: paste, typed text, Enter, Backspace/Delete/Space, then the
    /// result is committed to the text box (with the undo history). `paste` is the clipboard's
    /// text when it was read. Returns whether anything changed. Fails (and changes nothing)
    /// exactly where a selection reaches past the end of the text.
    pub fn finish_edit(&mut self, session: TextEditSession, keys: &EditKeys, paste: Option<String>) -> (r:
        Result<bool, TextEditFault>)
        ensures
            match edit_model(
                session.work(),
                *keys,
                old(self).readonly,
                old(self).mode == RuiTextBoxMode::MultiLine,
                old(self).max_characters,
                opt_view(paste),
            ) {
                None => r is Err && final(self)@ == old(self)@,
                Some(w) => {
                    &&& r == Ok::<bool, TextEditFault>(w.changed_text || w.changed_cursor)
                    &&& final(self)@ == commit_model(
                        old(self)@,
                        w,
                        old(self)@.undo_stack,
                        old(self)@.redo_stack,
                        session.saved@,
                    )
                },
            },
    {
        let mut s = session;
        let limit = self.max_characters;
        let multiline = self.mode == RuiTextBoxMode::MultiLine;
        if !self.readonly {
            if !s.paste(keys, &paste, limit) {
                return Err(TextEditFault::OutOfRange);
            }
            if !s.type_all(keys, limit) {
                return Err(TextEditFault::OutOfRange);
            }
            if !s.enter(keys, multiline, limit) {
                return Err(TextEditFault::OutOfRange);
            }
            if !s.erase(keys, limit) {
                return Err(TextEditFault::OutOfRange);
            }
        }
        let changed = s.changed_text || s.changed_cursor;
        if changed {
            if s.changed_text {
                let new_text = string_from_chars(s.chars.as_slice());
                if !s.undo_redo {
                    if !(new_text == s.saved.text) {
                        let saved_copy = s.saved.copy_state();
                        let ghost u0 = self.undo_stack@;
                        self.undo_stack.push(saved_copy);
                        proof {
                            lemma_history_push(u0, saved_copy);
                        }
                        if self.undo_stack.len() > UNDO_LIMIT {
                            let ghost u1 = self.undo_stack@;
                            self.undo_stack.remove(0);
                            proof {
                                lemma_history_drop_first(u1);
                            }
                        }
                        self.redo_stack.clear();
                        assert(history(self.redo_stack@) =~= Seq::<StateView>::empty());
                    }
                }
                self.text = new_text;
            }
            self.cursor_index = s.cursor;
            self.show_cursor = true;
        }
        self.selection = s.selection;
        self.selection_anchor = s.anchor;
        Ok(changed)
    }
}

/// The text box after an abandoned frame: unchanged, but for an undo or redo already taken in
/// the frame's first part, which stays in the histories.
pub open spec fn textbox_after_fault(tb: TextBoxView, k: EditKeys) -> TextBoxView {
    match begin_model(tb, k) {
        None => tb,
        Some((_w, undo, redo, _copied)) => TextBoxView { undo_stack: undo, redo_stack: redo, ..tb },
    }
}

/// One frame of keyboard input to the focused text box: the copied text goes to the clipboard,
/// Ctrl+V reads it, and the edit is applied. Returns whether the text or the cursor changed; an
/// error where a cursor or selection reaches past the end of the text; the text box is then
/// left as `textbox_after_fault` says.
/// A frame that copies nothing and reads no paste (an editable box with Ctrl+V) leaves the
/// clipboard alone.
pub fn handle_textbox_input(textbox: &mut RuiTextBox, keys: &EditKeys, clipboard: &mut RuiClipboard) -> (r:
    Result<bool, TextEditFault>)
    ensures
        exists|p: Option<Seq<char>>|
            #![trigger textbox_step(old(textbox)@, *keys, p)]
            {
                &&& (p is Some <==> (paste_wanted(old(textbox)@, *keys) && begin_model(
                    old(textbox)@,
                    *keys,
                ) is Some))
                &&& match textbox_step(old(textbox)@, *keys, p) {
                    None => r is Err && final(textbox)@ == textbox_after_fault(old(textbox)@, *keys),
                    Some(t) => r == Ok::<bool, TextEditFault>(
                        textbox_step_changed(old(textbox)@, *keys, p),
                    ) && final(textbox)@ == t,
                }
            },
        match textbox_copied(old(textbox)@, *keys) {
            Some(c) => final(clipboard).local_buffer@ == c,
            None => final(clipboard).local_buffer == old(clipboard).local_buffer,
        },
        textbox_copied(old(textbox)@, *keys) is None && !(paste_wanted(old(textbox)@, *keys)
            && begin_model(old(textbox)@, *keys) is Some) ==> *final(clipboard) == *old(clipboard),
{
    let ghost tb0 = textbox@;
    let session = match textbox.begin_edit(keys) {
        Ok(s) => s,
        Err(e) => {
            assert(textbox_step(tb0, *keys, None) is None);
            return Err(e);
        },
    };
    let ghost mid = textbox@;
    match &session.copied {
        Some(c) => {
            clipboard.set_text(c.clone());
        },
        None => {},
    }
    let paste = if !textbox.readonly && keys.ctrl && keys.v {
        clipboard.get_text()
    } else {
        None
    };
    let r = textbox.finish_edit(session, keys, paste);
    proof {
        let p = opt_view(paste);
        let (w, undo, redo, copied) = begin_model(tb0, *keys)->0;
        assert(mid == TextBoxView { undo_stack: undo, redo_stack: redo, ..tb0 });
        match edit_model(
            w,
            *keys,
            tb0.readonly,
            tb0.mode == RuiTextBoxMode::MultiLine,
            tb0.max_characters,
            p,
        ) {
            None => {},
            Some(w2) => {
                assert(commit_model(mid, w2, undo, redo, saved_state(tb0)) == commit_model(
                    tb0,
                    w2,
                    undo,
                    redo,
                    saved_state(tb0),
                ));
            },
        }
        assert(textbox_step(tb0, *keys, p) == textbox_step(old(textbox)@, *keys, p));
    }
    r
}

} // verus!

verus! {

// ---------------------------------------------------------------------------------------------
// Laws of the text box.
/// Keys of a frame that presses only Ctrl+Z (`z`) or only Ctrl+Y (`!z`).
pub open spec fn history_keys(k: EditKeys, z: bool) -> bool {
    &&& k.ctrl
    &&& k.z == z
    &&& k.y == !z
    &&& !k.shift && !k.a && !k.c && !k.x && !k.v
    &&& !k.left && !k.right && !k.up && !k.down && !k.home && !k.end
    &&& !k.enter && !k.backspace && !k.delete && !k.space
    &&& typed_view(k).len() == 0
}

/// A frame that neither undoes nor redoes.
pub open spec fn no_history_keys(k: EditKeys) -> bool {
    !(k.ctrl && (k.z || k.y))
}

/// The text fits the character limit.
pub open spec fn fits(chars: Seq<char>, limit: Option<usize>) -> bool {
    match limit {
        None => true,
        Some(l) => chars.len() <= l,
    }
}

/// Law (what undo gives back): when a frame that is not itself an undo or redo changes the text
/// of an editable box, a following frame that presses only Ctrl+Z restores the text, the cursor
/// and the selection that the box had before that frame.
pub proof fn law_undo_restores(tb: TextBoxView, k: EditKeys, p: Option<Seq<char>>, u: EditKeys)
    requires
        !tb.readonly,
        no_history_keys(k),
        textbox_step(tb, k, p) is Some,
        textbox_step(tb, k, p)->0.text != tb.text,
        history_keys(u, true),
    ensures
        textbox_step(textbox_step(tb, k, p)->0, u, None) is Some,
        textbox_step(textbox_step(tb, k, p)->0, u, None)->0.text == tb.text,
        textbox_step(textbox_step(tb, k, p)->0, u, None)->0.cursor_index == tb.cursor_index,
        textbox_step(textbox_step(tb, k, p)->0, u, None)->0.selection == tb.selection,
{
    let t = textbox_step(tb, k, p)->0;
    let (w, undo, redo, copied) = begin_model(tb, k)->0;
    let w2 = edit_model(
        w,
        k,
        tb.readonly,
        tb.mode == RuiTextBoxMode::MultiLine,
        tb.max_characters,
        p,
    )->0;
    assert(undo_redo_step(initial_work(tb), tb.undo_stack, tb.redo_stack, k, tb.readonly, saved_state(tb)).1 == tb.undo_stack);
    assert(!w.undo_redo);
    lemma_edit_keeps_undo_redo(w, k, tb.readonly, tb.mode == RuiTextBoxMode::MultiLine, tb.max_characters, p);
    assert(!w2.undo_redo);
    assert(t == commit_model(tb, w2, undo, redo, saved_state(tb)));
    assert(w2.changed_text);
    assert(w2.chars != saved_state(tb).text);
    let undo1 = undo.push(saved_state(tb));
    assert(t.undo_stack.len() > 0);
    assert(t.undo_stack.last() == saved_state(tb)) by {
        if undo1.len() > UNDO_LIMIT {
            assert(undo1.drop_first().last() == undo1.last());
        }
    }
    let b = begin_model(t, u);
    assert(typed_view(u) =~= Seq::<Seq<char>>::empty());
    assert(b is Some);
    let (wb, _ub, _rb, _cb) = b->0;
    assert(wb.chars == tb.text);
    assert(edit_model(wb, u, t.readonly, t.mode == RuiTextBoxMode::MultiLine, t.max_characters, None) == Some(wb));
}

/// Law (what redo gives back): right after an undo frame, a frame that presses only Ctrl+Y
/// restores the text that the undo frame replaced.
pub proof fn law_redo_after_undo(tb: TextBoxView, u: EditKeys, r: EditKeys)
    requires
        !tb.readonly,
        tb.undo_stack.len() > 0,
        history_keys(u, true),
        history_keys(r, false),
    ensures
        textbox_step(tb, u, None) is Some,
        textbox_step(textbox_step(tb, u, None)->0, r, None) is Some,
        textbox_step(textbox_step(tb, u, None)->0, r, None)->0.text == tb.text,
        textbox_step(textbox_step(tb, u, None)->0, r, None)->0.cursor_index == tb.cursor_index,
        textbox_step(textbox_step(tb, u, None)->0, r, None)->0.selection == tb.selection,
{
    assert(typed_view(u) =~= Seq::<Seq<char>>::empty());
    assert(typed_view(r) =~= Seq::<Seq<char>>::empty());
    let b = begin_model(tb, u);
    assert(b is Some);
    let (w, undo, redo, c) = b->0;
    assert(edit_model(w, u, tb.readonly, tb.mode == RuiTextBoxMode::MultiLine, tb.max_characters, None) == Some(w));
    let t = textbox_step(tb, u, None)->0;
    assert(t.redo_stack == tb.redo_stack.push(saved_state(tb)));
    let b2 = begin_model(t, r);
    assert(b2 is Some);
    let (w2, _u2, _r2, _c2) = b2->0;
    assert(edit_model(w2, r, t.readonly, t.mode == RuiTextBoxMode::MultiLine, t.max_characters, None) == Some(w2));
}

/// Law: once the undo and redo histories together hold at most `UNDO_LIMIT` states, no frame of
/// input makes them hold more.
pub proof fn law_history_bounded(tb: TextBoxView, k: EditKeys, p: Option<Seq<char>>)
    requires
        tb.undo_stack.len() + tb.redo_stack.len() <= UNDO_LIMIT,
        textbox_step(tb, k, p) is Some,
    ensures
        textbox_step(tb, k, p)->0.undo_stack.len() + textbox_step(tb, k, p)->0.redo_stack.len() <= UNDO_LIMIT,
{
    let (w, undo, redo, copied) = begin_model(tb, k)->0;
    assert(undo.len() + redo.len() == tb.undo_stack.len() + tb.redo_stack.len());
}

/// Law: the text of a read-only box never changes.
pub proof fn law_readonly_keeps_text(tb: TextBoxView, k: EditKeys, p: Option<Seq<char>>)
    requires
        tb.readonly,
        textbox_step(tb, k, p) is Some,
    ensures
        textbox_step(tb, k, p)->0.text == tb.text,
{
    let (w, undo, redo, copied) = begin_model(tb, k)->0;
    assert(!w.changed_text);
}

proof fn lemma_typed_keeps_undo_redo(w: EditWork, evs: Seq<Seq<char>>, ctrl: bool, limit: Option<usize>)
    requires
        typed_all(w, evs, ctrl, limit) is Some,
    ensures
        typed_all(w, evs, ctrl, limit)->0.undo_redo == w.undo_redo,
    decreases evs.len(),
{
    if evs.len() > 0 {
        lemma_typed_keeps_undo_redo(w, evs.drop_last(), ctrl, limit);
    }
}

proof fn lemma_edit_keeps_undo_redo(
    w: EditWork,
    k: EditKeys,
    readonly: bool,
    multiline: bool,
    limit: Option<usize>,
    paste: Option<Seq<char>>,
)
    requires
        edit_model(w, k, readonly, multiline, limit, paste) is Some,
    ensures
        edit_model(w, k, readonly, multiline, limit, paste)->0.undo_redo == w.undo_redo,
{
    if !readonly {
        let w1 = paste_step(w, k, paste, limit)->0;
        lemma_typed_keeps_undo_redo(w1, typed_view(k), k.ctrl, limit);
    }
}

proof fn lemma_take_fits(w: EditWork, limit: Option<usize>)
    requires
        fits(w.chars, limit),
        take_selection(w) is Some,
    ensures
        fits(take_selection(w)->0.chars, limit),
        take_selection(w)->0.chars.len() <= w.chars.len(),
{
}

proof fn lemma_insert_fits(w: EditWork, s: Seq<char>, limit: Option<usize>)
    requires
        fits(w.chars, limit),
        insert_limited(w, s, limit) is Some,
    ensures
        fits(insert_limited(w, s, limit)->0.chars, limit),
{
}

proof fn lemma_typed_fits(w: EditWork, evs: Seq<Seq<char>>, ctrl: bool, limit: Option<usize>)
    requires
        fits(w.chars, limit),
        typed_all(w, evs, ctrl, limit) is Some,
    ensures
        fits(typed_all(w, evs, ctrl, limit)->0.chars, limit),
    decreases evs.len(),
{
    if evs.len() > 0 {
        let w1 = typed_all(w, evs.drop_last(), ctrl, limit)->0;
        lemma_typed_fits(w, evs.drop_last(), ctrl, limit);
        if types_text(evs.last(), ctrl) {
            lemma_take_fits(w1, limit);
            lemma_insert_fits(take_selection(w1)->0, evs.last(), limit);
        }
    }
}

/// Positions that lie within a text: the cursor and both ends of the selection are at most its
/// length.
pub open spec fn positions_within(text: Seq<char>, cursor: usize, sel: Option<(usize, usize)>) -> bool {
    &&& cursor <= text.len()
    &&& sel matches Some(s) ==> s.0 <= text.len() && s.1 <= text.len()
}

/// A saved state whose cursor and selection lie within its text.
pub open spec fn state_within(s: StateView) -> bool {
    positions_within(s.text, s.cursor_index, s.selection)
}

/// What `line_start` finds: a position at or before `i` that opens a line (the text's start or
/// right after a newline), with no newline between it and `i`.
proof fn lemma_line_start_shape(s: Seq<char>, i: int)
    requires
        0 <= i <= s.len(),
    ensures
        0 <= line_start(s, i) <= i,
        line_start(s, i) == 0 || s[line_start(s, i) - 1] == '\n',
        forall|j: int| line_start(s, i) <= j < i ==> #[trigger] s[j] != '\n',
    decreases i,
{
    if i > 0 && s[i - 1] != '\n' {
        lemma_line_start_shape(s, i - 1);
    }
}

/// A position that opens a line, with no newline up to `i`, is where `i`'s line starts.
proof fn lemma_line_start_is(s: Seq<char>, p: int, i: int)
    requires
        0 <= p <= i <= s.len(),
        p == 0 || s[p - 1] == '\n',
        forall|j: int| p <= j < i ==> #[trigger] s[j] != '\n',
    ensures
        line_start(s, i) == p,
    decreases i,
{
    if i > p {
        assert(s[i - 1] != '\n');
        lemma_line_start_is(s, p, i - 1);
    }
}

/// What `line_end` finds: the first newline at or after `i`, or the end of the text.
proof fn lemma_line_end_shape(s: Seq<char>, i: int)
    requires
        0 <= i <= s.len(),
    ensures
        i <= line_end(s, i) <= s.len(),
        line_end(s, i) == s.len() || s[line_end(s, i)] == '\n',
        forall|j: int| i <= j < line_end(s, i) ==> #[trigger] s[j] != '\n',
    decreases s.len() - i,
{
    if i < s.len() && s[i] != '\n' {
        lemma_line_end_shape(s, i + 1);
    }
}

/// A newline (or the end of the text) with no newline between `i` and it is where `i`'s line
/// ends.
proof fn lemma_line_end_is(s: Seq<char>, i: int, e: int)
    requires
        0 <= i <= e <= s.len(),
        e == s.len() || s[e] == '\n',
        forall|j: int| i <= j < e ==> #[trigger] s[j] != '\n',
    ensures
        line_end(s, i) == e,
    decreases e - i,
{
    if i < e {
        assert(s[i] != '\n');
        lemma_line_end_is(s, i + 1, e);
    }
}

/// Law (Up): from a position not on the first line, Up lands on the line above, at the same
/// column when that line is long enough and at its end otherwise.
pub proof fn law_cursor_up_previous_line(s: Seq<char>, c: int)
    requires
        0 <= c <= s.len(),
        line_start(s, c) > 0,
    ensures
        ({
            let r = cursor_up(s, c);
            let prev = line_start(s, line_start(s, c) - 1);
            &&& line_start(s, r) == prev
            &&& line_end(s, r) == line_start(s, c) - 1
            &&& r - prev == min_int(c - line_start(s, c), line_end(s, r) - prev)
        }),
{
    let ls = line_start(s, c);
    lemma_line_start_shape(s, c);
    lemma_line_start_shape(s, ls - 1);
    let ps = line_start(s, ls - 1);
    let r = cursor_up(s, c);
    assert(ps <= r <= ls - 1);
    lemma_line_start_is(s, ps, r);
    lemma_line_end_is(s, r, ls - 1);
}

/// Law (Up on the first line): Up leaves a position on the first line where it is.
pub proof fn law_cursor_up_first_line(s: Seq<char>, c: int)
    requires
        0 <= c <= s.len(),
        line_start(s, c) == 0,
    ensures
        cursor_up(s, c) == c,
{
}

/// Law (Down): from a position not on the last line, Down lands on the line below, at the same
/// column when that line is long enough and at its end otherwise; on the last line it stays.
pub proof fn law_cursor_down_next_line(s: Seq<char>, c: int)
    requires
        0 <= c <= s.len(),
    ensures
        line_end(s, c) == s.len() ==> cursor_down(s, c) == c,
        line_end(s, c) < s.len() ==> ({
            let r = cursor_down(s, c);
            let next = line_end(s, c) + 1;
            &&& line_start(s, r) == next
            &&& line_end(s, r) == line_end(s, next)
            &&& r - next == min_int(c - line_start(s, c), line_end(s, r) - next)
        }),
{
    lemma_line_end_shape(s, c);
    let le = line_end(s, c);
    if le < s.len() {
        lemma_line_end_shape(s, le + 1);
        let ne = line_end(s, le + 1);
        let r = cursor_down(s, c);
        lemma_line_start_shape(s, c);
        assert(le + 1 <= r <= ne);
        lemma_line_start_is(s, le + 1, r);
        lemma_line_end_is(s, r, ne);
    }
}

/// Keys of a frame that presses no modifier and no key but the arrows named by `up` and `down`.
pub open spec fn only_arrows(k: EditKeys, up: bool, down: bool) -> bool {
    &&& !k.ctrl && !k.shift
    &&& k.up == up && k.down == down
    &&& !k.left && !k.right && !k.home && !k.end
    &&& !k.enter && !k.backspace && !k.delete && !k.space && !k.tab
    &&& typed_view(k).len() == 0
}

/// Law (Up in a text box): in a multi-line box with no selection, a frame that presses only Up
/// moves the cursor onto the line above (see `law_cursor_up_previous_line`), keeps the text
/// and leaves no selection; on the first line the cursor stays.
pub proof fn law_textbox_up(tb: TextBoxView, k: EditKeys)
    requires
        tb.mode == RuiTextBoxMode::MultiLine,
        tb.selection is None,
        tb.text.len() <= usize::MAX,
        tb.cursor_index <= tb.text.len(),
        only_arrows(k, true, false),
    ensures
        textbox_step(tb, k, None) is Some,
        textbox_step(tb, k, None)->0.text == tb.text,
        textbox_step(tb, k, None)->0.selection is None,
        textbox_step(tb, k, None)->0.cursor_index == cursor_up(tb.text, tb.cursor_index as int),
        ({
            let s = tb.text;
            let c = tb.cursor_index as int;
            let r = textbox_step(tb, k, None)->0.cursor_index as int;
            &&& line_start(s, c) == 0 ==> r == c
            &&& line_start(s, c) > 0 ==> {
                &&& line_start(s, r) == line_start(s, line_start(s, c) - 1)
                &&& line_end(s, r) == line_start(s, c) - 1
                &&& r - line_start(s, r) == min_int(c - line_start(s, c), line_end(s, r) - line_start(s, r))
            }
        }),
{
    lemma_vertical_within(tb.text, tb.cursor_index as int);
    assert(typed_view(k) =~= Seq::<Seq<char>>::empty());
    let w0 = initial_work(tb);
    assert(w0.cursor == tb.cursor_index);
    let w1 = undo_redo_step(w0, tb.undo_stack, tb.redo_stack, k, tb.readonly, saved_state(tb)).0;
    assert(w1 == w0);
    assert(select_all_step(w1, k) == w0);
    assert(copy_step(w0, k, tb.readonly) == Some((w0, None::<Seq<char>>)));
    assert(nav_branch(k, true) == 3);
    assert(nav_target(w0, k, 3) as int == cursor_up(tb.text, tb.cursor_index as int));
    let (w, undo, redo, copied) = begin_model(tb, k)->0;
    assert(w.cursor == cursor_up(tb.text, tb.cursor_index as int));
    assert(edit_model(w, k, tb.readonly, true, tb.max_characters, None) == Some(w));
    if line_start(tb.text, tb.cursor_index as int) > 0 {
        law_cursor_up_previous_line(tb.text, tb.cursor_index as int);
    }
}

/// Law (Down in a text box): in a multi-line box with no selection, a frame that presses only
/// Down moves the cursor onto the line below (see `law_cursor_down_next_line`), keeps the text
/// and leaves no selection; on the last line the cursor stays.
pub proof fn law_textbox_down(tb: TextBoxView, k: EditKeys)
    requires
        tb.mode == RuiTextBoxMode::MultiLine,
        tb.selection is None,
        tb.text.len() <= usize::MAX,
        tb.cursor_index <= tb.text.len(),
        only_arrows(k, false, true),
    ensures
        textbox_step(tb, k, None) is Some,
        textbox_step(tb, k, None)->0.text == tb.text,
        textbox_step(tb, k, None)->0.selection is None,
        textbox_step(tb, k, None)->0.cursor_index == cursor_down(tb.text, tb.cursor_index as int),
        ({
            let s = tb.text;
            let c = tb.cursor_index as int;
            let r = textbox_step(tb, k, None)->0.cursor_index as int;
            &&& line_end(s, c) == s.len() ==> r == c
            &&& line_end(s, c) < s.len() ==> {
                &&& line_start(s, r) == line_end(s, c) + 1
                &&& r - line_start(s, r) == min_int(c - line_start(s, c), line_end(s, r) - line_start(s, r))
            }
        }),
{
    lemma_vertical_within(tb.text, tb.cursor_index as int);
    assert(typed_view(k) =~= Seq::<Seq<char>>::empty());
    let w0 = initial_work(tb);
    assert(w0.cursor == tb.cursor_index);
    let w1 = undo_redo_step(w0, tb.undo_stack, tb.redo_stack, k, tb.readonly, saved_state(tb)).0;
    assert(w1 == w0);
    assert(select_all_step(w1, k) == w0);
    assert(copy_step(w0, k, tb.readonly) == Some((w0, None::<Seq<char>>)));
    assert(nav_branch(k, true) == 4);
    assert(nav_target(w0, k, 4) as int == cursor_down(tb.text, tb.cursor_index as int));
    let (w, undo, redo, copied) = begin_model(tb, k)->0;
    assert(w.cursor == cursor_down(tb.text, tb.cursor_index as int));
    assert(edit_model(w, k, tb.readonly, true, tb.max_characters, None) == Some(w));
    law_cursor_down_next_line(tb.text, tb.cursor_index as int);
}

/// Keys of a frame that presses no modifier and only Delete (`delete`) or only Backspace
/// (`!delete`).
pub open spec fn only_erase(k: EditKeys, delete: bool) -> bool {
    &&& !k.ctrl && !k.shift
    &&& !k.left && !k.right && !k.up && !k.down && !k.home && !k.end
    &&& !k.enter && !k.space
    &&& k.delete == delete && k.backspace == !delete
    &&& typed_view(k).len() == 0
}

/// Law (Delete in a text box): in an editable box with no selection, a frame that presses only
/// Delete removes the character after the cursor and keeps the cursor; at the end of the text
/// it changes nothing.
pub proof fn law_textbox_delete(tb: TextBoxView, k: EditKeys)
    requires
        !tb.readonly,
        tb.selection is None,
        tb.cursor_index <= tb.text.len(),
        only_erase(k, true),
    ensures
        textbox_step(tb, k, None) is Some,
        tb.cursor_index < tb.text.len() ==> {
            let t = textbox_step(tb, k, None)->0;
            &&& t.text == tb.text.take(tb.cursor_index as int) + tb.text.skip(tb.cursor_index + 1)
            &&& t.cursor_index == tb.cursor_index
            &&& t.selection is None
            &&& textbox_step_changed(tb, k, None)
        },
        tb.cursor_index == tb.text.len() ==> textbox_step(tb, k, None)->0.text == tb.text
            && !textbox_step_changed(tb, k, None),
{
    assert(typed_view(k) =~= Seq::<Seq<char>>::empty());
    let c = tb.cursor_index as int;
    let (w, undo, redo, copied) = begin_model(tb, k)->0;
    assert(w == initial_work(tb));
    assert(typed_all(w, typed_view(k), k.ctrl, tb.max_characters) == Some(w));
    if c < tb.text.len() {
        assert(tb.text.remove(c) =~= tb.text.take(c) + tb.text.skip(c + 1));
    }
}

/// Law (Backspace in a text box): in an editable box with no selection, a frame that presses
/// only Backspace removes the character before the cursor and moves the cursor back by one; at
/// the start it changes nothing.
pub proof fn law_textbox_backspace(tb: TextBoxView, k: EditKeys)
    requires
        !tb.readonly,
        tb.selection is None,
        tb.cursor_index <= tb.text.len(),
        only_erase(k, false),
    ensures
        textbox_step(tb, k, None) is Some,
        tb.cursor_index > 0 ==> {
            let t = textbox_step(tb, k, None)->0;
            &&& t.text == tb.text.take(tb.cursor_index - 1) + tb.text.skip(tb.cursor_index as int)
            &&& t.cursor_index == tb.cursor_index - 1
            &&& t.selection is None
            &&& textbox_step_changed(tb, k, None)
        },
        tb.cursor_index == 0 ==> textbox_step(tb, k, None)->0.text == tb.text
            && !textbox_step_changed(tb, k, None),
{
    assert(typed_view(k) =~= Seq::<Seq<char>>::empty());
    let c = tb.cursor_index as int;
    let (w, undo, redo, copied) = begin_model(tb, k)->0;
    assert(w == initial_work(tb));
    assert(typed_all(w, typed_view(k), k.ctrl, tb.max_characters) == Some(w));
    if c > 0 {
        assert(tb.text.remove(c - 1) =~= tb.text.take(c - 1) + tb.text.skip(c));
    }
}

/// Keys of a frame that presses no modifier and no command key, with the given character keys.
pub open spec fn only_typing(k: EditKeys, typed: Seq<Seq<char>>) -> bool {
    &&& !k.ctrl && !k.shift && !k.tab
    &&& !k.left && !k.right && !k.up && !k.down && !k.home && !k.end
    &&& !k.enter && !k.space && !k.delete && !k.backspace
    &&& typed_view(k) == typed
}

/// Law (typing in a text box): in an editable box without a character limit and with no
/// selection, typing one text puts it at the cursor and leaves the cursor after it.
pub proof fn law_textbox_typing(tb: TextBoxView, k: EditKeys, t: Seq<char>)
    requires
        !tb.readonly,
        tb.max_characters is None,
        tb.selection is None,
        tb.cursor_index <= tb.text.len(),
        tb.cursor_index + t.len() <= usize::MAX,
        types_text(t, false),
        only_typing(k, seq![t]),
    ensures
        textbox_step(tb, k, None) is Some,
        textbox_step(tb, k, None)->0.text == tb.text.take(tb.cursor_index as int) + t + tb.text.skip(
            tb.cursor_index as int,
        ),
        textbox_step(tb, k, None)->0.cursor_index == tb.cursor_index + t.len(),
{
    let (w, undo, redo, copied) = begin_model(tb, k)->0;
    assert(w == initial_work(tb));
    assert(seq![t].drop_last() =~= Seq::<Seq<char>>::empty());
    assert(typed_all(w, seq![t].drop_last(), false, None) == Some(w));
    assert(typed_all(w, seq![t], false, None) == insert_limited(w, t, None));
    assert(t.take(t.len() as int) =~= t);
}

/// Law (Left and Right in a text box): with no selection and no Shift, Left moves the cursor
/// one character back and Right one forward, stopping at the ends; the text is kept.
pub proof fn law_textbox_left_right(tb: TextBoxView, k: EditKeys)
    requires
        tb.selection is None,
        tb.text.len() <= usize::MAX,
        tb.cursor_index <= tb.text.len(),
        !k.ctrl && !k.shift && !k.tab,
        k.left != k.right,
        !k.up && !k.down && !k.home && !k.end,
        !k.enter && !k.space && !k.delete && !k.backspace,
        typed_view(k).len() == 0,
    ensures
        textbox_step(tb, k, None) is Some,
        textbox_step(tb, k, None)->0.text == tb.text,
        k.left ==> textbox_step(tb, k, None)->0.cursor_index == if tb.cursor_index > 0 {
            tb.cursor_index - 1
        } else {
            0
        },
        k.right ==> textbox_step(tb, k, None)->0.cursor_index == if tb.cursor_index < tb.text.len() {
            tb.cursor_index + 1
        } else {
            tb.cursor_index as int
        },
{
    assert(typed_view(k) =~= Seq::<Seq<char>>::empty());
    let (w, undo, redo, copied) = begin_model(tb, k)->0;
    assert(edit_model(w, k, tb.readonly, tb.mode == RuiTextBoxMode::MultiLine, tb.max_characters, None) == Some(w));
}

/// Every text the box holds or can return to (its text and the text of each saved state) fits
/// its character limit.
pub open spec fn all_fit(tb: TextBoxView) -> bool {
    &&& fits(tb.text, tb.max_characters)
    &&& forall|i: int| 0 <= i < tb.undo_stack.len() ==> fits(#[trigger] tb.undo_stack[i].text, tb.max_characters)
    &&& forall|i: int| 0 <= i < tb.redo_stack.len() ==> fits(#[trigger] tb.redo_stack[i].text, tb.max_characters)
}

/// Law: the character limit is kept. When the text and every text in the undo and redo
/// histories fit the limit, they all still fit after any frame of input, undo and redo
/// included.
pub proof fn law_limit_kept(tb: TextBoxView, k: EditKeys, p: Option<Seq<char>>)
    requires
        all_fit(tb),
        textbox_step(tb, k, p) is Some,
    ensures
        textbox_step(tb, k, p)->0.max_characters == tb.max_characters,
        all_fit(textbox_step(tb, k, p)->0),
{
    let limit = tb.max_characters;
    let saved = saved_state(tb);
    let (w1, u1, r1) = undo_redo_step(initial_work(tb), tb.undo_stack, tb.redo_stack, k, tb.readonly, saved);
    assert(fits(w1.chars, limit)) by {
        if k.ctrl && k.z && !tb.readonly && tb.undo_stack.len() > 0 {
            assert(fits(tb.undo_stack[tb.undo_stack.len() - 1].text, limit));
        } else if k.ctrl && k.y && !tb.readonly && tb.redo_stack.len() > 0 {
            assert(fits(tb.redo_stack[tb.redo_stack.len() - 1].text, limit));
        }
    }
    assert forall|i: int| 0 <= i < u1.len() implies fits(#[trigger] u1[i].text, limit) by {
        if k.ctrl && k.z && !tb.readonly && tb.undo_stack.len() > 0 {
            assert(u1[i] == tb.undo_stack[i]);
        } else if k.ctrl && k.y && !tb.readonly && tb.redo_stack.len() > 0 {
            if i < tb.undo_stack.len() {
                assert(u1[i] == tb.undo_stack[i]);
            }
        }
    }
    assert forall|i: int| 0 <= i < r1.len() implies fits(#[trigger] r1[i].text, limit) by {
        if k.ctrl && k.z && !tb.readonly && tb.undo_stack.len() > 0 {
            if i < tb.redo_stack.len() {
                assert(r1[i] == tb.redo_stack[i]);
            }
        } else if k.ctrl && k.y && !tb.readonly && tb.redo_stack.len() > 0 {
            assert(r1[i] == tb.redo_stack[i]);
        }
    }
    let (w, undo, redo, copied) = begin_model(tb, k)->0;
    assert(undo == u1 && redo == r1);
    assert(fits(w.chars, limit));
    let w2 = edit_model(w, k, tb.readonly, tb.mode == RuiTextBoxMode::MultiLine, limit, p)->0;
    assert(fits(w2.chars, limit)) by {
        if !tb.readonly {
            let multi = tb.mode == RuiTextBoxMode::MultiLine;
            let wp = paste_step(w, k, p, limit)->0;
            if k.ctrl && k.v && p is Some {
                lemma_take_fits(w, limit);
                lemma_insert_fits(take_selection(w)->0, p->0, limit);
            }
            lemma_typed_fits(wp, typed_view(k), k.ctrl, limit);
            let wt = typed_all(wp, typed_view(k), k.ctrl, limit)->0;
            let we = enter_step(wt, k, multi, limit)->0;
            if k.enter && multi {
                lemma_take_fits(wt, limit);
                lemma_insert_fits(take_selection(wt)->0, seq!['\n'], limit);
            }
            if !k.backspace && !k.delete && k.space {
                lemma_take_fits(we, limit);
                lemma_insert_fits(take_selection(we)->0, seq![' '], limit);
            }
        }
    }
    let t = textbox_step(tb, k, p)->0;
    assert(t == commit_model(tb, w2, undo, redo, saved));
    let pushed = undo.push(saved);
    assert forall|i: int| 0 <= i < pushed.len() implies fits(#[trigger] pushed[i].text, limit) by {
        if i < undo.len() {
            assert(pushed[i] == undo[i]);
        }
    }
    assert forall|i: int| 0 <= i < t.undo_stack.len() implies fits(#[trigger] t.undo_stack[i].text, limit) by {
        if w2.changed_text && !w2.undo_redo && w2.chars != saved.text && pushed.len() > UNDO_LIMIT {
            assert(t.undo_stack[i] == pushed[i + 1]);
        }
    }
}

/// The text box's cursor and selection lie within its text, and so do those of every state in
/// its undo and redo histories.
pub open spec fn textbox_within(tb: TextBoxView) -> bool {
    &&& positions_within(tb.text, tb.cursor_index, tb.selection)
    &&& forall|i: int| 0 <= i < tb.undo_stack.len() ==> state_within(#[trigger] tb.undo_stack[i])
    &&& forall|i: int| 0 <= i < tb.redo_stack.len() ==> state_within(#[trigger] tb.redo_stack[i])
}

/// A frame that extends a selection with Shift from a position past the end of the text: from
/// the selection's anchor, or from where the cursor was when the frame began after an undo, redo
/// or cut earlier in the same frame has left a text shorter than that.
pub open spec fn textbox_stale_shift_anchor(tb: TextBoxView, k: EditKeys) -> bool {
    let w0 = initial_work(tb);
    let w1 = undo_redo_step(w0, tb.undo_stack, tb.redo_stack, k, tb.readonly, saved_state(tb)).0;
    match copy_step(select_all_step(w1, k), k, tb.readonly) {
        None => false,
        Some((w3, _copied)) => k.shift && nav_branch(k, tb.mode == RuiTextBoxMode::MultiLine) != 0
            && if w3.selection is None || w3.anchor is None {
            w0.cursor > w3.chars.len()
        } else {
            w3.anchor->0 > w3.chars.len()
        },
    }
}

proof fn lemma_line_start_bounds(s: Seq<char>, i: int)
    requires
        0 <= i <= s.len(),
    ensures
        0 <= line_start(s, i) <= i,
    decreases i,
{
    if i > 0 && s[i - 1] != '\n' {
        lemma_line_start_bounds(s, i - 1);
    }
}

proof fn lemma_vertical_within(s: Seq<char>, c: int)
    requires
        0 <= c <= s.len(),
    ensures
        0 <= cursor_up(s, c) <= s.len(),
        0 <= cursor_down(s, c) <= s.len(),
{
    lemma_line_start_bounds(s, c);
    let ls = line_start(s, c);
    if ls > 0 {
        lemma_line_start_bounds(s, ls - 1);
    }
    lemma_line_end_bounds(s, c);
    let le = line_end(s, c);
    if le < s.len() {
        lemma_line_end_bounds(s, le + 1);
    }
}

proof fn lemma_take_within(w: EditWork)
    requires
        positions_within(w.chars, w.cursor, w.selection),
        take_selection(w) is Some,
    ensures
        ({
            let r = take_selection(w)->0;
            &&& positions_within(r.chars, r.cursor, r.selection)
            &&& r.chars.len() <= w.chars.len()
            &&& r.changed_text == w.changed_text
        }),
{
}

proof fn lemma_insert_within(w: EditWork, s: Seq<char>, limit: Option<usize>)
    requires
        positions_within(w.chars, w.cursor, w.selection),
        w.selection is None,
        insert_limited(w, s, limit) is Some,
    ensures
        ({
            let r = insert_limited(w, s, limit)->0;
            &&& positions_within(r.chars, r.cursor, r.selection)
            &&& !r.changed_text ==> r.chars == w.chars && !w.changed_text
            &&& w.changed_text ==> r.changed_text
        }),
{
    let n = room(limit, w.chars.len(), s.len());
    if n > 0 {
        let r = insert_limited(w, s, limit)->0;
        assert(r.chars.len() == w.chars.len() + n);
    }
}

/// Deletes the selection, then inserts as much of `s` as the limit allows.
proof fn lemma_replace_limited_within(w: EditWork, s: Seq<char>, limit: Option<usize>)
    requires
        positions_within(w.chars, w.cursor, w.selection),
        take_selection(w) is Some,
        insert_limited(take_selection(w)->0, s, limit) is Some,
    ensures
        ({
            let r = insert_limited(take_selection(w)->0, s, limit)->0;
            &&& positions_within(r.chars, r.cursor, r.selection)
            &&& !r.changed_text ==> r.chars.len() <= w.chars.len() && !w.changed_text
            &&& w.changed_text ==> r.changed_text
        }),
{
    lemma_take_within(w);
    lemma_insert_within(take_selection(w)->0, s, limit);
}

proof fn lemma_typed_within(w: EditWork, evs: Seq<Seq<char>>, ctrl: bool, limit: Option<usize>)
    requires
        positions_within(w.chars, w.cursor, w.selection),
        typed_all(w, evs, ctrl, limit) is Some,
    ensures
        ({
            let r = typed_all(w, evs, ctrl, limit)->0;
            &&& positions_within(r.chars, r.cursor, r.selection)
            &&& !r.changed_text ==> r.chars.len() <= w.chars.len() && !w.changed_text
            &&& w.changed_text ==> r.changed_text
        }),
    decreases evs.len(),
{
    if evs.len() > 0 {
        lemma_typed_within(w, evs.drop_last(), ctrl, limit);
        let w1 = typed_all(w, evs.drop_last(), ctrl, limit)->0;
        if types_text(evs.last(), ctrl) {
            lemma_replace_limited_within(w1, evs.last(), limit);
        }
    }
}

proof fn lemma_edit_within(
    w: EditWork,
    k: EditKeys,
    readonly: bool,
    multiline: bool,
    limit: Option<usize>,
    paste: Option<Seq<char>>,
)
    requires
        positions_within(w.chars, w.cursor, w.selection),
        edit_model(w, k, readonly, multiline, limit, paste) is Some,
    ensures
        ({
            let r = edit_model(w, k, readonly, multiline, limit, paste)->0;
            &&& positions_within(r.chars, r.cursor, r.selection)
            &&& !r.changed_text ==> r.chars.len() <= w.chars.len() && !w.changed_text
        }),
{
    if !readonly {
        let w1 = paste_step(w, k, paste, limit)->0;
        if k.ctrl && k.v && paste is Some {
            lemma_replace_limited_within(w, paste->0, limit);
        }
        lemma_typed_within(w1, typed_view(k), k.ctrl, limit);
        let w2 = typed_all(w1, typed_view(k), k.ctrl, limit)->0;
        let w3 = enter_step(w2, k, multiline, limit)->0;
        if k.enter && multiline {
            lemma_replace_limited_within(w2, seq!['\n'], limit);
        }
        if !k.backspace && !k.delete && k.space {
            lemma_replace_limited_within(w3, seq![' '], limit);
        }
    }
}

proof fn lemma_textbox_begin_within(tb: TextBoxView, k: EditKeys)
    requires
        textbox_within(tb),
        !textbox_stale_shift_anchor(tb, k),
        begin_model(tb, k) is Some,
    ensures
        ({
            let (w, undo, redo, _copied) = begin_model(tb, k)->0;
            &&& positions_within(w.chars, w.cursor, w.selection)
            &&& forall|i: int| 0 <= i < undo.len() ==> state_within(#[trigger] undo[i])
            &&& forall|i: int| 0 <= i < redo.len() ==> state_within(#[trigger] redo[i])
            &&& !w.changed_text ==> w.chars == tb.text
        }),
{
    let w0 = initial_work(tb);
    let saved = saved_state(tb);
    let (w1, u1, r1) = undo_redo_step(w0, tb.undo_stack, tb.redo_stack, k, tb.readonly, saved);
    assert(state_within(saved));
    assert(positions_within(w1.chars, w1.cursor, w1.selection)) by {
        if k.ctrl && k.z && !tb.readonly && tb.undo_stack.len() > 0 {
            assert(state_within(tb.undo_stack[tb.undo_stack.len() - 1]));
        } else if k.ctrl && k.y && !tb.readonly && tb.redo_stack.len() > 0 {
            assert(state_within(tb.redo_stack[tb.redo_stack.len() - 1]));
        }
    }
    assert forall|i: int| 0 <= i < u1.len() implies state_within(#[trigger] u1[i]) by {
        if k.ctrl && k.z && !tb.readonly && tb.undo_stack.len() > 0 {
            assert(u1[i] == tb.undo_stack[i]);
        } else if k.ctrl && k.y && !tb.readonly && tb.redo_stack.len() > 0 {
            if i < tb.undo_stack.len() {
                assert(u1[i] == tb.undo_stack[i]);
            }
        }
    }
    assert forall|i: int| 0 <= i < r1.len() implies state_within(#[trigger] r1[i]) by {
        if k.ctrl && k.z && !tb.readonly && tb.undo_stack.len() > 0 {
            if i < tb.redo_stack.len() {
                assert(r1[i] == tb.redo_stack[i]);
            }
        } else if k.ctrl && k.y && !tb.readonly && tb.redo_stack.len() > 0 {
            assert(r1[i] == tb.redo_stack[i]);
        }
    }
    let w2 = select_all_step(w1, k);
    let (w3, copied) = copy_step(w2, k, tb.readonly)->0;
    assert(positions_within(w3.chars, w3.cursor, w3.selection));
    let b = nav_branch(k, tb.mode == RuiTextBoxMode::MultiLine);
    if (b == 3 || b == 4) && w3.cursor <= w3.chars.len() {
        lemma_vertical_within(w3.chars, w3.cursor as int);
    }
}

/// Law: positions stay within the text. When the text box's cursor and selection lie within its
/// text, and those of every saved state within that state's text, the same holds after any
/// frame of input, except a frame that extends a selection with Shift from a position past the
/// end of the text (a stale anchor, or a start left behind by an undo, redo or cut in the same
/// frame).
pub proof fn law_positions_within(tb: TextBoxView, k: EditKeys, p: Option<Seq<char>>)
    requires
        textbox_within(tb),
        !textbox_stale_shift_anchor(tb, k),
        textbox_step(tb, k, p) is Some,
    ensures
        textbox_within(textbox_step(tb, k, p)->0),
{
    lemma_textbox_begin_within(tb, k);
    let (w, undo, redo, copied) = begin_model(tb, k)->0;
    let multi = tb.mode == RuiTextBoxMode::MultiLine;
    lemma_edit_within(w, k, tb.readonly, multi, tb.max_characters, p);
    let w2 = edit_model(w, k, tb.readonly, multi, tb.max_characters, p)->0;
    let saved = saved_state(tb);
    let t = textbox_step(tb, k, p)->0;
    assert(t == commit_model(tb, w2, undo, redo, saved));
    assert(state_within(saved));
    let pushed = undo.push(saved);
    assert forall|i: int| 0 <= i < pushed.len() implies state_within(#[trigger] pushed[i]) by {
        if i < undo.len() {
            assert(pushed[i] == undo[i]);
        }
    }
    assert forall|i: int| 0 <= i < t.undo_stack.len() implies state_within(#[trigger] t.undo_stack[i]) by {
        if w2.changed_text && !w2.undo_redo && w2.chars != saved.text && pushed.len() > UNDO_LIMIT {
            assert(t.undo_stack[i] == pushed[i + 1]);
        }
    }
}

} // verus!

verus! {

// ---------------------------------------------------------------------------------------------
// Pointer input and layout in character units.
pub proof fn lemma_line_end_bounds(s: Seq<char>, i: int)
    requires
        0 <= i <= s.len(),
    ensures
        i <= line_end(s, i) <= s.len(),
    decreases s.len() - i,
{
    if i < s.len() && s[i] != '\n' {
        lemma_line_end_bounds(s, i + 1);
    }
}

/// Line count, length of the last line and the wrapped rows of the complete lines of `p`.
pub open spec fn layout_scan(p: Seq<char>, cpr: int) -> (int, int, int)
    decreases p.len(),
{
    if p.len() == 0 {
        (0, 0, 0)
    } else {
        let (l, c, w) = layout_scan(p.drop_last(), cpr);
        if p.last() == '\n' {
            (l + 1, 0, w + c / cpr)
        } else {
            (l, c + 1, w)
        }
    }
}

/// Row and column (in characters) where the cursor is drawn in a multi-line box; with word wrap
/// every `chars_per_row` characters of a line start a new row.
pub open spec fn cursor_row_col(text: Seq<char>, cursor: usize, word_wrap: bool, cpr: int) -> (int, int) {
    let p = text.take(min_int(cursor as int, text.len() as int));
    let (l, c, w) = layout_scan(p, cpr);
    if word_wrap {
        (l + w + c / cpr, c % cpr)
    } else {
        (l, c)
    }
}

/// The character position a click on visual row `target` and column `col` selects in a
/// multi-line box (scan from the line starting at `pos`, which is visual row `vis`).
pub open spec fn click_scan(s: Seq<char>, pos: int, vis: int, target: int, col: int, wrap: bool, cpr: int) -> int
    decreases s.len() + 1 - pos,
{
    if pos > s.len() || pos < 0 {
        s.len() as int
    } else {
        let le = line_end(s, pos);
        proof {
            lemma_line_end_bounds(s, pos);
        }
        let ll = le - pos;
        let vl = if !wrap {
            1
        } else if ll / cpr >= 1 {
            ll / cpr
        } else {
            1
        };
        if target < vis + vl {
            pos + min_int(
                if !wrap {
                    col
                } else {
                    (target - vis) * cpr + col
                },
                ll,
            )
        } else if le >= s.len() {
            s.len() as int
        } else {
            click_scan(s, le + 1, vis + vl, target, col, wrap, cpr)
        }
    }
}

/// Whether the column arithmetic of [`click_scan`] stays within `usize` on the line it stops at.
pub open spec fn click_fits(s: Seq<char>, pos: int, vis: int, target: int, col: int, wrap: bool, cpr: int) -> bool
    decreases s.len() + 1 - pos,
{
    if pos > s.len() || pos < 0 {
        true
    } else {
        let le = line_end(s, pos);
        proof {
            lemma_line_end_bounds(s, pos);
        }
        let ll = le - pos;
        let vl = if !wrap {
            1
        } else if ll / cpr >= 1 {
            ll / cpr
        } else {
            1
        };
        if target < vis + vl {
            !wrap || (target - vis) * cpr + col <= usize::MAX
        } else if le >= s.len() {
            true
        } else {
            click_fits(s, le + 1, vis + vl, target, col, wrap, cpr)
        }
    }
}

/// The longest line's length in characters, at least 1.
pub open spec fn longest_line_from(s: Seq<char>, pos: int, best: int) -> int
    decreases s.len() + 1 - pos,
{
    if pos > s.len() || pos < 0 {
        best
    } else {
        let le = line_end(s, pos);
        proof {
            lemma_line_end_bounds(s, pos);
        }
        let b = if le - pos > best {
            le - pos
        } else {
            best
        };
        if le >= s.len() {
            b
        } else {
            longest_line_from(s, le + 1, b)
        }
    }
}

impl Default for RuiTextBox {
    /// An empty single-line text box, unfocused and with nothing to undo.
    fn default() -> (r: Self)
        ensures
            r@ == (TextBoxView {
                text: Seq::empty(),
                placeholder: Seq::empty(),
                show_cursor: false,
                cursor_index: 0,
                mode: RuiTextBoxMode::SingleLine,
                max_characters: None,
                readonly: false,
                selection: None,
                selection_anchor: None,
                word_wrap: false,
                cursor_moved: false,
                dragging_v_scroll: false,
                dragging_h_scroll: false,
                previous_cursor_index: 0,
                previous_text_len: 0,
                previous_focused: false,
                undo_stack: Seq::empty(),
                redo_stack: Seq::empty(),
            }),
    {
        let r = RuiTextBox {
            text: String::new(),
            placeholder: String::new(),
            show_cursor: false,
            cursor_index: 0,
            mode: RuiTextBoxMode::SingleLine,
            max_characters: None,
            readonly: false,
            selection: None,
            selection_anchor: None,
            word_wrap: false,
            cursor_moved: false,
            dragging_v_scroll: false,
            dragging_h_scroll: false,
            previous_cursor_index: 0,
            previous_text_len: 0,
            previous_focused: false,
            undo_stack: Vec::new(),
            redo_stack: Vec::new(),
        };
        assert(r@.undo_stack =~= Seq::<StateView>::empty());
        assert(r@.redo_stack =~= Seq::<StateView>::empty());
        r
    }
}

impl RuiTextBox {
    /// A text box with the given placeholder and mode; everything else empty.
    pub fn new(placeholder: String, mode: RuiTextBoxMode) -> (r: Self)
        ensures
            r@ == (TextBoxView {
                text: Seq::empty(),
                placeholder: placeholder@,
                show_cursor: false,
                cursor_index: 0,
                mode,
                max_characters: None,
                readonly: false,
                selection: None,
                selection_anchor: None,
                word_wrap: false,
                cursor_moved: false,
                dragging_v_scroll: false,
                dragging_h_scroll: false,
                previous_cursor_index: 0,
                previous_text_len: 0,
                previous_focused: false,
                undo_stack: Seq::empty(),
                redo_stack: Seq::empty(),
            }),
    {
        let r = RuiTextBox {
            text: String::new(),
            placeholder,
            show_cursor: false,
            cursor_index: 0,
            mode,
            max_characters: None,
            readonly: false,
            selection: None,
            selection_anchor: None,
            word_wrap: false,
            cursor_moved: false,
            dragging_v_scroll: false,
            dragging_h_scroll: false,
            previous_cursor_index: 0,
            previous_text_len: 0,
            previous_focused: false,
            undo_stack: Vec::new(),
            redo_stack: Vec::new(),
        };
        assert(r@.undo_stack =~= Seq::<StateView>::empty());
        assert(r@.redo_stack =~= Seq::<StateView>::empty());
        r
    }

    /// Places the cursor at a clicked character position (clamped to the text). A fresh press
    /// starts a new selection anchor there; dragging with the button held selects from the
    /// anchor.
    pub fn apply_click(&mut self, clicked_idx: usize, fresh_press: bool)
        ensures
            ({
                let c = if clicked_idx <= old(self)@.text.len() {
                    clicked_idx
                } else {
                    old(self)@.text.len() as usize
                };
                &&& fresh_press ==> final(self)@ == TextBoxView {
                    selection_anchor: Some(c),
                    cursor_index: c,
                    selection: None,
                    show_cursor: true,
                    ..old(self)@
                }
                &&& (!fresh_press && old(self).selection_anchor is Some) ==> final(self)@
                    == TextBoxView {
                    cursor_index: c,
                    selection: if old(self).selection_anchor->0 != c {
                        Some((old(self).selection_anchor->0, c))
                    } else {
                        None
                    },
                    show_cursor: true,
                    ..old(self)@
                }
                &&& (!fresh_press && old(self).selection_anchor is None) ==> final(self)@
                    == TextBoxView { show_cursor: true, ..old(self)@ }
            }),
    {
        let max_idx = self.text.as_str().unicode_len();
        let c = if clicked_idx <= max_idx {
            clicked_idx
        } else {
            max_idx
        };
        if fresh_press {
            self.selection_anchor = Some(c);
            self.cursor_index = c;
            self.selection = None;
        } else if let Some(anchor) = self.selection_anchor {
            self.cursor_index = c;
            self.selection = if anchor != c {
                Some((anchor, c))
            } else {
                None
            };
        }
        self.show_cursor = true;
    }

    /// The character position that a click on visual row `target_line`, column `column` of a
    /// multi-line box selects (before clamping); `chars_per_row` is the wrap width. An error
    /// where the row-times-width arithmetic overflows a `usize`.
    pub fn multiline_click_index(&self, target_line: usize, column: usize, chars_per_row: usize) -> (r:
        Result<usize, TextEditFault>)
        requires
            chars_per_row >= 1,
        ensures
            click_fits(self.text@, 0, 0, target_line as int, column as int, self.word_wrap, chars_per_row as int)
                ==> r == Ok::<usize, TextEditFault>(
                click_scan(self.text@, 0, 0, target_line as int, column as int, self.word_wrap, chars_per_row as int) as usize,
            ),
            !click_fits(self.text@, 0, 0, target_line as int, column as int, self.word_wrap, chars_per_row as int)
                ==> r is Err,
    {
        let s = chars_of(self.text.as_str());
        let n = s.len();
        let wrap = self.word_wrap;
        let cpr = chars_per_row;
        let mut pos: usize = 0;
        let mut vis: usize = 0;
        loop
            invariant
                s@ == self.text@,
                n == s@.len(),
                pos <= n,
                vis <= pos,
                vis <= target_line,
                cpr >= 1,
                cpr == chars_per_row,
                wrap == self.word_wrap,
                click_scan(s@, 0, 0, target_line as int, column as int, wrap, cpr as int) == click_scan(
                    s@,
                    pos as int,
                    vis as int,
                    target_line as int,
                    column as int,
                    wrap,
                    cpr as int,
                ),
                click_fits(s@, 0, 0, target_line as int, column as int, wrap, cpr as int) == click_fits(
                    s@,
                    pos as int,
                    vis as int,
                    target_line as int,
                    column as int,
                    wrap,
                    cpr as int,
                ),
            decreases n + 1 - pos,
        {
            let le = find_line_end(&s, pos);
            let ll = le - pos;
            let vl = if !wrap {
                1
            } else if ll / cpr >= 1 {
                ll / cpr
            } else {
                1
            };
            assert(vl <= ll + 1) by (nonlinear_arith)
                requires
                    cpr >= 1,
                    vl == 1 || vl == ll / cpr,
            ;
            if target_line < vis || target_line - vis < vl {
                // target_line < vis + vl
                let off: usize;
                if !wrap {
                    off = column;
                } else {
                    let rows = target_line - vis;
                    if rows == 0 {
                        assert(rows * cpr == 0) by (nonlinear_arith)
                            requires
                                rows == 0,
                        ;
                        off = column;
                    } else {
                        let lim = (usize::MAX - column) / rows;
                        if cpr > lim {
                            proof {
                                assert(rows * cpr + column > usize::MAX) by (nonlinear_arith)
                                    requires
                                        rows > 0,
                                        cpr > lim,
                                        lim == (usize::MAX - column) as int / rows as int,
                                        column <= usize::MAX,
                                ;
                            }
                            proof {
                                lemma_line_end_bounds(s@, pos as int);
                                assert(!click_fits(s@, pos as int, vis as int, target_line as int, column as int, wrap, cpr as int));
                            }
                            return Err(TextEditFault::Overflow);
                        }
                        proof {
                            assert(rows * cpr + column <= usize::MAX) by (nonlinear_arith)
                                requires
                                    rows > 0,
                                    cpr <= lim,
                                    lim == (usize::MAX - column) as int / rows as int,
                                    column <= usize::MAX,
                            ;
                        }
                        off = rows * cpr + column;
                    }
                }
                proof {
                    lemma_line_end_bounds(s@, pos as int);
                    assert(click_scan(s@, pos as int, vis as int, target_line as int, column as int, wrap, cpr as int)
                        == pos + min_int(off as int, ll as int));
                    assert(click_fits(s@, pos as int, vis as int, target_line as int, column as int, wrap, cpr as int));
                }
                return Ok(pos + min_usize(off, ll));
            }
            if le >= n {
                return Ok(n);
            }
            pos = le + 1;
            vis = vis + vl;
        }
    }

    /// Row and column where the cursor is drawn (see [`cursor_row_col`]).
    pub fn cursor_row_col(&self, chars_per_row: usize) -> (r: (usize, usize))
        requires
            chars_per_row >= 1,
        ensures
            (r.0 as int, r.1 as int) == cursor_row_col(self.text@, self.cursor_index, self.word_wrap, chars_per_row as int),
    {
        let s = chars_of(self.text.as_str());
        let n = if self.cursor_index <= s.len() {
            self.cursor_index
        } else {
            s.len()
        };
        let cpr = chars_per_row;
        let mut l: usize = 0;
        let mut c: usize = 0;
        let mut w: usize = 0;
        let mut i: usize = 0;
        while i < n
            invariant
                n <= s@.len(),
                cpr >= 1,
                i <= n,
                l + w + c <= i,
                (l as int, c as int, w as int) == layout_scan(s@.take(i as int), cpr as int),
            decreases n - i,
        {
            assert(s@.take(i as int + 1).drop_last() =~= s@.take(i as int));
            if s[i] == '\n' {
                assert(c / cpr <= c) by (nonlinear_arith)
                    requires
                        cpr >= 1,
                ;
                w = w + c / cpr;
                l = l + 1;
                c = 0;
            } else {
                c = c + 1;
            }
            i = i + 1;
        }
        assert(s@.take(n as int) == self.text@.take(min_int(self.cursor_index as int, self.text@.len() as int)));
        if self.word_wrap {
            assert(c / cpr <= c) by (nonlinear_arith)
                requires
                    cpr >= 1,
            ;
            (l + w + c / cpr, c % cpr)
        } else {
            (l, c)
        }
    }

    /// The longest line's length in characters, at least 1.
    pub fn longest_line(&self) -> (r: usize)
        ensures
            r as int == longest_line_from(self.text@, 0, 1),
    {
        let s = chars_of(self.text.as_str());
        let n = s.len();
        let mut pos: usize = 0;
        let mut best: usize = 1;
        loop
            invariant
                s@ == self.text@,
                n == s@.len(),
                pos <= n,
                longest_line_from(s@, 0, 1) == longest_line_from(s@, pos as int, best as int),
            decreases n + 1 - pos,
        {
            let le = find_line_end(&s, pos);
            if le - pos > best {
                best = le - pos;
            }
            if le >= n {
                return best;
            }
            pos = le + 1;
        }
    }

    /// What the box shows: the placeholder while it is empty and unfocused, otherwise the text.
    pub fn display_text(&self, focused: bool) -> (r: String)
        ensures
            r@ == (if self@.text.len() == 0 && !focused {
                self@.placeholder
            } else {
                self@.text
            }),
    {
        if self.text.as_str().is_empty() && !focused {
            self.placeholder.clone()
        } else {
            self.text.clone()
        }
    }

    /// Records whether the cursor, the text length (in bytes) or the focus changed since the
    /// last frame; if so the view must scroll the cursor into sight (`cursor_moved`).
    pub fn track_cursor_changes(&mut self, focused: bool)
        ensures
            ({
                let len = old(self).text@.len();
                let bytes = vstd::utf8::encode_utf8(old(self).text@).len() as usize;
                let changed = old(self).cursor_index != old(self).previous_cursor_index
                    || bytes != old(self).previous_text_len || focused != old(self).previous_focused;
                &&& changed ==> final(self)@ == TextBoxView {
                    cursor_moved: true,
                    previous_cursor_index: old(self).cursor_index,
                    previous_text_len: bytes,
                    previous_focused: focused,
                    ..old(self)@
                }
                &&& !changed ==> final(self)@ == old(self)@
            }),
    {
        let bytes = self.text.as_str().len();
        if self.cursor_index != self.previous_cursor_index || bytes != self.previous_text_len
            || focused != self.previous_focused {
            self.cursor_moved = true;
            self.previous_cursor_index = self.cursor_index;
            self.previous_text_len = bytes;
            self.previous_focused = focused;
        }
    }
}

} // verus!
