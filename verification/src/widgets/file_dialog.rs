//! The file dialog's decisions: how a directory listing is ordered, which icon each entry gets,
//! and what its buttons do with the names typed in.
use vstd::prelude::*;
use crate::text::{chars_of, string_from_chars};
use crate::widgets::textbox::{RuiTextBox, TextBoxView};

verus! {

/// Whether a dialog picks a file to open or a name to save under.
#[derive(Clone, Copy, Debug, PartialEq, Eq, Structural)]
pub enum FileDialogMode {
    Open,
    Save,
}

/// One entry of a directory listing: its file name and whether it is a directory.
#[derive(Clone, Debug)]
pub struct FileEntry {
    pub name: String,
    pub is_dir: bool,
}

/// Name order: character by character by code point (as `String` compares), a name before any longer name it begins.
pub open spec fn name_le(a: Seq<char>, b: Seq<char>) -> bool
    decreases a.len(),
{
    if a.len() == 0 {
        true
    } else if b.len() == 0 {
        false
    } else if a[0] != b[0] {
        a[0] < b[0]
    } else {
        name_le(a.drop_first(), b.drop_first())
    }
}

/// Listing order: directories before files, and by name within each group.
pub open spec fn entry_le(a: FileEntry, b: FileEntry) -> bool {
    if a.is_dir != b.is_dir {
        a.is_dir
    } else {
        name_le(a.name@, b.name@)
    }
}

/// Entry `i` of `es` comes strictly before entry `j` in a stable sort: it sorts lower, or it
/// sorts the same and came first.
pub open spec fn listed_before(es: Seq<FileEntry>, i: int, j: int) -> bool {
    &&& entry_le(es[i], es[j])
    &&& entry_le(es[j], es[i]) ==> i < j
}

proof fn lemma_name_le_total(a: Seq<char>, b: Seq<char>)
    ensures
        name_le(a, b) || name_le(b, a),
    decreases a.len(),
{
    if a.len() > 0 && b.len() > 0 && a[0] == b[0] {
        lemma_name_le_total(a.drop_first(), b.drop_first());
    }
}

proof fn lemma_name_le_trans(a: Seq<char>, b: Seq<char>, c: Seq<char>)
    requires
        name_le(a, b),
        name_le(b, c),
    ensures
        name_le(a, c),
    decreases a.len(),
{
    if a.len() > 0 && b.len() > 0 && c.len() > 0 && a[0] == b[0] && b[0] == c[0] {
        lemma_name_le_trans(a.drop_first(), b.drop_first(), c.drop_first());
    }
}

proof fn lemma_entry_le_total(a: FileEntry, b: FileEntry)
    ensures
        entry_le(a, b) || entry_le(b, a),
{
    lemma_name_le_total(a.name@, b.name@);
}

proof fn lemma_entry_le_trans(a: FileEntry, b: FileEntry, c: FileEntry)
    requires
        entry_le(a, b),
        entry_le(b, c),
    ensures
        entry_le(a, c),
{
    if a.is_dir == b.is_dir && b.is_dir == c.is_dir {
        lemma_name_le_trans(a.name@, b.name@, c.name@);
    }
}

proof fn lemma_listed_before_trans(es: Seq<FileEntry>, i: int, j: int, k: int)
    requires
        listed_before(es, i, j),
        listed_before(es, j, k),
    ensures
        listed_before(es, i, k),
{
    lemma_entry_le_trans(es[i], es[j], es[k]);
    if entry_le(es[k], es[i]) {
        lemma_entry_le_trans(es[k], es[i], es[j]);
        lemma_entry_le_trans(es[j], es[k], es[i]);
    }
}

proof fn lemma_listed_before_total(es: Seq<FileEntry>, i: int, j: int)
    requires
        i != j,
    ensures
        listed_before(es, i, j) || listed_before(es, j, i),
{
    lemma_entry_le_total(es[i], es[j]);
}

/// Whether the name `a` sorts no later than `b`.
pub fn names_in_order(a: &str, b: &str) -> (r: bool)
    ensures
        r == name_le(a@, b@),
{
    let x = chars_of(a);
    let y = chars_of(b);
    let mut i: usize = 0;
    assert(x@.skip(0) =~= x@);
    assert(y@.skip(0) =~= y@);
    while i < x.len() && i < y.len()
        invariant
            x@ == a@,
            y@ == b@,
            i <= x.len(),
            i <= y.len(),
            name_le(a@, b@) == name_le(x@.skip(i as int), y@.skip(i as int)),
        decreases x.len() - i,
    {
        assert(x@.skip(i as int)[0] == x@[i as int]);
        assert(y@.skip(i as int)[0] == y@[i as int]);
        if x[i] != y[i] {
            return x[i] < y[i];
        }
        assert(x@.skip(i as int).drop_first() =~= x@.skip(i as int + 1));
        assert(y@.skip(i as int).drop_first() =~= y@.skip(i as int + 1));
        i = i + 1;
    }
    i == x.len()
}

/// Whether entry `a` sorts no later than entry `b`.
pub fn entries_in_order(a: &FileEntry, b: &FileEntry) -> (r: bool)
    ensures
        r == entry_le(*a, *b),
{
    if a.is_dir != b.is_dir {
        a.is_dir
    } else {
        names_in_order(a.name.as_str(), b.name.as_str())
    }
}

/// The order in which a directory listing is shown: directories first, then files, each group by
/// name, entries that sort the same keeping their order. The result lists the positions of the
/// entries in `entries`, each once, in display order.
pub fn listing_order(entries: &Vec<FileEntry>) -> (order: Vec<usize>)
    ensures
        order@.len() == entries@.len(),
        forall|k: int| 0 <= k < order@.len() ==> #[trigger] order@[k] < entries@.len(),
        forall|k: int, l: int| 0 <= k < l < order@.len()
            ==> listed_before(entries@, #[trigger] order@[k] as int, #[trigger] order@[l] as int),
{
    let n = entries.len();
    let mut order: Vec<usize> = Vec::new();
    let mut i: usize = 0;
    while i < n
        invariant
            n == entries@.len(),
            i <= n,
            order@.len() == i,
            forall|k: int| 0 <= k < order@.len() ==> #[trigger] order@[k] < i,
            forall|k: int, l: int| 0 <= k < l < order@.len()
                ==> listed_before(entries@, #[trigger] order@[k] as int, #[trigger] order@[l] as int),
        decreases n - i,
    {
        let mut p: usize = order.len();
        while p > 0 && !(entries_in_order(&entries[order[p - 1]], &entries[i])
            && (!entries_in_order(&entries[i], &entries[order[p - 1]]) || order[p - 1] < i))
            invariant
                n == entries@.len(),
                i < n,
                p <= order@.len(),
                order@.len() == i,
                forall|k: int| 0 <= k < order@.len() ==> #[trigger] order@[k] < i,
                forall|k: int| p <= k < order@.len() ==> !listed_before(entries@, #[trigger] order@[k] as int, i as int),
            decreases p,
        {
            p = p - 1;
        }
        proof {
            assert forall|k: int| p <= k < order@.len() implies listed_before(entries@, i as int, #[trigger] order@[k] as int) by {
                lemma_listed_before_total(entries@, i as int, order@[k] as int);
            }
            if p > 0 {
                assert(listed_before(entries@, order@[p - 1] as int, i as int));
                assert forall|k: int| 0 <= k < p implies listed_before(entries@, #[trigger] order@[k] as int, i as int) by {
                    if k < p - 1 {
                        lemma_listed_before_trans(entries@, order@[k] as int, order@[p - 1] as int, i as int);
                    }
                }
            }
        }
        let ghost before = order@;
        order.insert(p, i);
        proof {
            assert(order@ == before.insert(p as int, i));
            assert forall|k: int, l: int| 0 <= k < l < order@.len()
                implies listed_before(entries@, #[trigger] order@[k] as int, #[trigger] order@[l] as int) by {
                if l < p {
                    assert(order@[k] == before[k] && order@[l] == before[l]);
                } else if l == p {
                    assert(order@[k] == before[k]);
                } else if k == p {
                    assert(order@[l] == before[l - 1]);
                } else if k < p {
                    assert(order@[k] == before[k] && order@[l] == before[l - 1]);
                } else {
                    assert(order@[k] == before[k - 1] && order@[l] == before[l - 1]);
                }
            }
            assert forall|k: int| 0 <= k < order@.len() implies #[trigger] order@[k] < i + 1 by {
                if k < p {
                    assert(order@[k] == before[k]);
                } else if k > p {
                    assert(order@[k] == before[k - 1]);
                }
            }
        }
        i = i + 1;
    }
    order
}

/// Law: a listing order names every entry exactly once.
pub proof fn law_listing_order_is_permutation(es: Seq<FileEntry>, order: Seq<usize>, a: int, b: int)
    requires
        0 <= a < b < order.len(),
        forall|k: int, l: int| 0 <= k < l < order.len() ==> listed_before(es, #[trigger] order[k] as int, #[trigger] order[l] as int),
    ensures
        order[a] != order[b],
{
    assert(listed_before(es, order[a] as int, order[b] as int));
    if order[a] == order[b] {
        assert(!listed_before(es, order[a] as int, order[a] as int));
    }
}

/// Law: in a listing order every directory comes before every file.
pub proof fn law_directories_first(es: Seq<FileEntry>, order: Seq<usize>, k: int, l: int)
    requires
        0 <= k < l < order.len(),
        forall|a: int, b: int| 0 <= a < b < order.len() ==> listed_before(es, #[trigger] order[a] as int, #[trigger] order[b] as int),
        es[order[l] as int].is_dir,
    ensures
        es[order[k] as int].is_dir,
{
    assert(listed_before(es, order[k] as int, order[l] as int));
}

/// The position of the last `'.'` in `s`, if any.
pub open spec fn last_dot(s: Seq<char>) -> Option<int>
    decreases s.len(),
{
    if s.len() == 0 {
        None
    } else if s.last() == '.' {
        Some(s.len() - 1)
    } else {
        last_dot(s.drop_last())
    }
}

/// The extension of a file name, as the standard library's `Path::extension` gives it: what
/// follows the last `'.'`, unless there is none or the only one opens the name; `..` has none.
pub open spec fn extension_of(name: Seq<char>) -> Option<Seq<char>> {
    if name == seq!['.', '.'] {
        None
    } else {
        match last_dot(name) {
            Some(i) => if i > 0 { Some(name.skip(i + 1)) } else { None },
            None => None,
        }
    }
}

/// The extension of file name `name` (see `extension_of`).
pub fn file_extension(name: &str) -> (r: Option<String>)
    ensures
        r is Some <==> extension_of(name@) is Some,
        r matches Some(e) ==> extension_of(name@) == Some(e@),
{
    let cs = chars_of(name);
    if cs.len() == 2 && cs[0] == '.' && cs[1] == '.' {
        assert(cs@ =~= seq!['.', '.']);
        return None;
    }
    assert(cs@ != seq!['.', '.']) by {
        if cs@ =~= seq!['.', '.'] {
            assert(cs@.len() == 2 && cs@[0] == '.' && cs@[1] == '.');
        }
    }
    let mut i: usize = cs.len();
    assert(cs@.take(cs@.len() as int) =~= cs@);
    while i > 0 && cs[i - 1] != '.'
        invariant
            cs@ == name@,
            i <= cs.len(),
            last_dot(cs@) == last_dot(cs@.take(i as int)),
        decreases i,
    {
        assert(cs@.take(i as int).drop_last() =~= cs@.take(i as int - 1));
        i = i - 1;
    }
    if i == 0 {
        assert(cs@.take(0).len() == 0);
        return None;
    }
    assert(last_dot(cs@.take(i as int)) == Some(i as int - 1));
    if i == 1 {
        return None;
    }
    let mut rest: Vec<char> = Vec::new();
    let mut k: usize = i;
    while k < cs.len()
        invariant
            i <= k <= cs.len(),
            rest@ == cs@.subrange(i as int, k as int),
        decreases cs.len() - k,
    {
        rest.push(cs[k]);
        assert(rest@ =~= cs@.subrange(i as int, k as int + 1));
        k = k + 1;
    }
    assert(rest@ =~= name@.skip(i as int));
    Some(string_from_chars(rest.as_slice()))
}

/// A character with ASCII capitals made small.
pub open spec fn ascii_lower(c: char) -> char {
    if 'A' <= c && c <= 'Z' {
        ((c as u32) + 32) as char
    } else {
        c
    }
}

/// Whether `s`, with ASCII capitals made small, is `word` (itself small).
pub open spec fn lower_equals(s: Seq<char>, word: Seq<char>) -> bool {
    s.len() == word.len() && forall|i: int| 0 <= i < s.len() ==> #[trigger] ascii_lower(s[i]) == word[i]
}

fn lower_equals_exec(s: &Vec<char>, word: &str) -> (r: bool)
    ensures
        r == lower_equals(s@, word@),
{
    let w = chars_of(word);
    if s.len() != w.len() {
        return false;
    }
    let mut i: usize = 0;
    while i < s.len()
        invariant
            w@ == word@,
            s@.len() == w@.len(),
            i <= s.len(),
            forall|k: int| 0 <= k < i ==> #[trigger] ascii_lower(s@[k]) == w@[k],
        decreases s.len() - i,
    {
        let c = s[i];
        let lc = if 'A' <= c && c <= 'Z' { ((c as u32) + 32) as u8 as char } else { c };
        assert(lc == ascii_lower(c)) by {
            if 'A' <= c && c <= 'Z' {
                assert((c as u32) + 32 < 256);
            }
        }
        if lc != w[i] {
            return false;
        }
        i = i + 1;
    }
    true
}

/// The icon a listing shows beside an entry.
#[derive(Clone, Copy, Debug, PartialEq, Eq, Structural)]
pub enum FileIcon {
    Folder,
    Image,
    Code,
    Audio,
    File,
}

/// The icon of an entry: directories get a folder; files are told apart by their extension,
/// compared without regard to case.
pub open spec fn icon_of(name: Seq<char>, is_dir: bool) -> FileIcon {
    if is_dir {
        FileIcon::Folder
    } else {
        match extension_of(name) {
            None => FileIcon::File,
            Some(e) => if lower_equals(e, seq!['p', 'n', 'g']) || lower_equals(e, seq!['j', 'p', 'g'])
                || lower_equals(e, seq!['j', 'p', 'e', 'g']) || lower_equals(e, seq!['g', 'i', 'f'])
                || lower_equals(e, seq!['b', 'm', 'p']) {
                FileIcon::Image
            } else if lower_equals(e, seq!['r', 's']) || lower_equals(e, seq!['t', 'o', 'm', 'l'])
                || lower_equals(e, seq!['j', 's', 'o', 'n']) {
                FileIcon::Code
            } else if lower_equals(e, seq!['m', 'p', '3']) || lower_equals(e, seq!['w', 'a', 'v'])
                || lower_equals(e, seq!['o', 'g', 'g']) {
                FileIcon::Audio
            } else {
                FileIcon::File
            },
        }
    }
}

/// The icon for an entry named `name`. Extensions are compared with their ASCII capitals made
/// small; for the extensions listed no other character lowers to one of their letters, so this
/// agrees with a full lowering.
pub fn file_icon(name: &str, is_dir: bool) -> (r: FileIcon)
    ensures
        r == icon_of(name@, is_dir),
{
    if is_dir {
        return FileIcon::Folder;
    }
    match file_extension(name) {
        None => FileIcon::File,
        Some(e) => {
            let cs = chars_of(e.as_str());
            proof {
                reveal_strlit("png");
                reveal_strlit("jpg");
                reveal_strlit("jpeg");
                reveal_strlit("gif");
                reveal_strlit("bmp");
                reveal_strlit("rs");
                reveal_strlit("toml");
                reveal_strlit("json");
                reveal_strlit("mp3");
                reveal_strlit("wav");
                reveal_strlit("ogg");
                assert("png"@ =~= seq!['p', 'n', 'g']);
                assert("jpg"@ =~= seq!['j', 'p', 'g']);
                assert("jpeg"@ =~= seq!['j', 'p', 'e', 'g']);
                assert("gif"@ =~= seq!['g', 'i', 'f']);
                assert("bmp"@ =~= seq!['b', 'm', 'p']);
                assert("rs"@ =~= seq!['r', 's']);
                assert("toml"@ =~= seq!['t', 'o', 'm', 'l']);
                assert("json"@ =~= seq!['j', 's', 'o', 'n']);
                assert("mp3"@ =~= seq!['m', 'p', '3']);
                assert("wav"@ =~= seq!['w', 'a', 'v']);
                assert("ogg"@ =~= seq!['o', 'g', 'g']);
            }
            if lower_equals_exec(&cs, "png") || lower_equals_exec(&cs, "jpg") || lower_equals_exec(&cs, "jpeg")
                || lower_equals_exec(&cs, "gif") || lower_equals_exec(&cs, "bmp") {
                FileIcon::Image
            } else if lower_equals_exec(&cs, "rs") || lower_equals_exec(&cs, "toml") || lower_equals_exec(&cs, "json") {
                FileIcon::Code
            } else if lower_equals_exec(&cs, "mp3") || lower_equals_exec(&cs, "wav") || lower_equals_exec(&cs, "ogg") {
                FileIcon::Audio
            } else {
                FileIcon::File
            }
        },
    }
}

impl FileIcon {
    /// The image asset drawn for this icon.
    pub fn asset_path(&self) -> (p: &'static str)
        ensures
            p@ == match *self {
                FileIcon::Folder => "icons/folder.png"@,
                FileIcon::Image => "icons/image.png"@,
                FileIcon::Code => "icons/code.png"@,
                FileIcon::Audio => "icons/audio.png"@,
                FileIcon::File => "icons/file.png"@,
            },
    {
        match self {
            FileIcon::Folder => "icons/folder.png",
            FileIcon::Image => "icons/image.png",
            FileIcon::Code => "icons/code.png",
            FileIcon::Audio => "icons/audio.png",
            FileIcon::File => "icons/file.png",
        }
    }
}

/// What a button of the dialog (or of its new-folder box) does, and which entities it acts on.
#[derive(Clone, Copy, Debug, PartialEq, Eq, Structural)]
pub enum DialogButtonAction {
    /// Go to the parent directory of the dialog.
    UpDir(u64),
    /// Open the box that asks for a new folder's name, for the dialog.
    CreateDir(u64),
    /// Accept the typed file name, for the dialog.
    Confirm(u64),
    /// Close the dialog without a choice.
    Cancel(u64),
    /// Create the folder named in the box: the dialog, the box, and the box's text field.
    ConfirmCreateDir(u64, u64, u64),
    /// Close the box.
    CancelCreateDir(u64),
}

/// Puts a chosen file's name into the dialog's text field, with the cursor after it.
pub fn show_selected_file(textbox: &mut RuiTextBox, name: &String)
    ensures
        final(textbox)@ == (TextBoxView { text: name@, cursor_index: name@.len() as usize, ..old(textbox)@ }),
{
    textbox.text = name.clone();
    let n = chars_of(name.as_str()).len();
    textbox.cursor_index = n;
}

/// The name the dialog accepts on confirm: the text field's text when the field exists, else the
/// last file picked in the list; none when that is empty.
pub fn confirm_file_name(textbox_text: Option<&String>, selected_file: &String) -> (r: Option<String>)
    ensures
        ({
            let chosen = match textbox_text {
                Some(t) => t@,
                None => selected_file@,
            };
            &&& r is Some <==> chosen.len() > 0
            &&& r matches Some(s) ==> s@ == chosen
        }),
{
    let chosen = match textbox_text {
        Some(t) => t.clone(),
        None => selected_file.clone(),
    };
    if chosen.as_str().is_empty() {
        None
    } else {
        Some(chosen)
    }
}

/// The characters `char::is_whitespace` accepts: those with the Unicode `White_Space` property.
pub open spec fn is_white_space(c: char) -> bool {
    let u = c as u32;
    (0x9 <= u && u <= 0xD) || u == 0x20 || u == 0x85 || u == 0xA0 || u == 0x1680
        || (0x2000 <= u && u <= 0x200A) || u == 0x2028 || u == 0x2029 || u == 0x202F
        || u == 0x205F || u == 0x3000
}

fn white_space(c: char) -> (r: bool)
    ensures
        r == is_white_space(c),
{
    let u = c as u32;
    (0x9 <= u && u <= 0xD) || u == 0x20 || u == 0x85 || u == 0xA0 || u == 0x1680
        || (0x2000 <= u && u <= 0x200A) || u == 0x2028 || u == 0x2029 || u == 0x202F
        || u == 0x205F || u == 0x3000
}

/// `s` without the white space at either end (`str::trim`): the part from the first to the last
/// character that is not white space, or nothing when there is none.
pub open spec fn trimmed(s: Seq<char>) -> Seq<char> {
    if forall|i: int| 0 <= i < s.len() ==> #[trigger] is_white_space(s[i]) {
        Seq::empty()
    } else {
        let a = choose|a: int| 0 <= a < s.len() && !is_white_space(s[a])
            && forall|i: int| 0 <= i < a ==> #[trigger] is_white_space(s[i]);
        let b = choose|b: int| 0 <= b < s.len() && !is_white_space(s[b])
            && forall|i: int| b < i < s.len() ==> #[trigger] is_white_space(s[i]);
        s.subrange(a, b + 1)
    }
}

/// `s` with the white space at both ends removed.
pub fn trim_text(s: &str) -> (r: String)
    ensures
        r@ == trimmed(s@),
{
    let cs = chars_of(s);
    let n = cs.len();
    let mut a: usize = 0;
    while a < n && white_space(cs[a])
        invariant
            cs@ == s@,
            n == cs@.len(),
            a <= n,
            forall|i: int| 0 <= i < a ==> #[trigger] is_white_space(cs@[i]),
        decreases n - a,
    {
        a = a + 1;
    }
    if a == n {
        return String::new();
    }
    let mut b: usize = n - 1;
    while white_space(cs[b])
        invariant
            cs@ == s@,
            n == cs@.len(),
            a < n,
            !is_white_space(cs@[a as int]),
            a <= b < n,
            forall|i: int| b < i < n ==> #[trigger] is_white_space(cs@[i]),
        decreases b,
    {
        b = b - 1;
    }
    proof {
        let sa = choose|x: int| 0 <= x < s@.len() && !is_white_space(s@[x])
            && forall|i: int| 0 <= i < x ==> #[trigger] is_white_space(s@[i]);
        let sb = choose|x: int| 0 <= x < s@.len() && !is_white_space(s@[x])
            && forall|i: int| x < i < s@.len() ==> #[trigger] is_white_space(s@[i]);
        assert(!is_white_space(s@[a as int]));
        assert(sa == a as int) by {
            if sa < a as int {
                assert(is_white_space(s@[sa]));
            }
            if sa > a as int {
                assert(is_white_space(s@[a as int]));
            }
        }
        assert(sb == b as int) by {
            if sb < b as int {
                assert(is_white_space(s@[b as int]));
            }
            if sb > b as int {
                assert(is_white_space(s@[sb]));
            }
        }
    }
    let mut out: Vec<char> = Vec::new();
    let mut k: usize = a;
    while k <= b
        invariant
            a <= k <= b + 1,
            b < n,
            n == cs@.len(),
            out@ == cs@.subrange(a as int, k as int),
        decreases b + 1 - k,
    {
        out.push(cs[k]);
        assert(out@ =~= cs@.subrange(a as int, k as int + 1));
        k = k + 1;
    }
    string_from_chars(out.as_slice())
}

/// The name of the folder to create when the new-folder box is confirmed: the box's text without
/// surrounding white space; none when the box is gone or that leaves nothing.
pub fn created_dir_name(textbox_text: Option<&String>) -> (r: Option<String>)
    ensures
        r is Some <==> (textbox_text matches Some(t) && trimmed(t@).len() > 0),
        r matches Some(s) ==> textbox_text matches Some(t) && s@ == trimmed(t@),
{
    match textbox_text {
        None => None,
        Some(t) => {
            let name = trim_text(t.as_str());
            if name.as_str().is_empty() {
                None
            } else {
                Some(name)
            }
        },
    }
}

/// The last dot of a name does not move when characters other than dots are added at its end.
proof fn lemma_last_dot_suffix(a: Seq<char>, b: Seq<char>)
    requires
        forall|k: int| 0 <= k < b.len() ==> #[trigger] b[k] != '.',
    ensures
        last_dot(a + b) == last_dot(a),
    decreases b.len(),
{
    if b.len() > 0 {
        let b1 = b.drop_last();
        assert forall|k: int| 0 <= k < b1.len() implies #[trigger] b1[k] != '.' by {
            assert(b1[k] == b[k]);
        }
        lemma_last_dot_suffix(a, b1);
        assert((a + b).drop_last() =~= a + b1);
        assert((a + b).last() == b[b.len() - 1]);
    } else {
        assert(a + b =~= a);
    }
}

/// A name made of a non-empty stem, a dot and a non-empty extension without dots has that
/// extension.
proof fn lemma_extension_of_parts(stem: Seq<char>, ext: Seq<char>)
    requires
        stem.len() > 0,
        ext.len() > 0,
        forall|k: int| 0 <= k < ext.len() ==> #[trigger] ext[k] != '.',
    ensures
        extension_of(stem + seq!['.'] + ext) == Some(ext),
{
    let name = stem + seq!['.'] + ext;
    let head = stem + seq!['.'];
    assert(head.last() == '.');
    assert(last_dot(head) == Some(stem.len() as int));
    lemma_last_dot_suffix(head, ext);
    assert(name.len() > 2);
    assert(name != seq!['.', '.']);
    assert(name.skip(stem.len() + 1int) =~= ext);
}

/// Whether `ext`, with its ASCII capitals made small, is `word`.
pub open spec fn lowers_to(ext: Seq<char>, word: Seq<char>) -> bool {
    ext.len() == word.len() && forall|k: int| 0 <= k < ext.len() ==> #[trigger] ascii_lower(ext[k]) == word[k]
}

/// Law (file icons): a directory shows a folder. A file named `stem.ext` (a non-empty stem and
/// an extension without dots) shows an image for png, jpg, jpeg, gif and bmp, code for rs, toml
/// and json, audio for mp3, wav and ogg, whatever the case of the extension, and the plain file
/// icon for any other extension or none.
pub proof fn law_file_icons(stem: Seq<char>, ext: Seq<char>)
    requires
        stem.len() > 0,
        ext.len() > 0,
        forall|k: int| 0 <= k < ext.len() ==> #[trigger] ext[k] != '.',
    ensures
        icon_of(stem + seq!['.'] + ext, true) == FileIcon::Folder,
        lowers_to(ext, seq!['p', 'n', 'g']) || lowers_to(ext, seq!['j', 'p', 'g'])
            || lowers_to(ext, seq!['j', 'p', 'e', 'g']) || lowers_to(ext, seq!['g', 'i', 'f'])
            || lowers_to(ext, seq!['b', 'm', 'p']) ==> icon_of(stem + seq!['.'] + ext, false)
            == FileIcon::Image,
        lowers_to(ext, seq!['r', 's']) || lowers_to(ext, seq!['t', 'o', 'm', 'l'])
            || lowers_to(ext, seq!['j', 's', 'o', 'n']) ==> icon_of(stem + seq!['.'] + ext, false)
            == FileIcon::Code,
        lowers_to(ext, seq!['m', 'p', '3']) || lowers_to(ext, seq!['w', 'a', 'v'])
            || lowers_to(ext, seq!['o', 'g', 'g']) ==> icon_of(stem + seq!['.'] + ext, false)
            == FileIcon::Audio,
        !(lowers_to(ext, seq!['p', 'n', 'g']) || lowers_to(ext, seq!['j', 'p', 'g'])
            || lowers_to(ext, seq!['j', 'p', 'e', 'g']) || lowers_to(ext, seq!['g', 'i', 'f'])
            || lowers_to(ext, seq!['b', 'm', 'p']) || lowers_to(ext, seq!['r', 's'])
            || lowers_to(ext, seq!['t', 'o', 'm', 'l']) || lowers_to(ext, seq!['j', 's', 'o', 'n'])
            || lowers_to(ext, seq!['m', 'p', '3']) || lowers_to(ext, seq!['w', 'a', 'v'])
            || lowers_to(ext, seq!['o', 'g', 'g'])) ==> icon_of(stem + seq!['.'] + ext, false)
            == FileIcon::File,
{
    lemma_extension_of_parts(stem, ext);
    // The words differ at one of their first three letters, which tells them apart.
    let (c0, c1, c2) = (ascii_lower(ext[0]), ascii_lower(ext[1]), ascii_lower(ext[2]));
}

/// Law (file icons): a file whose name has no extension shows the plain file icon.
pub proof fn law_no_extension_plain_icon(name: Seq<char>)
    requires
        extension_of(name) is None,
    ensures
        icon_of(name, false) == FileIcon::File,
{
}

} // verus!
