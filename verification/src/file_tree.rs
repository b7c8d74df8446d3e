//! The file tree pane: which entries are shown, in what order, under
//! what display name, and how the selection moves.
//!
//! Reading directories is the host's work; it hands in plain entries
//! (name and kind) and receives the filtered, sorted, formatted rows.
use vstd::prelude::*;

use crate::text::{chars_of, repeat_char, spec_repeat, string_from_chars};

verus! {

/// One visible row of the tree.
#[derive(Debug, Clone, PartialEq)]
pub struct TreeItem {
    pub path: String,
    pub display_name: String,
    pub is_expanded: bool,
    pub is_dir: bool,
}

/// The mathematical value of a [`TreeItem`].
#[verifier::ext_equal]
pub struct TreeItemView {
    pub path: Seq<char>,
    pub display_name: Seq<char>,
    pub is_expanded: bool,
    pub is_dir: bool,
}

impl DeepView for TreeItem {
    type V = TreeItemView;

    open spec fn deep_view(&self) -> TreeItemView {
        TreeItemView {
            path: self.path@,
            display_name: self.display_name@,
            is_expanded: self.is_expanded,
            is_dir: self.is_dir,
        }
    }
}

/// A directory entry as the host reads it: bare name and kind.
#[derive(Debug, Clone, PartialEq)]
pub struct DirEntryInfo {
    pub name: String,
    pub is_dir: bool,
}

/// The mathematical value of a [`DirEntryInfo`].
#[verifier::ext_equal]
pub struct DirEntryView {
    pub name: Seq<char>,
    pub is_dir: bool,
}

impl DeepView for DirEntryInfo {
    type V = DirEntryView;

    open spec fn deep_view(&self) -> DirEntryView {
        DirEntryView { name: self.name@, is_dir: self.is_dir }
    }
}

/// Whether a name carries the markdown extension.
pub open spec fn spec_has_md_ext(n: Seq<char>) -> bool {
    n.len() >= 3 && n.subrange(n.len() - 3, n.len() as int) == seq!['.', 'm', 'd']
}

/// The tree shows an entry when its name is not hidden (no leading dot)
/// and it is a directory or a markdown file.
pub open spec fn spec_keep_entry(n: Seq<char>, is_dir: bool) -> bool {
    !(n.len() > 0 && n[0] == '.') && (is_dir || spec_has_md_ext(n))
}

/// Decide whether the tree shows a directory entry.
pub fn keep_entry(name: &str, is_dir: bool) -> (r: bool)
    ensures
        r == spec_keep_entry(name@, is_dir),
{
    let cs = chars_of(name);
    let n = cs.len();
    let hidden = n > 0 && cs[0] == '.';
    let md = n >= 3 && cs[n - 1] == 'd' && cs[n - 2] == 'm' && cs[n - 3] == '.';
    proof {
        if n >= 3 {
            let tail = name@.subrange(n as int - 3, n as int);
            assert(tail[0] == name@[n as int - 3]);
            assert(tail[1] == name@[n as int - 2]);
            assert(tail[2] == name@[n as int - 1]);
            if md {
                assert(tail =~= seq!['.', 'm', 'd']);
            }
            if tail == seq!['.', 'm', 'd'] {
                assert(tail[0] == '.' && tail[1] == 'm' && tail[2] == 'd');
            }
        }
        assert(md == spec_has_md_ext(name@));
    }
    !hidden && (is_dir || md)
}

/// The glyphs before an entry's name: a triangle for a directory,
/// pointing down when it is expanded, blanks for a file.
pub open spec fn spec_tree_prefix(is_dir: bool, is_expanded: bool) -> Seq<char> {
    if is_dir {
        if is_expanded {
            seq!['▼', ' ']
        } else {
            seq!['▶', ' ']
        }
    } else {
        seq![' ', ' ']
    }
}

/// A row's display name: two blanks of indent per depth, the kind
/// glyphs, then the entry's own name.
pub open spec fn spec_display_name(
    name: Seq<char>,
    is_dir: bool,
    is_expanded: bool,
    depth: nat,
) -> Seq<char> {
    spec_repeat(' ', 2 * depth) + spec_tree_prefix(is_dir, is_expanded) + name
}

/// Format the display name of one row.
pub fn format_display_name(name: &str, is_dir: bool, is_expanded: bool, depth: usize) -> (r:
    String)
    requires
        depth <= usize::MAX / 2,
    ensures
        r@ == spec_display_name(name@, is_dir, is_expanded, depth as nat),
{
    let mut v = repeat_char(' ', 2 * depth);
    if is_dir {
        if is_expanded {
            v.push('▼');
        } else {
            v.push('▶');
        }
    } else {
        v.push(' ');
    }
    v.push(' ');
    let cs = chars_of(name);
    crate::text::push_chars(&mut v, &cs);
    proof {
        assert(v@ =~= spec_display_name(name@, is_dir, is_expanded, depth as nat));
    }
    string_from_chars(&v)
}

/// Lexicographic order on names, by scalar value of each character.
pub open spec fn spec_lex_le(x: Seq<char>, y: Seq<char>) -> bool
    decreases x.len(),
{
    if x.len() == 0 {
        true
    } else if y.len() == 0 {
        false
    } else if (x[0] as u32) < (y[0] as u32) {
        true
    } else if (x[0] as u32) > (y[0] as u32) {
        false
    } else {
        spec_lex_le(x.drop_first(), y.drop_first())
    }
}

/// The tree's order on entries: directories before files, names
/// alphabetical within each kind.
pub open spec fn spec_entry_le(a: DirEntryView, b: DirEntryView) -> bool {
    if a.is_dir != b.is_dir {
        a.is_dir
    } else {
        spec_lex_le(a.name, b.name)
    }
}

/// Any two names compare one way or the other.
pub proof fn lemma_lex_total(x: Seq<char>, y: Seq<char>)
    ensures
        spec_lex_le(x, y) || spec_lex_le(y, x),
    decreases x.len(),
{
    if x.len() > 0 && y.len() > 0 && (x[0] as u32) == (y[0] as u32) {
        lemma_lex_total(x.drop_first(), y.drop_first());
    }
}

/// The name order is transitive.
pub proof fn lemma_lex_trans(x: Seq<char>, y: Seq<char>, z: Seq<char>)
    requires
        spec_lex_le(x, y),
        spec_lex_le(y, z),
    ensures
        spec_lex_le(x, z),
    decreases x.len(),
{
    if x.len() > 0 && y.len() > 0 && z.len() > 0 && (x[0] as u32) == (y[0] as u32) && (y[0]
        as u32) == (z[0] as u32) {
        lemma_lex_trans(x.drop_first(), y.drop_first(), z.drop_first());
    }
}

/// Any two entries compare one way or the other.
pub proof fn lemma_entry_le_total(a: DirEntryView, b: DirEntryView)
    ensures
        spec_entry_le(a, b) || spec_entry_le(b, a),
{
    if a.is_dir == b.is_dir {
        lemma_lex_total(a.name, b.name);
    }
}

/// The entry order is transitive.
pub proof fn lemma_entry_le_trans(a: DirEntryView, b: DirEntryView, c: DirEntryView)
    requires
        spec_entry_le(a, b),
        spec_entry_le(b, c),
    ensures
        spec_entry_le(a, c),
{
    if a.is_dir == b.is_dir && b.is_dir == c.is_dir {
        lemma_lex_trans(a.name, b.name, c.name);
    }
}

/// Compare two names.
fn string_le(a: &String, b: &String) -> (r: bool)
    ensures
        r == spec_lex_le(a@, b@),
{
    let x = chars_of(a.as_str());
    let y = chars_of(b.as_str());
    let mut i: usize = 0;
    proof {
        assert(a@.skip(0) =~= a@);
        assert(b@.skip(0) =~= b@);
    }
    while i < x.len() && i < y.len()
        invariant
            x@ == a@,
            y@ == b@,
            i <= a@.len(),
            i <= b@.len(),
            spec_lex_le(a@, b@) == spec_lex_le(a@.skip(i as int), b@.skip(i as int)),
        decreases a@.len() - i,
    {
        proof {
            assert(a@.skip(i as int)[0] == a@[i as int]);
            assert(b@.skip(i as int)[0] == b@[i as int]);
            assert(a@.skip(i as int).drop_first() =~= a@.skip(i as int + 1));
            assert(b@.skip(i as int).drop_first() =~= b@.skip(i as int + 1));
        }
        let ca = x[i] as u32;
        let cb = y[i] as u32;
        if ca < cb {
            return true;
        }
        if ca > cb {
            return false;
        }
        i = i + 1;
    }
    proof {
        if i >= a@.len() {
            assert(a@.skip(i as int) =~= Seq::<char>::empty());
        } else {
            assert(b@.skip(i as int) =~= Seq::<char>::empty());
            assert(a@.skip(i as int).len() > 0);
        }
    }
    i >= x.len()
}

/// Compare two entries in the tree's order.
fn entry_le(a: &DirEntryInfo, b: &DirEntryInfo) -> (r: bool)
    ensures
        r == spec_entry_le(a.deep_view(), b.deep_view()),
{
    if a.is_dir != b.is_dir {
        a.is_dir
    } else {
        string_le(&a.name, &b.name)
    }
}

/// Inserting keeps the multiset of a sequence.
proof fn lemma_insert_to_multiset(s: Seq<DirEntryInfo>, i: int, x: DirEntryInfo)
    requires
        0 <= i <= s.len(),
    ensures
        s.insert(i, x).to_multiset() =~= s.to_multiset().insert(x),
{
    broadcast use vstd::seq_lib::group_to_multiset_ensures;

    assert(s.insert(i, x) =~= s.take(i).push(x) + s.skip(i));
    vstd::seq_lib::lemma_multiset_commutative(s.take(i).push(x), s.skip(i));
    assert(s.take(i).push(x).to_multiset() =~= s.take(i).to_multiset().insert(x));
    assert(s =~= s.take(i) + s.skip(i));
    vstd::seq_lib::lemma_multiset_commutative(s.take(i), s.skip(i));
    assert(s.insert(i, x).to_multiset() =~= s.to_multiset().insert(x));
}

/// Whether a run of entries is in the tree's order.
pub open spec fn spec_entries_sorted(s: Seq<DirEntryView>) -> bool {
    forall|i: int, j: int| 0 <= i < j < s.len() ==> spec_entry_le(#[trigger] s[i], #[trigger] s[j])
}

/// Sort entries for display: directories first, then files, both
/// alphabetically; the result holds exactly the entries given.
pub fn sort_entries(entries: &Vec<DirEntryInfo>) -> (r: Vec<DirEntryInfo>)
    ensures
        r@.to_multiset() == entries@.to_multiset(),
        spec_entries_sorted(r.deep_view()),
{
    let mut r: Vec<DirEntryInfo> = Vec::new();
    let mut k: usize = 0;
    proof {
        broadcast use vstd::seq_lib::group_to_multiset_ensures;

        assert(entries@.take(0) =~= Seq::<DirEntryInfo>::empty());
        assert(r@.to_multiset() =~= entries@.take(0).to_multiset());
    }
    while k < entries.len()
        invariant
            k <= entries@.len(),
            r@.to_multiset() == entries@.take(k as int).to_multiset(),
            r@.len() == k,
            spec_entries_sorted(r.deep_view()),
        decreases entries@.len() - k,
    {
        let x = DirEntryInfo { name: entries[k].name.clone(), is_dir: entries[k].is_dir };
        proof {
            assert(x == entries@[k as int]);
        }
        let mut idx: usize = 0;
        while idx < r.len() && entry_le(&r[idx], &x)
            invariant
                idx <= r@.len(),
                forall|t: int|
                    0 <= t < idx ==> spec_entry_le(#[trigger] r.deep_view()[t], x.deep_view()),
            decreases r@.len() - idx,
        {
            idx = idx + 1;
        }
        let ghost old_r = r@;
        let ghost old_deep = r.deep_view();
        let ghost xv = x.deep_view();
        let ghost pos = idx as int;
        proof {
            if pos < old_r.len() {
                assert(!spec_entry_le(old_deep[pos], xv));
                lemma_entry_le_total(old_deep[pos], xv);
                assert(spec_entry_le(xv, old_deep[pos]));
            }
        }
        r.insert(idx, x);
        k = k + 1;
        proof {
            broadcast use vstd::seq_lib::group_to_multiset_ensures;

            lemma_insert_to_multiset(old_r, pos, x);
            assert(entries@.take(k as int).drop_last() =~= entries@.take(k as int - 1));
            assert(entries@.take(k as int) =~= entries@.take(k as int - 1).push(
                entries@[k as int - 1],
            ));
            assert(r@.to_multiset() =~= entries@.take(k as int).to_multiset());
            // the new row stays sorted
            assert(r.deep_view() =~~= old_deep.insert(pos, xv));
            let nd = r.deep_view();
            assert forall|i: int, j: int| 0 <= i < j < nd.len() implies spec_entry_le(
                #[trigger] nd[i],
                #[trigger] nd[j],
            ) by {
                if j < pos {
                    assert(nd[i] == old_deep[i] && nd[j] == old_deep[j]);
                } else if j == pos {
                    assert(nd[j] == xv);
                    assert(nd[i] == old_deep[i]);
                } else {
                    assert(nd[j] == old_deep[j - 1]);
                    if i < pos {
                        assert(nd[i] == old_deep[i]);
                        if i < j - 1 {
                            assert(spec_entry_le(old_deep[i], old_deep[j - 1]));
                        }
                    } else if i == pos {
                        assert(nd[i] == xv);
                        assert(spec_entry_le(xv, old_deep[pos]));
                        if pos < j - 1 {
                            assert(spec_entry_le(old_deep[pos], old_deep[j - 1]));
                            lemma_entry_le_trans(xv, old_deep[pos], old_deep[j - 1]);
                        } else {
                            assert(nd[j] == old_deep[pos]);
                        }
                    } else {
                        assert(nd[i] == old_deep[i - 1]);
                        assert(spec_entry_le(old_deep[i - 1], old_deep[j - 1]));
                    }
                }
            }
        }
    }
    proof {
        assert(entries@.take(entries@.len() as int) =~= entries@);
    }
    r
}

/// The expanded directories among the rows, in row order.
pub open spec fn spec_expanded_dirs(items: Seq<TreeItemView>) -> Seq<Seq<char>>
    decreases items.len(),
{
    if items.len() == 0 {
        Seq::empty()
    } else {
        spec_expanded_dirs(items.drop_last()) + (if items.last().is_dir
            && items.last().is_expanded {
            seq![items.last().path]
        } else {
            Seq::empty()
        })
    }
}

/// The paths with one occurrence of `p` removed — all of them, as the
/// expansion list never repeats a path.
pub open spec fn spec_remove_path(s: Seq<Seq<char>>, p: Seq<char>) -> Seq<Seq<char>>
    decreases s.len(),
{
    if s.len() == 0 {
        Seq::empty()
    } else {
        spec_remove_path(s.drop_last(), p) + (if s.last() == p {
            Seq::empty()
        } else {
            seq![s.last()]
        })
    }
}

/// The first row holding the given path.
pub open spec fn spec_find_path(items: Seq<TreeItemView>, p: Seq<char>) -> Option<int>
    decreases items.len(),
{
    if items.len() == 0 {
        None
    } else if items[0].path == p {
        Some(0int)
    } else {
        match spec_find_path(items.drop_first(), p) {
            Some(k) => Some(k + 1),
            None => None,
        }
    }
}

proof fn lemma_find_path_prefix(items: Seq<TreeItemView>, p: Seq<char>, i: int)
    requires
        0 <= i <= items.len(),
        forall|t: int| 0 <= t < i ==> (#[trigger] items[t]).path != p,
    ensures
        spec_find_path(items, p) == match spec_find_path(items.skip(i), p) {
            Some(k) => Some(k + i),
            None => None::<int>,
        },
    decreases i,
{
    if i == 0 {
        assert(items.skip(0) =~= items);
    } else {
        assert(items[0].path != p);
        assert(items.drop_first() =~= items.skip(1));
        assert forall|t: int| 0 <= t < i - 1 implies (#[trigger] items.skip(1)[t]).path != p by {
            assert(items.skip(1)[t] == items[t + 1]);
        }
        lemma_find_path_prefix(items.skip(1), p, i - 1);
        assert(items.skip(1).skip(i - 1) =~= items.skip(i));
    }
}

/// The file tree: its rows, the selected row, and the root it was read
/// from.
pub struct FileTree {
    pub items: Vec<TreeItem>,
    pub selected: Option<usize>,
    pub root_dir: String,
}

impl FileTree {
    /// The selection, when set, names an existing row.
    pub open spec fn wf(&self) -> bool {
        match self.selected {
            Some(i) => i < self.items@.len(),
            None => true,
        }
    }

    /// A tree over the given rows; the first row starts selected.
    pub fn from_items(root_dir: String, items: Vec<TreeItem>) -> (t: FileTree)
        ensures
            t.items == items,
            t.root_dir == root_dir,
            t.selected == (if items@.len() > 0 {
                Some(0usize)
            } else {
                None::<usize>
            }),
            t.wf(),
    {
        let selected = if items.len() > 0 {
            Some(0usize)
        } else {
            None
        };
        FileTree { items, selected, root_dir }
    }

    /// Move the selection one row down, wrapping to the top past the
    /// last row; an empty tree is left alone.
    pub fn next(&mut self)
        requires
            old(self).wf(),
        ensures
            final(self).items == old(self).items,
            final(self).root_dir == old(self).root_dir,
            final(self).wf(),
            final(self).selected == (if old(self).items@.len() == 0 {
                old(self).selected
            } else {
                Some(
                    match old(self).selected {
                        Some(i) => if i + 1 >= old(self).items@.len() {
                            0usize
                        } else {
                            (i + 1) as usize
                        },
                        None => 0usize,
                    },
                )
            }),
    {
        if self.items.len() == 0 {
            return ;
        }
        let i = match self.selected {
            Some(i) => if i >= self.items.len() - 1 {
                0
            } else {
                i + 1
            },
            None => 0,
        };
        self.selected = Some(i);
    }

    /// Move the selection one row up, wrapping to the bottom past the
    /// first row; an empty tree is left alone.
    pub fn previous(&mut self)
        requires
            old(self).wf(),
        ensures
            final(self).items == old(self).items,
            final(self).root_dir == old(self).root_dir,
            final(self).wf(),
            final(self).selected == (if old(self).items@.len() == 0 {
                old(self).selected
            } else {
                Some(
                    match old(self).selected {
                        Some(i) => if i == 0 {
                            (old(self).items@.len() - 1) as usize
                        } else {
                            (i - 1) as usize
                        },
                        None => 0usize,
                    },
                )
            }),
    {
        if self.items.len() == 0 {
            return ;
        }
        let i = match self.selected {
            Some(i) => if i == 0 {
                self.items.len() - 1
            } else {
                i - 1
            },
            None => 0,
        };
        self.selected = Some(i);
    }

    /// The display names of all rows, in order.
    pub fn get_items(&self) -> (r: Vec<String>)
        ensures
            r.deep_view() == Seq::new(
                self.items@.len() as nat,
                |i: int| self.items.deep_view()[i].display_name,
            ),
    {
        let mut r: Vec<String> = Vec::new();
        let mut i: usize = 0;
        proof {
            assert(r.deep_view() =~~= Seq::new(0nat, |t: int| self.items.deep_view()[t].display_name));
        }
        while i < self.items.len()
            invariant
                i <= self.items@.len(),
                r.deep_view() == Seq::new(i as nat, |t: int| self.items.deep_view()[t].display_name),
            decreases self.items@.len() - i,
        {
            let ghost old_r = r.deep_view();
            r.push(self.items[i].display_name.clone());
            i = i + 1;
            proof {
                let k = i as int - 1;
                assert(self.items.deep_view()[k] == self.items@[k].deep_view());
                assert(r.deep_view() =~~= old_r.push(self.items@[k].display_name@));
                assert(old_r.push(self.items@[k].display_name@) =~~= Seq::new(
                    i as nat,
                    |t: int| self.items.deep_view()[t].display_name,
                ));
            }
        }
        r
    }

    /// The path of the selected row, when it is a file.
    pub fn get_selected_file(&self) -> (r: Option<&String>)
        requires
            self.wf(),
        ensures
            match self.selected {
                Some(i) => if !self.items@[i as int].is_dir {
                    r matches Some(p) && p@ == self.items@[i as int].path@
                } else {
                    r is None
                },
                None => r is None,
            },
    {
        match self.selected {
            Some(i) => {
                if !self.items[i].is_dir {
                    Some(&self.items[i].path)
                } else {
                    None
                }
            },
            None => None,
        }
    }

    /// The path of the selected row, file or directory.
    pub fn get_selected_path(&self) -> (r: Option<&String>)
        requires
            self.wf(),
        ensures
            match self.selected {
                Some(i) => r matches Some(p) && p@ == self.items@[i as int].path@,
                None => r is None,
            },
    {
        match self.selected {
            Some(i) => Some(&self.items[i].path),
            None => None,
        }
    }

    /// The paths of all expanded directories, in row order.
    pub fn get_expansion_state(&self) -> (r: Vec<String>)
        ensures
            r.deep_view() == spec_expanded_dirs(self.items.deep_view()),
    {
        let mut r: Vec<String> = Vec::new();
        let mut i: usize = 0;
        proof {
            assert(self.items.deep_view().take(0) =~~= Seq::<TreeItemView>::empty());
            assert(r.deep_view() =~~= spec_expanded_dirs(self.items.deep_view().take(0)));
        }
        while i < self.items.len()
            invariant
                i <= self.items@.len(),
                r.deep_view() == spec_expanded_dirs(self.items.deep_view().take(i as int)),
            decreases self.items@.len() - i,
        {
            let ghost before = r.deep_view();
            let item = &self.items[i];
            if item.is_dir && item.is_expanded {
                r.push(item.path.clone());
            }
            i = i + 1;
            proof {
                let deep = self.items.deep_view();
                assert(deep.take(i as int).drop_last() =~~= deep.take(i as int - 1));
                assert(deep.take(i as int).last() == deep[i as int - 1]);
                assert(deep[i as int - 1] == self.items@[i as int - 1].deep_view());
                if self.items@[i as int - 1].is_dir && self.items@[i as int - 1].is_expanded {
                    assert(r.deep_view() =~~= before + seq![deep[i as int - 1].path]);
                } else {
                    assert(r.deep_view() =~~= before + Seq::<Seq<char>>::empty());
                }
            }
        }
        proof {
            assert(self.items.deep_view().take(self.items@.len() as int) =~~= self.items.deep_view());
        }
        r
    }

    /// What toggling the selected row means: nothing unless a directory
    /// is selected; else the new expansion set — the old one without
    /// this path if it was expanded, with it appended if not — and the
    /// path to keep selected through the rebuild.
    pub fn toggle_expansion(&self) -> (r: Option<(Vec<String>, String)>)
        requires
            self.wf(),
        ensures
            match self.selected {
                Some(i) => if self.items@[i as int].is_dir {
                    r matches Some((dirs, sel)) && sel@ == self.items@[i as int].path@
                        && dirs.deep_view() == (if self.items@[i as int].is_expanded {
                        spec_remove_path(
                            spec_expanded_dirs(self.items.deep_view()),
                            self.items@[i as int].path@,
                        )
                    } else {
                        spec_expanded_dirs(self.items.deep_view()).push(
                            self.items@[i as int].path@,
                        )
                    })
                } else {
                    r is None
                },
                None => r is None,
            },
    {
        let i = match self.selected {
            Some(i) => i,
            None => {
                return None;
            },
        };
        if !self.items[i].is_dir {
            return None;
        }
        let path = self.items[i].path.clone();
        let expanded = self.get_expansion_state();
        if self.items[i].is_expanded {
            // drop this path from the expansion set
            let mut kept: Vec<String> = Vec::new();
            let mut t: usize = 0;
            proof {
                assert(expanded.deep_view().take(0) =~~= Seq::<Seq<char>>::empty());
                assert(kept.deep_view() =~~= spec_remove_path(
                    expanded.deep_view().take(0),
                    path@,
                ));
            }
            while t < expanded.len()
                invariant
                    t <= expanded@.len(),
                    path@ == self.items@[i as int].path@,
                    kept.deep_view() == spec_remove_path(
                        expanded.deep_view().take(t as int),
                        path@,
                    ),
                decreases expanded@.len() - t,
            {
                let ghost before = kept.deep_view();
                if !equal_strings(&expanded[t], &path) {
                    kept.push(expanded[t].clone());
                }
                t = t + 1;
                proof {
                    let deep = expanded.deep_view();
                    assert(deep.take(t as int).drop_last() =~~= deep.take(t as int - 1));
                    assert(deep.take(t as int).last() == deep[t as int - 1]);
                    assert(deep[t as int - 1] =~= expanded@[t as int - 1]@);
                    if expanded@[t as int - 1]@ == path@ {
                        assert(kept.deep_view() =~~= before + Seq::<Seq<char>>::empty());
                    } else {
                        assert(kept.deep_view() =~~= before + seq![deep[t as int - 1]]);
                    }
                }
            }
            proof {
                assert(expanded.deep_view().take(expanded@.len() as int) =~~= expanded.deep_view());
            }
            Some((kept, path))
        } else {
            let mut grown = expanded;
            let ghost before = grown.deep_view();
            grown.push(path.clone());
            proof {
                assert(grown.deep_view() =~~= before.push(path@));
            }
            Some((grown, path))
        }
    }

    /// Replace the rows after a rebuild, keeping the selection on the
    /// given path where it still exists, else on the first row of a
    /// non-empty tree.
    pub fn refresh_with_state(&mut self, items: Vec<TreeItem>, selected_path: Option<String>)
        ensures
            final(self).items == items,
            final(self).root_dir == old(self).root_dir,
            final(self).wf(),
            final(self).selected == (if items@.len() == 0 {
                None::<usize>
            } else {
                match selected_path {
                    Some(p) => match spec_find_path(items.deep_view(), p@) {
                        Some(k) => Some(k as usize),
                        None => Some(0usize),
                    },
                    None => Some(0usize),
                }
            }),
    {
        self.items = items;
        if self.items.len() == 0 {
            self.selected = None;
            return ;
        }
        match &selected_path {
            Some(p) => {
                let deep = Ghost(self.items.deep_view());
                let mut t: usize = 0;
                while t < self.items.len()
                    invariant
                        t <= self.items@.len(),
                        self.items == items,
                        self.root_dir == old(self).root_dir,
                        self.items@.len() > 0,
                        deep@ == self.items.deep_view(),
                        selected_path matches Some(q) && q == p,
                        forall|u: int| 0 <= u < t ==> (#[trigger] deep@[u]).path != p@,
                    decreases self.items@.len() - t,
                {
                    if equal_strings(&self.items[t].path, p) {
                        proof {
                            lemma_find_path_prefix(deep@, p@, t as int);
                            assert(deep@.skip(t as int)[0] == deep@[t as int]);
                            assert(deep@[t as int] == self.items@[t as int].deep_view());
                            assert(spec_find_path(deep@.skip(t as int), p@) == Some(0int));
                            assert(spec_find_path(deep@, p@) == Some(t as int));
                        }
                        self.selected = Some(t);
                        return ;
                    }
                    proof {
                        assert(deep@[t as int] == self.items@[t as int].deep_view());
                    }
                    t = t + 1;
                }
                proof {
                    lemma_find_path_prefix(deep@, p@, self.items@.len() as int);
                    assert(deep@.skip(self.items@.len() as int) =~~= Seq::<TreeItemView>::empty());
                    assert(spec_find_path(deep@, p@) is None);
                }
                self.selected = Some(0);
            },
            None => {
                self.selected = Some(0);
            },
        }
    }
}

/// Compare two strings character for character.
fn equal_strings(a: &String, b: &String) -> (r: bool)
    ensures
        r == (a@ == b@),
{
    a.eq(b)
}

} // verus!
