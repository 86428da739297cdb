//! The listing of a workspace directory: which entries are shown, and in
//! which order.

use vstd::prelude::*;
use vstd::string::*;
use crate::models::views;
use crate::order::{
    is_ranking, lemma_insert_stable_at, lemma_sort_stable, lemma_text_lt_asymmetric,
    lemma_text_not_lt_transitive, ordered, sort_stable, Ranked,
};
use crate::text::{less_than, same, text_lt, to_chars};

verus! {

/// A file or a folder of the workspace as a listing shows it.
#[derive(Debug)]
pub struct FileNode {
    pub name: String,
    /// The path below the workspace.
    pub path: String,
    /// `file` or `folder`.
    pub node_type: String,
    /// The content of a folder; `None` for a file.
    pub children: Option<Vec<FileNode>>,
}

/// The file whose content is asked for.
#[derive(Debug, Clone)]
pub struct FileQuery {
    pub path: String,
}

/// What was read of one entry of a directory.
#[derive(Debug, Clone)]
pub struct Entry {
    pub name: String,
    pub is_dir: bool,
}

pub ghost struct EntryView {
    pub name: Seq<char>,
    pub is_dir: bool,
}

impl View for Entry {
    type V = EntryView;

    open spec fn view(&self) -> EntryView {
        EntryView { name: self.name@, is_dir: self.is_dir }
    }
}

impl Ranked for EntryView {
    /// Folders come before files; among folders and among files the
    /// names decide.
    open spec fn before(&self, other: &Self) -> bool {
        if self.is_dir != other.is_dir {
            self.is_dir
        } else {
            text_lt(self.name, other.name)
        }
    }
}

/// Whether an entry of this name is shown: hidden entries and the
/// folders of dependencies and build results are not.
pub open spec fn listed(name: Seq<char>) -> bool {
    !(name.len() > 0 && name[0] == '.') && name != "node_modules"@ && name != "target"@
}

/// The entries of `s` that are shown, in order.
pub open spec fn visible(s: Seq<EntryView>) -> Seq<EntryView>
    decreases s.len(),
{
    if s.len() == 0 {
        Seq::empty()
    } else if listed(s.last().name) {
        visible(s.drop_last()).push(s.last())
    } else {
        visible(s.drop_last())
    }
}

/// The entries of a directory as a listing shows them: folders first, by
/// name, without those that are not shown.
pub open spec fn arranged(s: Seq<EntryView>) -> Seq<EntryView> {
    visible(sort_stable(s))
}

/// Whether an entry of this name is shown.
pub fn is_listed(name: &str) -> (b: bool)
    ensures
        b == listed(name@),
{
    let chars = to_chars(name);
    if chars.len() > 0 && chars[0] == '.' {
        return false;
    }
    !same(name, "node_modules") && !same(name, "target")
}

fn entry_before(a: &Entry, b: &Entry) -> (r: bool)
    ensures
        r == a@.before(&b@),
{
    if a.is_dir != b.is_dir {
        a.is_dir
    } else {
        less_than(a.name.as_str(), b.name.as_str())
    }
}

/// Puts the entries of a directory in the order of a listing and leaves
/// out those that are not shown.
pub fn arrange_entries(entries: &Vec<Entry>) -> (out: Vec<Entry>)
    ensures
        views(out@) == arranged(views(entries@)),
{
    let ghost all = views(entries@);
    let mut sorted: Vec<Entry> = Vec::new();
    let mut i: usize = 0;
    assert(views(sorted@) =~= sort_stable(all.take(0)));
    while i < entries.len()
        invariant
            i <= entries.len(),
            all == views(entries@),
            views(sorted@) == sort_stable(all.take(i as int)),
        decreases entries.len() - i,
    {
        let entry = Entry { name: entries[i].name.clone(), is_dir: entries[i].is_dir };
        proof {
            assert(all.take(i as int + 1).drop_last() =~= all.take(i as int));
            assert(all.take(i as int + 1).last() == entry@);
        }
        let mut k: usize = sorted.len();
        while k > 0 && entry_before(&entry, &sorted[k - 1])
            invariant
                k <= sorted.len(),
                forall|j: int| k <= j < sorted.len() ==> entry@.before(&#[trigger] views(sorted@)[j]),
            decreases k,
        {
            k -= 1;
        }
        proof {
            lemma_insert_stable_at(views(sorted@), entry@, k as int);
        }
        let ghost before = views(sorted@);
        sorted.insert(k, entry);
        assert(views(sorted@) =~= before.insert(k as int, entry@));
        i += 1;
    }
    assert(all.take(i as int) =~= all);
    let ghost ranked = views(sorted@);
    let mut out: Vec<Entry> = Vec::new();
    let mut j: usize = 0;
    assert(views(out@) =~= visible(ranked.take(0)));
    while j < sorted.len()
        invariant
            j <= sorted.len(),
            ranked == views(sorted@),
            views(out@) == visible(ranked.take(j as int)),
        decreases sorted.len() - j,
    {
        proof {
            assert(ranked.take(j as int + 1).drop_last() =~= ranked.take(j as int));
            assert(ranked.take(j as int + 1).last() == sorted@[j as int]@);
        }
        if is_listed(sorted[j].name.as_str()) {
            let ghost before = views(out@);
            let e = Entry { name: sorted[j].name.clone(), is_dir: sorted[j].is_dir };
            out.push(e);
            assert(views(out@) =~= before.push(e@));
        }
        j += 1;
    }
    assert(ranked.take(j as int) =~= ranked);
    out
}

/// Leaving entries out keeps the order of those that stay.
pub proof fn lemma_visible_keeps_order(s: Seq<EntryView>)
    requires
        ordered(s),
    ensures
        ordered(visible(s)),
        forall|k: int|
            0 <= k < visible(s).len() ==> listed((#[trigger] visible(s)[k]).name) && exists|i: int|
                0 <= i < s.len() && s[i] == visible(s)[k] && (k > 0 ==> exists|h: int|
                    0 <= h < i && s[h] == visible(s)[k - 1]),
    decreases s.len(),
{
    if s.len() > 0 {
        let t = s.drop_last();
        assert forall|i: int, j: int| #![trigger t[i], t[j]] 0 <= i < j < t.len() implies !t[j].before(
            &t[i],
        ) by {
            assert(t[i] == s[i] && t[j] == s[j]);
        }
        lemma_visible_keeps_order(t);
        let v = visible(s);
        let w = visible(t);
        assert forall|k: int| 0 <= k < v.len() implies listed((#[trigger] v[k]).name) && exists|
            i: int,
        |
            0 <= i < s.len() && s[i] == v[k] && (k > 0 ==> exists|h: int|
                0 <= h < i && s[h] == v[k - 1]) by {
            if k < w.len() {
                assert(v[k] == w[k]);
                let i = choose|i: int|
                    0 <= i < t.len() && t[i] == w[k] && (k > 0 ==> exists|h: int|
                        0 <= h < i && t[h] == w[k - 1]);
                assert(s[i] == t[i]);
                if k > 0 {
                    let h = choose|h: int| 0 <= h < i && t[h] == w[k - 1];
                    assert(s[h] == t[h]);
                }
            } else {
                assert(v[k] == s[s.len() - 1]);
                if k > 0 {
                    let h = choose|h: int| 0 <= h < t.len() && t[h] == w[k - 1];
                    assert(s[h] == t[h]);
                }
            }
        }
        assert forall|a: int, b: int| #![trigger v[a], v[b]] 0 <= a < b < v.len() implies !v[b].before(
            &v[a],
        ) by {
            let ia = choose|i: int| 0 <= i < s.len() && s[i] == v[a];
            if b < w.len() {
                assert(v[a] == w[a] && v[b] == w[b]);
            } else {
                assert(v[b] == s.last());
                assert(v[a] == w[a]);
                let i = choose|i: int| 0 <= i < t.len() && t[i] == w[a];
                assert(s[i] == t[i]);
                assert(!s[s.len() - 1].before(&s[i]));
            }
        }
    }
}

/// In a listing no file stands before a folder and no name before one
/// that comes earlier among its kind; every entry of it is shown.
pub proof fn lemma_arranged_is_ordered(s: Seq<EntryView>)
    ensures
        ordered(arranged(s)),
        forall|k: int| 0 <= k < arranged(s).len() ==> listed((#[trigger] arranged(s)[k]).name),
{
    assert(is_ranking::<EntryView>()) by {
        assert forall|a: EntryView, b: EntryView| #[trigger] a.before(&b) implies !b.before(&a) by {
            if a.is_dir == b.is_dir {
                lemma_text_lt_asymmetric(a.name, b.name);
            }
        }
        assert forall|a: EntryView, b: EntryView, c: EntryView|
            #![trigger c.before(&b), b.before(&a)]
            !c.before(&b) && !b.before(&a) implies !c.before(&a) by {
            if a.is_dir == b.is_dir && b.is_dir == c.is_dir {
                lemma_text_not_lt_transitive(a.name, b.name, c.name);
            }
        }
    }
    lemma_sort_stable(s);
    lemma_visible_keeps_order(sort_stable(s));
}

impl FileNode {
    /// The node of a file.
    pub fn file(name: String, path: String) -> (node: FileNode)
        ensures
            node.name == name,
            node.path == path,
            node.node_type@ == "file"@,
            node.children is None,
    {
        FileNode { name, path, node_type: String::from_str("file"), children: None }
    }

    /// The node of a folder with its content.
    pub fn folder(name: String, path: String, children: Vec<FileNode>) -> (node: FileNode)
        ensures
            node.name == name,
            node.path == path,
            node.node_type@ == "folder"@,
            node.children == Some(children),
    {
        FileNode { name, path, node_type: String::from_str("folder"), children: Some(children) }
    }
}

} // verus!
