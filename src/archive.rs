use vstd::prelude::*;
use crate::error::PipelineError;
use crate::text::{chars_of, string_of};

verus! {

/// One record of an archive's index: its stored name and whether it is a
/// directory entry.
#[derive(Debug)]
pub struct ArchiveEntry {
    pub name: String,
    pub is_dir: bool,
}

/// One thing to materialise: entry `index` of the archive, at `path`
/// (segments relative to the destination directory).
#[derive(Debug)]
pub struct ExtractStep {
    pub index: usize,
    pub is_dir: bool,
    pub path: Vec<String>,
}

/// The non-empty `/`-separated pieces of `s`, after a pending piece `cur`.
pub open spec fn segments_from(s: Seq<char>, cur: Seq<char>) -> Seq<Seq<char>>
    decreases s.len(),
{
    if s.len() == 0 {
        if cur.len() > 0 {
            seq![cur]
        } else {
            Seq::empty()
        }
    } else if s[0] == '/' {
        (if cur.len() > 0 {
            seq![cur]
        } else {
            Seq::empty()
        }) + segments_from(s.drop_first(), Seq::empty())
    } else {
        segments_from(s.drop_first(), cur.push(s[0]))
    }
}

/// The path segments of an archive entry name: its non-empty `/`-separated
/// pieces, in order.
pub open spec fn segments(s: Seq<char>) -> Seq<Seq<char>> {
    segments_from(s, Seq::empty())
}

/// An entry is selected when its second segment is exactly the selector.
pub open spec fn is_selected(name: Seq<char>, selector: Seq<char>) -> bool {
    segments(name).len() >= 2 && segments(name)[1] == selector
}

/// Where a selected entry goes: its segments without the first two.
pub open spec fn relative_path(name: Seq<char>) -> Seq<Seq<char>> {
    segments(name).skip(2)
}

/// How a segment moves the depth below the destination directory.
pub open spec fn segment_step(seg: Seq<char>) -> int {
    if seg == seq!['.', '.'] {
        -1
    } else if seg == seq!['.'] {
        0
    } else {
        1
    }
}

/// The depth below the destination directory that `rel` resolves to.
pub open spec fn depth(rel: Seq<Seq<char>>) -> int
    decreases rel.len(),
{
    if rel.len() == 0 {
        0
    } else {
        depth(rel.drop_last()) + segment_step(rel.last())
    }
}

/// Some prefix of `rel` resolves above the destination directory.
pub open spec fn escapes(rel: Seq<Seq<char>>) -> bool {
    exists|k: int| 0 < k <= rel.len() && #[trigger] depth(rel.take(k)) < 0
}

/// A selected entry whose relative path leaves the destination directory.
pub open spec fn is_unsafe(e: ArchiveEntry, selector: Seq<char>) -> bool {
    is_selected(e.name@, selector) && escapes(relative_path(e.name@))
}

/// The indices, in index order, of the selected entries among the first `n`.
pub open spec fn selected_indices(entries: Seq<ArchiveEntry>, selector: Seq<char>, n: int) -> Seq<
    int,
>
    decreases n,
{
    if n <= 0 {
        Seq::empty()
    } else if is_selected(entries[n - 1].name@, selector) {
        selected_indices(entries, selector, n - 1).push(n - 1)
    } else {
        selected_indices(entries, selector, n - 1)
    }
}

/// The character sequences of a list of strings.
pub open spec fn string_views(v: Seq<String>) -> Seq<Seq<char>> {
    v.map_values(|s: String| s@)
}

/// The character sequences of a list of character vectors.
pub open spec fn char_vec_views(v: Seq<Vec<char>>) -> Seq<Seq<char>> {
    v.map_values(|s: Vec<char>| s@)
}

/// `steps` materialises exactly the entries at `idx`, in that order, each at
/// its relative path.
pub open spec fn steps_for(steps: Seq<ExtractStep>, entries: Seq<ArchiveEntry>, idx: Seq<int>) -> bool {
    &&& steps.len() == idx.len()
    &&& forall|j: int|
        0 <= j < steps.len() ==> {
            &&& #[trigger] steps[j].index == idx[j]
            &&& steps[j].is_dir == entries[idx[j]].is_dir
            &&& string_views(steps[j].path@) == relative_path(entries[idx[j]].name@)
        }
}

/// The planned indices are exactly the selected entries among the first
/// `n`, each once and in index order: nothing outside that set is written.
pub proof fn lemma_selected_indices_exact(entries: Seq<ArchiveEntry>, selector: Seq<char>, n: int)
    requires
        0 <= n <= entries.len(),
    ensures
        forall|j: int|
            0 <= j < selected_indices(entries, selector, n).len() ==> {
                &&& 0 <= #[trigger] selected_indices(entries, selector, n)[j] < n
                &&& is_selected(entries[selected_indices(entries, selector, n)[j]].name@, selector)
            },
        forall|j1: int, j2: int|
            0 <= j1 < j2 < selected_indices(entries, selector, n).len() ==> #[trigger] selected_indices(
                entries,
                selector,
                n,
            )[j1] < #[trigger] selected_indices(entries, selector, n)[j2],
        forall|k: int|
            0 <= k < n && is_selected(#[trigger] entries[k].name@, selector) ==> selected_indices(
                entries,
                selector,
                n,
            ).contains(k),
    decreases n,
{
    if n > 0 {
        lemma_selected_indices_exact(entries, selector, n - 1);
        let prev = selected_indices(entries, selector, n - 1);
        if is_selected(entries[n - 1].name@, selector) {
            assert forall|k: int|
                0 <= k < n && is_selected(#[trigger] entries[k].name@, selector) implies prev.push(
                n - 1,
            ).contains(k) by {
                if k < n - 1 {
                    let j = choose|j: int| 0 <= j < prev.len() && prev[j] == k;
                    assert(prev.push(n - 1)[j] == k);
                } else {
                    assert(prev.push(n - 1)[prev.len() as int] == k);
                }
            }
        }
    }
}

/// When no entry's second segment is the selector, nothing is selected, so
/// extraction fails with `VariantNotFound` and plans no write.
pub proof fn lemma_no_variant_selects_nothing(entries: Seq<ArchiveEntry>, selector: Seq<char>)
    requires
        forall|k: int| 0 <= k < entries.len() ==> !is_selected(#[trigger] entries[k].name@, selector),
    ensures
        selected_indices(entries, selector, entries.len() as int).len() == 0,
{
    lemma_selected_indices_exact(entries, selector, entries.len() as int);
    let idx = selected_indices(entries, selector, entries.len() as int);
    if idx.len() > 0 {
        assert(is_selected(entries[idx[0]].name@, selector));
    }
}

/// The segments of an entry name (see `segments`).
fn split_segments(name: &str) -> (r: Vec<Vec<char>>)
    ensures
        char_vec_views(r@) == segments(name@),
{
    let cs = chars_of(name);
    let mut out: Vec<Vec<char>> = Vec::new();
    let mut cur: Vec<char> = Vec::new();
    let mut i: usize = 0;
    assert(cs@.skip(0) =~= cs@);
    assert(char_vec_views(out@) + segments(name@) =~= segments(name@));
    while i < cs.len()
        invariant
            i <= cs.len(),
            cs@ == name@,
            char_vec_views(out@) + segments_from(cs@.skip(i as int), cur@) == segments(name@),
        decreases cs.len() - i,
    {
        let ghost before = char_vec_views(out@);
        let ghost rest = cs@.skip(i as int);
        assert(rest.drop_first() =~= cs@.skip(i as int + 1));
        if cs[i] == '/' {
            if cur.len() > 0 {
                let ghost cv = cur@;
                out.push(cur);
                assert(char_vec_views(out@) =~= before.push(cv));
                assert(before.push(cv) + segments_from(rest.drop_first(), Seq::empty()) =~= before
                    + (seq![cv] + segments_from(rest.drop_first(), Seq::empty())));
            } else {
                assert(Seq::<Seq<char>>::empty() + segments_from(rest.drop_first(), Seq::empty())
                    =~= segments_from(rest.drop_first(), Seq::empty()));
            }
            cur = Vec::new();
        } else {
            cur.push(cs[i]);
        }
        i += 1;
    }
    assert(cs@.skip(i as int) =~= Seq::<char>::empty());
    if cur.len() > 0 {
        let ghost before = char_vec_views(out@);
        let ghost cv = cur@;
        out.push(cur);
        assert(char_vec_views(out@) =~= before + seq![cv]);
    } else {
        assert(char_vec_views(out@) =~= char_vec_views(out@) + Seq::<Seq<char>>::empty());
    }
    out
}

/// The path segments of an archive entry name (see `segments`).
pub fn path_segments(name: &str) -> (r: Vec<String>)
    ensures
        string_views(r@) == segments(name@),
{
    let segs = split_segments(name);
    let mut out: Vec<String> = Vec::new();
    let mut i: usize = 0;
    while i < segs.len()
        invariant
            i <= segs.len(),
            string_views(out@) == char_vec_views(segs@).take(i as int),
        decreases segs.len() - i,
    {
        let ghost prev = out@;
        let s = string_of(&segs[i]);
        out.push(s);
        assert(string_views(out@) =~= string_views(prev).push(segs@[i as int]@));
        i += 1;
        assert(string_views(out@) =~= char_vec_views(segs@).take(i as int));
    }
    assert(char_vec_views(segs@).take(i as int) =~= char_vec_views(segs@));
    out
}

fn same_chars(a: &Vec<char>, b: &Vec<char>) -> (r: bool)
    ensures
        r == (a@ == b@),
{
    if a.len() != b.len() {
        return false;
    }
    let mut i: usize = 0;
    while i < a.len()
        invariant
            a.len() == b.len(),
            i <= a.len(),
            forall|j: int| 0 <= j < i ==> a@[j] == b@[j],
        decreases a.len() - i,
    {
        if a[i] != b[i] {
            return false;
        }
        i += 1;
    }
    assert(a@ =~= b@);
    true
}

fn step_of(seg: &Vec<char>) -> (r: i8)
    ensures
        r as int == segment_step(seg@),
{
    if seg.len() == 2 && seg[0] == '.' && seg[1] == '.' {
        assert(seg@ =~= seq!['.', '.']);
        -1
    } else if seg.len() == 1 && seg[0] == '.' {
        assert(seg@ =~= seq!['.']);
        0
    } else {
        1
    }
}

/// Whether the segments of `segs` from position `from` on resolve, at some
/// prefix, above the directory they are joined to.
fn escapes_from(segs: &Vec<Vec<char>>, from: usize) -> (r: bool)
    requires
        from <= segs.len(),
    ensures
        r == escapes(char_vec_views(segs@).skip(from as int)),
{
    let ghost rel = char_vec_views(segs@).skip(from as int);
    let mut d: usize = 0;
    let mut i: usize = from;
    while i < segs.len()
        invariant
            from <= i <= segs.len(),
            rel == char_vec_views(segs@).skip(from as int),
            d as int == depth(rel.take(i - from)),
            d <= i - from,
            forall|k: int| 0 < k <= i - from ==> depth(#[trigger] rel.take(k)) >= 0,
        decreases segs.len() - i,
    {
        let s = step_of(&segs[i]);
        let ghost k = i - from + 1;
        assert(rel.take(k).drop_last() =~= rel.take(k - 1));
        assert(rel.take(k).last() == segs@[i as int]@);
        if s < 0 {
            if d == 0 {
                assert(depth(rel.take(k)) < 0);
                return true;
            }
            d = d - 1;
        } else if s > 0 {
            d = d + 1;
        }
        i += 1;
    }
    assert(rel.len() == i - from);
    assert(!escapes(rel)) by {
        assert forall|k: int| 0 < k <= rel.len() implies depth(#[trigger] rel.take(k)) >= 0 by {}
    }
    false
}

/// Decides which entries of an archive index are materialised for
/// `selector`, and where. An entry is selected when its second segment is
/// exactly `selector`; it is written at its segments without the first two.
/// Entries are visited in index order. Nothing is planned when the plan
/// fails: no entry selected gives `VariantNotFound`, and a selected entry
/// whose relative path leaves the destination gives `UnsafeArchivePath`
/// with the name of the first such entry.
pub fn plan_extraction(entries: &Vec<ArchiveEntry>, selector: &str) -> (r: Result<
    Vec<ExtractStep>,
    PipelineError,
>)
    ensures
        match r {
            Ok(steps) => {
                &&& selected_indices(entries@, selector@, entries@.len() as int).len() > 0
                &&& forall|k: int| 0 <= k < entries@.len() ==> !is_unsafe(#[trigger] entries@[k], selector@)
                &&& steps_for(steps@, entries@, selected_indices(entries@, selector@, entries@.len() as int))
            },
            Err(PipelineError::VariantNotFound { selector: s }) => {
                &&& s@ == selector@
                &&& selected_indices(entries@, selector@, entries@.len() as int).len() == 0
            },
            Err(PipelineError::UnsafeArchivePath { path }) => exists|k: int|
                0 <= k < entries@.len() && is_unsafe(#[trigger] entries@[k], selector@) && path@
                    == entries@[k].name@ && forall|j: int|
                    0 <= j < k ==> !is_unsafe(#[trigger] entries@[j], selector@),
            Err(_) => false,
        },
{
    let sel = chars_of(selector);
    let mut steps: Vec<ExtractStep> = Vec::new();
    let mut i: usize = 0;
    while i < entries.len()
        invariant
            i <= entries.len(),
            sel@ == selector@,
            steps_for(steps@, entries@, selected_indices(entries@, selector@, i as int)),
            forall|k: int| 0 <= k < i ==> !is_unsafe(#[trigger] entries@[k], selector@),
        decreases entries.len() - i,
    {
        let entry = &entries[i];
        let segs = split_segments(entry.name.as_str());
        let ghost idx = selected_indices(entries@, selector@, i as int);
        if segs.len() >= 2 && same_chars(&segs[1], &sel) {
            assert(is_selected(entries@[i as int].name@, selector@));
            if escapes_from(&segs, 2) {
                assert(char_vec_views(segs@).skip(2) =~= relative_path(entry.name@));
                assert(is_unsafe(entries@[i as int], selector@));
                return Err(PipelineError::UnsafeArchivePath { path: entry.name.clone() });
            }
            let mut path: Vec<String> = Vec::new();
            let mut j: usize = 2;
            while j < segs.len()
                invariant
                    2 <= j <= segs.len(),
                    string_views(path@) == char_vec_views(segs@).subrange(2, j as int),
                decreases segs.len() - j,
            {
                let ghost prev = path@;
                path.push(string_of(&segs[j]));
                assert(string_views(path@) =~= string_views(prev).push(segs@[j as int]@));
                j += 1;
                assert(string_views(path@) =~= char_vec_views(segs@).subrange(2, j as int));
            }
            assert(char_vec_views(segs@).subrange(2, j as int) =~= relative_path(entry.name@));
            let ghost old_steps = steps@;
            steps.push(ExtractStep { index: i, is_dir: entry.is_dir, path });
            assert(selected_indices(entries@, selector@, i + 1) == idx.push(i as int));
            assert forall|j: int| 0 <= j < steps@.len() implies {
                &&& #[trigger] steps@[j].index == idx.push(i as int)[j]
                &&& steps@[j].is_dir == entries@[idx.push(i as int)[j]].is_dir
                &&& string_views(steps@[j].path@) == relative_path(entries@[idx.push(i as int)[j]].name@)
            } by {
                if j < old_steps.len() {
                    assert(steps@[j] == old_steps[j]);
                }
            }
        } else {
            assert(!is_selected(entries@[i as int].name@, selector@));
        }
        i += 1;
    }
    if steps.len() == 0 {
        return Err(PipelineError::VariantNotFound { selector: string_of(&sel) });
    }
    Ok(steps)
}

} // verus!
