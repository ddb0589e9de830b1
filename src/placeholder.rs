use vstd::prelude::*;
use crate::text::{chars_of, string_of};

verus! {

/// The token that template files carry where the project name belongs.
pub const PLACEHOLDER: &'static str = "{{ project_name }}";

/// The characters of `PLACEHOLDER`.
pub open spec fn placeholder() -> Seq<char> {
    seq!['{', '{', ' ', 'p', 'r', 'o', 'j', 'e', 'c', 't', '_', 'n', 'a', 'm', 'e', ' ', '}', '}']
}

/// `pat` stands in `s` at position `i`.
pub open spec fn occurs_at(s: Seq<char>, pat: Seq<char>, i: int) -> bool {
    0 <= i && i + pat.len() <= s.len() && s.subrange(i, i + pat.len()) == pat
}

/// `pat` stands somewhere in `s`.
pub open spec fn occurs(s: Seq<char>, pat: Seq<char>) -> bool {
    exists|i: int| #[trigger] occurs_at(s, pat, i)
}

/// `s` with every occurrence of a non-empty `pat`, scanned from the left and
/// without overlap, replaced by `rep`.
pub open spec fn replace_all(s: Seq<char>, pat: Seq<char>, rep: Seq<char>) -> Seq<char>
    decreases s.len(),
{
    if pat.len() == 0 || s.len() < pat.len() {
        s
    } else if s.take(pat.len() as int) == pat {
        rep + replace_all(s.skip(pat.len() as int), pat, rep)
    } else {
        seq![s[0]] + replace_all(s.skip(1), pat, rep)
    }
}

/// The token a project name becomes in template files: spaces turn into
/// underscores, every other character stays.
pub open spec fn project_token(name: Seq<char>) -> Seq<char> {
    name.map_values(|c: char| if c == ' ' { '_' } else { c })
}

/// The extension of files whose placeholders are rewritten.
pub open spec fn toml_suffix() -> Seq<char> {
    seq!['.', 't', 'o', 'm', 'l']
}

/// A file name has the `toml` extension: it ends in `.toml` and has a
/// non-empty stem before it.
pub open spec fn is_toml_name(name: Seq<char>) -> bool {
    name.len() > toml_suffix().len() && name.skip(name.len() - toml_suffix().len()) == toml_suffix()
}

/// Replacing in a text that does not hold the pattern leaves it as it is.
pub proof fn lemma_replace_without_occurrence(s: Seq<char>, pat: Seq<char>, rep: Seq<char>)
    requires
        !occurs(s, pat),
    ensures
        replace_all(s, pat, rep) == s,
    decreases s.len(),
{
    if pat.len() == 0 || s.len() < pat.len() {
    } else {
        assert(s.take(pat.len() as int) =~= s.subrange(0, pat.len() as int));
        assert(!occurs_at(s, pat, 0));
        let t = s.skip(1);
        assert(!occurs(t, pat)) by {
            assert forall|i: int| !(#[trigger] occurs_at(t, pat, i)) by {
                if occurs_at(t, pat, i) {
                    assert(t.subrange(i, i + pat.len()) =~= s.subrange(i + 1, i + 1 + pat.len()));
                    assert(occurs_at(s, pat, i + 1));
                }
            }
        }
        lemma_replace_without_occurrence(t, pat, rep);
        assert(seq![s[0]] + t =~= s);
    }
}

/// Whether `pat` stands in `s` at position `i`.
fn matches_at(s: &Vec<char>, i: usize, pat: &Vec<char>) -> (r: bool)
    requires
        i <= s.len(),
    ensures
        r == occurs_at(s@, pat@, i as int),
{
    if pat.len() > s.len() - i {
        return false;
    }
    let mut j: usize = 0;
    while j < pat.len()
        invariant
            i + pat.len() <= s.len(),
            j <= pat.len(),
            forall|k: int| 0 <= k < j ==> s@[i + k] == pat@[k],
        decreases pat.len() - j,
    {
        if s[i + j] != pat[j] {
            assert(s@.subrange(i as int, i + pat.len())[j as int] != pat@[j as int]);
            return false;
        }
        j += 1;
    }
    assert(s@.subrange(i as int, i + pat.len()) =~= pat@);
    true
}

/// Whether a file's placeholders are rewritten: its name has the `toml`
/// extension.
pub fn is_rewrite_target(file_name: &str) -> (r: bool)
    ensures
        r == is_toml_name(file_name@),
{
    let cs = chars_of(file_name);
    let suffix = chars_of(".toml");
    proof {
        reveal_strlit(".toml");
        assert(suffix@ =~= toml_suffix());
    }
    if cs.len() <= suffix.len() {
        return false;
    }
    let start = cs.len() - suffix.len();
    let r = matches_at(&cs, start, &suffix);
    assert(cs@.subrange(start as int, start + suffix.len()) =~= cs@.skip(start as int));
    r
}

/// The token that `project_name` becomes (see `project_token`).
pub fn token_of(project_name: &str) -> (r: String)
    ensures
        r@ == project_token(project_name@),
{
    let cs = chars_of(project_name);
    let mut out: Vec<char> = Vec::new();
    let mut i: usize = 0;
    while i < cs.len()
        invariant
            i <= cs.len(),
            cs@ == project_name@,
            out@ == project_token(cs@.take(i as int)),
        decreases cs.len() - i,
    {
        let c = cs[i];
        if c == ' ' {
            out.push('_');
        } else {
            out.push(c);
        }
        i += 1;
        assert(out@ =~= project_token(cs@.take(i as int)));
    }
    assert(cs@.take(i as int) =~= cs@);
    string_of(&out)
}

/// Every occurrence of `pat` in `s` replaced by `rep` (see `replace_all`).
fn replace_chars(s: &Vec<char>, pat: &Vec<char>, rep: &Vec<char>) -> (r: Vec<char>)
    requires
        pat.len() > 0,
    ensures
        r@ == replace_all(s@, pat@, rep@),
{
    let mut out: Vec<char> = Vec::new();
    let mut i: usize = 0;
    assert(s@.skip(0) =~= s@);
    assert(out@ + replace_all(s@, pat@, rep@) =~= replace_all(s@, pat@, rep@));
    while i < s.len()
        invariant
            i <= s.len(),
            pat.len() > 0,
            out@ + replace_all(s@.skip(i as int), pat@, rep@) == replace_all(s@, pat@, rep@),
        decreases s.len() - i,
    {
        let ghost rest = s@.skip(i as int);
        let ghost before = out@;
        if matches_at(s, i, pat) {
            assert(rest.take(pat.len() as int) =~= s@.subrange(i as int, i + pat.len()));
            assert(rest.skip(pat.len() as int) =~= s@.skip(i + pat.len()));
            let mut k: usize = 0;
            while k < rep.len()
                invariant
                    k <= rep.len(),
                    out@ == before + rep@.take(k as int),
                decreases rep.len() - k,
            {
                out.push(rep[k]);
                k += 1;
                assert(out@ =~= before + rep@.take(k as int));
            }
            assert(rep@.take(k as int) =~= rep@);
            assert(before + (rep@ + replace_all(rest.skip(pat.len() as int), pat@, rep@)) =~= out@
                + replace_all(s@.skip(i + pat.len()), pat@, rep@));
            i += pat.len();
        } else {
            proof {
                assert(rest.skip(1) =~= s@.skip(i + 1));
                if rest.len() >= pat.len() {
                    assert(rest.take(pat.len() as int) =~= s@.subrange(i as int, i + pat.len()));
                } else {
                    assert(seq![rest[0]] + rest.skip(1) =~= rest);
                }
            }
            out.push(s[i]);
            assert(before + (seq![rest[0]] + replace_all(rest.skip(1), pat@, rep@)) =~= out@
                + replace_all(s@.skip(i + 1), pat@, rep@));
            i += 1;
        }
    }
    assert(s@.skip(i as int) =~= Seq::<char>::empty());
    assert(out@ + Seq::<char>::empty() =~= out@);
    out
}

/// Whether `pat` stands anywhere in `s`.
fn contains_chars(s: &Vec<char>, pat: &Vec<char>) -> (r: bool)
    ensures
        r == occurs(s@, pat@),
{
    let mut i: usize = 0;
    while i < s.len()
        invariant
            i <= s.len(),
            forall|j: int| 0 <= j < i ==> !#[trigger] occurs_at(s@, pat@, j),
        decreases s.len() - i,
    {
        if matches_at(s, i, pat) {
            return true;
        }
        i += 1;
    }
    if matches_at(s, i, pat) {
        return true;
    }
    assert forall|j: int| !#[trigger] occurs_at(s@, pat@, j) by {
        if j > s.len() {
            assert(!occurs_at(s@, pat@, j));
        }
    }
    false
}

/// Rewrites the placeholder of one file's text. Without an occurrence of
/// `PLACEHOLDER` there is nothing to write, and the result is `None`.
/// Otherwise every occurrence is replaced by the token of `project_name`.
pub fn rewrite_placeholders(content: &str, project_name: &str) -> (r: Option<String>)
    ensures
        r is None <==> !occurs(content@, placeholder()),
        r matches Some(t) ==> t@ == replace_all(content@, placeholder(), project_token(project_name@)),
{
    let cs = chars_of(content);
    let pat = chars_of(PLACEHOLDER);
    proof {
        reveal_strlit("{{ project_name }}");
        assert(pat@ =~= placeholder());
    }
    if !contains_chars(&cs, &pat) {
        return None;
    }
    let token = token_of(project_name);
    let rep = chars_of(token.as_str());
    let out = replace_chars(&cs, &pat, &rep);
    Some(string_of(&out))
}

} // verus!
