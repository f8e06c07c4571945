use vstd::prelude::*;

verus! {

/// Appends one character to a `String` (`String::push`).
#[verifier::external_body]
pub(crate) fn push_char(s: &mut String, c: char)
    ensures
        final(s)@ == old(s)@.push(c),
{
    s.push(c);
}

/// An owned copy of a string slice.
pub fn owned(s: &str) -> (r: String)
    ensures
        r@ == s@,
{
    broadcast use vstd::string::group_string_axioms;
    s.to_string()
}

/// Whether two string slices hold the same characters.
pub(crate) fn str_eq(a: &str, b: &str) -> (r: bool)
    ensures
        r == (a@ == b@),
{
    let x = owned(a);
    let y = owned(b);
    x == y
}

/// Appends a string slice to a `String`.
pub fn push_str(s: &mut String, t: &str)
    ensures
        final(s)@ == old(s)@ + t@,
{
    broadcast use vstd::string::group_string_axioms;
    let ghost start = s@;
    for c in it: t.chars()
        invariant
            it.seq() == t@,
            s@ == start + t@.take(it.index() as int),
    {
        proof {
            assert(c == t@[it.index() as int]);
        }
        push_char(s, c);
        assert(s@ =~= start + t@.take(it.index() + 1));
    }
    assert(t@.take(t@.len() as int) =~= t@);
}

/// Splits a path on `'/'`, as `str::split('/')` does: the result always holds
/// at least one segment, and an empty piece stands between adjacent slashes.
pub open spec fn split_segments(p: Seq<char>) -> Seq<Seq<char>>
    decreases p.len(),
{
    if p.len() == 0 {
        seq![Seq::<char>::empty()]
    } else {
        let s = split_segments(p.drop_last());
        if p.last() == '/' {
            s.push(Seq::<char>::empty())
        } else {
            s.update(s.len() - 1, s.last().push(p.last()))
        }
    }
}

pub proof fn lemma_split_nonempty(p: Seq<char>)
    ensures
        split_segments(p).len() >= 1,
    decreases p.len(),
{
    if p.len() > 0 {
        lemma_split_nonempty(p.drop_last());
    }
}

/// Splits `path` into its `'/'`-separated segments.
pub fn split_path(path: &str) -> (r: Vec<String>)
    ensures
        r@.map_values(|s: String| s@) == split_segments(path@),
{
    let mut out: Vec<String> = Vec::new();
    let mut cur = String::new();
    broadcast use vstd::string::group_string_axioms;
    for c in it: path.chars()
        invariant
            it.seq() == path@,
            out@.map_values(|s: String| s@).push(cur@) == split_segments(path@.take(it.index() as int)),
    {
        proof {
            assert(c == path@[it.index() as int]);
            assert(path@.take(it.index() + 1).drop_last() =~= path@.take(it.index() as int));
            lemma_split_nonempty(path@.take(it.index() as int));
        }
        if c == '/' {
            let done = cur;
            out.push(done);
            cur = String::new();
            assert(out@.map_values(|s: String| s@).push(cur@) =~= split_segments(path@.take(it.index() + 1)));
        } else {
            push_char(&mut cur, c);
            assert(out@.map_values(|s: String| s@).push(cur@) =~= split_segments(path@.take(it.index() + 1)));
        }
    }
    proof { assert(path@.take(path@.len() as int) =~= path@); }
    out.push(cur);
    out
}

} // verus!
