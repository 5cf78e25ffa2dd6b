//! Small string helpers shared by the protocol parsers and the renderer.
//!
//! Everything here speaks about strings through their `Seq<char>` view, so
//! the rest of the crate can state its contracts purely over character
//! sequences.

use vstd::prelude::*;

verus! {

/// `p` is a prefix of `s`.
pub open spec fn is_prefix_of(p: Seq<char>, s: Seq<char>) -> bool {
    p.len() <= s.len() && s.subrange(0, p.len() as int) == p
}

/// Relies on `String::push`: appends exactly the given character.
/// vstd specifies `String::new` and appending of string slices, but not
/// `push`, so this is taken on trust.
#[verifier::external_body]
pub fn push_char(s: &mut String, c: char)
    ensures
        final(s)@ == old(s)@.push(c),
{
    s.push(c);
}

/// Character-wise equality of two string slices.
pub fn eq_str(a: &str, b: &str) -> (r: bool)
    ensures
        r == (a@ == b@),
{
    let a_len = a.unicode_len();
    let b_len = b.unicode_len();
    if a_len != b_len {
        assert(a@ != b@) by {
            assert(a@.len() != b@.len());
        }
        return false;
    }
    let mut i: usize = 0;
    while i < a_len
        invariant
            i <= a_len,
            a_len == a@.len(),
            b_len == b@.len(),
            a@.len() == b@.len(),
            forall|j: int| 0 <= j < i ==> a@[j] == b@[j],
        decreases a_len - i,
    {
        if a.get_char(i) != b.get_char(i) {
            return false;
        }
        i += 1;
    }
    proof {
        assert(a@ =~= b@);
    }
    true
}

/// Whether `s` starts with `prefix`, character-wise.
pub fn starts_with(s: &str, prefix: &str) -> (r: bool)
    ensures
        r == is_prefix_of(prefix@, s@),
{
    let s_len = s.unicode_len();
    let p_len = prefix.unicode_len();
    if p_len > s_len {
        return false;
    }
    let mut i: usize = 0;
    while i < p_len
        invariant
            i <= p_len,
            p_len == prefix@.len(),
            s_len == s@.len(),
            p_len <= s_len,
            forall|j: int| 0 <= j < i ==> s@[j] == prefix@[j],
        decreases p_len - i,
    {
        if s.get_char(i) != prefix.get_char(i) {
            return false;
        }
        i += 1;
    }
    proof {
        assert(s@.subrange(0, prefix@.len() as int) =~= prefix@);
    }
    true
}

/// Copies the characters `from..to` of `s` into a fresh `String`.
pub fn substring_copy(s: &str, from: usize, to: usize) -> (r: String)
    requires
        from <= to <= s@.len(),
    ensures
        r@ == s@.subrange(from as int, to as int),
{
    let sub = s.substring_char(from, to);
    sub.to_owned()
}

/// The space-separated tokens of `s`, splitting on every single space
/// (adjacent separators produce empty tokens, as `str::split(' ')` does).
pub open spec fn spec_split_spaces(s: Seq<char>) -> Seq<Seq<char>>
    decreases s.len(),
{
    if s.len() == 0 {
        seq![s]
    } else if s[0] == ' ' {
        seq![Seq::<char>::empty()] + spec_split_spaces(s.drop_first())
    } else {
        let r = spec_split_spaces(s.drop_first());
        seq![seq![s[0]] + r[0]] + r.drop_first()
    }
}

/// Splitting always yields at least one token.
pub proof fn lemma_split_spaces_len(s: Seq<char>)
    ensures
        spec_split_spaces(s).len() >= 1,
    decreases s.len(),
{
    if s.len() != 0 {
        lemma_split_spaces_len(s.drop_first());
    }
}

/// When the first space of `s` stands at `k`, the split is the part before
/// `k` followed by the split of the part after `k`.
pub proof fn lemma_split_at_first_space(s: Seq<char>, k: int)
    requires
        0 <= k < s.len(),
        s[k] == ' ',
        forall|j: int| 0 <= j < k ==> s[j] != ' ',
    ensures
        spec_split_spaces(s) == seq![s.subrange(0, k)] + spec_split_spaces(
            s.subrange(k + 1, s.len() as int),
        ),
    decreases s.len(),
{
    if k == 0 {
        assert(s.subrange(0, 0) =~= Seq::<char>::empty());
        assert(s.subrange(1, s.len() as int) =~= s.drop_first());
    } else {
        let t = s.drop_first();
        assert(t[k - 1] == ' ');
        assert(forall|j: int| 0 <= j < k - 1 ==> t[j] == s[j + 1] && s[j + 1] != ' ');
        lemma_split_at_first_space(t, k - 1);
        lemma_split_spaces_len(t.subrange(k, t.len() as int));
        let r = spec_split_spaces(t);
        assert(r[0] == t.subrange(0, k - 1));
        assert(seq![s[0]] + t.subrange(0, k - 1) =~= s.subrange(0, k));
        assert(t.subrange(k, t.len() as int) =~= s.subrange(k + 1, s.len() as int));
        assert(r.drop_first() =~= spec_split_spaces(s.subrange(k + 1, s.len() as int)));
        assert(spec_split_spaces(s) =~= seq![s.subrange(0, k)] + spec_split_spaces(
            s.subrange(k + 1, s.len() as int),
        ));
    }
}

/// A string without spaces splits into itself alone.
pub proof fn lemma_split_no_space(s: Seq<char>)
    requires
        forall|j: int| 0 <= j < s.len() ==> s[j] != ' ',
    ensures
        spec_split_spaces(s) == seq![s],
    decreases s.len(),
{
    if s.len() != 0 {
        lemma_split_no_space(s.drop_first());
        let r = spec_split_spaces(s.drop_first());
        assert(seq![s[0]] + r[0] =~= s);
        assert(spec_split_spaces(s) =~= seq![s]);
    }
}

/// Splits `s` on single spaces, like `str::split(' ')`.
pub fn split_spaces(s: &str) -> (r: Vec<String>)
    ensures
        r@.map_values(|t: String| t@) == spec_split_spaces(s@),
{
    let len = s.unicode_len();
    let mut out: Vec<String> = Vec::new();
    let mut start: usize = 0;
    let mut i: usize = 0;
    proof {
        assert(s@.subrange(0, s@.len() as int) =~= s@);
    }
    while i < len
        invariant
            start <= i <= len,
            len == s@.len(),
            forall|j: int| start <= j < i ==> s@[j] != ' ',
            out@.map_values(|t: String| t@) + spec_split_spaces(
                s@.subrange(start as int, s@.len() as int),
            ) =~= spec_split_spaces(s@),
        decreases len - i,
    {
        if s.get_char(i) == ' ' {
            let ghost old_views = out@.map_values(|t: String| t@);
            let ghost rest = s@.subrange(start as int, s@.len() as int);
            let tok = substring_copy(s, start, i);
            out.push(tok);
            proof {
                assert(rest[i - start] == ' ');
                assert(forall|j: int| 0 <= j < i - start ==> rest[j] == s@[start + j]);
                lemma_split_at_first_space(rest, i - start);
                assert(rest.subrange(0, i - start) =~= s@.subrange(start as int, i as int));
                assert(rest.subrange(i - start + 1, rest.len() as int) =~= s@.subrange(
                    i + 1,
                    s@.len() as int,
                ));
                assert(out@.map_values(|t: String| t@) =~= old_views.push(tok@));
                assert(out@.map_values(|t: String| t@) + spec_split_spaces(
                    s@.subrange(i + 1, s@.len() as int),
                ) =~= spec_split_spaces(s@));
            }
            start = i + 1;
        }
        i += 1;
    }
    let ghost old_views = out@.map_values(|t: String| t@);
    let ghost rest = s@.subrange(start as int, s@.len() as int);
    let tok = substring_copy(s, start, len);
    out.push(tok);
    proof {
        assert(forall|j: int| 0 <= j < rest.len() ==> rest[j] == s@[start + j] && s@[start + j]
            != ' ');
        lemma_split_no_space(rest);
        assert(out@.map_values(|t: String| t@) =~= old_views.push(tok@));
        assert(out@.map_values(|t: String| t@) =~= spec_split_spaces(s@));
    }
    out
}

/// Whether some element of `v` equals `needle`, character-wise.
pub fn contains_str(v: &Vec<String>, needle: &str) -> (r: bool)
    ensures
        r == v@.map_values(|t: String| t@).contains(needle@),
{
    let ghost views = v@.map_values(|t: String| t@);
    let mut i: usize = 0;
    while i < v.len()
        invariant
            i <= v@.len(),
            views == v@.map_values(|t: String| t@),
            forall|j: int| 0 <= j < i ==> views[j] != needle@,
        decreases v@.len() - i,
    {
        if eq_str(v[i].as_str(), needle) {
            assert(views[i as int] == needle@);
            return true;
        }
        i += 1;
    }
    assert(!views.contains(needle@));
    false
}

} // verus!
