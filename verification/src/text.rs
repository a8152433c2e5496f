//! Replacement of substrings, as `str::replace` does it.
use vstd::prelude::*;

verus! {

/// `s` with every occurrence of `pat` replaced by `rep`, the occurrences taken left to right
/// without overlap. An empty pattern matches before every character and at the end.
pub open spec fn replaced(s: Seq<char>, pat: Seq<char>, rep: Seq<char>) -> Seq<char>
    decreases s.len(),
{
    if pat.len() == 0 {
        if s.len() == 0 {
            rep
        } else {
            rep + seq![s[0]] + replaced(s.drop_first(), pat, rep)
        }
    } else if s.len() < pat.len() {
        s
    } else if s.subrange(0, pat.len() as int) == pat {
        rep + replaced(s.skip(pat.len() as int), pat, rep)
    } else {
        seq![s[0]] + replaced(s.drop_first(), pat, rep)
    }
}

/// Whether `pat` occurs in `s` at some position.
pub open spec fn occurs_in(pat: Seq<char>, s: Seq<char>) -> bool {
    exists|i: int| 0 <= i && i + pat.len() <= s.len() && #[trigger] s.subrange(i, i + pat.len()) == pat
}

/// Replacing a non-empty pattern that does not occur leaves a string as it is.
pub proof fn lemma_replaced_absent(s: Seq<char>, pat: Seq<char>, rep: Seq<char>)
    requires
        pat.len() > 0,
        !occurs_in(pat, s),
    ensures
        replaced(s, pat, rep) == s,
    decreases s.len(),
{
    if s.len() < pat.len() {
    } else {
        assert(s.subrange(0, pat.len() as int) != pat) by {
            if s.subrange(0, pat.len() as int) == pat {
                let j: int = 0;
                assert(s.subrange(j, j + pat.len()) == pat);
                assert(occurs_in(pat, s));
            }
        }
        let t = s.drop_first();
        assert(!occurs_in(pat, t)) by {
            if occurs_in(pat, t) {
                let i = choose|i: int|
                    0 <= i && i + pat.len() <= t.len() && #[trigger] t.subrange(i, i + pat.len())
                        == pat;
                let j = i + 1;
                assert(s.subrange(j, j + pat.len()) =~= t.subrange(i, i + pat.len()));
                assert(s.subrange(j, j + pat.len()) == pat);
                assert(occurs_in(pat, s));
            }
        }
        lemma_replaced_absent(t, pat, rep);
        assert(seq![s[0]] + t =~= s);
    }
}

/// `rust_string_utils::replace`, which hands its arguments to `str::replace`: the text with
/// each occurrence of `search` replaced by `replacement`, left to right without overlap.
#[verifier::external_body]
pub(crate) fn replace(text: &String, search: &String, replacement: &String) -> (r: String)
    ensures
        r@ == replaced(text@, search@, replacement@),
{
    rust_string_utils::replace(text, search, replacement)
}

/// `str::replace` with a character as the pattern: the text with each occurrence of `from`
/// replaced by `to`.
#[verifier::external_body]
pub(crate) fn replace_char(text: &str, from: char, to: &str) -> (r: String)
    ensures
        r@ == replaced(text@, seq![from], to@),
{
    text.replace(from, to)
}

} // verus!
