use vstd::prelude::*;
use vstd::string::StrSliceExecFns;

verus! {

/// Whether `part` occurs in `s` as a run of consecutive characters.
pub open spec fn has_infix(s: Seq<char>, part: Seq<char>) -> bool {
    exists|i: int| 0 <= i && i + part.len() <= s.len() && #[trigger] s.subrange(i, i + part.len()) == part
}

/// The word by which the sign-in redirect reports a refusal.
pub open spec fn error_marker() -> Seq<char> {
    seq!['e', 'r', 'r', 'o', 'r']
}

/// Where the sign-in redirect pointed, as the client reads it back: `head`
/// followed by `path` forms a URL whose query carries the code.
#[derive(Clone, Debug, PartialEq, Eq)]
pub struct CallbackTarget {
    /// The request's fourth word: the name of the "Host:" header, which
    /// reads as the URL's scheme.
    pub head: String,
    /// The request's path with its query.
    pub path: String,
}

/// Whether `part` occurs in `s` at character position `i`.
fn occurs_at(s: &str, part: &str, i: usize) -> (r: bool)
    requires
        i + part@.len() <= s@.len() <= usize::MAX,
    ensures
        r == (s@.subrange(i as int, i + part@.len()) == part@),
{
    let m = part.unicode_len();
    let mut j: usize = 0;
    while j < m
        invariant
            m == part@.len(),
            i + m <= s@.len() <= usize::MAX,
            j <= m,
            forall|k: int| 0 <= k < j ==> s@[i + k] == part@[k],
        decreases m - j,
    {
        if s.get_char(i + j) != part.get_char(j) {
            assert(s@.subrange(i as int, i + m)[j as int] != part@[j as int]);
            return false;
        }
        j = j + 1;
    }
    assert(s@.subrange(i as int, i + m) =~= part@);
    true
}

/// Whether `part` occurs anywhere in `s`.
pub fn contains_text(s: &str, part: &str) -> (r: bool)
    ensures
        r == has_infix(s@, part@),
{
    let n = s.unicode_len();
    let m = part.unicode_len();
    if m > n {
        return false;
    }
    if m == 0 {
        assert(s@.subrange(0, 0 + part@.len() as int) =~= part@);
        return true;
    }
    let mut i: usize = 0;
    while i <= n - m
        invariant
            n == s@.len(),
            m == part@.len(),
            1 <= m <= n,
            i <= n - m + 1,
            forall|k: int| 0 <= k < i ==> #[trigger] s@.subrange(k, k + m) != part@,
        decreases n - m + 1 - i,
    {
        if occurs_at(s, part, i) {
            return true;
        }
        i = i + 1;
    }
    false
}

/// Reads the request that the sign-in page redirected to, split into its
/// whitespace-separated words (method, path, protocol, "Host:", host, ...).
/// The redirect is taken where there are more than three words and the
/// path does not report an error; the target is then the fourth word
/// followed by the second.
pub fn callback_target(words: &Vec<String>) -> (r: Option<CallbackTarget>)
    ensures
        r is Some <==> words@.len() > 3 && !has_infix(words@[1]@, error_marker()),
        r is Some ==> r->0.head == words@[3] && r->0.path == words@[1],
{
    if words.len() <= 3 {
        return None;
    }
    let marker = "error";
    proof {
        reveal_strlit("error");
        assert(marker@ =~= error_marker());
    }
    if contains_text(words[1].as_str(), marker) {
        return None;
    }
    Some(CallbackTarget { head: words[3].clone(), path: words[1].clone() })
}

} // verus!
