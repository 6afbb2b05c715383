//! Verified text utilities: substring containment, ASCII-case-insensitive
//! containment, and repeated prefix stripping, the primitives the error
//! taxonomy's keyword inspection is built on.

use vstd::prelude::*;

verus! {

/// The pattern occurs in `s` starting at position `i`.
pub open spec fn matches_at(s: Seq<char>, pat: Seq<char>, i: int) -> bool {
    &&& 0 <= i
    &&& i + pat.len() <= s.len()
    &&& forall|k: int| 0 <= k < pat.len() ==> s[i + k] == pat[k]
}

/// The pattern occurs somewhere in `s`.
pub open spec fn contains_seq(s: Seq<char>, pat: Seq<char>) -> bool {
    exists|i: int| matches_at(s, pat, i)
}

/// A capital ASCII letter mapped to its small form; any other character
/// kept as it is.
pub open spec fn lower_char(c: char) -> char {
    if 'A' <= c && c <= 'Z' {
        ((c as u8) + 32) as char
    } else {
        c
    }
}

/// The whole text mapped through `lower_char`.
pub open spec fn lower_seq(s: Seq<char>) -> Seq<char> {
    s.map_values(|c: char| lower_char(c))
}

/// `s` with every copy of the non-empty prefix `pat` removed from its
/// front, one after the other.
pub open spec fn strip_all_spec(s: Seq<char>, pat: Seq<char>) -> Seq<char>
    decreases s.len(),
{
    if pat.len() > 0 && matches_at(s, pat, 0) {
        strip_all_spec(s.skip(pat.len() as int), pat)
    } else {
        s
    }
}

fn lower_char_exec(c: char) -> (r: char)
    ensures
        r == lower_char(c),
{
    if 'A' <= c && c <= 'Z' {
        ((c as u8) + 32) as char
    } else {
        c
    }
}

/// Whether the text holds a given character.
pub open spec fn has_char(s: Seq<char>, c: char) -> bool {
    exists|i: int| 0 <= i < s.len() && s[i] == c
}

/// Scanning one more character extends what a prefix holds by exactly that
/// character.
pub proof fn lemma_has_char_step(s: Seq<char>, i: int, c: char)
    requires
        0 <= i < s.len(),
    ensures
        has_char(s.take(i + 1), c) == (has_char(s.take(i), c) || s[i] == c),
{
    if has_char(s.take(i + 1), c) {
        let j = choose|j: int| 0 <= j < s.take(i + 1).len() && #[trigger] s.take(i + 1)[j] == c;
        if j < i {
            assert(s.take(i)[j] == c);
        }
    }
    if has_char(s.take(i), c) {
        let j = choose|j: int| 0 <= j < s.take(i).len() && #[trigger] s.take(i)[j] == c;
        assert(s.take(i + 1)[j] == c);
    }
    if s[i] == c {
        assert(s.take(i + 1)[i] == c);
    }
}

/// Whether a path argument is a glob pattern rather than a plain path: it
/// holds one of the pattern metacharacters.
pub fn is_glob_pattern(s: &str) -> (r: bool)
    ensures
        r == (has_char(s@, '*') || has_char(s@, '?') || has_char(s@, '[')),
{
    let len = s.unicode_len();
    let mut found = false;
    let mut i: usize = 0;
    while i < len
        invariant
            i <= len,
            len == s@.len(),
            found == (has_char(s@.take(i as int), '*') || has_char(s@.take(i as int), '?')
                || has_char(s@.take(i as int), '[')),
        decreases len - i,
    {
        let c = s.get_char(i);
        proof {
            lemma_has_char_step(s@, i as int, '*');
            lemma_has_char_step(s@, i as int, '?');
            lemma_has_char_step(s@, i as int, '[');
        }
        if c == '*' || c == '?' || c == '[' {
            found = true;
        }
        i = i + 1;
    }
    proof {
        assert(s@.take(len as int) =~= s@);
    }
    found
}

/// Relies on `String::push`: appends exactly the one character.
#[verifier::external_body]
pub fn push_char(s: &mut String, c: char)
    ensures
        final(s)@ == old(s)@.push(c),
{
    s.push(c);
}

/// The text with every capital ASCII letter mapped to its small form.
pub fn ascii_lowercase(s: &str) -> (r: String)
    ensures
        r@ == lower_seq(s@),
{
    let len = s.unicode_len();
    let mut r = String::new();
    let mut i: usize = 0;
    while i < len
        invariant
            i <= len,
            len == s@.len(),
            r@ == lower_seq(s@).take(i as int),
        decreases len - i,
    {
        let c = lower_char_exec(s.get_char(i));
        push_char(&mut r, c);
        proof {
            assert(r@ =~= lower_seq(s@).take(i + 1));
        }
        i = i + 1;
    }
    proof {
        assert(lower_seq(s@).take(len as int) =~= lower_seq(s@));
    }
    r
}

/// Whether two strings hold the same characters.
pub fn str_eq(a: &str, b: &str) -> (r: bool)
    ensures
        r == (a@ == b@),
{
    let alen = a.unicode_len();
    let blen = b.unicode_len();
    if alen != blen {
        assert(a@ != b@);
        return false;
    }
    let mut i: usize = 0;
    while i < alen
        invariant
            i <= alen,
            alen == a@.len(),
            alen == b@.len(),
            forall|k: int| 0 <= k < i ==> a@[k] == b@[k],
        decreases alen - i,
    {
        if a.get_char(i) != b.get_char(i) {
            assert(a@ != b@);
            return false;
        }
        i = i + 1;
    }
    assert(a@ =~= b@);
    true
}

fn match_here(s: &str, pat: &str, at: usize, ci: bool) -> (r: bool)
    requires
        at + pat@.len() <= s@.len(),
        s@.len() <= usize::MAX,
    ensures
        ci ==> r == matches_at(lower_seq(s@), pat@, at as int),
        !ci ==> r == matches_at(s@, pat@, at as int),
{
    let plen = pat.unicode_len();
    let mut k: usize = 0;
    while k < plen
        invariant
            k <= plen,
            plen == pat@.len(),
            at + plen <= s@.len(),
            s@.len() <= usize::MAX,
            ci ==> forall|j: int| 0 <= j < k ==> lower_seq(s@)[at + j] == pat@[j],
            !ci ==> forall|j: int| 0 <= j < k ==> s@[at + j] == pat@[j],
        decreases plen - k,
    {
        let sc = s.get_char(at + k);
        let sc = if ci {
            lower_char_exec(sc)
        } else {
            sc
        };
        if sc != pat.get_char(k) {
            return false;
        }
        k = k + 1;
    }
    true
}

fn contains_impl(s: &str, pat: &str, ci: bool) -> (r: bool)
    ensures
        ci ==> r == contains_seq(lower_seq(s@), pat@),
        !ci ==> r == contains_seq(s@, pat@),
{
    let slen = s.unicode_len();
    let plen = pat.unicode_len();
    if plen > slen {
        assert(forall|i: int| !matches_at(s@, pat@, i));
        assert(forall|i: int| !matches_at(lower_seq(s@), pat@, i));
        return false;
    }
    let last = slen - plen;
    let mut i: usize = 0;
    loop
        invariant_except_break
            i <= last + 1,
            last == slen - plen,
            slen == s@.len(),
            plen == pat@.len(),
            ci ==> forall|j: int| 0 <= j < i ==> !matches_at(lower_seq(s@), pat@, j),
            !ci ==> forall|j: int| 0 <= j < i ==> !matches_at(s@, pat@, j),
        ensures
            ci ==> (i <= last + 1 && ((i <= last && matches_at(lower_seq(s@), pat@, i as int))
                || (i == last + 1 && forall|j: int| 0 <= j < i ==> !matches_at(
                lower_seq(s@),
                pat@,
                j,
            )))),
            !ci ==> (i <= last + 1 && ((i <= last && matches_at(s@, pat@, i as int)) || (i == last
                + 1 && forall|j: int| 0 <= j < i ==> !matches_at(s@, pat@, j)))),
        decreases last + 1 - i,
    {
        if i > last {
            break ;
        }
        if match_here(s, pat, i, ci) {
            break ;
        }
        i = i + 1;
    }
    if i <= last {
        true
    } else {
        proof {
            if ci {
                assert(forall|j: int| j > last ==> !matches_at(lower_seq(s@), pat@, j));
            } else {
                assert(forall|j: int| j > last ==> !matches_at(s@, pat@, j));
            }
        }
        false
    }
}

/// Whether the pattern occurs in the text, character for character.
pub fn str_contains(s: &str, pat: &str) -> (r: bool)
    ensures
        r == contains_seq(s@, pat@),
{
    contains_impl(s, pat, false)
}

/// Whether the pattern, given in small letters, occurs in the text read
/// without regard to ASCII letter case.
pub fn str_contains_ci(s: &str, pat: &str) -> (r: bool)
    ensures
        r == contains_seq(lower_seq(s@), pat@),
{
    contains_impl(s, pat, true)
}

/// The text with every copy of the non-empty prefix removed from its
/// front, one after the other.
pub fn strip_prefix_all<'a>(s: &'a str, pat: &str) -> (r: &'a str)
    ensures
        r@ == strip_all_spec(s@, pat@),
{
    let plen = pat.unicode_len();
    if plen == 0 {
        return s;
    }
    let mut cur: &str = s;
    loop
        invariant_except_break
            plen == pat@.len(),
            plen > 0,
            strip_all_spec(cur@, pat@) == strip_all_spec(s@, pat@),
        ensures
            cur@ == strip_all_spec(s@, pat@),
        decreases cur@.len(),
    {
        let clen = cur.unicode_len();
        if plen > clen {
            assert(!matches_at(cur@, pat@, 0));
            break ;
        }
        if !match_here(cur, pat, 0, false) {
            break ;
        }
        let next = cur.substring_char(plen, clen);
        proof {
            assert(next@ =~= cur@.skip(plen as int));
        }
        cur = next;
    }
    cur
}

} // verus!
