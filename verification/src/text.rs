//! Verified text utilities over character sequences: substring search from
//! either end, whitespace trimming, space replacement and splitting on a
//! separator, each with an exact specification.

use vstd::prelude::*;

verus! {

/// The pattern `pat` occurs in `s` starting at character position `i`.
pub open spec fn match_at(s: Seq<char>, pat: Seq<char>, i: int) -> bool {
    &&& 0 <= i
    &&& i + pat.len() <= s.len()
    &&& s.subrange(i, i + pat.len() as int) == pat
}

/// Position of the first occurrence of `pat` in `s` at or after `i`.
pub open spec fn find_from(s: Seq<char>, pat: Seq<char>, i: int) -> Option<int>
    decreases s.len() - i,
{
    if pat.len() <= 0 || i < 0 || i + pat.len() > s.len() {
        None
    } else if match_at(s, pat, i) {
        Some(i)
    } else {
        find_from(s, pat, i + 1)
    }
}

/// Position of the first occurrence of `pat` in `s`.
pub open spec fn find(s: Seq<char>, pat: Seq<char>) -> Option<int> {
    find_from(s, pat, 0)
}

/// Position of the last occurrence of `pat` in `s` at or before `i`.
pub open spec fn rfind_from(s: Seq<char>, pat: Seq<char>, i: int) -> Option<int>
    decreases i + 1,
{
    if pat.len() <= 0 || i < 0 {
        None
    } else if match_at(s, pat, i) {
        Some(i)
    } else {
        rfind_from(s, pat, i - 1)
    }
}

/// Position of the last occurrence of `pat` in `s`.
pub open spec fn rfind(s: Seq<char>, pat: Seq<char>) -> Option<int> {
    rfind_from(s, pat, s.len() - pat.len())
}

/// `find_from` returns the first match at or after `i`, and `None` only when
/// there is no match there at all.
pub proof fn lemma_find_from(s: Seq<char>, pat: Seq<char>, i: int)
    requires
        0 <= i,
        pat.len() > 0,
    ensures
        match find_from(s, pat, i) {
            Some(k) => i <= k && match_at(s, pat, k) && (forall|j: int|
                i <= j < k ==> !match_at(s, pat, j)),
            None => forall|j: int| i <= j ==> !match_at(s, pat, j),
        },
    decreases s.len() - i,
{
    if i + pat.len() > s.len() {
    } else if match_at(s, pat, i) {
    } else {
        lemma_find_from(s, pat, i + 1);
    }
}

/// `rfind_from` returns the last match at or before `i`, and `None` only when
/// there is no match there at all.
pub proof fn lemma_rfind_from(s: Seq<char>, pat: Seq<char>, i: int)
    requires
        pat.len() > 0,
    ensures
        match rfind_from(s, pat, i) {
            Some(k) => 0 <= k <= i && match_at(s, pat, k) && (forall|j: int|
                k < j <= i ==> !match_at(s, pat, j)),
            None => forall|j: int| j <= i ==> !match_at(s, pat, j),
        },
    decreases i + 1,
{
    if i < 0 {
    } else if match_at(s, pat, i) {
    } else {
        lemma_rfind_from(s, pat, i - 1);
    }
}

/// `rfind` returns the last match in `s`, and `None` only when `pat` does not
/// occur in `s` at all.
pub proof fn lemma_rfind(s: Seq<char>, pat: Seq<char>)
    requires
        pat.len() > 0,
    ensures
        match rfind(s, pat) {
            Some(k) => 0 <= k && k + pat.len() <= s.len() && match_at(s, pat, k) && (forall|j: int|
                k < j ==> !match_at(s, pat, j)),
            None => forall|j: int| !match_at(s, pat, j),
        },
{
    lemma_rfind_from(s, pat, s.len() - pat.len());
    assert(forall|j: int| j > s.len() - pat.len() ==> !match_at(s, pat, j));
}

/// Whether the pattern occurs in `s` starting at character position `i`.
pub fn eq_at(s: &str, pat: &str, i: usize) -> (r: bool)
    requires
        i + pat@.len() <= s@.len(),
        s@.len() <= usize::MAX,
    ensures
        r == match_at(s@, pat@, i as int),
{
    let n = pat.unicode_len();
    let mut j: usize = 0;
    while j < n
        invariant
            n == pat@.len(),
            i + n <= s@.len() <= usize::MAX,
            j <= n,
            forall|k: int| 0 <= k < j ==> s@[i + k] == pat@[k],
        decreases n - j,
    {
        if s.get_char(i + j) != pat.get_char(j) {
            proof {
                assert(s@.subrange(i as int, i + pat@.len() as int) != pat@) by {
                    assert(s@.subrange(i as int, i + pat@.len() as int)[j as int] == s@[i + j]);
                }
            }
            return false;
        }
        j += 1;
    }
    proof {
        assert(s@.subrange(i as int, i + pat@.len() as int) =~= pat@);
    }
    true
}

/// First occurrence of `pat` in `s` at or after `from`.
pub fn find_from_exec(s: &str, pat: &str, from: usize) -> (r: Option<usize>)
    requires
        pat@.len() > 0,
    ensures
        match r {
            Some(k) => find_from(s@, pat@, from as int) == Some(k as int),
            None => find_from(s@, pat@, from as int) is None,
        },
{
    let n = s.unicode_len();
    let m = pat.unicode_len();
    if from > n || m > n - from {
        return None;
    }
    let mut i = from;
    while i <= n - m
        invariant
            n == s@.len() <= usize::MAX,
            m == pat@.len() > 0,
            m <= n,
            from <= i <= n,
            find_from(s@, pat@, from as int) == find_from(s@, pat@, i as int),
        decreases n - i,
    {
        if eq_at(s, pat, i) {
            return Some(i);
        }
        i += 1;
    }
    None
}

/// Last occurrence of `pat` in `s`.
pub fn rfind_exec(s: &str, pat: &str) -> (r: Option<usize>)
    requires
        pat@.len() > 0,
    ensures
        match r {
            Some(k) => rfind(s@, pat@) == Some(k as int),
            None => rfind(s@, pat@) is None,
        },
{
    let n = s.unicode_len();
    let m = pat.unicode_len();
    if m > n {
        return None;
    }
    let mut i = n - m;
    loop
        invariant
            n == s@.len() <= usize::MAX,
            m == pat@.len() > 0,
            m <= n,
            i <= n - m,
            rfind(s@, pat@) == rfind_from(s@, pat@, i as int),
        decreases i,
    {
        if eq_at(s, pat, i) {
            return Some(i);
        }
        if i == 0 {
            proof {
                assert(rfind_from(s@, pat@, -1) is None);
            }
            return None;
        }
        i -= 1;
    }
}

/// The characters that Rust's `str::trim` removes: the Unicode `White_Space`
/// property.
pub open spec fn is_space_char(c: char) -> bool {
    ||| c == '\u{0009}'
    ||| c == '\u{000A}'
    ||| c == '\u{000B}'
    ||| c == '\u{000C}'
    ||| c == '\u{000D}'
    ||| c == '\u{0020}'
    ||| c == '\u{0085}'
    ||| c == '\u{00A0}'
    ||| c == '\u{1680}'
    ||| c == '\u{2000}'
    ||| c == '\u{2001}'
    ||| c == '\u{2002}'
    ||| c == '\u{2003}'
    ||| c == '\u{2004}'
    ||| c == '\u{2005}'
    ||| c == '\u{2006}'
    ||| c == '\u{2007}'
    ||| c == '\u{2008}'
    ||| c == '\u{2009}'
    ||| c == '\u{200A}'
    ||| c == '\u{2028}'
    ||| c == '\u{2029}'
    ||| c == '\u{202F}'
    ||| c == '\u{205F}'
    ||| c == '\u{3000}'
}

/// Whether `c` has the Unicode `White_Space` property.
pub fn is_space(c: char) -> (r: bool)
    ensures
        r == is_space_char(c),
{
    c == '\u{0009}' || c == '\u{000A}' || c == '\u{000B}' || c == '\u{000C}' || c == '\u{000D}'
        || c == '\u{0020}' || c == '\u{0085}' || c == '\u{00A0}' || c == '\u{1680}'
        || c == '\u{2000}' || c == '\u{2001}' || c == '\u{2002}' || c == '\u{2003}'
        || c == '\u{2004}' || c == '\u{2005}' || c == '\u{2006}' || c == '\u{2007}'
        || c == '\u{2008}' || c == '\u{2009}' || c == '\u{200A}' || c == '\u{2028}'
        || c == '\u{2029}' || c == '\u{202F}' || c == '\u{205F}' || c == '\u{3000}'
}

/// `s` without its leading whitespace.
pub open spec fn trim_start_spec(s: Seq<char>) -> Seq<char>
    decreases s.len(),
{
    if s.len() > 0 && is_space_char(s[0]) {
        trim_start_spec(s.drop_first())
    } else {
        s
    }
}

/// `s` without its trailing whitespace.
pub open spec fn trim_end_spec(s: Seq<char>) -> Seq<char>
    decreases s.len(),
{
    if s.len() > 0 && is_space_char(s.last()) {
        trim_end_spec(s.drop_last())
    } else {
        s
    }
}

/// `s` without its leading and trailing whitespace, as `str::trim` leaves it.
pub open spec fn trim_spec(s: Seq<char>) -> Seq<char> {
    trim_end_spec(trim_start_spec(s))
}

/// The slice of `s` with leading and trailing whitespace removed.
pub fn trim<'a>(s: &'a str) -> (r: &'a str)
    ensures
        r@ == trim_spec(s@),
{
    let n = s.unicode_len();
    proof {
        assert(s@.skip(0) =~= s@);
    }
    let mut a: usize = 0;
    while a < n
        invariant
            n == s@.len() <= usize::MAX,
            a <= n,
            trim_start_spec(s@) == trim_start_spec(s@.skip(a as int)),
        ensures
            a <= n,
            trim_start_spec(s@) == trim_start_spec(s@.skip(a as int)),
            a == n || !is_space_char(s@[a as int]),
        decreases n - a,
    {
        let c = s.get_char(a);
        if !is_space(c) {
            break;
        }
        proof {
            assert(s@.skip(a as int).drop_first() =~= s@.skip(a + 1));
        }
        a += 1;
    }
    proof {
        if a == n {
            assert(s@.skip(a as int) =~= Seq::<char>::empty());
        } else {
            assert(s@.skip(a as int)[0] == s@[a as int]);
        }
        assert(trim_start_spec(s@) == s@.skip(a as int));
    }
    let mut b: usize = n;
    while b > a
        invariant
            n == s@.len() <= usize::MAX,
            a <= b <= n,
            trim_end_spec(s@.skip(a as int)) == trim_end_spec(s@.subrange(a as int, b as int)),
        ensures
            a <= b <= n,
            trim_end_spec(s@.skip(a as int)) == trim_end_spec(s@.subrange(a as int, b as int)),
            b == a || !is_space_char(s@[b - 1]),
        decreases b,
    {
        let c = s.get_char(b - 1);
        if !is_space(c) {
            break;
        }
        proof {
            assert(s@.subrange(a as int, b as int).last() == s@[b - 1]);
            assert(s@.subrange(a as int, b as int).drop_last() =~= s@.subrange(a as int, b - 1));
        }
        b -= 1;
    }
    proof {
        if b == a {
            assert(s@.subrange(a as int, b as int) =~= Seq::<char>::empty());
        } else {
            assert(s@.subrange(a as int, b as int).last() == s@[b - 1]);
        }
        assert(trim_end_spec(s@.subrange(a as int, b as int)) == s@.subrange(a as int, b as int));
    }
    s.substring_char(a, b)
}

/// Relies on `String::push`: appends exactly the one character.
#[verifier::external_body]
pub fn push_char(s: &mut String, c: char)
    ensures
        final(s)@ == old(s)@.push(c),
{
    s.push(c)
}

/// Every occurrence of `from` replaced by `to`, all other characters kept.
pub open spec fn replace_char_spec(s: Seq<char>, from: char, to: char) -> Seq<char> {
    s.map_values(|c: char| if c == from { to } else { c })
}

/// Copy of `s` with every occurrence of `from` replaced by `to`, as
/// `str::replace` returns it for one-character patterns.
pub fn replace_char(s: &str, from: char, to: char) -> (r: String)
    ensures
        r@ == replace_char_spec(s@, from, to),
{
    let n = s.unicode_len();
    let mut out = String::new();
    let mut i: usize = 0;
    while i < n
        invariant
            n == s@.len() <= usize::MAX,
            i <= n,
            out@ == replace_char_spec(s@.take(i as int), from, to),
        decreases n - i,
    {
        let c = s.get_char(i);
        if c == from {
            push_char(&mut out, to);
        } else {
            push_char(&mut out, c);
        }
        proof {
            assert(replace_char_spec(s@.take(i + 1), from, to) =~= replace_char_spec(
                s@.take(i as int),
                from,
                to,
            ).push(if s@[i as int] == from { to } else { s@[i as int] }));
        }
        i += 1;
    }
    proof {
        assert(s@.take(n as int) =~= s@);
    }
    out
}

/// Every space replaced by an underscore, all other characters kept.
pub open spec fn underscore_spaces(s: Seq<char>) -> Seq<char> {
    replace_char_spec(s, ' ', '_')
}

/// Copy of `s` with every space replaced by an underscore, as
/// `str::replace(' ', "_")` returns it.
pub fn replace_spaces(s: &str) -> (r: String)
    ensures
        r@ == underscore_spaces(s@),
{
    replace_char(s, ' ', '_')
}

/// The pieces of `s` from position `start` on, split at each occurrence of
/// `pat`, scanning left to right.
pub open spec fn split_from(s: Seq<char>, pat: Seq<char>, start: int) -> Seq<Seq<char>>
    decreases s.len() - start,
        when pat.len() > 0 && 0 <= start <= s.len()
        via split_from_dec
{
    match find_from(s, pat, start) {
        None => seq![s.subrange(start, s.len() as int)],
        Some(i) => seq![s.subrange(start, i)] + split_from(s, pat, i + pat.len()),
    }
}

#[via_fn]
proof fn split_from_dec(s: Seq<char>, pat: Seq<char>, start: int) {
    if pat.len() > 0 && 0 <= start <= s.len() {
        if let Some(i) = find_from(s, pat, start) {
            lemma_find_from(s, pat, start);
        }
    }
}

/// What `str::split` returns on `s` and `pat`.
pub open spec fn split_spec(s: Seq<char>, pat: Seq<char>) -> Seq<Seq<char>> {
    split_from(s, pat, 0)
}

/// What `str::split_terminator` returns: as `split_spec`, but a final empty
/// piece is dropped.
pub open spec fn split_terminator_spec(s: Seq<char>, pat: Seq<char>) -> Seq<Seq<char>> {
    let p = split_spec(s, pat);
    if p.len() > 0 && p.last().len() == 0 {
        p.drop_last()
    } else {
        p
    }
}

/// The pieces of `s` between occurrences of `pat`, a trailing empty piece
/// dropped.
pub fn split_terminator_exec(s: &str, pat: &str) -> (r: Vec<String>)
    requires
        pat@.len() > 0,
    ensures
        r.deep_view() == split_terminator_spec(s@, pat@),
{
    let n = s.unicode_len();
    let m = pat.unicode_len();
    let mut out: Vec<String> = Vec::new();
    let mut start: usize = 0;
    proof {
        assert(out.deep_view() + split_from(s@, pat@, 0) =~= split_from(s@, pat@, 0));
    }
    loop
        invariant_except_break
            split_spec(s@, pat@) == out.deep_view() + split_from(s@, pat@, start as int),
        invariant
            n == s@.len() <= usize::MAX,
            m == pat@.len() > 0,
            start <= n,
        ensures
            out.deep_view() == split_spec(s@, pat@),
        decreases n - start,
    {
        let ghost done = out.deep_view();
        match find_from_exec(s, pat, start) {
            Some(i) => {
                proof {
                    lemma_find_from(s@, pat@, start as int);
                }
                let piece = s.substring_char(start, i);
                out.push(String::from_str(piece));
                proof {
                    assert(out.deep_view() =~= done.push(s@.subrange(start as int, i as int)));
                    assert(done + split_from(s@, pat@, start as int) =~= out.deep_view()
                        + split_from(s@, pat@, i + m));
                }
                start = i + m;
            },
            None => {
                let piece = s.substring_char(start, n);
                out.push(String::from_str(piece));
                proof {
                    assert(out.deep_view() =~= done.push(s@.subrange(start as int, n as int)));
                    assert(done + split_from(s@, pat@, start as int) =~= out.deep_view());
                }
                break;
            },
        }
    }
    if out.len() > 0 {
        let last_len = out[out.len() - 1].as_str().unicode_len();
        if last_len == 0 {
            let ghost done = out.deep_view();
            out.pop();
            proof {
                assert(out.deep_view() =~= done.drop_last());
            }
        }
    }
    out
}

} // verus!
