//! The configuration parser: a fixed-order keyword grammar
//! `exact, ser = <path>, de = <path>, file = "<relative path>"`.
//! The two references are captured as opaque call targets; only the file
//! path's string literal is decoded.

use vstd::prelude::*;

use crate::diag::{Diag, SpecDiag};
use crate::text::{eq_at, is_space, is_space_char, match_at};

verus! {

/// Whether `c` may start an identifier.
pub open spec fn is_ident_start_char(c: char) -> bool {
    ('a' <= c && c <= 'z') || ('A' <= c && c <= 'Z') || c == '_'
}

/// Whether `c` may continue an identifier.
pub open spec fn is_ident_continue_char(c: char) -> bool {
    is_ident_start_char(c) || ('0' <= c && c <= '9')
}

/// Whether `c` may stand in a path reference: identifier characters and the
/// colons of path separators.
pub open spec fn is_ref_char(c: char) -> bool {
    is_ident_continue_char(c) || c == ':'
}

/// Whether `c` may continue an identifier.
pub fn is_ident_continue(c: char) -> (r: bool)
    ensures
        r == is_ident_continue_char(c),
{
    ('a' <= c && c <= 'z') || ('A' <= c && c <= 'Z') || c == '_' || ('0' <= c && c <= '9')
}

/// Whether `c` may stand in a path reference.
pub fn is_ref(c: char) -> (r: bool)
    ensures
        r == is_ref_char(c),
{
    is_ident_continue(c) || c == ':'
}

/// The first position at or after `i` holding no whitespace.
pub open spec fn skip_ws_spec(s: Seq<char>, i: int) -> int
    decreases s.len() - i,
        when 0 <= i <= s.len()
{
    if i < s.len() && is_space_char(s[i]) {
        skip_ws_spec(s, i + 1)
    } else {
        i
    }
}

/// The first position at or after `i` holding no whitespace.
pub fn skip_ws(s: &str, i: usize) -> (r: usize)
    requires
        i as int <= s@.len(),
    ensures
        r as int == skip_ws_spec(s@, i as int),
        i <= r && r as int <= s@.len(),
{
    let n = s.unicode_len();
    let mut j = i;
    while j < n
        invariant
            n == s@.len() <= usize::MAX,
            i <= j <= n,
            skip_ws_spec(s@, i as int) == skip_ws_spec(s@, j as int),
        ensures
            i <= j <= n,
            skip_ws_spec(s@, i as int) == skip_ws_spec(s@, j as int),
            j == n || !is_space_char(s@[j as int]),
        decreases n - j,
    {
        let c = s.get_char(j);
        if !is_space(c) {
            break;
        }
        j += 1;
    }
    j
}

/// The end of the maximal run of path-reference characters starting at `i`.
pub open spec fn scan_ref_spec(s: Seq<char>, i: int) -> int
    decreases s.len() - i,
        when 0 <= i <= s.len()
{
    if i < s.len() && is_ref_char(s[i]) {
        scan_ref_spec(s, i + 1)
    } else {
        i
    }
}

/// The end of the maximal run of path-reference characters starting at `i`.
pub fn scan_ref(s: &str, i: usize) -> (r: usize)
    requires
        i as int <= s@.len(),
    ensures
        r as int == scan_ref_spec(s@, i as int),
        i <= r && r as int <= s@.len(),
{
    let n = s.unicode_len();
    let mut j = i;
    while j < n
        invariant
            n == s@.len() <= usize::MAX,
            i <= j <= n,
            scan_ref_spec(s@, i as int) == scan_ref_spec(s@, j as int),
        ensures
            i <= j <= n,
            scan_ref_spec(s@, i as int) == scan_ref_spec(s@, j as int),
            j == n || !is_ref_char(s@[j as int]),
        decreases n - j,
    {
        let c = s.get_char(j);
        if !is_ref(c) {
            break;
        }
        j += 1;
    }
    j
}

/// The keyword `kw` stands at `i` as a whole token: matched there, and not
/// run into by a following identifier character.
pub open spec fn kw_at(s: Seq<char>, i: int, kw: Seq<char>) -> bool {
    match_at(s, kw, i) && (i + kw.len() == s.len() || !is_ident_continue_char(
        s[i + kw.len() as int],
    ))
}

/// Whether the keyword `kw` stands at `i` as a whole token.
pub fn kw_at_exec(s: &str, i: usize, kw: &str) -> (r: bool)
    requires
        i as int <= s@.len(),
    ensures
        r == kw_at(s@, i as int, kw@),
{
    let n = s.unicode_len();
    let m = kw.unicode_len();
    if m > n - i {
        return false;
    }
    if !eq_at(s, kw, i) {
        return false;
    }
    if i + m == n {
        true
    } else {
        !is_ident_continue(s.get_char(i + m))
    }
}

/// The character that the escape `\c` stands for, when `\c` is a supported
/// escape.
pub open spec fn unescape_spec(c: char) -> Option<char> {
    if c == 'n' {
        Some('\n')
    } else if c == 'r' {
        Some('\r')
    } else if c == 't' {
        Some('\t')
    } else if c == '\\' {
        Some('\\')
    } else if c == '"' {
        Some('"')
    } else if c == '\'' {
        Some('\'')
    } else if c == '0' {
        Some('\0')
    } else {
        None
    }
}

/// The character that the escape `\c` stands for.
pub fn unescape(c: char) -> (r: Option<char>)
    ensures
        r == unescape_spec(c),
{
    if c == 'n' {
        Some('\n')
    } else if c == 'r' {
        Some('\r')
    } else if c == 't' {
        Some('\t')
    } else if c == '\\' {
        Some('\\')
    } else if c == '"' {
        Some('"')
    } else if c == '\'' {
        Some('\'')
    } else if c == '0' {
        Some('\0')
    } else {
        None
    }
}

/// Decodes a double-quoted string-literal body beginning at `i` (just after
/// the opening quote): the decoded value and the position just after the
/// closing quote, or `None` for an unterminated literal or an unsupported
/// escape.
pub open spec fn scan_str_spec(s: Seq<char>, i: int) -> Option<(Seq<char>, int)>
    decreases s.len() - i,
        when 0 <= i <= s.len()
{
    if i >= s.len() {
        None
    } else if s[i] == '"' {
        Some((seq![], i + 1))
    } else if s[i] == '\\' {
        if i + 1 >= s.len() {
            None
        } else {
            match unescape_spec(s[i + 1]) {
                Option::None => None,
                Option::Some(u) => match scan_str_spec(s, i + 2) {
                    Option::None => None,
                    Option::Some((v, e)) => Some((seq![u] + v, e)),
                },
            }
        }
    } else {
        match scan_str_spec(s, i + 1) {
            Option::None => None,
            Option::Some((v, e)) => Some((seq![s[i]] + v, e)),
        }
    }
}

/// The end position of a successful string-literal scan lies within the
/// text.
pub proof fn lemma_scan_str_end(s: Seq<char>, i: int)
    requires
        0 <= i <= s.len(),
    ensures
        scan_str_spec(s, i) matches Some((v, e)) ==> i < e <= s.len(),
    decreases s.len() - i,
{
    if i < s.len() {
        lemma_scan_str_end(s, i + 1);
        if i + 2 <= s.len() {
            lemma_scan_str_end(s, i + 2);
        }
    }
}

/// Decodes a double-quoted string-literal body beginning at `start`.
pub fn scan_str(s: &str, start: usize) -> (r: Option<(String, usize)>)
    requires
        start as int <= s@.len(),
    ensures
        match r {
            Some(p) => scan_str_spec(s@, start as int) == Some((p.0@, p.1 as int)) && start < p.1
                && p.1 as int <= s@.len(),
            None => scan_str_spec(s@, start as int) is None,
        },
{
    let n = s.unicode_len();
    let mut out = String::new();
    let mut i = start;
    proof {
        lemma_scan_str_end(s@, start as int);
    }
    loop
        invariant
            n == s@.len() <= usize::MAX,
            start <= i <= n,
            match scan_str_spec(s@, i as int) {
                Some((v, e)) => scan_str_spec(s@, start as int) == Some((out@ + v, e)),
                None => scan_str_spec(s@, start as int) is None,
            },
        decreases n - i,
    {
        if i >= n {
            return None;
        }
        let c = s.get_char(i);
        if c == '"' {
            proof {
                assert(out@ + Seq::<char>::empty() =~= out@);
                lemma_scan_str_end(s@, start as int);
            }
            return Some((out, i + 1));
        } else if c == '\\' {
            if i + 1 >= n {
                return None;
            }
            let c2 = s.get_char(i + 1);
            match unescape(c2) {
                None => {
                    return None;
                },
                Some(u) => {
                    let ghost prev = out@;
                    crate::text::push_char(&mut out, u);
                    proof {
                        if let Some((v, e)) = scan_str_spec(s@, i + 2) {
                            assert(prev + (seq![u] + v) =~= out@ + v);
                        }
                    }
                    i += 2;
                },
            }
        } else {
            let ghost prev = out@;
            crate::text::push_char(&mut out, c);
            proof {
                if let Some((v, e)) = scan_str_spec(s@, i + 1) {
                    assert(prev + (seq![s@[i as int]] + v) =~= out@ + v);
                }
            }
            i += 1;
        }
    }
}

/// What parsing the configuration text yields.
pub enum ConfigParse {
    /// The grammar was met: the two captured references and the decoded file
    /// path.
    Parsed { ser: Seq<char>, de: Seq<char>, file: Seq<char> },
    /// The grammar was violated; the detail names the first expectation that
    /// failed.
    Rejected { detail: Seq<char> },
}

/// Parse of the configuration text: the literal keyword `exact`, then
/// `ser = <path>`, `de = <path>`, `file = "<string>"`, comma-separated, in
/// that fixed order, with nothing after.
pub open spec fn parse_config_spec(s: Seq<char>) -> ConfigParse {
    let i0 = skip_ws_spec(s, 0);
    if !kw_at(s, i0, "exact"@) {
        ConfigParse::Rejected { detail: "expected `exact`"@ }
    } else {
        let i1 = skip_ws_spec(s, i0 + 5);
        if !(i1 < s.len() && s[i1] == ',') {
            ConfigParse::Rejected { detail: "expected `,`"@ }
        } else {
            let i2 = skip_ws_spec(s, i1 + 1);
            if !kw_at(s, i2, "ser"@) {
                ConfigParse::Rejected { detail: "expected `ser`"@ }
            } else {
                let i3 = skip_ws_spec(s, i2 + 3);
                if !(i3 < s.len() && s[i3] == '=') {
                    ConfigParse::Rejected { detail: "expected `=`"@ }
                } else {
                    let i4 = skip_ws_spec(s, i3 + 1);
                    let e4 = scan_ref_spec(s, i4);
                    if e4 == i4 {
                        ConfigParse::Rejected { detail: "expected a path"@ }
                    } else {
                        parse_config_after_ser(s, s.subrange(i4, e4), e4)
                    }
                }
            }
        }
    }
}

/// Continuation of `parse_config_spec` after the serialize reference.
pub open spec fn parse_config_after_ser(s: Seq<char>, ser: Seq<char>, e4: int) -> ConfigParse
    recommends
        0 <= e4 <= s.len(),
{
    let i5 = skip_ws_spec(s, e4);
    if !(i5 < s.len() && s[i5] == ',') {
        ConfigParse::Rejected { detail: "expected `,`"@ }
    } else {
        let i6 = skip_ws_spec(s, i5 + 1);
        if !kw_at(s, i6, "de"@) {
            ConfigParse::Rejected { detail: "expected `de`"@ }
        } else {
            let i7 = skip_ws_spec(s, i6 + 2);
            if !(i7 < s.len() && s[i7] == '=') {
                ConfigParse::Rejected { detail: "expected `=`"@ }
            } else {
                let i8 = skip_ws_spec(s, i7 + 1);
                let e8 = scan_ref_spec(s, i8);
                if e8 == i8 {
                    ConfigParse::Rejected { detail: "expected a path"@ }
                } else {
                    parse_config_after_de(s, ser, s.subrange(i8, e8), e8)
                }
            }
        }
    }
}

/// Continuation of `parse_config_spec` after the deserialize reference.
pub open spec fn parse_config_after_de(
    s: Seq<char>,
    ser: Seq<char>,
    de: Seq<char>,
    e8: int,
) -> ConfigParse
    recommends
        0 <= e8 <= s.len(),
{
    let i9 = skip_ws_spec(s, e8);
    if !(i9 < s.len() && s[i9] == ',') {
        ConfigParse::Rejected { detail: "expected `,`"@ }
    } else {
        let i10 = skip_ws_spec(s, i9 + 1);
        if !kw_at(s, i10, "file"@) {
            ConfigParse::Rejected { detail: "expected `file`"@ }
        } else {
            let i11 = skip_ws_spec(s, i10 + 4);
            if !(i11 < s.len() && s[i11] == '=') {
                ConfigParse::Rejected { detail: "expected `=`"@ }
            } else {
                let i12 = skip_ws_spec(s, i11 + 1);
                if !(i12 < s.len() && s[i12] == '"') {
                    ConfigParse::Rejected { detail: "expected a string literal"@ }
                } else {
                    match scan_str_spec(s, i12 + 1) {
                        Option::None => ConfigParse::Rejected {
                            detail: "malformed string literal"@,
                        },
                        Option::Some((v, e)) => {
                            if skip_ws_spec(s, e) != s.len() {
                                ConfigParse::Rejected { detail: "unexpected trailing tokens"@ }
                            } else {
                                ConfigParse::Parsed { ser, de, file: v }
                            }
                        },
                    }
                }
            }
        }
    }
}

/// The caller-supplied configuration: the two normalization references,
/// captured as opaque call targets, and the fixture file's relative path.
#[derive(Debug)]
pub struct Config {
    /// The serialize reference's text.
    pub ser: String,
    /// The deserialize reference's text.
    pub de: String,
    /// The fixture file's relative path.
    pub file: String,
}

/// Parses the configuration text, or reports the grammar violation as a
/// configuration diagnostic.
pub fn parse_config(attr: &str) -> (r: Result<Config, Diag>)
    ensures
        match r {
            Ok(c) => parse_config_spec(attr@) == (ConfigParse::Parsed {
                ser: c.ser@,
                de: c.de@,
                file: c.file@,
            }),
            Err(d) => parse_config_spec(attr@) matches ConfigParse::Rejected { detail } && d@
                == (SpecDiag::Config { detail }),
        },
{
    let n = attr.unicode_len();
    let i0 = skip_ws(attr, 0);
    if !kw_at_exec(attr, i0, "exact") {
        return Err(Diag::Config { detail: String::from_str("expected `exact`") });
    }
    proof {
        reveal_strlit("exact");
    }
    let i1 = skip_ws(attr, i0 + 5);
    if !(i1 < n && attr.get_char(i1) == ',') {
        return Err(Diag::Config { detail: String::from_str("expected `,`") });
    }
    let i2 = skip_ws(attr, i1 + 1);
    if !kw_at_exec(attr, i2, "ser") {
        return Err(Diag::Config { detail: String::from_str("expected `ser`") });
    }
    proof {
        reveal_strlit("ser");
    }
    let i3 = skip_ws(attr, i2 + 3);
    if !(i3 < n && attr.get_char(i3) == '=') {
        return Err(Diag::Config { detail: String::from_str("expected `=`") });
    }
    let i4 = skip_ws(attr, i3 + 1);
    let e4 = scan_ref(attr, i4);
    if e4 == i4 {
        return Err(Diag::Config { detail: String::from_str("expected a path") });
    }
    let ser = String::from_str(attr.substring_char(i4, e4));
    let i5 = skip_ws(attr, e4);
    if !(i5 < n && attr.get_char(i5) == ',') {
        return Err(Diag::Config { detail: String::from_str("expected `,`") });
    }
    let i6 = skip_ws(attr, i5 + 1);
    if !kw_at_exec(attr, i6, "de") {
        return Err(Diag::Config { detail: String::from_str("expected `de`") });
    }
    proof {
        reveal_strlit("de");
    }
    let i7 = skip_ws(attr, i6 + 2);
    if !(i7 < n && attr.get_char(i7) == '=') {
        return Err(Diag::Config { detail: String::from_str("expected `=`") });
    }
    let i8 = skip_ws(attr, i7 + 1);
    let e8 = scan_ref(attr, i8);
    if e8 == i8 {
        return Err(Diag::Config { detail: String::from_str("expected a path") });
    }
    let de = String::from_str(attr.substring_char(i8, e8));
    let i9 = skip_ws(attr, e8);
    if !(i9 < n && attr.get_char(i9) == ',') {
        return Err(Diag::Config { detail: String::from_str("expected `,`") });
    }
    let i10 = skip_ws(attr, i9 + 1);
    if !kw_at_exec(attr, i10, "file") {
        return Err(Diag::Config { detail: String::from_str("expected `file`") });
    }
    proof {
        reveal_strlit("file");
    }
    let i11 = skip_ws(attr, i10 + 4);
    if !(i11 < n && attr.get_char(i11) == '=') {
        return Err(Diag::Config { detail: String::from_str("expected `=`") });
    }
    let i12 = skip_ws(attr, i11 + 1);
    if !(i12 < n && attr.get_char(i12) == '"') {
        return Err(Diag::Config { detail: String::from_str("expected a string literal") });
    }
    match scan_str(attr, i12 + 1) {
        None => Err(Diag::Config { detail: String::from_str("malformed string literal") }),
        Some((file, e)) => {
            let iend = skip_ws(attr, e);
            if iend != n {
                Err(Diag::Config { detail: String::from_str("unexpected trailing tokens") })
            } else {
                Ok(Config { ser, de, file })
            }
        },
    }
}

} // verus!
