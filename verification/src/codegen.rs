//! The code generator: names one test per record and renders the test
//! sources, together with the shared normalize-and-compare helper.

use vstd::prelude::*;

use crate::diag::Diag;
use crate::fixture::{SpecRecord, TestRecord};
use crate::text::{push_char, replace_char, replace_char_spec, rfind, rfind_exec};

verus! {

/// `dir` and `rel` joined with a slash; an absolute `rel` stands alone.
pub open spec fn join_path_spec(dir: Seq<char>, rel: Seq<char>) -> Seq<char> {
    if rel.len() > 0 && rel[0] == '/' {
        rel
    } else {
        dir + "/"@ + rel
    }
}

/// Joins the project root and the fixture file's relative path.
pub fn join_path(dir: &str, rel: &str) -> (r: String)
    ensures
        r@ == join_path_spec(dir@, rel@),
{
    let rlen = rel.unicode_len();
    if rlen > 0 && rel.get_char(0) == '/' {
        String::from_str(rel)
    } else {
        let mut out = String::from_str(dir);
        out.append("/");
        out.append(rel);
        out
    }
}

/// The path's final component: everything after the last slash.
pub open spec fn file_name_spec(p: Seq<char>) -> Seq<char> {
    match rfind(p, "/"@) {
        Option::Some(i) => p.subrange(i + 1, p.len() as int),
        Option::None => p,
    }
}

/// The final component without its extension: the part before the last dot,
/// unless that dot is the component's first character.
pub open spec fn file_stem_spec(nm: Seq<char>) -> Seq<char> {
    match rfind(nm, "."@) {
        Option::Some(i) => if i > 0 {
            nm.subrange(0, i)
        } else {
            nm
        },
        Option::None => nm,
    }
}

/// Whether the path ends in a usable file name: a non-empty final component
/// other than `.` and `..`.
pub open spec fn proper_file_name(p: Seq<char>) -> bool {
    let nm = file_name_spec(p);
    nm.len() > 0 && nm != "."@ && nm != ".."@
}

/// The fixture file's base name: its file stem with every dot replaced by an
/// underscore; also the name of the shared helper function.
pub open spec fn base_name_spec(p: Seq<char>) -> Seq<char> {
    replace_char_spec(file_stem_spec(file_name_spec(p)), '.', '_')
}

/// The path's final component.
pub fn file_name<'a>(p: &'a str) -> (r: &'a str)
    ensures
        r@ == file_name_spec(p@),
{
    proof {
        reveal_strlit("/");
    }
    let n = p.unicode_len();
    match rfind_exec(p, "/") {
        Some(i) => {
            proof {
                crate::text::lemma_rfind(p@, "/"@);
            }
            p.substring_char(i + 1, n)
        },
        None => p,
    }
}

/// Whether the path ends in a usable file name.
pub fn has_proper_file_name(p: &str) -> (r: bool)
    ensures
        r == proper_file_name(p@),
{
    let nm = file_name(p);
    let n = nm.unicode_len();
    if n == 0 {
        proof {
            reveal_strlit(".");
            reveal_strlit("..");
        }
        return false;
    }
    let dot1 = n == 1 && nm.get_char(0) == '.';
    let dot2 = n == 2 && nm.get_char(0) == '.' && nm.get_char(1) == '.';
    proof {
        reveal_strlit(".");
        reveal_strlit("..");
        if dot1 {
            assert(nm@ =~= "."@);
        } else {
            assert(nm@ != "."@);
        }
        if dot2 {
            assert(nm@ =~= ".."@);
        } else {
            assert(nm@ != ".."@);
        }
    }
    !dot1 && !dot2
}

/// The fixture file's base name, dots replaced by underscores.
pub fn base_name(p: &str) -> (r: String)
    requires
        proper_file_name(p@),
    ensures
        r@ == base_name_spec(p@),
{
    proof {
        reveal_strlit(".");
    }
    let nm = file_name(p);
    let n = nm.unicode_len();
    let stem: &str = match rfind_exec(nm, ".") {
        Some(i) => {
            proof {
                crate::text::lemma_rfind(nm@, "."@);
            }
            if i > 0 {
                nm.substring_char(0, i)
            } else {
                nm
            }
        },
        None => nm,
    };
    replace_char(stem, '.', '_')
}

/// Mathematical model of one generated test.
#[verifier::ext_equal]
pub struct SpecGenTest {
    /// The emitted test function's name.
    pub test_name: Seq<char>,
    /// The record the test was generated from.
    pub record: SpecRecord,
}

/// One named, independently invocable generated test.
#[derive(Debug)]
pub struct GeneratedTest {
    /// The emitted test function's name: the fixture file's base name
    /// followed by the record's (underscore-prefixed) name.
    pub test_name: String,
    /// The record the test was generated from.
    pub record: TestRecord,
}

impl View for GeneratedTest {
    type V = SpecGenTest;

    open spec fn view(&self) -> SpecGenTest {
        SpecGenTest { test_name: self.test_name.view(), record: self.record.view() }
    }
}

impl DeepView for GeneratedTest {
    type V = SpecGenTest;

    open spec fn deep_view(&self) -> SpecGenTest {
        self.view()
    }
}

impl TestRecord {
    /// An equal record, field by field.
    pub fn duplicate(&self) -> (r: TestRecord)
        ensures
            r@ == self@,
    {
        TestRecord {
            name: String::from_str(self.name.as_str()),
            input: String::from_str(self.input.as_str()),
            output: String::from_str(self.output.as_str()),
        }
    }
}

/// The generated tests for these records: one per record, in order, each
/// named from the base name and the record's name.
pub open spec fn gen_spec(base: Seq<char>, recs: Seq<SpecRecord>) -> Seq<SpecGenTest> {
    Seq::new(recs.len(), |i: int| SpecGenTest { test_name: base + recs[i].name, record: recs[i] })
}

/// Produces one test per record, in file order, each named from the fixture
/// file's base name and the record's sanitized name.
pub fn generate_tests(base: &str, recs: &Vec<TestRecord>) -> (r: Vec<GeneratedTest>)
    ensures
        r.deep_view() == gen_spec(base@, recs.deep_view()),
{
    let mut out: Vec<GeneratedTest> = Vec::new();
    let mut i: usize = 0;
    while i < recs.len()
        invariant
            i <= recs.len(),
            out.deep_view() =~= gen_spec(base@, recs.deep_view()).take(i as int),
        decreases recs.len() - i,
    {
        let rec = &recs[i];
        let mut test_name = String::from_str(base);
        test_name.append(rec.name.as_str());
        let ghost prev = out.deep_view();
        let ghost tn = test_name@;
        out.push(GeneratedTest { test_name, record: rec.duplicate() });
        proof {
            let g = gen_spec(base@, recs.deep_view());
            assert(recs.deep_view()[i as int] == recs@[i as int]@);
            assert(g[i as int] =~~= SpecGenTest { test_name: tn, record: recs@[i as int]@ });
            assert(out.deep_view() =~~= prev.push(
                SpecGenTest { test_name: tn, record: recs@[i as int]@ },
            ));
            assert(g.take(i + 1) =~~= prev.push(g[i as int]));
        }
        i += 1;
    }
    proof {
        assert(gen_spec(base@, recs.deep_view()).take(recs.len() as int) =~= gen_spec(
            base@,
            recs.deep_view(),
        ));
    }
    out
}

/// For a fixture file with N records, exactly N tests are generated, the
/// i-th named by the fixture's base name followed by the i-th record's
/// sanitized name.
pub proof fn lemma_one_test_per_record(base: Seq<char>, recs: Seq<SpecRecord>)
    ensures
        gen_spec(base, recs).len() == recs.len(),
        forall|i: int|
            0 <= i < recs.len() ==> gen_spec(base, recs)[i].test_name == base + recs[i].name
                && gen_spec(base, recs)[i].record == recs[i],
{
}

/// How one character is written inside a double-quoted string literal.
pub open spec fn escape_char(c: char) -> Seq<char> {
    if c == '"' {
        seq!['\\', '"']
    } else if c == '\\' {
        seq!['\\', '\\']
    } else if c == '\n' {
        seq!['\\', 'n']
    } else if c == '\r' {
        seq!['\\', 'r']
    } else if c == '\t' {
        seq!['\\', 't']
    } else {
        seq![c]
    }
}

/// `s` written as the body of a double-quoted string literal.
pub open spec fn escape_spec(s: Seq<char>) -> Seq<char>
    decreases s.len(),
{
    if s.len() == 0 {
        seq![]
    } else {
        escape_char(s[0]) + escape_spec(s.drop_first())
    }
}

/// Escaping one character at a time from the front or from the back comes to
/// the same text.
pub proof fn lemma_escape_append(s: Seq<char>, c: char)
    ensures
        escape_spec(s.push(c)) == escape_spec(s) + escape_char(c),
    decreases s.len(),
{
    if s.len() == 0 {
        assert(s.push(c)[0] == c);
        assert(s.push(c).drop_first() =~= Seq::<char>::empty());
        assert(escape_spec(s.push(c)) == escape_char(c) + escape_spec(Seq::<char>::empty()));
        assert(escape_spec(s.push(c)) =~= escape_spec(s) + escape_char(c));
    } else {
        lemma_escape_append(s.drop_first(), c);
        assert(s.push(c)[0] == s[0]);
        assert(s.push(c).len() == s.len() + 1);
        assert(s.push(c).drop_first() =~= s.drop_first().push(c));
        assert(escape_spec(s.push(c)) == escape_char(s[0]) + escape_spec(s.drop_first().push(c)));
        assert(escape_spec(s.push(c)) =~= escape_spec(s) + escape_char(c));
    }
}

/// Appends `s` to `out`, escaped for a double-quoted string literal.
pub fn push_escaped(out: &mut String, s: &str)
    ensures
        final(out)@ == old(out)@ + escape_spec(s@),
{
    let n = s.unicode_len();
    proof {
        assert(s@.take(0) =~= Seq::<char>::empty());
        assert(old(out)@ + escape_spec(s@.take(0)) =~= old(out)@);
    }
    let mut i: usize = 0;
    while i < n
        invariant
            n == s@.len() <= usize::MAX,
            i <= n,
            out@ == old(out)@ + escape_spec(s@.take(i as int)),
        decreases n - i,
    {
        let c = s.get_char(i);
        if c == '"' {
            push_char(out, '\\');
            push_char(out, '"');
        } else if c == '\\' {
            push_char(out, '\\');
            push_char(out, '\\');
        } else if c == '\n' {
            push_char(out, '\\');
            push_char(out, 'n');
        } else if c == '\r' {
            push_char(out, '\\');
            push_char(out, 'r');
        } else if c == '\t' {
            push_char(out, '\\');
            push_char(out, 't');
        } else {
            push_char(out, c);
        }
        proof {
            lemma_escape_append(s@.take(i as int), s@[i as int]);
            assert(s@.take(i + 1) =~= s@.take(i as int).push(s@[i as int]));
            assert(out@ =~= old(out)@ + escape_spec(s@.take(i + 1)));
        }
        i += 1;
    }
    proof {
        assert(s@.take(n as int) =~= s@);
    }
}

/// The source text of the shared normalize-and-compare helper: it runs the
/// function under test, serializes the actual result, deserializes and
/// re-serializes the expected text, and compares the two canonical strings.
/// The embedded `include_str!` makes the build depend on the fixture file.
pub open spec fn helper_src_spec(
    helper: Seq<char>,
    filepath: Seq<char>,
    ser: Seq<char>,
    de: Seq<char>,
    fn_name: Seq<char>,
    ty: Seq<char>,
) -> Seq<char> {
    "fn "@ + helper
        + "(expected: &str, actual: &str) -> Result<(), Box<dyn ::std::error::Error>> {\n    const _: &str = include_str!(\""@
        + escape_spec(filepath) + "\");\n    let actual = "@ + ser + "(&"@ + fn_name
        + "(actual))?;\n    let expected = "@ + ser + "(&"@ + de + "::<"@ + ty
        + ">(expected)?)?;\n    assert_eq!(actual, expected);\n    Ok(())\n}\n"@
}

/// Renders the shared helper's source text.
pub fn render_helper(
    helper: &str,
    filepath: &str,
    ser: &str,
    de: &str,
    fn_name: &str,
    ty: &str,
) -> (r: String)
    ensures
        r@ == helper_src_spec(helper@, filepath@, ser@, de@, fn_name@, ty@),
{
    let mut out = String::from_str("fn ");
    out.append(helper);
    out.append(
        "(expected: &str, actual: &str) -> Result<(), Box<dyn ::std::error::Error>> {\n    const _: &str = include_str!(\"",
    );
    push_escaped(&mut out, filepath);
    out.append("\");\n    let actual = ");
    out.append(ser);
    out.append("(&");
    out.append(fn_name);
    out.append("(actual))?;\n    let expected = ");
    out.append(ser);
    out.append("(&");
    out.append(de);
    out.append("::<");
    out.append(ty);
    out.append(">(expected)?)?;\n    assert_eq!(actual, expected);\n    Ok(())\n}\n");
    out
}

/// The source text of one generated test: a test function that hands the
/// record's expected output and input to the shared helper.
pub open spec fn test_src_spec(
    helper: Seq<char>,
    test_name: Seq<char>,
    input: Seq<char>,
    output: Seq<char>,
) -> Seq<char> {
    "#[test]\nfn "@ + test_name + "() -> Result<(), Box<dyn ::std::error::Error>> {\n    "@
        + helper + "(\""@ + escape_spec(output) + "\", \""@ + escape_spec(input) + "\")\n}\n"@
}

/// Appends the source text of one generated test to `out`.
pub fn render_test_into(out: &mut String, helper: &str, test: &GeneratedTest)
    ensures
        final(out)@ == old(out)@ + test_src_spec(
            helper@,
            test@.test_name,
            test@.record.input,
            test@.record.output,
        ),
{
    out.append("#[test]\nfn ");
    out.append(test.test_name.as_str());
    out.append("() -> Result<(), Box<dyn ::std::error::Error>> {\n    ");
    out.append(helper);
    out.append("(\"");
    push_escaped(out, test.record.output.as_str());
    out.append("\", \"");
    push_escaped(out, test.record.input.as_str());
    out.append("\")\n}\n");
}

/// The source texts of the generated tests from position `i` on, in order.
pub open spec fn tests_src_from(helper: Seq<char>, tests: Seq<SpecGenTest>, i: int) -> Seq<char>
    decreases tests.len() - i,
{
    if i < 0 || i >= tests.len() {
        seq![]
    } else {
        test_src_spec(helper, tests[i].test_name, tests[i].record.input, tests[i].record.output)
            + tests_src_from(helper, tests, i + 1)
    }
}

/// The emitted source for one fixture: the shared helper followed by one
/// test per record, in file order.
pub open spec fn suite_src_spec(
    helper: Seq<char>,
    filepath: Seq<char>,
    ser: Seq<char>,
    de: Seq<char>,
    fn_name: Seq<char>,
    ty: Seq<char>,
    tests: Seq<SpecGenTest>,
) -> Seq<char> {
    helper_src_spec(helper, filepath, ser, de, fn_name, ty) + tests_src_from(helper, tests, 0)
}

/// Renders the whole generated suite: the shared helper, then every test.
pub fn render_suite(
    helper: &str,
    filepath: &str,
    ser: &str,
    de: &str,
    fn_name: &str,
    ty: &str,
    tests: &Vec<GeneratedTest>,
) -> (r: String)
    ensures
        r@ == suite_src_spec(helper@, filepath@, ser@, de@, fn_name@, ty@, tests.deep_view()),
{
    let mut out = render_helper(helper, filepath, ser, de, fn_name, ty);
    let ghost whole = suite_src_spec(
        helper@,
        filepath@,
        ser@,
        de@,
        fn_name@,
        ty@,
        tests.deep_view(),
    );
    let mut i: usize = 0;
    while i < tests.len()
        invariant
            i <= tests.len(),
            whole == suite_src_spec(
                helper@,
                filepath@,
                ser@,
                de@,
                fn_name@,
                ty@,
                tests.deep_view(),
            ),
            whole == out@ + tests_src_from(helper@, tests.deep_view(), i as int),
        decreases tests.len() - i,
    {
        let ghost prev = out@;
        render_test_into(&mut out, helper, &tests[i]);
        proof {
            assert(tests.deep_view()[i as int] == tests@[i as int]@);
            assert(prev + tests_src_from(helper@, tests.deep_view(), i as int) =~= out@
                + tests_src_from(helper@, tests.deep_view(), i + 1));
        }
        i += 1;
    }
    proof {
        assert(whole =~= out@);
    }
    out
}

/// The emitted text for one diagnostic: a `compile_error!` invocation
/// carrying the diagnostic's message.
pub open spec fn compile_error_spec(msg: Seq<char>) -> Seq<char> {
    "compile_error! { \""@ + escape_spec(msg) + "\" }\n"@
}

/// The emitted texts of the diagnostics from position `i` on, in order.
pub open spec fn diags_src_from(ds: Seq<crate::diag::SpecDiag>, i: int) -> Seq<char>
    decreases ds.len() - i,
{
    if i < 0 || i >= ds.len() {
        seq![]
    } else {
        compile_error_spec(Diag::message_spec(ds[i])) + diags_src_from(ds, i + 1)
    }
}

/// Renders every diagnostic as a `compile_error!` invocation, in order.
pub fn render_diags(diags: &Vec<Diag>) -> (r: String)
    ensures
        r@ == diags_src_from(diags.deep_view(), 0),
{
    let mut out = String::new();
    proof {
        assert(out@ + diags_src_from(diags.deep_view(), 0) =~= diags_src_from(
            diags.deep_view(),
            0,
        ));
    }
    let mut i: usize = 0;
    while i < diags.len()
        invariant
            i <= diags.len(),
            diags_src_from(diags.deep_view(), 0) == out@ + diags_src_from(
                diags.deep_view(),
                i as int,
            ),
        decreases diags.len() - i,
    {
        let ghost prev = out@;
        let msg = diags[i].message();
        out.append("compile_error! { \"");
        push_escaped(&mut out, msg.as_str());
        out.append("\" }\n");
        proof {
            assert(diags.deep_view()[i as int] == diags@[i as int]@);
            assert(prev + diags_src_from(diags.deep_view(), i as int) =~= out@ + diags_src_from(
                diags.deep_view(),
                i + 1,
            ));
        }
        i += 1;
    }
    proof {
        assert(diags_src_from(diags.deep_view(), diags.len() as int)
            =~= Seq::<char>::empty());
        assert(diags_src_from(diags.deep_view(), 0) =~= out@);
    }
    out
}

/// The whole emitted output: the annotated item re-emitted unchanged, then
/// the generated tests or the diagnostics.
pub open spec fn emit_spec(item: Seq<char>, tail: Seq<char>) -> Seq<char> {
    item + "\n"@ + tail
}

/// The annotated item re-emitted unchanged, followed by the generated tests
/// or the diagnostics.
pub fn emit(item: &str, tail: &str) -> (r: String)
    ensures
        r@ == emit_spec(item@, tail@),
{
    let mut out = String::from_str(item);
    out.append("\n");
    out.append(tail);
    out
}

} // verus!
