//! The fixture-file parser: splits the raw fixture text into named
//! input/expected-output records, collecting one diagnostic per malformed
//! record instead of stopping at the first.

use vstd::prelude::*;

use crate::diag::{Diag, SpecDiag};
use crate::syntax::{ident_ok, is_valid_ident};
use crate::text::{
    find, find_from_exec, lemma_find_from, lemma_rfind, replace_spaces, rfind, rfind_exec,
    split_terminator_exec, split_terminator_spec, trim, trim_spec, underscore_spaces,
};

verus! {

/// The record terminator, rendered as a standalone line.
pub open spec fn term_pat() -> Seq<char> {
    "\n...\n"@
}

/// The separator line between a record's name and its input.
pub open spec fn name_pat() -> Seq<char> {
    "\n===\n"@
}

/// The separator line between a record's input and its expected output.
pub open spec fn body_pat() -> Seq<char> {
    "\n---\n"@
}

/// Mathematical model of one parsed record.
pub struct SpecRecord {
    /// The sanitized name, prefixed with an underscore.
    pub name: Seq<char>,
    /// The input text, trimmed.
    pub input: Seq<char>,
    /// The expected-output text, trimmed.
    pub output: Seq<char>,
}

/// One named test case parsed from a fixture file.
#[derive(Debug)]
pub struct TestRecord {
    /// The record's name, trimmed, spaces replaced by underscores and
    /// prefixed with an underscore; always a legal identifier.
    pub name: String,
    /// The input handed to the function under test, trimmed.
    pub input: String,
    /// The expected output, trimmed.
    pub output: String,
}

impl View for TestRecord {
    type V = SpecRecord;

    open spec fn view(&self) -> SpecRecord {
        SpecRecord { name: self.name.view(), input: self.input.view(), output: self.output.view() }
    }
}

impl DeepView for TestRecord {
    type V = SpecRecord;

    open spec fn deep_view(&self) -> SpecRecord {
        self.view()
    }
}

/// What parsing one record piece yields: a record, or its diagnostic.
pub enum RecordOutcome {
    Rec(SpecRecord),
    Bad(SpecDiag),
}

/// Parse of the record piece `p` standing at position `idx` in the file.
pub open spec fn record_parse(p: Seq<char>, idx: nat) -> RecordOutcome {
    match find(p, name_pat()) {
        Option::None => RecordOutcome::Bad(SpecDiag::MissingNameSeparator { index: idx }),
        Option::Some(ix) => {
            let name = underscore_spaces(trim_spec(p.subrange(0, ix)));
            let rest = p.subrange(ix + name_pat().len() as int, p.len() as int);
            match rfind(rest, body_pat()) {
                Option::None => RecordOutcome::Bad(SpecDiag::MissingBodySeparator { name }),
                Option::Some(jx) => {
                    let input = trim_spec(rest.subrange(0, jx));
                    let output = trim_spec(
                        rest.subrange(jx + body_pat().len() as int, rest.len() as int),
                    );
                    let ident = seq!['_'] + name;
                    if is_valid_ident(ident) {
                        RecordOutcome::Rec(SpecRecord { name: ident, input, output })
                    } else {
                        RecordOutcome::Bad(SpecDiag::InvalidIdentifier { name })
                    }
                },
            }
        },
    }
}

/// Whether the text ends with a newline character.
pub open spec fn ends_with_newline(s: Seq<char>) -> bool {
    s.len() > 0 && s.last() == '\n'
}

/// Position just after the last terminator line, or zero when there is none.
pub open spec fn cut_pos(s: Seq<char>) -> int {
    match rfind(s, term_pat()) {
        Option::Some(i) => i + term_pat().len() as int,
        Option::None => 0,
    }
}

/// The record pieces of the fixture text: everything up to and including the
/// last terminator, split at each terminator.
pub open spec fn pieces_of(s: Seq<char>) -> Seq<Seq<char>> {
    split_terminator_spec(s.subrange(0, cut_pos(s)), term_pat())
}

/// The parse of each record piece, in file order.
pub open spec fn outcomes_of(pieces: Seq<Seq<char>>) -> Seq<RecordOutcome> {
    Seq::new(pieces.len(), |i: int| record_parse(pieces[i], i as nat))
}

/// The records among the outcomes from position `i` on, in order.
pub open spec fn goods_from(outs: Seq<RecordOutcome>, i: int) -> Seq<SpecRecord>
    decreases outs.len() - i,
{
    if i < 0 || i >= outs.len() {
        seq![]
    } else {
        match outs[i] {
            RecordOutcome::Rec(r) => seq![r] + goods_from(outs, i + 1),
            RecordOutcome::Bad(_) => goods_from(outs, i + 1),
        }
    }
}

/// The diagnostics among the outcomes from position `i` on, in order.
pub open spec fn bads_from(outs: Seq<RecordOutcome>, i: int) -> Seq<SpecDiag>
    decreases outs.len() - i,
{
    if i < 0 || i >= outs.len() {
        seq![]
    } else {
        match outs[i] {
            RecordOutcome::Rec(_) => bads_from(outs, i + 1),
            RecordOutcome::Bad(d) => seq![d] + bads_from(outs, i + 1),
        }
    }
}

/// What parsing a whole fixture file yields.
pub enum FixtureOutcome {
    /// Every record parsed: the records, in file order.
    Records(Seq<SpecRecord>),
    /// The non-empty list of diagnostics, in file order.
    Problems(Seq<SpecDiag>),
}

/// Parse of the full fixture text `s`.
pub open spec fn fixture_parse(s: Seq<char>) -> FixtureOutcome {
    if !ends_with_newline(s) {
        FixtureOutcome::Problems(seq![SpecDiag::MissingTrailingNewline])
    } else if trim_spec(s.subrange(cut_pos(s), s.len() as int)).len() > 0 {
        FixtureOutcome::Problems(seq![SpecDiag::TrailingContent])
    } else {
        let outs = outcomes_of(pieces_of(s));
        if bads_from(outs, 0).len() == 0 {
            FixtureOutcome::Records(goods_from(outs, 0))
        } else {
            FixtureOutcome::Problems(bads_from(outs, 0))
        }
    }
}

/// Parses the full text of a fixture file into its records, in file order,
/// or else into the full list of diagnostics: one per malformed record, not
/// only the first.
pub fn parse_fixture(source: &str) -> (r: Result<Vec<TestRecord>, Vec<Diag>>)
    ensures
        match r {
            Ok(recs) => fixture_parse(source@) == FixtureOutcome::Records(recs.deep_view()),
            Err(diags) => diags.len() > 0 && fixture_parse(source@) == FixtureOutcome::Problems(
                diags.deep_view(),
            ),
        },
{
    proof {
        reveal_strlit("\n...\n");
        reveal_strlit("\n===\n");
        reveal_strlit("\n---\n");
        reveal_strlit("_");
    }
    let n = source.unicode_len();
    if n == 0 || source.get_char(n - 1) != '\n' {
        let diags = vec![Diag::MissingTrailingNewline];
        proof {
            assert(diags.deep_view() =~= seq![SpecDiag::MissingTrailingNewline]);
        }
        return Err(diags);
    }
    let term = "\n...\n";
    let cut: usize = match rfind_exec(source, term) {
        Some(i) => {
            proof {
                lemma_rfind(source@, term_pat());
            }
            i + 5
        },
        None => 0,
    };
    assert(cut as int == cut_pos(source@));
    let trailing = source.substring_char(cut, n);
    let trimmed = trim(trailing);
    if trimmed.unicode_len() > 0 {
        let diags = vec![Diag::TrailingContent];
        proof {
            assert(diags.deep_view() =~= seq![SpecDiag::TrailingContent]);
        }
        return Err(diags);
    }
    let body = source.substring_char(0, cut);
    let pieces = split_terminator_exec(body, term);
    let ghost outs = outcomes_of(pieces.deep_view());
    let mut recs: Vec<TestRecord> = Vec::new();
    let mut diags: Vec<Diag> = Vec::new();
    let mut i: usize = 0;
    proof {
        assert(recs.deep_view() + goods_from(outs, 0) =~= goods_from(outs, 0));
        assert(diags.deep_view() + bads_from(outs, 0) =~= bads_from(outs, 0));
    }
    while i < pieces.len()
        invariant
            i <= pieces.len(),
            outs == outcomes_of(pieces.deep_view()),
            goods_from(outs, 0) == recs.deep_view() + goods_from(outs, i as int),
            bads_from(outs, 0) == diags.deep_view() + bads_from(outs, i as int),
            diags.len() == bads_from(outs, 0).len() - bads_from(outs, i as int).len(),
        decreases pieces.len() - i,
    {
        proof {
            reveal_strlit("\n...\n");
            reveal_strlit("\n===\n");
            reveal_strlit("\n---\n");
            reveal_strlit("_");
        }
        let ghost done_recs = recs.deep_view();
        let ghost done_diags = diags.deep_view();
        let piece: &str = pieces[i].as_str();
        proof {
            assert(piece@ == pieces.deep_view()[i as int]);
        }
        let plen = piece.unicode_len();
        match find_from_exec(piece, "\n===\n", 0) {
            None => {
                diags.push(Diag::MissingNameSeparator { index: i });
                proof {
                    assert(record_parse(piece@, i as nat) == RecordOutcome::Bad(
                        SpecDiag::MissingNameSeparator { index: i as nat },
                    ));
                    assert(diags.deep_view() =~= done_diags.push(
                        SpecDiag::MissingNameSeparator { index: i as nat },
                    ));
                    assert(done_diags + bads_from(outs, i as int) =~= diags.deep_view()
                        + bads_from(outs, i + 1));
                }
            },
            Some(ix) => {
                proof {
                    lemma_find_from(piece@, name_pat(), 0);
                }
                let name_raw = piece.substring_char(0, ix);
                let name = replace_spaces(trim(name_raw));
                let rest = piece.substring_char(ix + 5, plen);
                let ghost rest_spec = piece@.subrange(ix + name_pat().len() as int, piece@.len() as int);
                assert(rest@ == rest_spec);
                match rfind_exec(rest, "\n---\n") {
                    None => {
                        let ghost name_spec = name@;
                        diags.push(Diag::MissingBodySeparator { name });
                        proof {
                            assert(record_parse(piece@, i as nat) == RecordOutcome::Bad(
                                SpecDiag::MissingBodySeparator { name: name_spec },
                            ));
                            assert(diags.deep_view() =~= done_diags.push(
                                SpecDiag::MissingBodySeparator { name: name_spec },
                            ));
                            assert(done_diags + bads_from(outs, i as int) =~= diags.deep_view()
                                + bads_from(outs, i + 1));
                        }
                    },
                    Some(jx) => {
                        proof {
                            lemma_rfind(rest@, body_pat());
                        }
                        let rlen = rest.unicode_len();
                        let input = String::from_str(trim(rest.substring_char(0, jx)));
                        let output = String::from_str(trim(rest.substring_char(jx + 5, rlen)));
                        let mut ident = String::from_str("_");
                        ident.append(name.as_str());
                        proof {
                            assert(ident@ =~= seq!['_'] + name@);
                        }
                        if ident_ok(ident.as_str()) {
                            let ghost rec_spec = SpecRecord {
                                name: ident@,
                                input: input@,
                                output: output@,
                            };
                            recs.push(TestRecord { name: ident, input, output });
                            proof {
                                assert(record_parse(piece@, i as nat) == RecordOutcome::Rec(
                                    rec_spec,
                                ));
                                assert(recs.deep_view() =~= done_recs.push(rec_spec));
                                assert(done_recs + goods_from(outs, i as int) =~= recs.deep_view()
                                    + goods_from(outs, i + 1));
                            }
                        } else {
                            let ghost name_spec = name@;
                            diags.push(Diag::InvalidIdentifier { name });
                            proof {
                                assert(record_parse(piece@, i as nat) == RecordOutcome::Bad(
                                    SpecDiag::InvalidIdentifier { name: name_spec },
                                ));
                                assert(diags.deep_view() =~= done_diags.push(
                                    SpecDiag::InvalidIdentifier { name: name_spec },
                                ));
                                assert(done_diags + bads_from(outs, i as int) =~= diags.deep_view()
                                    + bads_from(outs, i + 1));
                            }
                        }
                    },
                }
            },
        }
        i += 1;
    }
    proof {
        assert(goods_from(outs, pieces.len() as int) =~= Seq::<SpecRecord>::empty());
        assert(bads_from(outs, pieces.len() as int) =~= Seq::<SpecDiag>::empty());
        assert(goods_from(outs, 0) =~= recs.deep_view());
        assert(bads_from(outs, 0) =~= diags.deep_view());
    }
    if diags.len() == 0 {
        Ok(recs)
    } else {
        Err(diags)
    }
}

/// A fixture file that does not end with a newline is rejected with exactly
/// the missing-trailing-newline diagnostic, never silently truncated.
pub proof fn lemma_missing_trailing_newline_rejected(s: Seq<char>)
    requires
        !ends_with_newline(s),
    ensures
        fixture_parse(s) == FixtureOutcome::Problems(seq![SpecDiag::MissingTrailingNewline]),
{
}

/// A fixture file with non-whitespace content after its final terminator
/// line is rejected with exactly the trailing-content diagnostic.
pub proof fn lemma_trailing_content_rejected(s: Seq<char>)
    requires
        ends_with_newline(s),
        trim_spec(s.subrange(cut_pos(s), s.len() as int)).len() > 0,
    ensures
        fixture_parse(s) == FixtureOutcome::Problems(seq![SpecDiag::TrailingContent]),
{
}

/// The authoritative input/output separator of a record is the last `---`
/// line: when an earlier, disjoint one occurs in the remainder, the split
/// happens at or after the later one, and the earlier separator's characters
/// stay inside the input part.
pub proof fn lemma_last_body_separator(rest: Seq<char>, k1: int, k2: int)
    requires
        crate::text::match_at(rest, body_pat(), k1),
        crate::text::match_at(rest, body_pat(), k2),
        k1 + body_pat().len() <= k2,
    ensures
        rfind(rest, body_pat()) matches Some(j) && k2 <= j && crate::text::match_at(
            rest.subrange(0, j),
            body_pat(),
            k1,
        ),
{
    reveal_strlit("\n---\n");
    lemma_rfind(rest, body_pat());
    let j = rfind(rest, body_pat())->Some_0;
    assert(rest.subrange(0, j).subrange(k1, k1 + body_pat().len() as int) =~= rest.subrange(
        k1,
        k1 + body_pat().len() as int,
    ));
}

/// Number of malformed outcomes from position `i` on.
pub open spec fn count_bad(outs: Seq<RecordOutcome>, i: int) -> nat
    decreases outs.len() - i,
{
    if i < 0 || i >= outs.len() {
        0
    } else {
        (match outs[i] {
            RecordOutcome::Rec(_) => 0nat,
            RecordOutcome::Bad(_) => 1nat,
        }) + count_bad(outs, i + 1)
    }
}

/// Every outcome is either a record or a diagnostic: from any position, the
/// records and the diagnostics together account for every record piece.
pub proof fn lemma_outcome_partition(outs: Seq<RecordOutcome>, i: int)
    requires
        0 <= i <= outs.len(),
    ensures
        goods_from(outs, i).len() + bads_from(outs, i).len() == outs.len() - i,
        bads_from(outs, i).len() == count_bad(outs, i),
    decreases outs.len() - i,
{
    if i < outs.len() {
        lemma_outcome_partition(outs, i + 1);
    }
}

/// Malformed records produce one diagnostic each: when any record piece is
/// malformed, parsing reports exactly as many diagnostics as there are
/// malformed pieces, in file order — not just the first.
pub proof fn lemma_one_diagnostic_per_malformed(s: Seq<char>)
    requires
        ends_with_newline(s),
        trim_spec(s.subrange(cut_pos(s), s.len() as int)).len() == 0,
        count_bad(outcomes_of(pieces_of(s)), 0) > 0,
    ensures
        fixture_parse(s) == FixtureOutcome::Problems(bads_from(outcomes_of(pieces_of(s)), 0)),
        bads_from(outcomes_of(pieces_of(s)), 0).len() == count_bad(outcomes_of(pieces_of(s)), 0),
{
    lemma_outcome_partition(outcomes_of(pieces_of(s)), 0);
}

/// A structurally well-formed fixture file with no malformed record piece
/// parses to exactly one record per piece, in file order.
pub proof fn lemma_record_per_piece(s: Seq<char>)
    requires
        ends_with_newline(s),
        trim_spec(s.subrange(cut_pos(s), s.len() as int)).len() == 0,
        count_bad(outcomes_of(pieces_of(s)), 0) == 0,
    ensures
        fixture_parse(s) == FixtureOutcome::Records(goods_from(outcomes_of(pieces_of(s)), 0)),
        goods_from(outcomes_of(pieces_of(s)), 0).len() == pieces_of(s).len(),
{
    lemma_outcome_partition(outcomes_of(pieces_of(s)), 0);
}

} // verus!
