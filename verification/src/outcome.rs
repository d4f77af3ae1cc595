//! The normalize-and-compare protocol that every generated test runs: the
//! actual result's canonical serialized form against the expected text's
//! canonical serialized form.

use vstd::prelude::*;

verus! {

/// Mathematical model of one test run's outcome.
pub enum SpecTestOutcome {
    /// The two canonical strings were equal.
    Pass,
    /// Serializing the actual result, or normalizing the expected text,
    /// failed; the detail carries the underlying failure.
    NormalizationFailure { detail: Seq<char> },
    /// The canonical strings differed; both are attached for diffing.
    Mismatch { actual: Seq<char>, expected: Seq<char> },
}

/// The outcome of one generated test.
#[derive(Debug)]
pub enum TestOutcome {
    Pass,
    NormalizationFailure { detail: String },
    Mismatch { actual: String, expected: String },
}

impl View for TestOutcome {
    type V = SpecTestOutcome;

    open spec fn view(&self) -> SpecTestOutcome {
        match self {
            TestOutcome::Pass => SpecTestOutcome::Pass,
            TestOutcome::NormalizationFailure { detail } => SpecTestOutcome::NormalizationFailure {
                detail: detail.view(),
            },
            TestOutcome::Mismatch { actual, expected } => SpecTestOutcome::Mismatch {
                actual: actual.view(),
                expected: expected.view(),
            },
        }
    }
}

/// The protocol's outcome under exact-match mode, given the serialized
/// actual result and the expected text's normalized (deserialized and
/// re-serialized) form; the actual side's failure is reported first, as the
/// generated helper propagates it first.
pub open spec fn exact_outcome_spec(
    actual: Result<Seq<char>, Seq<char>>,
    expected: Result<Seq<char>, Seq<char>>,
) -> SpecTestOutcome {
    match actual {
        Result::Err(d) => SpecTestOutcome::NormalizationFailure { detail: d },
        Result::Ok(a) => match expected {
            Result::Err(d) => SpecTestOutcome::NormalizationFailure { detail: d },
            Result::Ok(e) => if a == e {
                SpecTestOutcome::Pass
            } else {
                SpecTestOutcome::Mismatch { actual: a, expected: e }
            },
        },
    }
}

/// The view of a string-valued result.
pub open spec fn result_view(r: Result<String, String>) -> Result<Seq<char>, Seq<char>> {
    match r {
        Result::Ok(s) => Result::Ok(s.view()),
        Result::Err(s) => Result::Err(s.view()),
    }
}

/// Runs the exact-match comparison on the serialized actual result and the
/// normalized expected form.
pub fn exact_outcome(actual: Result<String, String>, expected: Result<String, String>) -> (r:
    TestOutcome)
    ensures
        r@ == exact_outcome_spec(result_view(actual), result_view(expected)),
{
    match actual {
        Err(d) => TestOutcome::NormalizationFailure { detail: d },
        Ok(a) => match expected {
            Err(d) => TestOutcome::NormalizationFailure { detail: d },
            Ok(e) => {
                if a.eq(&e) {
                    TestOutcome::Pass
                } else {
                    TestOutcome::Mismatch { actual: a, expected: e }
                }
            },
        },
    }
}

/// A generated test passes exactly when both normalizations succeed and the
/// two canonical serialized strings are equal: the serialized actual result
/// against the serialized deserialization of the expected text.
pub proof fn lemma_pass_iff_normalized_equal(
    actual: Result<Seq<char>, Seq<char>>,
    expected: Result<Seq<char>, Seq<char>>,
)
    ensures
        exact_outcome_spec(actual, expected) is Pass <==> (actual matches Ok(a) && expected
            matches Ok(e) && a == e),
{
}

/// The expected text enters the comparison only through its canonical form:
/// two differently written expected texts whose deserialized values
/// re-serialize to the same canonical string fare the same against any
/// actual result.
pub proof fn lemma_normalization_insensitive(
    actual: Result<Seq<char>, Seq<char>>,
    normalized_a: Result<Seq<char>, Seq<char>>,
    normalized_b: Result<Seq<char>, Seq<char>>,
)
    requires
        normalized_a == normalized_b,
    ensures
        exact_outcome_spec(actual, normalized_a) == exact_outcome_spec(actual, normalized_b),
{
}

} // verus!
