//! The generation driver: analyzes the annotated function's signature,
//! aggregates every independently detectable diagnostic, and builds the
//! emitted suite once the fixture text is at hand.

use vstd::prelude::*;

use crate::codegen::{
    base_name, base_name_spec, gen_spec, generate_tests, join_path, join_path_spec,
    proper_file_name, render_suite, suite_src_spec,
};
use crate::config::{parse_config, parse_config_spec, Config, ConfigParse};
use crate::diag::{Diag, SpecDiag};
use crate::fixture::{fixture_parse, parse_fixture, FixtureOutcome};
use crate::syntax::{fn_sig_of, parse_fn_sig};

verus! {

/// Mathematical model of the annotated function's signature.
pub struct SpecFnSig {
    /// The function's name.
    pub name: Seq<char>,
    /// The declared return type's text, or the unit type when none is
    /// declared.
    pub return_type: Seq<char>,
}

/// The annotated function's signature, as the code generator needs it.
#[derive(Debug)]
pub struct FnSig {
    /// The function's name.
    pub name: String,
    /// The declared return type's text; the unit type when none is declared.
    pub return_type: String,
}

impl View for FnSig {
    type V = SpecFnSig;

    open spec fn view(&self) -> SpecFnSig {
        SpecFnSig { name: self.name.view(), return_type: self.return_type.view() }
    }
}

/// The signature extracted from a function item's text: its name, and its
/// return type defaulted to the unit type.
pub open spec fn sig_spec(item: Seq<char>) -> Option<SpecFnSig> {
    match fn_sig_of(item) {
        Option::Some(p) => Some(
            SpecFnSig {
                name: p.0,
                return_type: match p.1 {
                    Option::Some(t) => t,
                    Option::None => "()"@,
                },
            },
        ),
        Option::None => None,
    }
}

/// Analyzes the annotated item: it must be a function declaration; its
/// return type is extracted, or defaults to the unit type.
pub fn analyze_item(item: &str) -> (r: Result<FnSig, Diag>)
    ensures
        match r {
            Ok(f) => sig_spec(item@) == Some(f@),
            Err(d) => sig_spec(item@) is None && d@ == (SpecDiag::Signature {
                detail: "expected a function declaration"@,
            }),
        },
{
    match parse_fn_sig(item) {
        Some((name, ret)) => {
            let return_type = match ret {
                Some(t) => t,
                None => String::from_str("()"),
            };
            Ok(FnSig { name, return_type })
        },
        None => Err(Diag::Signature { detail: String::from_str("expected a function declaration") }),
    }
}

/// Everything the code generator needs once every check has passed.
#[derive(Debug)]
pub struct GenPlan {
    /// The parsed configuration.
    pub config: Config,
    /// The annotated function's signature.
    pub sig: FnSig,
    /// The fixture file's full path: the project root joined with the
    /// configured relative path.
    pub fixture_path: String,
}

/// The diagnostics of the planning phase, in report order: configuration,
/// then signature, then environment.
pub open spec fn plan_diags_spec(
    attr: Seq<char>,
    item: Seq<char>,
    root: Result<Seq<char>, Seq<char>>,
) -> Seq<SpecDiag> {
    (match parse_config_spec(attr) {
        ConfigParse::Parsed { ser, de, file } => seq![],
        ConfigParse::Rejected { detail } => seq![SpecDiag::Config { detail }],
    }) + (match sig_spec(item) {
        Option::Some(_) => seq![],
        Option::None => seq![
            SpecDiag::Signature { detail: "expected a function declaration"@ },
        ],
    }) + (match root {
        Result::Ok(_) => seq![],
        Result::Err(detail) => seq![SpecDiag::Environment { detail }],
    })
}

/// Whether the planning phase succeeds: the configuration parses, the item
/// is a function declaration, and the project root resolved.
pub open spec fn plan_ok_spec(
    attr: Seq<char>,
    item: Seq<char>,
    root: Result<Seq<char>, Seq<char>>,
) -> bool {
    &&& parse_config_spec(attr) is Parsed
    &&& sig_spec(item) is Some
    &&& root is Ok
}

/// The planning phase: parses the configuration, analyzes the annotated
/// item's signature and takes the project root's lookup result, evaluating
/// all three independently and reporting every failing one together — never
/// only the first.
pub fn plan_generation(attr: &str, item: &str, root: Result<String, String>) -> (r: Result<
    GenPlan,
    Vec<Diag>,
>)
    ensures
        match r {
            Ok(plan) => {
                &&& plan_ok_spec(attr@, item@, crate::outcome::result_view(root))
                &&& parse_config_spec(attr@) == (ConfigParse::Parsed {
                    ser: plan.config.ser@,
                    de: plan.config.de@,
                    file: plan.config.file@,
                })
                &&& sig_spec(item@) == Some(plan.sig@)
                &&& root matches Ok(dir) && plan.fixture_path@ == join_path_spec(
                    dir@,
                    plan.config.file@,
                )
            },
            Err(diags) => {
                &&& !plan_ok_spec(attr@, item@, crate::outcome::result_view(root))
                &&& diags.deep_view() == plan_diags_spec(
                    attr@,
                    item@,
                    crate::outcome::result_view(root),
                )
                &&& diags.len() > 0
            },
        },
{
    let config = parse_config(attr);
    let sig = analyze_item(item);
    match (config, sig, root) {
        (Ok(config), Ok(sig), Ok(dir)) => {
            let fixture_path = join_path(dir.as_str(), config.file.as_str());
            Ok(GenPlan { config, sig, fixture_path })
        },
        (config, sig, root) => {
            let mut diags: Vec<Diag> = Vec::new();
            if let Err(d) = config {
                diags.push(d);
            }
            if let Err(d) = sig {
                diags.push(d);
            }
            if let Err(detail) = root {
                diags.push(Diag::Environment { detail });
            }
            proof {
                assert(diags.deep_view() =~= plan_diags_spec(
                    attr@,
                    item@,
                    crate::outcome::result_view(root),
                ));
            }
            Err(diags)
        },
    }
}

/// The emitted suite for a successful plan and the fixture file's text.
pub open spec fn suite_of_plan(plan: GenPlan, recs: Seq<crate::fixture::SpecRecord>) -> Seq<char> {
    suite_src_spec(
        base_name_spec(plan.fixture_path@),
        plan.fixture_path@,
        plan.config.ser@,
        plan.config.de@,
        plan.sig.name@,
        plan.sig.return_type@,
        gen_spec(base_name_spec(plan.fixture_path@), recs),
    )
}

/// For every well-formed fixture file, exactly one generated test exists
/// per record, the i-th named deterministically from the fixture's base
/// name and the i-th record's sanitized name.
pub proof fn lemma_one_test_per_fixture_record(s: Seq<char>, base: Seq<char>)
    requires
        fixture_parse(s) is Records,
    ensures
        ({
            let recs = fixture_parse(s)->Records_0;
            &&& gen_spec(base, recs).len() == recs.len()
            &&& forall|i: int|
                0 <= i < recs.len() ==> gen_spec(base, recs)[i].test_name == base + recs[i].name
                    && gen_spec(base, recs)[i].record == recs[i]
        }),
{
}

/// The generation phase: parses the fixture text and renders the shared
/// helper and one test per record, or reports the fixture's diagnostics —
/// one per malformed record.
pub fn build_suite(plan: &GenPlan, fixture_text: &str) -> (r: Result<String, Vec<Diag>>)
    requires
        proper_file_name(plan.fixture_path@),
    ensures
        match r {
            Ok(src) => fixture_parse(fixture_text@) matches FixtureOutcome::Records(recs) && src@
                == suite_of_plan(*plan, recs),
            Err(diags) => fixture_parse(fixture_text@) matches FixtureOutcome::Problems(probs)
                && diags.deep_view() == probs && diags.len() > 0,
        },
{
    match parse_fixture(fixture_text) {
        Err(diags) => Err(diags),
        Ok(recs) => {
            let base = base_name(plan.fixture_path.as_str());
            let tests = generate_tests(base.as_str(), &recs);
            let src = render_suite(
                base.as_str(),
                plan.fixture_path.as_str(),
                plan.config.ser.as_str(),
                plan.config.de.as_str(),
                plan.sig.name.as_str(),
                plan.sig.return_type.as_str(),
                &tests,
            );
            Ok(src)
        },
    }
}

} // verus!
