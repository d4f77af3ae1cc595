//! Build-time diagnostics: one structured value per independently detectable
//! error, each with its exact message text.

use vstd::prelude::*;

use crate::text::push_char;

verus! {

/// Mathematical model of a diagnostic.
pub enum SpecDiag {
    /// The fixture file does not end with a newline.
    MissingTrailingNewline,
    /// Non-whitespace content follows the final terminator line.
    TrailingContent,
    /// The record at this position has no `===` line after its name.
    MissingNameSeparator { index: nat },
    /// The record of this (sanitized) name has no `---` line after its input.
    MissingBodySeparator { name: Seq<char> },
    /// The sanitized record name is not a legal identifier.
    InvalidIdentifier { name: Seq<char> },
    /// The project root could not be resolved.
    Environment { detail: Seq<char> },
    /// The configuration text violates the configuration grammar.
    Config { detail: Seq<char> },
    /// The annotated item is not a function declaration.
    Signature { detail: Seq<char> },
    /// The fixture file could not be opened.
    FileOpen { detail: Seq<char> },
    /// The fixture file could not be read.
    FileRead { detail: Seq<char> },
}

/// A diagnostic attached to the generation site.
#[derive(Debug)]
pub enum Diag {
    MissingTrailingNewline,
    TrailingContent,
    MissingNameSeparator { index: usize },
    MissingBodySeparator { name: String },
    InvalidIdentifier { name: String },
    Environment { detail: String },
    Config { detail: String },
    Signature { detail: String },
    FileOpen { detail: String },
    FileRead { detail: String },
}

impl View for Diag {
    type V = SpecDiag;

    open spec fn view(&self) -> SpecDiag {
        match self {
            Diag::MissingTrailingNewline => SpecDiag::MissingTrailingNewline,
            Diag::TrailingContent => SpecDiag::TrailingContent,
            Diag::MissingNameSeparator { index } => SpecDiag::MissingNameSeparator {
                index: *index as nat,
            },
            Diag::MissingBodySeparator { name } => SpecDiag::MissingBodySeparator {
                name: name.view(),
            },
            Diag::InvalidIdentifier { name } => SpecDiag::InvalidIdentifier { name: name.view() },
            Diag::Environment { detail } => SpecDiag::Environment { detail: detail.view() },
            Diag::Config { detail } => SpecDiag::Config { detail: detail.view() },
            Diag::Signature { detail } => SpecDiag::Signature { detail: detail.view() },
            Diag::FileOpen { detail } => SpecDiag::FileOpen { detail: detail.view() },
            Diag::FileRead { detail } => SpecDiag::FileRead { detail: detail.view() },
        }
    }
}

impl DeepView for Diag {
    type V = SpecDiag;

    open spec fn deep_view(&self) -> SpecDiag {
        self.view()
    }
}

/// The decimal digit `d` as a character.
pub open spec fn dec_digit(d: int) -> char {
    if d == 0 {
        '0'
    } else if d == 1 {
        '1'
    } else if d == 2 {
        '2'
    } else if d == 3 {
        '3'
    } else if d == 4 {
        '4'
    } else if d == 5 {
        '5'
    } else if d == 6 {
        '6'
    } else if d == 7 {
        '7'
    } else if d == 8 {
        '8'
    } else {
        '9'
    }
}

/// `n` written in decimal, most significant digit first.
pub open spec fn dec_spec(n: nat) -> Seq<char>
    decreases n,
{
    if n < 10 {
        seq![dec_digit(n as int)]
    } else {
        dec_spec(n / 10) + seq![dec_digit((n % 10) as int)]
    }
}

/// The decimal digit `d` as a character.
pub fn dec_digit_exec(d: usize) -> (r: char)
    requires
        d < 10,
    ensures
        r == dec_digit(d as int),
{
    if d == 0 {
        '0'
    } else if d == 1 {
        '1'
    } else if d == 2 {
        '2'
    } else if d == 3 {
        '3'
    } else if d == 4 {
        '4'
    } else if d == 5 {
        '5'
    } else if d == 6 {
        '6'
    } else if d == 7 {
        '7'
    } else if d == 8 {
        '8'
    } else {
        '9'
    }
}

/// Appends `n` in decimal to `out`.
pub fn push_decimal(out: &mut String, n: usize)
    ensures
        final(out)@ == old(out)@ + dec_spec(n as nat),
    decreases n,
{
    if n < 10 {
        push_char(out, dec_digit_exec(n));
        proof {
            assert(old(out)@ + dec_spec(n as nat) =~= old(out)@.push(dec_digit(n as int)));
        }
    } else {
        push_decimal(out, n / 10);
        let ghost mid = out@;
        push_char(out, dec_digit_exec(n % 10));
        proof {
            assert(out@ =~= old(out)@ + dec_spec(n as nat));
        }
    }
}

impl Diag {
    /// The message text of this diagnostic.
    pub open spec fn message_spec(d: SpecDiag) -> Seq<char> {
        match d {
            SpecDiag::MissingTrailingNewline => "file needs to have trailing newline"@,
            SpecDiag::TrailingContent => "file has disallowed content after final `...`"@,
            SpecDiag::MissingNameSeparator { index } => "test "@ + dec_spec(index)
                + " does not have `===` after name"@,
            SpecDiag::MissingBodySeparator { name } => "test `"@ + name
                + "` does not have `---` after input"@,
            SpecDiag::InvalidIdentifier { name } => "`"@ + name
                + "` is not a valid test name identifier"@,
            SpecDiag::Environment { detail } => "expected $CARGO_MANIFEST_DIR; "@ + detail,
            SpecDiag::Config { detail } => detail,
            SpecDiag::Signature { detail } => detail,
            SpecDiag::FileOpen { detail } => "failed to open file: "@ + detail,
            SpecDiag::FileRead { detail } => "failed to read file: "@ + detail,
        }
    }

    /// The message text of this diagnostic.
    pub fn message(&self) -> (r: String)
        ensures
            r@ == Self::message_spec(self@),
    {
        match self {
            Diag::MissingTrailingNewline => String::from_str("file needs to have trailing newline"),
            Diag::TrailingContent => String::from_str(
                "file has disallowed content after final `...`",
            ),
            Diag::MissingNameSeparator { index } => {
                let mut s = String::from_str("test ");
                push_decimal(&mut s, *index);
                s.append(" does not have `===` after name");
                s
            },
            Diag::MissingBodySeparator { name } => {
                let mut s = String::from_str("test `");
                s.append(name.as_str());
                s.append("` does not have `---` after input");
                s
            },
            Diag::InvalidIdentifier { name } => {
                let mut s = String::from_str("`");
                s.append(name.as_str());
                s.append("` is not a valid test name identifier");
                s
            },
            Diag::Environment { detail } => {
                let mut s = String::from_str("expected $CARGO_MANIFEST_DIR; ");
                s.append(detail.as_str());
                s
            },
            Diag::Config { detail } => String::from_str(detail.as_str()),
            Diag::Signature { detail } => String::from_str(detail.as_str()),
            Diag::FileOpen { detail } => {
                let mut s = String::from_str("failed to open file: ");
                s.append(detail.as_str());
                s
            },
            Diag::FileRead { detail } => {
                let mut s = String::from_str("failed to read file: ");
                s.append(detail.as_str());
                s
            },
        }
    }
}

} // verus!
