//! Errors of lowering a syntax tree to cards.
use vstd::prelude::*;

verus! {

#[derive(Debug, PartialEq, Eq)]
pub enum LowerError {
    /// A node of a kind that the lowering does not handle at this position.
    UnsupportedNode { kind: String, start: usize, end: usize },
    /// A call whose callee involves an index access or a call, e.g. `arr[i](x)`.
    DynamicCallUnsupported { start: usize, end: usize },
    /// An integer literal that does not fit an `i64`.
    BadInteger { text: String },
    /// A float literal that does not parse as an `f64`.
    BadFloat { text: String },
}

/// Why the lowering of a node stopped early.
pub enum Stop {
    /// An error that the lowering reports.
    Error(LowerError),
    /// An input on which the lowering has no answer and gives up: a tree out of
    /// the shape that the grammar gives (a parser never produces one), or more
    /// table literals in one function than the temporary counter can number.
    Panics,
}

/// Mathematical model of a [`LowerError`].
pub enum SpecLowerError {
    UnsupportedNode { kind: Seq<char>, start: usize, end: usize },
    DynamicCallUnsupported { start: usize, end: usize },
    BadInteger { text: Seq<char> },
    BadFloat { text: Seq<char> },
}

impl View for LowerError {
    type V = SpecLowerError;

    open spec fn view(&self) -> SpecLowerError {
        match self {
            LowerError::UnsupportedNode { kind, start, end } => SpecLowerError::UnsupportedNode {
                kind: kind@,
                start: *start,
                end: *end,
            },
            LowerError::DynamicCallUnsupported { start, end } => {
                SpecLowerError::DynamicCallUnsupported { start: *start, end: *end }
            },
            LowerError::BadInteger { text } => SpecLowerError::BadInteger { text: text@ },
            LowerError::BadFloat { text } => SpecLowerError::BadFloat { text: text@ },
        }
    }
}

} // verus!

verus! {

/// The text of an error.
pub open spec fn spec_message(e: SpecLowerError) -> Seq<char> {
    match e {
        SpecLowerError::UnsupportedNode { kind, start, end } => "unsupported node kind `"@ + kind
            + "` at byte "@ + crate::text::decimal(start as nat) + ".."@ + crate::text::decimal(
            end as nat,
        ),
        SpecLowerError::DynamicCallUnsupported { start, end } =>
            "dynamic call targets (index access in a call's callee, e.g. `arr[i](x)`) are not supported yet, at byte "@
            + crate::text::decimal(start as nat) + ".."@ + crate::text::decimal(end as nat),
        SpecLowerError::BadInteger { text } => "invalid integer literal `"@ + text + "`"@,
        SpecLowerError::BadFloat { text } => "invalid float literal `"@ + text + "`"@,
    }
}

fn push_range(out: &mut String, start: usize, end: usize)
    ensures
        final(out)@ == old(out)@ + crate::text::decimal(start as nat) + ".."@
            + crate::text::decimal(end as nat),
{
    crate::text::push_decimal(out, start as u64);
    out.append("..");
    crate::text::push_decimal(out, end as u64);
    assert(final(out)@ =~= old(out)@ + crate::text::decimal(start as nat) + ".."@
        + crate::text::decimal(end as nat));
}

impl LowerError {
    /// The text of the error.
    pub fn message(&self) -> (s: String)
        ensures
            s@ == spec_message(self@),
    {
        let mut s = String::new();
        match self {
            LowerError::UnsupportedNode { kind, start, end } => {
                s.append("unsupported node kind `");
                s.append(kind.as_str());
                s.append("` at byte ");
                push_range(&mut s, *start, *end);
                assert(s@ =~= spec_message(self@));
            },
            LowerError::DynamicCallUnsupported { start, end } => {
                s.append(
                    "dynamic call targets (index access in a call's callee, e.g. `arr[i](x)`) are not supported yet, at byte ",
                );
                push_range(&mut s, *start, *end);
                assert(s@ =~= spec_message(self@));
            },
            LowerError::BadInteger { text } => {
                s.append("invalid integer literal `");
                s.append(text.as_str());
                s.append("`");
                assert(s@ =~= spec_message(self@));
            },
            LowerError::BadFloat { text } => {
                s.append("invalid float literal `");
                s.append(text.as_str());
                s.append("`");
                assert(s@ =~= spec_message(self@));
            },
        }
        s
    }
}

} // verus!
