use vstd::prelude::*;

verus! {

/// The outcome of matching a glob pattern against a text.
/// The two clean outcomes are ordered `Unmatched < Matched`.
#[derive(Debug, Clone, Copy, PartialEq, Eq, Structural, PartialOrd, Ord)]
pub enum GlobResult {
    /// The pattern is well formed as far as it was read, and does not match.
    Unmatched,
    /// The pattern matches the whole text.
    Matched,
    /// The pattern is malformed where the matcher reached it.
    SyntaxError,
}

impl GlobResult {
    /// The boolean projection: a malformed pattern counts as "could not rule
    /// out a match".
    pub open spec fn truthy(self) -> bool {
        !(self is Unmatched)
    }

    /// Swaps the two clean outcomes; a syntax error stays what it is.
    pub open spec fn negated(self) -> GlobResult {
        match self {
            GlobResult::Matched => GlobResult::Unmatched,
            GlobResult::Unmatched => GlobResult::Matched,
            GlobResult::SyntaxError => GlobResult::SyntaxError,
        }
    }

    /// The clean outcome of a plain comparison.
    pub open spec fn of_bool(b: bool) -> GlobResult {
        if b {
            GlobResult::Matched
        } else {
            GlobResult::Unmatched
        }
    }

    /// The diagnostic name of each outcome.
    pub open spec fn name_spec(self) -> Seq<char> {
        match self {
            GlobResult::Unmatched => "GLOB_UNMATCHED"@,
            GlobResult::Matched => "GLOB_MATCHED"@,
            GlobResult::SyntaxError => "GLOB_SYNTAX_ERROR"@,
        }
    }

    /// The human-readable name of the outcome, for diagnostics.
    pub fn name(&self) -> (r: &'static str)
        ensures
            r@ == self.name_spec(),
    {
        match self {
            GlobResult::Unmatched => "GLOB_UNMATCHED",
            GlobResult::Matched => "GLOB_MATCHED",
            GlobResult::SyntaxError => "GLOB_SYNTAX_ERROR",
        }
    }
}

impl std::ops::Not for GlobResult {
    type Output = GlobResult;

    fn not(self) -> (r: GlobResult) {
        match self {
            GlobResult::Matched => GlobResult::Unmatched,
            GlobResult::Unmatched => GlobResult::Matched,
            GlobResult::SyntaxError => GlobResult::SyntaxError,
        }
    }
}

impl vstd::std_specs::ops::NotSpecImpl for GlobResult {
    open spec fn obeys_not_spec() -> bool {
        true
    }

    open spec fn not_req(self) -> bool {
        true
    }

    open spec fn not_spec(self) -> GlobResult {
        self.negated()
    }
}

impl From<bool> for GlobResult {
    fn from(b: bool) -> (r: GlobResult) {
        if b {
            GlobResult::Matched
        } else {
            GlobResult::Unmatched
        }
    }
}

impl vstd::std_specs::convert::FromSpecImpl<bool> for GlobResult {
    open spec fn obeys_from_spec() -> bool {
        true
    }

    open spec fn from_spec(b: bool) -> GlobResult {
        GlobResult::of_bool(b)
    }
}

impl From<GlobResult> for bool {
    fn from(gr: GlobResult) -> (r: bool) {
        gr == GlobResult::Matched || gr == GlobResult::SyntaxError
    }
}

impl vstd::std_specs::convert::FromSpecImpl<GlobResult> for bool {
    open spec fn obeys_from_spec() -> bool {
        true
    }

    open spec fn from_spec(gr: GlobResult) -> bool {
        gr.truthy()
    }
}

} // verus!
