//! Meta-rule: its presence in the rule set activates the unknown-rule-code
//! check of the filter.  Running it contributes no diagnostics itself; the
//! filter does the work after the ordinary rules are done.

use vstd::prelude::*;
use crate::ast::Program;
use crate::context::Context;

verus! {

/// Detects ignore-directive codes that name no registered rule.
#[derive(Debug, Clone, Copy, PartialEq, Eq, Structural)]
pub struct BanUnknownRuleCode;

impl BanUnknownRuleCode {
    /// Creates the rule.
    pub fn new() -> (r: Self)
        ensures
            r == BanUnknownRuleCode,
    {
        BanUnknownRuleCode
    }

    /// The rule's unique stable code.
    pub fn code(&self) -> (c: &'static str)
        ensures
            c@ == "ban-unknown-rule-code"@,
    {
        "ban-unknown-rule-code"
    }

    /// Running the meta-rule changes nothing: the unknown-code scan runs
    /// as a filter stage, after every ordinary rule.
    pub fn lint_program(&self, context: &mut Context, _program: &Program)
        ensures
            *final(context) == *old(context),
    {
    }
}

} // verus!
