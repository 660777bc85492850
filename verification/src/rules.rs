//! The registered lint rules: a fixed, closed set of variants.
//!
//! Each rule has a unique stable code, a tag set and a priority; before a
//! pass the rules are sorted stably by priority, so the execution order is
//! deterministic for a fixed rule set.

pub mod ban_unknown_rule_code;
pub mod no_inferrable_types;

use vstd::prelude::*;
use crate::ast::{Program, Site};
use crate::context::{same_but_diagnostics, Context};
use crate::diagnostic::{diags_view, DiagView};
use crate::rules::ban_unknown_rule_code::BanUnknownRuleCode;
use crate::rules::no_inferrable_types::{nit_diags, NoInferrableTypes};

verus! {

/// One registered rule.
#[derive(Debug, Clone, Copy, PartialEq, Eq, Structural)]
pub enum LintRule {
    NoInferrableTypes(NoInferrableTypes),
    BanUnknownRuleCode(BanUnknownRuleCode),
}

impl LintRule {
    /// The rule's unique stable code.
    pub open spec fn spec_code(self) -> Seq<char> {
        match self {
            LintRule::NoInferrableTypes(_) => "no-inferrable-types"@,
            LintRule::BanUnknownRuleCode(_) => "ban-unknown-rule-code"@,
        }
    }

    /// The rule's priority key; lower runs earlier.  The meta-rule runs
    /// after the ordinary rules.
    pub open spec fn spec_priority(self) -> int {
        match self {
            LintRule::NoInferrableTypes(_) => 0,
            LintRule::BanUnknownRuleCode(_) => 1,
        }
    }

    /// The rule's unique stable code.
    pub fn code(&self) -> (c: &'static str)
        ensures
            c@ == self.spec_code(),
    {
        match self {
            LintRule::NoInferrableTypes(r) => r.code(),
            LintRule::BanUnknownRuleCode(r) => r.code(),
        }
    }

    /// The rule's priority key.
    pub fn priority(&self) -> (p: u32)
        ensures
            p as int == self.spec_priority(),
    {
        match self {
            LintRule::NoInferrableTypes(_) => 0,
            LintRule::BanUnknownRuleCode(_) => 1,
        }
    }

    /// Runs the rule over the program, appending its diagnostics to the
    /// context.
    pub fn run(&self, context: &mut Context, program: &Program)
        requires
            old(context).wf(),
        ensures
            final(context).wf(),
            same_but_diagnostics(*old(context), *final(context)),
            diags_view(final(context).diagnostics@) == diags_view(old(context).diagnostics@)
                + rule_diags_spec(
                *self,
                program.sites@,
                old(context).filename@,
                old(context).starts(),
            ),
    {
        match self {
            LintRule::NoInferrableTypes(r) => r.lint_program(context, program),
            LintRule::BanUnknownRuleCode(r) => {
                r.lint_program(context, program);
                proof {
                    assert(diags_view(context.diagnostics@) =~= diags_view(
                        old(context).diagnostics@,
                    ) + Seq::<DiagView>::empty());
                }
            },
        }
    }
}

/// The diagnostics one rule contributes, in discovery order.
pub open spec fn rule_diags_spec(
    r: LintRule,
    sites: Seq<Site>,
    filename: Seq<char>,
    starts: Seq<usize>,
) -> Seq<DiagView> {
    match r {
        LintRule::NoInferrableTypes(_) => nit_diags(sites, filename, starts),
        LintRule::BanUnknownRuleCode(_) => Seq::empty(),
    }
}

/// The diagnostics a rule list contributes when run front to back.
pub open spec fn rules_diags_spec(
    rs: Seq<LintRule>,
    sites: Seq<Site>,
    filename: Seq<char>,
    starts: Seq<usize>,
) -> Seq<DiagView>
    decreases rs.len(),
{
    if rs.len() == 0 {
        Seq::empty()
    } else {
        rules_diags_spec(rs.drop_last(), sites, filename, starts) + rule_diags_spec(
            rs.last(),
            sites,
            filename,
            starts,
        )
    }
}

/// The codes of a rule list, as character sequences.
pub open spec fn codes_view_of_rules(rs: Seq<LintRule>) -> Seq<Seq<char>> {
    rs.map_values(|r: LintRule| r.spec_code())
}

/// Whether the rule set contains the unknown-rule-code meta-rule, which
/// activates stage two of the filter.
pub open spec fn spec_checks_unknown(rs: Seq<LintRule>) -> bool {
    exists|i: int| 0 <= i < rs.len() && rs[i] is BanUnknownRuleCode
}

/// Whether the unknown-rule-code check is active for this rule set.
pub fn has_unknown_rule_code(rules: &Vec<LintRule>) -> (r: bool)
    ensures
        r == spec_checks_unknown(rules@),
{
    let mut i: usize = 0;
    while i < rules.len()
        invariant
            i <= rules@.len(),
            forall|k: int| 0 <= k < i ==> !(rules@[k] is BanUnknownRuleCode),
        decreases rules@.len() - i,
    {
        match &rules[i] {
            LintRule::BanUnknownRuleCode(_) => {
                return true;
            },
            _ => {},
        }
        i = i + 1;
    }
    false
}

/// The codes of the rule set, in order.
pub fn rule_codes(rules: &Vec<LintRule>) -> (r: Vec<String>)
    ensures
        r@.len() == rules@.len(),
        forall|i: int| 0 <= i < r@.len() ==> #[trigger] r@[i]@ == rules@[i].spec_code(),
{
    let mut r: Vec<String> = Vec::new();
    let mut i: usize = 0;
    while i < rules.len()
        invariant
            i <= rules@.len(),
            r@.len() == i,
            forall|k: int| 0 <= k < i ==> #[trigger] r@[k]@ == rules@[k].spec_code(),
        decreases rules@.len() - i,
    {
        r.push(rules[i].code().to_owned());
        i = i + 1;
    }
    r
}

/// Stable insertion of a rule by priority.
pub open spec fn insert_rule(s: Seq<LintRule>, x: LintRule) -> Seq<LintRule>
    decreases s.len(),
{
    if s.len() > 0 && s.last().spec_priority() > x.spec_priority() {
        insert_rule(s.drop_last(), x).push(s.last())
    } else {
        s.push(x)
    }
}

/// Stable sort of the rule list by priority.
pub open spec fn sort_rules_spec(s: Seq<LintRule>) -> Seq<LintRule>
    decreases s.len(),
{
    if s.len() == 0 {
        s
    } else {
        insert_rule(sort_rules_spec(s.drop_last()), s.last())
    }
}

/// Inserts one rule at its stable position by priority.
fn insert_rule_exec(list: Vec<LintRule>, x: LintRule) -> (r: Vec<LintRule>)
    ensures
        r@ == insert_rule(list@, x),
{
    let mut list = list;
    let mut pos: usize = list.len();
    proof {
        assert(list@.subrange(0, pos as int) =~= list@);
        assert(list@.subrange(pos as int, list@.len() as int) =~= Seq::<LintRule>::empty());
        assert(insert_rule(list@.subrange(0, pos as int), x) + list@.subrange(
            pos as int,
            list@.len() as int,
        ) =~= insert_rule(list@, x));
    }
    while pos > 0 && list[pos - 1].priority() > x.priority()
        invariant
            pos <= list@.len(),
            insert_rule(list@, x) == insert_rule(list@.subrange(0, pos as int), x)
                + list@.subrange(pos as int, list@.len() as int),
        decreases pos,
    {
        proof {
            let pre = list@.subrange(0, pos as int);
            let pre2 = list@.subrange(0, pos as int - 1);
            assert(pre.drop_last() =~= pre2);
            assert(pre.last() == list@[pos as int - 1]);
            assert(insert_rule(pre, x) == insert_rule(pre2, x).push(list@[pos as int - 1]));
            assert(insert_rule(pre2, x).push(list@[pos as int - 1]) + list@.subrange(
                pos as int,
                list@.len() as int,
            ) =~= insert_rule(pre2, x) + list@.subrange(pos as int - 1, list@.len() as int));
        }
        pos = pos - 1;
    }
    proof {
        let pre = list@.subrange(0, pos as int);
        assert(insert_rule(pre, x) == pre.push(x));
        assert(pre.push(x) + list@.subrange(pos as int, list@.len() as int) =~= list@.insert(
            pos as int,
            x,
        ));
    }
    list.insert(pos, x);
    list
}

/// Sorts the rules stably by priority; the order is deterministic for a
/// fixed rule set.
pub fn sort_rules_by_priority(rules: &Vec<LintRule>) -> (r: Vec<LintRule>)
    ensures
        r@ == sort_rules_spec(rules@),
{
    let mut out: Vec<LintRule> = Vec::new();
    let mut i: usize = 0;
    proof {
        assert(rules@.subrange(0, 0) =~= Seq::<LintRule>::empty());
    }
    while i < rules.len()
        invariant
            i <= rules@.len(),
            out@ == sort_rules_spec(rules@.subrange(0, i as int)),
        decreases rules@.len() - i,
    {
        let x = rules[i];
        proof {
            let pre = rules@.subrange(0, i as int + 1);
            assert(pre.drop_last() =~= rules@.subrange(0, i as int));
            assert(pre.last() == rules@[i as int]);
        }
        out = insert_rule_exec(out, x);
        i = i + 1;
    }
    proof {
        assert(rules@.subrange(0, rules@.len() as int) =~= rules@);
    }
    out
}

/// Every diagnostic any rule contributes carries the no-inferrable-types
/// code: the meta-rule contributes none itself.
pub proof fn lemma_rules_diags_codes(
    rs: Seq<LintRule>,
    sites: Seq<Site>,
    filename: Seq<char>,
    starts: Seq<usize>,
)
    ensures
        forall|i: int|
            0 <= i < rules_diags_spec(rs, sites, filename, starts).len()
                ==> #[trigger] rules_diags_spec(rs, sites, filename, starts)[i].code
                == "no-inferrable-types"@,
    decreases rs.len(),
{
    if rs.len() > 0 {
        lemma_rules_diags_codes(rs.drop_last(), sites, filename, starts);
        crate::rules::no_inferrable_types::lemma_nit_diags_code(sites, filename, starts);
    }
}

} // verus!
