//! Rule `no-inferrable-types`: a binding whose initializer already fixes
//! its type should not also carry the matching trivial type annotation.
//!
//! The rule walks the binding sites of the program and reports every site
//! whose annotation and initializer match one of the trivially inferrable
//! shapes (`: number = 10`, `: boolean = !0`, `: RegExp = /a/`, ...).

use vstd::prelude::*;
use crate::ast::{Callee, EntityName, Expr, KeywordKind, Pat, Program, Site, Span, TsType, UnaryOp};
use crate::context::{mk_diag_view, same_but_diagnostics, Context};
use crate::diagnostic::{diags_view, DiagView};
use crate::ignore_directives::string_eq_str;

verus! {

/// Whether `e` is an identifier spelled `name`.
pub open spec fn is_ident_named(e: Expr, name: Seq<char>) -> bool {
    match e {
        Expr::Ident(s) => s@ == name,
        _ => false,
    }
}

/// Whether a callee is an identifier spelled `name`.
pub open spec fn callee_is(c: Callee, name: Seq<char>) -> bool {
    match c {
        Callee::Expr(e) => is_ident_named(*e, name),
        Callee::Super => false,
    }
}

/// Whether `e` is a call whose callee is the identifier `name`.
pub open spec fn call_callee_is(e: Expr, name: Seq<char>) -> bool {
    match e {
        Expr::Call(c) => callee_is(c, name),
        _ => false,
    }
}

/// Initializers inferrable as `bigint`.
pub open spec fn bigint_triggers(v: Expr) -> bool {
    match v {
        Expr::BigIntLit => true,
        Expr::Call(c) => callee_is(c, "BigInt"@),
        Expr::Unary(_, arg) => match *arg {
            Expr::BigIntLit => true,
            Expr::Call(c) => callee_is(c, "BigInt"@),
            Expr::OptChain(inner) => call_callee_is(*inner, "BigInt"@),
            _ => false,
        },
        Expr::OptChain(inner) => call_callee_is(*inner, "BigInt"@),
        _ => false,
    }
}

/// Initializers inferrable as `boolean`.
pub open spec fn boolean_triggers(v: Expr) -> bool {
    match v {
        Expr::BoolLit => true,
        Expr::Call(c) => callee_is(c, "Boolean"@),
        Expr::Unary(op, _) => op == UnaryOp::Bang,
        Expr::OptChain(inner) => call_callee_is(*inner, "Boolean"@),
        _ => false,
    }
}

/// Initializers inferrable as `number`.
pub open spec fn number_triggers(v: Expr) -> bool {
    match v {
        Expr::NumLit => true,
        Expr::Call(c) => callee_is(c, "Number"@),
        Expr::Ident(s) => s@ == "NaN"@ || s@ == "Infinity"@,
        Expr::Unary(_, arg) => match *arg {
            Expr::NumLit => true,
            Expr::Call(c) => callee_is(c, "Number"@),
            Expr::Ident(s) => s@ == "NaN"@ || s@ == "Infinity"@,
            Expr::OptChain(inner) => call_callee_is(*inner, "Number"@),
            _ => false,
        },
        Expr::OptChain(inner) => call_callee_is(*inner, "Number"@),
        _ => false,
    }
}

/// Initializers inferrable as `null`.
pub open spec fn null_triggers(v: Expr) -> bool {
    match v {
        Expr::NullLit => true,
        _ => false,
    }
}

/// Initializers inferrable as `string`.
pub open spec fn string_triggers(v: Expr) -> bool {
    match v {
        Expr::StrLit => true,
        Expr::Tpl => true,
        Expr::Call(c) => callee_is(c, "String"@),
        Expr::OptChain(inner) => call_callee_is(*inner, "String"@),
        _ => false,
    }
}

/// Initializers inferrable as `symbol`.
pub open spec fn symbol_triggers(v: Expr) -> bool {
    match v {
        Expr::Call(c) => callee_is(c, "Symbol"@),
        Expr::OptChain(inner) => call_callee_is(*inner, "Symbol"@),
        _ => false,
    }
}

/// Initializers inferrable as `undefined`.
pub open spec fn undefined_triggers(v: Expr) -> bool {
    match v {
        Expr::Ident(s) => s@ == "undefined"@,
        Expr::Unary(op, _) => op == UnaryOp::Void,
        _ => false,
    }
}

/// Whether annotation keyword `k` with initializer `v` is inferrable.
pub open spec fn keyword_triggers(k: KeywordKind, v: Expr) -> bool {
    match k {
        KeywordKind::BigIntKeyword => bigint_triggers(v),
        KeywordKind::BooleanKeyword => boolean_triggers(v),
        KeywordKind::NumberKeyword => number_triggers(v),
        KeywordKind::NullKeyword => null_triggers(v),
        KeywordKind::StringKeyword => string_triggers(v),
        KeywordKind::SymbolKeyword => symbol_triggers(v),
        KeywordKind::UndefinedKeyword => undefined_triggers(v),
        KeywordKind::OtherKeyword => false,
    }
}

/// Initializers inferrable as `RegExp`.
pub open spec fn regexp_value_triggers(v: Expr) -> bool {
    match v {
        Expr::RegexLit => true,
        Expr::Call(c) => callee_is(c, "RegExp"@),
        Expr::New(callee) => match *callee {
            Expr::Ident(s) => s@ == "RegExp"@,
            Expr::OptChain(inner) => call_callee_is(*inner, "RegExp"@),
            _ => false,
        },
        Expr::OptChain(inner) => call_callee_is(*inner, "RegExp"@),
        _ => false,
    }
}

/// Whether a type-reference annotation with initializer `v` is
/// inferrable; only `RegExp` references are.
pub open spec fn ref_triggers(name: EntityName, v: Expr) -> bool {
    match name {
        EntityName::Ident(s) => s@ == "RegExp"@ && regexp_value_triggers(v),
        EntityName::Other => false,
    }
}

/// Whether annotation `t` with initializer `v` is inferrable.
pub open spec fn ts_type_triggers(t: TsType, v: Expr) -> bool {
    match t {
        TsType::Keyword(k) => keyword_triggers(k, v),
        TsType::Ref(name) => ref_triggers(name, v),
        TsType::Other => false,
    }
}

/// Whether a parameter pattern is a default-valued identifier whose
/// annotation is inferrable from the default.
pub open spec fn assign_pat_triggers(p: Pat) -> bool {
    match p {
        Pat::Assign { left, right, .. } => match *left {
            Pat::Ident { type_ann: Option::Some(t) } => ts_type_triggers(t, *right),
            _ => false,
        },
        _ => false,
    }
}

/// Whether a binding site violates the rule.
pub open spec fn site_violates(s: Site) -> bool {
    match s {
        Site::FnParam { pat, .. } => assign_pat_triggers(pat),
        Site::ArrowParam { pat } => assign_pat_triggers(pat),
        Site::ClassProp { readonly, is_optional, ident_key, value, type_ann, .. } => {
            &&& !readonly
            &&& !is_optional
            &&& ident_key
            &&& (match (value, type_ann) {
                (Option::Some(v), Option::Some(t)) => ts_type_triggers(t, v),
                _ => false,
            })
        },
        Site::PrivateProp { readonly, is_optional, value, type_ann, .. } => {
            &&& !readonly
            &&& !is_optional
            &&& (match (value, type_ann) {
                (Option::Some(v), Option::Some(t)) => ts_type_triggers(t, v),
                _ => false,
            })
        },
        Site::VarDeclarator { name, init, .. } => match (name, init) {
            (Pat::Ident { type_ann: Option::Some(t) }, Option::Some(v)) => ts_type_triggers(t, v),
            _ => false,
        },
    }
}

/// The span a site's diagnostic covers.
pub open spec fn site_span(s: Site) -> Span {
    match s {
        Site::FnParam { span, .. } => span,
        Site::ArrowParam { pat } => match pat {
            Pat::Assign { span, .. } => span,
            _ => Span { lo: 0, hi: 0 },
        },
        Site::ClassProp { span, .. } => span,
        Site::PrivateProp { span, .. } => span,
        Site::VarDeclarator { span, .. } => span,
    }
}

/// The diagnostic reported for a violating site.
pub open spec fn nit_diag(filename: Seq<char>, starts: Seq<usize>, s: Site) -> DiagView {
    mk_diag_view(
        filename,
        starts,
        site_span(s),
        "no-inferrable-types"@,
        "inferrable types are not allowed"@,
        Option::Some("Remove the type, it is easily inferrable"@),
    )
}

/// All diagnostics of the rule over the binding sites, in site order.
pub open spec fn nit_diags(sites: Seq<Site>, filename: Seq<char>, starts: Seq<usize>) -> Seq<
    DiagView,
>
    decreases sites.len(),
{
    if sites.len() == 0 {
        Seq::empty()
    } else {
        nit_diags(sites.drop_last(), filename, starts) + if site_violates(sites.last()) {
            seq![nit_diag(filename, starts, sites.last())]
        } else {
            Seq::empty()
        }
    }
}

/// Every diagnostic of the rule carries its code.
pub proof fn lemma_nit_diags_code(sites: Seq<Site>, filename: Seq<char>, starts: Seq<usize>)
    ensures
        forall|i: int|
            0 <= i < nit_diags(sites, filename, starts).len()
                ==> #[trigger] nit_diags(sites, filename, starts)[i].code
                == "no-inferrable-types"@,
    decreases sites.len(),
{
    if sites.len() > 0 {
        lemma_nit_diags_code(sites.drop_last(), filename, starts);
    }
}

/// Whether a callee is the identifier `name`.
fn check_callee(c: &Callee, name: &str) -> (r: bool)
    ensures
        r == callee_is(*c, name@),
{
    match c {
        Callee::Expr(e) => match &**e {
            Expr::Ident(s) => string_eq_str(s, name),
            _ => false,
        },
        Callee::Super => false,
    }
}

/// Whether `e` is a call whose callee is the identifier `name`.
fn check_call(e: &Expr, name: &str) -> (r: bool)
    ensures
        r == call_callee_is(*e, name@),
{
    match e {
        Expr::Call(c) => check_callee(c, name),
        _ => false,
    }
}

/// Whether `e` is the identifier `NaN` or `Infinity`.
fn check_nan_or_infinity(e: &Expr) -> (r: bool)
    ensures
        r == (match *e {
            Expr::Ident(s) => s@ == "NaN"@ || s@ == "Infinity"@,
            _ => false,
        }),
{
    match e {
        Expr::Ident(s) => {
            if string_eq_str(s, "NaN") {
                true
            } else {
                string_eq_str(s, "Infinity")
            }
        },
        _ => false,
    }
}

/// Whether annotation keyword `k` with initializer `v` is inferrable.
fn check_keyword(k: KeywordKind, v: &Expr) -> (r: bool)
    ensures
        r == keyword_triggers(k, *v),
{
    match k {
        KeywordKind::BigIntKeyword => match v {
            Expr::BigIntLit => true,
            Expr::Call(c) => check_callee(c, "BigInt"),
            Expr::Unary(_, arg) => match &**arg {
                Expr::BigIntLit => true,
                Expr::Call(c) => check_callee(c, "BigInt"),
                Expr::OptChain(inner) => check_call(&**inner, "BigInt"),
                _ => false,
            },
            Expr::OptChain(inner) => check_call(&**inner, "BigInt"),
            _ => false,
        },
        KeywordKind::BooleanKeyword => match v {
            Expr::BoolLit => true,
            Expr::Call(c) => check_callee(c, "Boolean"),
            Expr::Unary(op, _) => match op {
                UnaryOp::Bang => true,
                _ => false,
            },
            Expr::OptChain(inner) => check_call(&**inner, "Boolean"),
            _ => false,
        },
        KeywordKind::NumberKeyword => match v {
            Expr::NumLit => true,
            Expr::Call(c) => check_callee(c, "Number"),
            Expr::Ident(_) => check_nan_or_infinity(v),
            Expr::Unary(_, arg) => match &**arg {
                Expr::NumLit => true,
                Expr::Call(c) => check_callee(c, "Number"),
                Expr::Ident(_) => check_nan_or_infinity(&**arg),
                Expr::OptChain(inner) => check_call(&**inner, "Number"),
                _ => false,
            },
            Expr::OptChain(inner) => check_call(&**inner, "Number"),
            _ => false,
        },
        KeywordKind::NullKeyword => match v {
            Expr::NullLit => true,
            _ => false,
        },
        KeywordKind::StringKeyword => match v {
            Expr::StrLit => true,
            Expr::Tpl => true,
            Expr::Call(c) => check_callee(c, "String"),
            Expr::OptChain(inner) => check_call(&**inner, "String"),
            _ => false,
        },
        KeywordKind::SymbolKeyword => match v {
            Expr::Call(c) => check_callee(c, "Symbol"),
            Expr::OptChain(inner) => check_call(&**inner, "Symbol"),
            _ => false,
        },
        KeywordKind::UndefinedKeyword => match v {
            Expr::Ident(s) => string_eq_str(s, "undefined"),
            Expr::Unary(op, _) => match op {
                UnaryOp::Void => true,
                _ => false,
            },
            _ => false,
        },
        KeywordKind::OtherKeyword => false,
    }
}

/// Whether a type-reference annotation with initializer `v` is
/// inferrable.
fn check_ref(name: &EntityName, v: &Expr) -> (r: bool)
    ensures
        r == ref_triggers(*name, *v),
{
    match name {
        EntityName::Ident(s) => {
            if !string_eq_str(s, "RegExp") {
                return false;
            }
            match v {
                Expr::RegexLit => true,
                Expr::Call(c) => check_callee(c, "RegExp"),
                Expr::New(callee) => match &**callee {
                    Expr::Ident(s2) => string_eq_str(s2, "RegExp"),
                    Expr::OptChain(inner) => check_call(&**inner, "RegExp"),
                    _ => false,
                },
                Expr::OptChain(inner) => check_call(&**inner, "RegExp"),
                _ => false,
            }
        },
        EntityName::Other => false,
    }
}

/// Whether annotation `t` with initializer `v` is inferrable.
fn check_ts_type(t: &TsType, v: &Expr) -> (r: bool)
    ensures
        r == ts_type_triggers(*t, *v),
{
    match t {
        TsType::Keyword(k) => check_keyword(*k, v),
        TsType::Ref(name) => check_ref(name, v),
        TsType::Other => false,
    }
}

/// Whether a parameter pattern violates the rule.
fn check_pat(p: &Pat) -> (r: bool)
    ensures
        r == assign_pat_triggers(*p),
{
    match p {
        Pat::Assign { left, right, .. } => match &**left {
            Pat::Ident { type_ann: Option::Some(t) } => check_ts_type(t, &**right),
            _ => false,
        },
        _ => false,
    }
}

/// Whether a binding site violates the rule.
fn check_site(s: &Site) -> (r: bool)
    ensures
        r == site_violates(*s),
{
    match s {
        Site::FnParam { pat, .. } => check_pat(pat),
        Site::ArrowParam { pat } => check_pat(pat),
        Site::ClassProp { readonly, is_optional, ident_key, value, type_ann, .. } => {
            if *readonly || *is_optional || !*ident_key {
                return false;
            }
            match (value, type_ann) {
                (Option::Some(v), Option::Some(t)) => check_ts_type(t, v),
                _ => false,
            }
        },
        Site::PrivateProp { readonly, is_optional, value, type_ann, .. } => {
            if *readonly || *is_optional {
                return false;
            }
            match (value, type_ann) {
                (Option::Some(v), Option::Some(t)) => check_ts_type(t, v),
                _ => false,
            }
        },
        Site::VarDeclarator { name, init, .. } => match (name, init) {
            (Pat::Ident { type_ann: Option::Some(t) }, Option::Some(v)) => check_ts_type(t, v),
            _ => false,
        },
    }
}

/// The span a site's diagnostic covers.
fn site_span_of(s: &Site) -> (sp: Span)
    ensures
        sp == site_span(*s),
{
    match s {
        Site::FnParam { span, .. } => *span,
        Site::ArrowParam { pat } => match pat {
            Pat::Assign { span, .. } => *span,
            _ => Span { lo: 0, hi: 0 },
        },
        Site::ClassProp { span, .. } => *span,
        Site::PrivateProp { span, .. } => *span,
        Site::VarDeclarator { span, .. } => *span,
    }
}

/// The spans of the violating sites, in site order.
pub open spec fn nit_spans(sites: Seq<Site>) -> Seq<Span>
    decreases sites.len(),
{
    if sites.len() == 0 {
        Seq::empty()
    } else {
        nit_spans(sites.drop_last()) + if site_violates(sites.last()) {
            seq![site_span(sites.last())]
        } else {
            Seq::empty()
        }
    }
}

/// The diagnostics reported for a list of violating spans.
pub open spec fn span_diags(spans: Seq<Span>, filename: Seq<char>, starts: Seq<usize>) -> Seq<
    DiagView,
>
    decreases spans.len(),
{
    if spans.len() == 0 {
        Seq::empty()
    } else {
        span_diags(spans.drop_last(), filename, starts).push(
            mk_diag_view(
                filename,
                starts,
                spans.last(),
                "no-inferrable-types"@,
                "inferrable types are not allowed"@,
                Option::Some("Remove the type, it is easily inferrable"@),
            ),
        )
    }
}

/// Reporting the violating spans reports exactly the rule's diagnostics.
proof fn lemma_nit_diags_via_spans(sites: Seq<Site>, filename: Seq<char>, starts: Seq<usize>)
    ensures
        span_diags(nit_spans(sites), filename, starts) == nit_diags(sites, filename, starts),
    decreases sites.len(),
{
    if sites.len() > 0 {
        lemma_nit_diags_via_spans(sites.drop_last(), filename, starts);
        let pre = nit_spans(sites.drop_last());
        if site_violates(sites.last()) {
            assert(nit_spans(sites) =~= pre.push(site_span(sites.last())));
            assert(pre.push(site_span(sites.last())).drop_last() =~= pre);
            assert(nit_diags(sites, filename, starts) =~= nit_diags(
                sites.drop_last(),
                filename,
                starts,
            ).push(nit_diag(filename, starts, sites.last())));
        } else {
            assert(nit_spans(sites) =~= pre);
            assert(nit_diags(sites, filename, starts) =~= nit_diags(
                sites.drop_last(),
                filename,
                starts,
            ));
        }
    }
}

/// Walks the binding sites of one program and collects the spans that
/// violate the rule, in site order.
pub struct NoInferrableTypesVisitor {
    pub violations: Vec<Span>,
}

impl NoInferrableTypesVisitor {
    /// Creates a visitor with nothing collected yet.
    pub fn new() -> (v: NoInferrableTypesVisitor)
        ensures
            v.violations@ =~= Seq::<Span>::empty(),
    {
        NoInferrableTypesVisitor { violations: Vec::new() }
    }

    /// Visits one binding site, recording its span when it violates the
    /// rule.
    pub fn visit_site(&mut self, site: &Site)
        ensures
            final(self).violations@ == old(self).violations@ + if site_violates(*site) {
                seq![site_span(*site)]
            } else {
                Seq::<Span>::empty()
            },
    {
        let hit = check_site(site);
        if hit {
            let span = site_span_of(site);
            self.violations.push(span);
            proof {
                assert(self.violations@ =~= old(self).violations@ + seq![site_span(*site)]);
            }
        } else {
            proof {
                assert(self.violations@ =~= old(self).violations@ + Seq::<Span>::empty());
            }
        }
    }

    /// Visits every binding site of the program in order.
    pub fn visit_program(&mut self, program: &Program)
        ensures
            final(self).violations@ == old(self).violations@ + nit_spans(program.sites@),
    {
        let mut i: usize = 0;
        proof {
            assert(nit_spans(program.sites@.subrange(0, 0)) =~= Seq::<Span>::empty());
            assert(self.violations@ =~= old(self).violations@ + nit_spans(
                program.sites@.subrange(0, 0),
            ));
        }
        while i < program.sites.len()
            invariant
                i <= program.sites@.len(),
                self.violations@ == old(self).violations@ + nit_spans(
                    program.sites@.subrange(0, i as int),
                ),
            decreases program.sites@.len() - i,
        {
            self.visit_site(&program.sites[i]);
            proof {
                let pre = program.sites@.subrange(0, i as int + 1);
                assert(pre.drop_last() =~= program.sites@.subrange(0, i as int));
                assert(pre.last() == program.sites@[i as int]);
                assert(self.violations@ =~= old(self).violations@ + nit_spans(pre));
            }
            i = i + 1;
        }
        proof {
            assert(program.sites@.subrange(0, program.sites@.len() as int) =~= program.sites@);
        }
    }
}

/// Reports bindings whose type annotation is trivially inferrable from
/// the initializer.
#[derive(Debug, Clone, Copy, PartialEq, Eq, Structural)]
pub struct NoInferrableTypes;

impl NoInferrableTypes {
    /// Creates the rule.
    pub fn new() -> (r: Self)
        ensures
            r == NoInferrableTypes,
    {
        NoInferrableTypes
    }

    /// The rule's unique stable code.
    pub fn code(&self) -> (c: &'static str)
        ensures
            c@ == "no-inferrable-types"@,
    {
        "no-inferrable-types"
    }

    /// The rule's tag set.
    pub fn tags(&self) -> (t: Vec<String>)
        ensures
            t@.len() == 1,
            t@[0]@ == "recommended"@,
    {
        let mut t: Vec<String> = Vec::new();
        t.push("recommended".to_owned());
        t
    }

    /// Runs the rule: one diagnostic per violating binding site, in site
    /// order.
    pub fn lint_program(&self, context: &mut Context, program: &Program)
        requires
            old(context).wf(),
        ensures
            final(context).wf(),
            same_but_diagnostics(*old(context), *final(context)),
            diags_view(final(context).diagnostics@) == diags_view(old(context).diagnostics@)
                + nit_diags(program.sites@, old(context).filename@, old(context).starts()),
    {
        let ghost filename = old(context).filename@;
        let ghost starts = old(context).starts();
        let mut visitor = NoInferrableTypesVisitor::new();
        visitor.visit_program(program);
        proof {
            assert(visitor.violations@ =~= nit_spans(program.sites@));
        }
        let mut i: usize = 0;
        proof {
            assert(span_diags(visitor.violations@.subrange(0, 0), filename, starts) =~= Seq::<
                DiagView,
            >::empty());
            assert(diags_view(context.diagnostics@) =~= diags_view(old(context).diagnostics@)
                + span_diags(visitor.violations@.subrange(0, 0), filename, starts));
        }
        while i < visitor.violations.len()
            invariant
                context.wf(),
                same_but_diagnostics(*old(context), *context),
                i <= visitor.violations@.len(),
                visitor.violations@ == nit_spans(program.sites@),
                diags_view(context.diagnostics@) == diags_view(old(context).diagnostics@)
                    + span_diags(visitor.violations@.subrange(0, i as int), filename, starts),
                filename == old(context).filename@,
                starts == old(context).starts(),
            decreases visitor.violations@.len() - i,
        {
            let span = visitor.violations[i];
            context.add_diagnostic_with_hint(
                span,
                "no-inferrable-types",
                "inferrable types are not allowed",
                "Remove the type, it is easily inferrable",
            );
            proof {
                let pre = visitor.violations@.subrange(0, i as int + 1);
                assert(pre.drop_last() =~= visitor.violations@.subrange(0, i as int));
                assert(pre.last() == visitor.violations@[i as int]);
                assert(diags_view(context.diagnostics@) =~= diags_view(
                    old(context).diagnostics@,
                ) + span_diags(pre, filename, starts));
            }
            i = i + 1;
        }
        proof {
            assert(visitor.violations@.subrange(0, visitor.violations@.len() as int)
                =~= visitor.violations@);
            lemma_nit_diags_via_spans(program.sites@, filename, starts);
        }
    }
}

} // verus!

