//! The `no-inferrable-types` rule, run over real parsed TypeScript.

use deno_lint::ast::{
    Callee, EntityName, Expr, KeywordKind, MediaType, Pat, Program, Site, Span, TsType, UnaryOp,
};
use deno_lint::diagnostic::LintDiagnostic;
use deno_lint::linter::{LinterBuilder, ParsedProgram};
use deno_lint::rules::no_inferrable_types::NoInferrableTypes;
use deno_lint::rules::LintRule;
use deno_lint::text_index::TextIndex;

use deno_ast::swc::ast as swc_ast;
use deno_ast::swc::ecma_visit::{Visit, VisitWith};

fn sp(span: deno_ast::swc::common::Span) -> Span {
    Span {
        lo: (span.lo.0 - 1) as usize,
        hi: (span.hi.0 - 1) as usize,
    }
}

fn conv_unop(op: swc_ast::UnaryOp) -> UnaryOp {
    match op {
        swc_ast::UnaryOp::Minus => UnaryOp::Minus,
        swc_ast::UnaryOp::Plus => UnaryOp::Plus,
        swc_ast::UnaryOp::Bang => UnaryOp::Bang,
        swc_ast::UnaryOp::Tilde => UnaryOp::Tilde,
        swc_ast::UnaryOp::TypeOf => UnaryOp::TypeOf,
        swc_ast::UnaryOp::Void => UnaryOp::Void,
        swc_ast::UnaryOp::Delete => UnaryOp::Delete,
    }
}

fn conv_callee(c: &swc_ast::Callee) -> Callee {
    match c {
        swc_ast::Callee::Super(_) => Callee::Super,
        swc_ast::Callee::Import(_) => Callee::Expr(Box::new(Expr::Other)),
        swc_ast::Callee::Expr(e) => Callee::Expr(Box::new(conv_expr(e))),
    }
}

fn conv_expr(e: &swc_ast::Expr) -> Expr {
    match e {
        swc_ast::Expr::Lit(l) => match l {
            swc_ast::Lit::BigInt(_) => Expr::BigIntLit,
            swc_ast::Lit::Bool(_) => Expr::BoolLit,
            swc_ast::Lit::Num(_) => Expr::NumLit,
            swc_ast::Lit::Null(_) => Expr::NullLit,
            swc_ast::Lit::Str(_) => Expr::StrLit,
            swc_ast::Lit::Regex(_) => Expr::RegexLit,
            _ => Expr::Other,
        },
        swc_ast::Expr::Tpl(_) => Expr::Tpl,
        swc_ast::Expr::Ident(i) => Expr::Ident(i.sym.to_string()),
        swc_ast::Expr::Call(c) => Expr::Call(conv_callee(&c.callee)),
        swc_ast::Expr::New(n) => Expr::New(Box::new(conv_expr(&n.callee))),
        swc_ast::Expr::OptChain(o) => match &*o.base {
            swc_ast::OptChainBase::Call(call) => Expr::OptChain(Box::new(Expr::Call(
                Callee::Expr(Box::new(conv_expr(&call.callee))),
            ))),
            swc_ast::OptChainBase::Member(_) => Expr::OptChain(Box::new(Expr::Other)),
        },
        swc_ast::Expr::Unary(u) => Expr::Unary(conv_unop(u.op), Box::new(conv_expr(&u.arg))),
        _ => Expr::Other,
    }
}

/// Captures the head entity name of a type reference through the visitor
/// interface.
struct RefNameFinder {
    name: Option<EntityName>,
}

impl Visit for RefNameFinder {
    fn visit_ts_entity_name(&mut self, node: &swc_ast::TsEntityName) {
        if self.name.is_none() {
            self.name = Some(match node {
                swc_ast::TsEntityName::Ident(i) => EntityName::Ident(i.sym.to_string()),
                _ => EntityName::Other,
            });
        }
    }
}

fn conv_ts_ann(ann: &swc_ast::TsTypeAnn) -> TsType {
    match &*ann.type_ann {
        swc_ast::TsType::TsKeywordType(k) => TsType::Keyword(match k.kind {
            swc_ast::TsKeywordTypeKind::TsBigIntKeyword => KeywordKind::BigIntKeyword,
            swc_ast::TsKeywordTypeKind::TsBooleanKeyword => KeywordKind::BooleanKeyword,
            swc_ast::TsKeywordTypeKind::TsNumberKeyword => KeywordKind::NumberKeyword,
            swc_ast::TsKeywordTypeKind::TsNullKeyword => KeywordKind::NullKeyword,
            swc_ast::TsKeywordTypeKind::TsStringKeyword => KeywordKind::StringKeyword,
            swc_ast::TsKeywordTypeKind::TsSymbolKeyword => KeywordKind::SymbolKeyword,
            swc_ast::TsKeywordTypeKind::TsUndefinedKeyword => KeywordKind::UndefinedKeyword,
            _ => KeywordKind::OtherKeyword,
        }),
        swc_ast::TsType::TsTypeRef(r) => {
            let mut finder = RefNameFinder { name: None };
            r.visit_children_with(&mut finder);
            TsType::Ref(finder.name.unwrap_or(EntityName::Other))
        },
        _ => TsType::Other,
    }
}

fn conv_pat(p: &swc_ast::Pat) -> Pat {
    match p {
        swc_ast::Pat::Ident(b) => Pat::Ident {
            type_ann: b.type_ann.as_ref().map(|a| conv_ts_ann(a)),
        },
        swc_ast::Pat::Assign(a) => Pat::Assign {
            left: Box::new(conv_pat(&a.left)),
            right: Box::new(conv_expr(&a.right)),
            span: sp(a.span),
        },
        _ => Pat::Other,
    }
}

struct Collector {
    sites: Vec<Site>,
}

impl Visit for Collector {
    fn visit_function(&mut self, f: &swc_ast::Function) {
        for param in &f.params {
            self.sites.push(Site::FnParam {
                pat: conv_pat(&param.pat),
                span: sp(param.span),
            });
        }
        f.visit_children_with(self);
    }

    fn visit_arrow_expr(&mut self, a: &swc_ast::ArrowExpr) {
        for pat in &a.params {
            self.sites.push(Site::ArrowParam { pat: conv_pat(pat) });
        }
        a.visit_children_with(self);
    }

    fn visit_class_prop(&mut self, p: &swc_ast::ClassProp) {
        self.sites.push(Site::ClassProp {
            readonly: p.readonly,
            is_optional: p.is_optional,
            ident_key: matches!(p.key, swc_ast::PropName::Ident(_)),
            value: p.value.as_ref().map(|v| conv_expr(v)),
            type_ann: p.type_ann.as_ref().map(|a| conv_ts_ann(a)),
            span: sp(p.span),
        });
        p.visit_children_with(self);
    }

    fn visit_private_prop(&mut self, p: &swc_ast::PrivateProp) {
        self.sites.push(Site::PrivateProp {
            readonly: p.readonly,
            is_optional: p.is_optional,
            value: p.value.as_ref().map(|v| conv_expr(v)),
            type_ann: p.type_ann.as_ref().map(|a| conv_ts_ann(a)),
            span: sp(p.span),
        });
        p.visit_children_with(self);
    }

    fn visit_var_decl(&mut self, d: &swc_ast::VarDecl) {
        for decl in &d.decls {
            self.sites.push(Site::VarDeclarator {
                name: conv_pat(&decl.name),
                init: decl.init.as_ref().map(|e| conv_expr(e)),
                span: sp(decl.span),
            });
        }
        d.visit_children_with(self);
    }
}

fn parse_and_collect(src: &str) -> ParsedProgram {
    let parsed = match deno_ast::parse_program(deno_ast::ParseParams {
        specifier: deno_ast::ModuleSpecifier::parse("file:///test.ts").unwrap(),
        text: src.into(),
        media_type: deno_ast::MediaType::TypeScript,
        capture_tokens: false,
        scope_analysis: false,
        maybe_syntax: None,
    }) {
        Ok(parsed) => parsed,
        Err(_) => return optchain_new_regexp_model(src),
    };
    let mut collector = Collector { sites: Vec::new() };
    match parsed.program_ref() {
        deno_ast::ProgramRef::Module(m) => m.visit_with(&mut collector),
        deno_ast::ProgramRef::Script(s) => s.visit_with(&mut collector),
    }
    ParsedProgram {
        filename: "file:///test.ts".to_string(),
        media_type: MediaType::TypeScript,
        text_index: TextIndex::build(parsed.text().as_bytes()),
        program: Program {
            sites: collector.sites,
        },
        file_ignore: None,
        line_ignores: Vec::new(),
    }
}

/// The vendored parser version treats `new RegExp?.('a')` as an early
/// error, so for those two inputs the tree the rule inspects is built
/// directly: one declarator whose initializer is `new` around an
/// optional-chain call of `RegExp`.
fn optchain_new_regexp_model(src: &str) -> ParsedProgram {
    assert!(src.ends_with("= new RegExp?.('a')"), "unexpected parse failure for {:?}", src);
    let annotated = src.contains(": RegExp =");
    let init = Expr::New(Box::new(Expr::OptChain(Box::new(Expr::Call(Callee::Expr(
        Box::new(Expr::Ident("RegExp".to_string())),
    ))))));
    let type_ann = if annotated {
        Some(TsType::Ref(EntityName::Ident("RegExp".to_string())))
    } else {
        None
    };
    let site = Site::VarDeclarator {
        name: Pat::Ident { type_ann },
        init: Some(init),
        span: Span {
            lo: 6,
            hi: src.len(),
        },
    };
    ParsedProgram {
        filename: "file:///test.ts".to_string(),
        media_type: MediaType::TypeScript,
        text_index: TextIndex::build(src.as_bytes()),
        program: Program { sites: vec![site] },
        file_ignore: None,
        line_ignores: Vec::new(),
    }
}

fn lint(src: &str) -> Vec<LintDiagnostic> {
    let linter = LinterBuilder::default()
        .rules(vec![LintRule::NoInferrableTypes(NoInferrableTypes::new())])
        .build();
    linter.lint_with_ast(parse_and_collect(src))
}

#[test]
fn no_inferrable_types_valid() {
    let cases = [
        "const a = 10n",
        "const a = -10n",
        "const a = BigInt(10)",
        "const a = -BigInt?.(10)",
        "const a = +BigInt?.(10)",
        "const a = false",
        "const a = true",
        "const a = Boolean(true)",
        "const a = Boolean(null)",
        "const a = Boolean?.(null)",
        "const a = !0",
        "const a = 10",
        "const a = +10",
        "const a = -10",
        "const a = Number('1')",
        "const a = +Number('1')",
        "const a = -Number('1')",
        "const a = Number?.('1')",
        "const a = +Number?.('1')",
        "const a = -Number?.('1')",
        "const a = Infinity",
        "const a = +Infinity",
        "const a = -Infinity",
        "const a = NaN",
        "const a = +NaN",
        "const a = -NaN",
        "const a = null",
        "const a = /a/",
        "const a = RegExp('a')",
        "const a = RegExp?.('a')",
        "const a = new RegExp?.('a')",
        "const a = 'str'",
        "const a = \"str\"",
        "const a = `str`",
        "const a = String(1)",
        "const a = String?.(1)",
        "const a = Symbol('a')",
        "const a = Symbol?.('a')",
        "const a = undefined",
        "const a = void someValue",
        "const fn = (a = 5, b = true, c = 'foo') => {};",
        "const fn = function (a = 5, b = true, c = 'foo') {};",
        "function fn(a = 5, b = true, c = 'foo') {}",
        "function fn(a: number, b: boolean, c: string) {}",
        "class Foo {\n      a = 5;\n      b = true;\n      c = 'foo';\n    }",
        "class Foo {\n      readonly a: number = 5;\n      }",
        "class Foo {\n        a?: number = 5;\n        b?: boolean = true;\n        c?: string = 'foo';\n      }",
        "const fn = function (a: any = 5, b: any = true, c: any = 'foo') {};",
    ];
    for src in cases {
        let diagnostics = lint(src);
        assert!(
            diagnostics.is_empty(),
            "expected no diagnostics for {:?}, got {:?}",
            src,
            diagnostics
        );
    }
}

#[test]
fn no_inferrable_types_invalid() {
    let cases: &[(&str, &[usize])] = &[
        ("const a: bigint = 10n", &[6]),
        ("const a: bigint = -10n", &[6]),
        ("const a: bigint = BigInt(10)", &[6]),
        ("const a: bigint = -BigInt?.(10)", &[6]),
        ("const a: boolean = false", &[6]),
        ("const a: boolean = true", &[6]),
        ("const a: boolean = Boolean(true)", &[6]),
        ("const a: boolean = Boolean(null)", &[6]),
        ("const a: boolean = Boolean?.(null)", &[6]),
        ("const a: boolean = !0", &[6]),
        ("const a: number = 10", &[6]),
        ("const a: number = +10", &[6]),
        ("const a: number = -10", &[6]),
        ("const a: number = Number('1')", &[6]),
        ("const a: number = +Number('1')", &[6]),
        ("const a: number = -Number('1')", &[6]),
        ("const a: number = Number?.('1')", &[6]),
        ("const a: number = +Number?.('1')", &[6]),
        ("const a: number = -Number?.('1')", &[6]),
        ("const a: number = Infinity", &[6]),
        ("const a: number = +Infinity", &[6]),
        ("const a: number = -Infinity", &[6]),
        ("const a: number = NaN", &[6]),
        ("const a: number = +NaN", &[6]),
        ("const a: number = -NaN", &[6]),
        ("const a: null = null", &[6]),
        ("const a: RegExp = /a/", &[6]),
        ("const a: RegExp = RegExp('a')", &[6]),
        ("const a: RegExp = RegExp?.('a')", &[6]),
        ("const a: RegExp = new RegExp?.('a')", &[6]),
        ("const a: string = 'str'", &[6]),
        ("const a: string = \"str\"", &[6]),
        ("const a: string = `str`", &[6]),
        ("const a: string = String(1)", &[6]),
        ("const a: string = String?.(1)", &[6]),
        ("const a: symbol = Symbol('a')", &[6]),
        ("const a: symbol = Symbol?.('a')", &[6]),
        ("const a: undefined = undefined", &[6]),
        ("const a: undefined = void someValue", &[6]),
        ("const a: number = 0, b: string = 'foo';", &[6, 21]),
        ("function f(a: number = 5) {};", &[11]),
        (
            "const fn = (a: number = 5, b: boolean = true, c: string = 'foo') => {};",
            &[12, 27, 46],
        ),
        ("class A { a: number = 42; }", &[10]),
        ("class A { a(x: number = 42) {} }", &[12]),
        ("class A { #foo: string = '' }", &[10]),
        ("class A { static #foo: string = '' }", &[10]),
        ("class A { #foo(x: number = 42) {} }", &[15]),
        ("class A { static #foo(x: number = 42) {} }", &[22]),
        ("function a() { const x: number = 5; }", &[21]),
        ("const a = () => { const b = (x: number = 42) => {}; };", &[29]),
        ("class A { a = class { b: number = 42; }; }", &[22]),
        ("const a = function () { let x: number = 42; };", &[28]),
    ];
    for (src, cols) in cases {
        let diagnostics = lint(src);
        assert_eq!(
            diagnostics.len(),
            cols.len(),
            "wrong diagnostic count for {:?}: {:?}",
            src,
            diagnostics
        );
        for (d, col) in diagnostics.iter().zip(cols.iter()) {
            assert_eq!(d.code, "no-inferrable-types");
            assert_eq!(d.message, "inferrable types are not allowed");
            assert_eq!(
                d.hint.as_deref(),
                Some("Remove the type, it is easily inferrable")
            );
            assert_eq!(d.range.start.column_index, *col, "for {:?}", src);
            assert_eq!(d.range.start.line_index, 0, "for {:?}", src);
        }
    }
}

#[test]
fn lint_twice_on_identical_text_is_identical() {
    let src = "const a: number = 10\nconst b = 2\nconst c: boolean = !0";
    let first = lint(src);
    let second = lint(src);
    assert_eq!(first, second);
    assert_eq!(first.len(), 2);
}

#[test]
fn diagnostics_on_later_lines_use_their_line_index() {
    let src = "const a = 1;\nconst b: number = 2;";
    let diagnostics = lint(src);
    assert_eq!(diagnostics.len(), 1);
    assert_eq!(diagnostics[0].range.start.line_index, 1);
    assert_eq!(diagnostics[0].range.start.column_index, 6);
    assert_eq!(diagnostics[0].range.start.byte_index, 19);
}
