//! Plugin host scenarios: the request/response round trip, offset
//! validation, and request/response pairing over a batch.

use deno_lint::ast::Program;
use deno_lint::plugin::{
    LintPlugin, LintPluginCallback, PluginCtx, PluginHost, PluginLintRequest,
};
use deno_lint::text_index::TextIndex;

/// Unconditionally reports one diagnostic at offsets 0..1.
struct FixedPlugin;

impl LintPluginCallback for FixedPlugin {
    fn run(&self, ctx: &mut PluginCtx) {
        ctx.add_diagnostic("x", "msg", None, 0, 1);
    }
}

/// Reports one diagnostic whose message is the request's file name.
struct EchoPlugin;

impl LintPluginCallback for EchoPlugin {
    fn run(&self, ctx: &mut PluginCtx) {
        let (filename, _program) = ctx.get_context();
        let name = filename.clone();
        ctx.add_diagnostic("echo", &name, None, 0, 1);
    }
}

fn request(filename: &str, text: &str) -> PluginLintRequest {
    PluginLintRequest {
        filename: filename.to_string(),
        text_index: TextIndex::build(text.as_bytes()),
        program: Program { sites: Vec::new() },
    }
}

#[test]
fn plugin_round_trip() {
    let host = PluginHost::new(vec![LintPlugin {
        name: "fixed".to_string(),
        callback: FixedPlugin,
    }]);
    let response = host.process_request(request("file:///plugin.ts", "let a = 1;"));
    assert_eq!(response.diagnostics.len(), 1);
    let d = &response.diagnostics[0];
    assert_eq!(d.code, "x");
    assert_eq!(d.message, "msg");
    assert_eq!(d.hint, None);
    assert_eq!(d.filename, "file:///plugin.ts");
    assert_eq!(d.range.start.byte_index, 0);
    assert_eq!(d.range.end.byte_index, 1);
}

#[test]
fn plugin_round_trip_empty_source() {
    // Offset validation: an empty source makes add-diagnostic a silent
    // no-op, so the response is empty.
    let host = PluginHost::new(vec![LintPlugin {
        name: "fixed".to_string(),
        callback: FixedPlugin,
    }]);
    let response = host.process_request(request("file:///empty.ts", ""));
    assert_eq!(response.diagnostics.len(), 0);
}

/// Reports with an end offset past the end of the text.
struct OutOfRangePlugin;

impl LintPluginCallback for OutOfRangePlugin {
    fn run(&self, ctx: &mut PluginCtx) {
        ctx.add_diagnostic("far", "beyond the end", None, 0, 1000);
        ctx.add_diagnostic("ok", "fits", Some("a hint"), 1, 3);
    }
}

#[test]
fn invalid_offsets_are_a_silent_noop() {
    let host = PluginHost::new(vec![LintPlugin {
        name: "ranges".to_string(),
        callback: OutOfRangePlugin,
    }]);
    let response = host.process_request(request("file:///r.ts", "ab\ncd"));
    assert_eq!(response.diagnostics.len(), 1);
    let d = &response.diagnostics[0];
    assert_eq!(d.code, "ok");
    assert_eq!(d.hint.as_deref(), Some("a hint"));
    assert_eq!(d.range.start.byte_index, 1);
    assert_eq!(d.range.start.line_index, 0);
    assert_eq!(d.range.end.byte_index, 3);
    assert_eq!(d.range.end.line_index, 1);
    assert_eq!(d.range.end.column_index, 0);
}

#[test]
fn batch_responses_match_their_requests() {
    // Distinct requests through one host: each response carries its own
    // request's file name, in arrival order.
    let host = PluginHost::new(vec![LintPlugin {
        name: "echo".to_string(),
        callback: EchoPlugin,
    }]);
    let names = ["file:///a.ts", "file:///b.ts", "file:///c.ts"];
    let requests: Vec<PluginLintRequest> =
        names.iter().map(|n| request(n, "let a = 1;")).collect();
    let responses = host.process_batch(requests);
    assert_eq!(responses.len(), names.len());
    for (resp, name) in responses.iter().zip(names.iter()) {
        assert_eq!(resp.diagnostics.len(), 1);
        assert_eq!(resp.diagnostics[0].message, *name);
        assert_eq!(resp.diagnostics[0].filename, *name);
    }
}

#[test]
fn plugins_run_in_configured_order() {
    let host = PluginHost::new(vec![
        LintPlugin {
            name: "fixed".to_string(),
            callback: FixedPlugin,
        },
        LintPlugin {
            name: "fixed-again".to_string(),
            callback: FixedPlugin,
        },
    ]);
    let response = host.process_request(request("file:///two.ts", "let a = 1;"));
    assert_eq!(response.diagnostics.len(), 2);
}
