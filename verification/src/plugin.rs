//! Plugin host core: the per-request protocol of the plugin bridge.
//!
//! The bridge lets callers collect diagnostics from plugin callbacks.  One
//! request carries a file name and the parsed program; the host installs a
//! fresh `PluginCtx`, runs every configured callback against it, drains
//! the accumulated diagnostics and returns them as the response.  Exactly
//! one context exists per request and it never outlives the request.
//!
//! A callback can only reach the context through its two entry points:
//! `get_context` to read the file name and program, and `add_diagnostic`
//! to record one diagnostic.  `add_diagnostic` validates its offsets and
//! is a silent no-op when they do not fit the source text, so every
//! diagnostic of a response is well-formed for its own request however the
//! callback behaves.  Thread and channel wiring around this core lives
//! outside the library.

use vstd::prelude::*;
use crate::ast::Program;
use crate::diagnostic::{diags_view, DiagView, LintDiagnostic, Range};
use crate::text_index::{position_spec, TextIndex};

verus! {

/// Whether one diagnostic could have been recorded by `add_diagnostic`
/// under the given file name and text index: the text is non-empty, the
/// end offset stays inside it, and line and column agree with the index.
pub open spec fn plugin_diag_ok(d: LintDiagnostic, filename: String, ti: TextIndex) -> bool {
    &&& d.filename == filename
    &&& ti.text_len > 0
    &&& d.range.end.byte_index <= ti.text_len
    &&& d.range.start == position_spec(ti.line_starts@, d.range.start.byte_index)
    &&& d.range.end == position_spec(ti.line_starts@, d.range.end.byte_index)
}

/// The transient, single-owner state visible to plugin callbacks during
/// exactly one request.
pub struct PluginCtx {
    filename: String,
    text_index: TextIndex,
    program: Program,
    diagnostics: Vec<LintDiagnostic>,
}

impl PluginCtx {
    /// The file name of the request being processed.
    pub closed spec fn spec_filename(&self) -> String {
        self.filename
    }

    /// The text index of the request being processed.
    pub closed spec fn spec_index(&self) -> TextIndex {
        self.text_index
    }

    /// The program of the request being processed.
    pub closed spec fn spec_program(&self) -> Program {
        self.program
    }

    /// The diagnostics recorded so far.
    pub closed spec fn spec_diags(&self) -> Seq<LintDiagnostic> {
        self.diagnostics@
    }

    /// Length of the source text of the request.
    pub closed spec fn spec_text_len(&self) -> usize {
        self.text_index.text_len
    }

    #[verifier::type_invariant]
    spec fn type_inv(self) -> bool {
        &&& self.text_index.wf()
        &&& forall|i: int|
            0 <= i < self.diagnostics@.len() ==> plugin_diag_ok(
                #[trigger] self.diagnostics@[i],
                self.filename,
                self.text_index,
            )
    }

    /// Creates the context of one request, with no diagnostics recorded.
    pub fn new(filename: String, text_index: TextIndex, program: Program) -> (c: PluginCtx)
        requires
            text_index.wf(),
        ensures
            c.spec_filename() == filename,
            c.spec_index() == text_index,
            c.spec_program() == program,
            c.spec_diags() =~= Seq::<LintDiagnostic>::empty(),
    {
        PluginCtx { filename, text_index, program, diagnostics: Vec::new() }
    }

    /// Entry point `get-context`: the file name and the program of the
    /// current request, in the structural exchange form.
    pub fn get_context(&self) -> (r: (&String, &Program))
        ensures
            *r.0 == self.spec_filename(),
            *r.1 == self.spec_program(),
    {
        (&self.filename, &self.program)
    }

    /// Entry point `add-diagnostic`: records one diagnostic after
    /// validating that the source text is non-empty and that the end
    /// offset does not exceed its length; on invalid offsets the call is
    /// a silent no-op.
    pub fn add_diagnostic(
        &mut self,
        code: &str,
        message: &str,
        hint: Option<&str>,
        start_offset: usize,
        end_offset: usize,
    )
        ensures
            final(self).spec_filename() == old(self).spec_filename(),
            final(self).spec_index() == old(self).spec_index(),
            final(self).spec_program() == old(self).spec_program(),
            !(old(self).spec_text_len() > 0 && end_offset <= old(self).spec_text_len())
                ==> final(self).spec_diags() == old(self).spec_diags(),
            (old(self).spec_text_len() > 0 && end_offset <= old(self).spec_text_len())
                ==> diags_view(final(self).spec_diags()) == diags_view(
                old(self).spec_diags(),
            ).push(
                DiagView {
                    filename: old(self).spec_filename()@,
                    range: Range {
                        start: position_spec(old(self).spec_index().line_starts@, start_offset),
                        end: position_spec(old(self).spec_index().line_starts@, end_offset),
                    },
                    code: code@,
                    message: message@,
                    hint: match hint {
                        Option::Some(h) => Option::Some(h@),
                        Option::None => Option::None,
                    },
                },
            ),
    {
        proof {
            use_type_invariant(&*self);
        }
        if self.text_index.text_len == 0 {
            return ;
        }
        if end_offset > self.text_index.text_len {
            return ;
        }
        let start = self.text_index.position_of(start_offset);
        let end = self.text_index.position_of(end_offset);
        let d = LintDiagnostic {
            filename: self.filename.clone(),
            range: Range { start, end },
            code: code.to_owned(),
            message: message.to_owned(),
            hint: match hint {
                Option::Some(h) => Option::Some(h.to_owned()),
                Option::None => Option::None,
            },
        };
        let mut diags: Vec<LintDiagnostic> = Vec::new();
        core::mem::swap(&mut diags, &mut self.diagnostics);
        proof {
            assert(diags_view(diags@.push(d)) =~= diags_view(diags@).push(d@));
        }
        diags.push(d);
        self.diagnostics = diags;
    }

    /// Drains the recorded diagnostics at the end of the request.
    fn into_diagnostics(self) -> (r: Vec<LintDiagnostic>)
        ensures
            r@ == self.spec_diags(),
    {
        let mut this = self;
        proof {
            use_type_invariant(&this);
        }
        let mut diags: Vec<LintDiagnostic> = Vec::new();
        core::mem::swap(&mut diags, &mut this.diagnostics);
        diags
    }
}

/// A plugin callback.  A callback receives the context of the current
/// request and interacts with it only through its public entry points;
/// the contract records that those entry points leave the file name, text
/// index and program of the request unchanged.  Nothing is assumed about
/// which diagnostics a callback records.
pub trait LintPluginCallback {
    /// Handles one request.
    fn run(&self, ctx: &mut PluginCtx)
        ensures
            final(ctx).spec_filename() == old(ctx).spec_filename(),
            final(ctx).spec_index() == old(ctx).spec_index(),
            final(ctx).spec_program() == old(ctx).spec_program(),
    ;
}

/// One configured plugin: a name and its callback.
pub struct LintPlugin<P: LintPluginCallback> {
    pub name: String,
    pub callback: P,
}

/// One request into the plugin host: an owned, move-only message.
pub struct PluginLintRequest {
    pub filename: String,
    pub text_index: TextIndex,
    pub program: Program,
}

/// The response of one request: the diagnostics the callbacks recorded.
pub struct PluginLintResponse {
    pub diagnostics: Vec<LintDiagnostic>,
}

/// The response belongs to the request: every diagnostic carries the
/// request's own file name and fits the request's own source text, and an
/// empty source yields no diagnostics at all.
pub open spec fn response_matches(resp: PluginLintResponse, req: PluginLintRequest) -> bool {
    &&& forall|i: int|
        0 <= i < resp.diagnostics@.len() ==> plugin_diag_ok(
            #[trigger] resp.diagnostics@[i],
            req.filename,
            req.text_index,
        )
    &&& (req.text_index.text_len == 0 ==> resp.diagnostics@.len() == 0)
}

/// The plugin host: the configured plugins, loaded once at startup and
/// shared by every request.
pub struct PluginHost<P: LintPluginCallback> {
    pub plugins: Vec<LintPlugin<P>>,
}

impl<P: LintPluginCallback> PluginHost<P> {
    /// Creates a host with the given plugin list.
    pub fn new(plugins: Vec<LintPlugin<P>>) -> (h: PluginHost<P>)
        ensures
            h.plugins == plugins,
    {
        PluginHost { plugins }
    }

    /// Processes one request: installs a fresh context, runs every
    /// callback, and returns the drained diagnostics.  Whatever the
    /// callbacks do, the response matches the request.
    pub fn process_request(&self, request: PluginLintRequest) -> (response: PluginLintResponse)
        requires
            request.text_index.wf(),
        ensures
            response_matches(response, request),
    {
        let ghost req0 = request;
        let PluginLintRequest { filename, text_index, program } = request;
        let mut ctx = PluginCtx::new(filename, text_index, program);
        let mut i: usize = 0;
        while i < self.plugins.len()
            invariant
                i <= self.plugins@.len(),
                ctx.spec_filename() == req0.filename,
                ctx.spec_index() == req0.text_index,
                ctx.spec_program() == req0.program,
            decreases self.plugins@.len() - i,
        {
            let plugin = &self.plugins[i];
            plugin.callback.run(&mut ctx);
            i = i + 1;
        }
        proof {
            use_type_invariant(&ctx);
        }
        let diagnostics = ctx.into_diagnostics();
        let response = PluginLintResponse { diagnostics };
        proof {
            if req0.text_index.text_len == 0 && response.diagnostics@.len() > 0 {
                assert(plugin_diag_ok(
                    response.diagnostics@[0],
                    req0.filename,
                    req0.text_index,
                ));
            }
        }
        response
    }

    /// Processes a batch of requests in arrival order: one response per
    /// request, and the i-th response matches the i-th request — no
    /// cross-talk between callers.
    pub fn process_batch(&self, requests: Vec<PluginLintRequest>) -> (responses: Vec<
        PluginLintResponse,
    >)
        requires
            forall|i: int| 0 <= i < requests@.len() ==> (#[trigger] requests@[i]).text_index.wf(),
        ensures
            responses@.len() == requests@.len(),
            forall|i: int|
                0 <= i < responses@.len() ==> response_matches(
                    #[trigger] responses@[i],
                    requests@[i],
                ),
    {
        let ghost reqs0 = requests@;
        let mut remaining = requests;
        let mut responses: Vec<PluginLintResponse> = Vec::new();
        proof {
            assert(remaining@ =~= reqs0.subrange(0, reqs0.len() as int));
        }
        while remaining.len() > 0
            invariant
                responses@.len() <= reqs0.len(),
                remaining@ == reqs0.subrange(responses@.len() as int, reqs0.len() as int),
                forall|i: int| 0 <= i < reqs0.len() ==> (#[trigger] reqs0[i]).text_index.wf(),
                forall|i: int|
                    0 <= i < responses@.len() ==> response_matches(
                        #[trigger] responses@[i],
                        reqs0[i],
                    ),
            decreases remaining@.len(),
        {
            let ghost k = responses@.len() as int;
            let req = remaining.remove(0);
            proof {
                assert(req == reqs0[k]);
                assert(reqs0.subrange(k, reqs0.len() as int).remove(0) =~= reqs0.subrange(
                    k + 1,
                    reqs0.len() as int,
                ));
            }
            let resp = self.process_request(req);
            responses.push(resp);
        }
        responses
    }
}

} // verus!
