//! `no-hasattr-getattr`: `hasattr()` and `getattr()` hide attribute errors.
use vstd::prelude::*;

use crate::diagnostic::{finding, findings, Diagnostic, Finding};
use crate::rules::{callee_name, callee_name_exec, emit, report};
use crate::syntax::{text, SyntaxNode};
use crate::text::append_str;

verus! {

#[derive(Clone, Copy)]
pub struct NoHasattrGetattr;

pub open spec fn is_banned_accessor(name: Seq<char>) -> bool {
    name == "hasattr"@ || name == "getattr"@
}

pub open spec fn hasattr_message(name: Seq<char>) -> Seq<char> {
    "Avoid `"@ + name + "()`; use explicit attribute checks or protocols"@
}

/// A call of `hasattr`/`getattr`, bare or as an attribute, is reported.
pub open spec fn no_hasattr_getattr_findings(n: SyntaxNode, src: Seq<u8>) -> Seq<Finding> {
    match callee_name(n) {
        Some(name) => if is_banned_accessor(text(name, src)) {
            seq![finding("no-hasattr-getattr"@, n.line, n.col, hasattr_message(text(name, src)))]
        } else {
            Seq::empty()
        },
        None => Seq::empty(),
    }
}

impl NoHasattrGetattr {
    pub fn check(&self, node: &SyntaxNode, src: &[u8], out: &mut Vec<Diagnostic>)
        ensures
            findings(final(out)@) == findings(old(out)@) + no_hasattr_getattr_findings(*node, src@),
    {
        let name = match callee_name_exec(node) {
            Some(name) => name,
            None => {
                assert(findings(out@) =~= findings(out@) + Seq::<Finding>::empty());
                return;
            },
        };
        let fn_name: &'static str = if name.text_is(src, "hasattr") {
            "hasattr"
        } else if name.text_is(src, "getattr") {
            "getattr"
        } else {
            assert(findings(out@) =~= findings(out@) + Seq::<Finding>::empty());
            return;
        };
        let mut m: Vec<char> = Vec::new();
        append_str(&mut m, "Avoid `");
        append_str(&mut m, fn_name);
        append_str(&mut m, "()`; use explicit attribute checks or protocols");
        let d = report("no-hasattr-getattr", node, &m);
        let ghost before = findings(out@);
        emit(out, d);
        assert(findings(out@) =~= before + no_hasattr_getattr_findings(*node, src@));
    }
}

} // verus!
