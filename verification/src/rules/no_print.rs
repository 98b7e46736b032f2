//! `no-print`: `print()` has no place in code that logs.
use vstd::prelude::*;

use crate::diagnostic::{finding, findings, Diagnostic, Finding};
use crate::rules::{callee_name, callee_name_exec, emit, report};
use crate::syntax::{text, SyntaxNode};
use crate::text::append_str;

verus! {

#[derive(Clone, Copy)]
pub struct NoPrint;

pub open spec fn no_print_message() -> Seq<char> {
    "Avoid `print()`; use structured logging (structlog, logging, etc.)"@
}

/// A call of `print` or of `something.print` is reported.
pub open spec fn no_print_findings(n: SyntaxNode, src: Seq<u8>) -> Seq<Finding> {
    if callee_name(n) matches Some(name) && text(name, src) == "print"@ {
        seq![finding("no-print"@, n.line, n.col, no_print_message())]
    } else {
        Seq::empty()
    }
}

impl NoPrint {
    pub fn check(&self, node: &SyntaxNode, src: &[u8], out: &mut Vec<Diagnostic>)
        ensures
            findings(final(out)@) == findings(old(out)@) + no_print_findings(*node, src@),
    {
        let is_print = match callee_name_exec(node) {
            Some(name) => name.text_is(src, "print"),
            None => false,
        };
        if !is_print {
            assert(findings(out@) =~= findings(out@) + Seq::<Finding>::empty());
            return;
        }
        let mut m: Vec<char> = Vec::new();
        append_str(&mut m, "Avoid `print()`; use structured logging (structlog, logging, etc.)");
        let d = report("no-print", node, &m);
        let ghost before = findings(out@);
        emit(out, d);
        assert(findings(out@) =~= before + no_print_findings(*node, src@));
    }
}

} // verus!
