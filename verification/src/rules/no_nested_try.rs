//! `no-nested-try`: a `try` inside another `try`.
use vstd::prelude::*;

use crate::diagnostic::{finding, findings, Diagnostic, Finding};
use crate::rules::{emit, report, Scope};
use crate::syntax::SyntaxNode;
use crate::text::append_str;

verus! {

#[derive(Clone, Copy)]
pub struct NoNestedTry;

pub open spec fn no_nested_try_message() -> Seq<char> {
    "Avoid nested `try` blocks; extract the inner try into a separate function"@
}

/// A `try` statement is reported when some enclosing node is a `try` statement.
pub open spec fn no_nested_try_findings(n: SyntaxNode, scope: Scope) -> Seq<Finding> {
    if scope.in_try {
        seq![finding("no-nested-try"@, n.line, n.col, no_nested_try_message())]
    } else {
        Seq::empty()
    }
}

impl NoNestedTry {
    pub fn check(&self, node: &SyntaxNode, scope: &Scope, out: &mut Vec<Diagnostic>)
        ensures
            findings(final(out)@) == findings(old(out)@) + no_nested_try_findings(*node, *scope),
    {
        if !scope.in_try {
            assert(findings(out@) =~= findings(out@) + Seq::<Finding>::empty());
            return;
        }
        let mut m: Vec<char> = Vec::new();
        append_str(&mut m, "Avoid nested `try` blocks; extract the inner try into a separate function");
        let d = report("no-nested-try", node, &m);
        let ghost before = findings(out@);
        emit(out, d);
        assert(findings(out@) =~= before + no_nested_try_findings(*node, *scope));
    }
}

} // verus!
