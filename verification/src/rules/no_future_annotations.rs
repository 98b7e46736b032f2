//! `no-future-annotations`: `from __future__ import annotations`.
use vstd::prelude::*;

use crate::diagnostic::{finding, findings, Diagnostic, Finding};
use crate::rules::{emit, field_text_is, field_text_is_exec, report};
use crate::syntax::{kind_is, text, SyntaxNode};
use crate::text::append_str;

verus! {

#[derive(Clone, Copy)]
pub struct NoFutureAnnotations;

/// The imported name `annotations`, plain or aliased.
pub open spec fn names_annotations(c: SyntaxNode, src: Seq<u8>) -> bool {
    ||| kind_is(c, "dotted_name"@) && text(c, src) == "annotations"@
    ||| kind_is(c, "aliased_import"@) && field_text_is(c, "name"@, src, "annotations"@)
}

pub open spec fn future_annotations_message() -> Seq<char> {
    "Do not use `from __future__ import annotations`; unnecessary on Python 3.13+ and breaks runtime annotation inspection"@
}

/// A `__future__` import is reported once when it imports `annotations`.
pub open spec fn no_future_annotations_findings(n: SyntaxNode, src: Seq<u8>) -> Seq<Finding> {
    if exists|i: int| 0 <= i < n.children@.len() && names_annotations(#[trigger] n.children@[i], src) {
        seq![finding("no-future-annotations"@, n.line, n.col, future_annotations_message())]
    } else {
        Seq::empty()
    }
}

impl NoFutureAnnotations {
    pub fn check(&self, node: &SyntaxNode, src: &[u8], out: &mut Vec<Diagnostic>)
        ensures
            findings(final(out)@) == findings(old(out)@) + no_future_annotations_findings(*node, src@),
    {
        let n = node.children.len();
        let mut i: usize = 0;
        while i < n
            invariant
                n == node.children@.len(),
                0 <= i <= n,
                out@ == old(out)@,
                forall|j: int| 0 <= j < i ==> !names_annotations(#[trigger] node.children@[j], src@),
            decreases n - i,
        {
            let c = &node.children[i];
            let hit = (c.kind_is("dotted_name") && c.text_is(src, "annotations"))
                || (c.kind_is("aliased_import") && field_text_is_exec(c, "name", src, "annotations"));
            if hit {
                let mut m: Vec<char> = Vec::new();
                append_str(
                    &mut m,
                    "Do not use `from __future__ import annotations`; unnecessary on Python 3.13+ and breaks runtime annotation inspection",
                );
                let d = report("no-future-annotations", node, &m);
                let ghost before = findings(out@);
                emit(out, d);
                assert(names_annotations(node.children@[i as int], src@));
                assert(findings(out@) =~= before + no_future_annotations_findings(*node, src@));
                return;
            }
            i = i + 1;
        }
        assert(findings(out@) =~= findings(out@) + Seq::<Finding>::empty());
    }
}

} // verus!
