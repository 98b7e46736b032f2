//! `no-pass-except`: an `except` block that only says `pass`.
use vstd::prelude::*;

use crate::diagnostic::{finding, findings, Diagnostic, Finding};
use crate::rules::{emit, report};
use crate::syntax::{kind_is, SyntaxNode};
use crate::text::{append_str, first_index_from, lemma_first_index_scan};

verus! {

#[derive(Clone, Copy)]
pub struct NoPassExcept;

pub open spec fn is_block() -> spec_fn(SyntaxNode) -> bool {
    |c: SyntaxNode| kind_is(c, "block"@)
}

/// The number of named nodes among `cs[i..]`.
pub open spec fn named_count(cs: Seq<SyntaxNode>, i: int) -> nat
    decreases cs.len() - i,
{
    if i < 0 || i >= cs.len() {
        0
    } else {
        (if cs[i].named { 1nat } else { 0nat }) + named_count(cs, i + 1)
    }
}

/// The block holds exactly one statement, and it is `pass`.
pub open spec fn only_pass(block: SyntaxNode) -> bool {
    &&& named_count(block.children@, 0) == 1
    &&& forall|j: int| 0 <= j < block.children@.len() && (#[trigger] block.children@[j]).named
        ==> kind_is(block.children@[j], "pass_statement"@)
}

pub open spec fn pass_except_message() -> Seq<char> {
    "`except` block contains only `pass`; silently swallowing exceptions hides bugs"@
}

/// An `except` clause whose first block holds only `pass` is reported.
pub open spec fn no_pass_except_findings(n: SyntaxNode) -> Seq<Finding> {
    match first_index_from(n.children@, is_block(), 0) {
        Some(b) => if only_pass(n.children@[b]) {
            seq![finding("no-pass-except"@, n.line, n.col, pass_except_message())]
        } else {
            Seq::empty()
        },
        None => Seq::empty(),
    }
}

fn first_block(n: &SyntaxNode) -> (r: Option<usize>)
    ensures
        r matches Some(i) ==> first_index_from(n.children@, is_block(), 0) == Some(i as int)
            && i < n.children@.len(),
        r is None ==> first_index_from(n.children@, is_block(), 0) is None,
{
    let len = n.children.len();
    let mut i: usize = 0;
    while i < len
        invariant
            len == n.children@.len(),
            0 <= i <= len,
            forall|j: int| 0 <= j < i ==> !is_block()(#[trigger] n.children@[j]),
        decreases len - i,
    {
        if n.children[i].kind_is("block") {
            proof { lemma_first_index_scan(n.children@, is_block(), 0, i as int); }
            return Some(i);
        }
        i = i + 1;
    }
    proof { lemma_first_index_scan(n.children@, is_block(), 0, i as int); }
    None
}

fn only_pass_exec(block: &SyntaxNode) -> (r: bool)
    ensures
        r == only_pass(*block),
{
    let cs = &block.children;
    let n = cs.len();
    let mut count: usize = 0;
    let mut all_pass = true;
    let mut i: usize = n;
    while i > 0
        invariant
            n == cs@.len(),
            0 <= i <= n,
            count == named_count(cs@, i as int),
            count <= n - i,
            all_pass == forall|j: int| i <= j < n && (#[trigger] cs@[j]).named ==> kind_is(
                cs@[j],
                "pass_statement"@,
            ),
        decreases i,
    {
        i = i - 1;
        if cs[i].named {
            count = count + 1;
            if !cs[i].kind_is("pass_statement") {
                all_pass = false;
            }
        }
    }
    count == 1 && all_pass
}

impl NoPassExcept {
    pub fn check(&self, node: &SyntaxNode, out: &mut Vec<Diagnostic>)
        ensures
            findings(final(out)@) == findings(old(out)@) + no_pass_except_findings(*node),
    {
        let hit = match first_block(node) {
            Some(b) => only_pass_exec(&node.children[b]),
            None => false,
        };
        if !hit {
            assert(findings(out@) =~= findings(out@) + Seq::<Finding>::empty());
            return;
        }
        let mut m: Vec<char> = Vec::new();
        append_str(&mut m, "`except` block contains only `pass`; silently swallowing exceptions hides bugs");
        let d = report("no-pass-except", node, &m);
        let ghost before = findings(out@);
        emit(out, d);
        assert(findings(out@) =~= before + no_pass_except_findings(*node));
    }
}

} // verus!
