//! `no-dataclass`: `@dataclass` and imports of `dataclasses`.
use vstd::prelude::*;

use crate::diagnostic::{finding, findings, Diagnostic, Finding};
use crate::rules::{emit, field_text_is, field_text_is_exec, report};
use crate::syntax::{field_index_from, kind_is, lemma_field_index_from_bounds, text, SyntaxNode};
use crate::text::append_str;

verus! {

#[derive(Clone, Copy)]
pub struct NoDataclass;

/// `dataclass`, `x.dataclass`, or a call of either (`dataclass(frozen=True)`).
pub open spec fn is_dataclass_expr(n: SyntaxNode, src: Seq<u8>) -> bool
    decreases n,
{
    if kind_is(n, "identifier"@) {
        text(n, src) == "dataclass"@
    } else if kind_is(n, "attribute"@) {
        field_text_is(n, "attribute"@, src, "dataclass"@)
    } else if kind_is(n, "call"@) {
        match field_index_from(n.children@, "function"@, 0) {
            Some(i) => if 0 <= i < n.children@.len() {
                is_dataclass_expr(n.children@[i], src)
            } else {
                false
            },
            None => false,
        }
    } else {
        false
    }
}

/// `import dataclasses`, plain or aliased, among the children of an import.
pub open spec fn imports_dataclasses(c: SyntaxNode, src: Seq<u8>) -> bool {
    ||| kind_is(c, "dotted_name"@) && text(c, src) == "dataclasses"@
    ||| kind_is(c, "aliased_import"@) && field_text_is(c, "name"@, src, "dataclasses"@)
}

pub open spec fn dataclass_message() -> Seq<char> {
    "Avoid `dataclass`; use Pydantic `BaseModel` or project-standard model base"@
}

/// Whether the node is reported: a decorator with a dataclass expression among
/// its children, an `import` of `dataclasses`, or a `from dataclasses import`.
pub open spec fn uses_dataclass(n: SyntaxNode, src: Seq<u8>) -> bool {
    if kind_is(n, "decorator"@) {
        exists|i: int| 0 <= i < n.children@.len() && is_dataclass_expr(#[trigger] n.children@[i], src)
    } else if kind_is(n, "import_statement"@) {
        exists|i: int| 0 <= i < n.children@.len() && imports_dataclasses(#[trigger] n.children@[i], src)
    } else if kind_is(n, "import_from_statement"@) {
        field_text_is(n, "module_name"@, src, "dataclasses"@)
    } else {
        false
    }
}

pub open spec fn no_dataclass_findings(n: SyntaxNode, src: Seq<u8>) -> Seq<Finding> {
    if uses_dataclass(n, src) {
        seq![finding("no-dataclass"@, n.line, n.col, dataclass_message())]
    } else {
        Seq::empty()
    }
}

/// Whether `n` is `dataclass`, `x.dataclass`, or a call of either.
pub fn is_dataclass_expr_exec(n: &SyntaxNode, src: &[u8]) -> (r: bool)
    ensures
        r == is_dataclass_expr(*n, src@),
    decreases n,
{
    if n.kind_is("identifier") {
        n.text_is(src, "dataclass")
    } else if n.kind_is("attribute") {
        field_text_is_exec(n, "attribute", src, "dataclass")
    } else if n.kind_is("call") {
        match n.field_index("function") {
            Some(i) => {
                proof { lemma_field_index_from_bounds(n.children@, "function"@, 0); }
                assert(decreases_to!(n => n.children@[i as int]));
                is_dataclass_expr_exec(&n.children[i], src)
            },
            None => false,
        }
    } else {
        false
    }
}

fn any_child_dataclass_expr(n: &SyntaxNode, src: &[u8]) -> (r: bool)
    ensures
        r == exists|i: int| 0 <= i < n.children@.len() && is_dataclass_expr(#[trigger] n.children@[i], src@),
{
    let len = n.children.len();
    let mut i: usize = 0;
    while i < len
        invariant
            len == n.children@.len(),
            0 <= i <= len,
            forall|j: int| 0 <= j < i ==> !is_dataclass_expr(#[trigger] n.children@[j], src@),
        decreases len - i,
    {
        if is_dataclass_expr_exec(&n.children[i], src) {
            return true;
        }
        i = i + 1;
    }
    false
}

fn any_child_imports_dataclasses(n: &SyntaxNode, src: &[u8]) -> (r: bool)
    ensures
        r == exists|i: int| 0 <= i < n.children@.len() && imports_dataclasses(#[trigger] n.children@[i], src@),
{
    let len = n.children.len();
    let mut i: usize = 0;
    while i < len
        invariant
            len == n.children@.len(),
            0 <= i <= len,
            forall|j: int| 0 <= j < i ==> !imports_dataclasses(#[trigger] n.children@[j], src@),
        decreases len - i,
    {
        let c = &n.children[i];
        if (c.kind_is("dotted_name") && c.text_is(src, "dataclasses"))
            || (c.kind_is("aliased_import") && field_text_is_exec(c, "name", src, "dataclasses")) {
            assert(imports_dataclasses(n.children@[i as int], src@));
            return true;
        }
        i = i + 1;
    }
    false
}

impl NoDataclass {
    pub fn check(&self, node: &SyntaxNode, src: &[u8], out: &mut Vec<Diagnostic>)
        ensures
            findings(final(out)@) == findings(old(out)@) + no_dataclass_findings(*node, src@),
    {
        let hit = if node.kind_is("decorator") {
            any_child_dataclass_expr(node, src)
        } else if node.kind_is("import_statement") {
            any_child_imports_dataclasses(node, src)
        } else if node.kind_is("import_from_statement") {
            field_text_is_exec(node, "module_name", src, "dataclasses")
        } else {
            false
        };
        if !hit {
            assert(findings(out@) =~= findings(out@) + Seq::<Finding>::empty());
            return;
        }
        let mut m: Vec<char> = Vec::new();
        append_str(&mut m, "Avoid `dataclass`; use Pydantic `BaseModel` or project-standard model base");
        let d = report("no-dataclass", node, &m);
        let ghost before = findings(out@);
        emit(out, d);
        assert(findings(out@) =~= before + no_dataclass_findings(*node, src@));
    }
}

} // verus!
