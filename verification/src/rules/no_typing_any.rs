//! `no-typing-any`: `Any` in annotations and imports of `Any` from `typing`.
use vstd::prelude::*;

use crate::diagnostic::{all_under, finding, findings, lemma_all_under_add, Diagnostic, Finding};
use crate::rules::{emit, field_text_is, field_text_is_exec, report};
use crate::syntax::{field_child, kind_is, text, SyntaxNode};
use crate::text::append_str;

verus! {

#[derive(Clone, Copy)]
pub struct NoTypingAny;

pub open spec fn any_annotation_message() -> Seq<char> {
    "Avoid `Any` in type annotations; use specific types or protocols"@
}

pub open spec fn any_import_message() -> Seq<char> {
    "Avoid importing `Any`; use specific types or protocols"@
}

/// One finding for each `Any` identifier in `n`, searched depth first without
/// descending into nested `type` nodes (those are inspected on their own);
/// the search stops at an `Any` identifier.
pub open spec fn any_in_annotation(n: SyntaxNode, src: Seq<u8>) -> Seq<Finding>
    decreases n, 1int, 0int,
{
    if kind_is(n, "identifier"@) && text(n, src) == "Any"@ {
        seq![finding("no-typing-any"@, n.line, n.col, any_annotation_message())]
    } else {
        any_in_children(n, src, 0)
    }
}

pub open spec fn any_in_children(n: SyntaxNode, src: Seq<u8>, i: int) -> Seq<Finding>
    decreases n, 0int, n.children@.len() - i,
{
    if i < 0 || i >= n.children@.len() {
        Seq::empty()
    } else {
        let c = n.children@[i];
        let here = if kind_is(c, "type"@) {
            Seq::empty()
        } else {
            any_in_annotation(c, src)
        };
        here + any_in_children(n, src, i + 1)
    }
}

/// An imported name that is `Any`, plain or aliased.
pub open spec fn names_any(c: SyntaxNode, src: Seq<u8>) -> bool {
    ||| kind_is(c, "dotted_name"@) && text(c, src) == "Any"@
    ||| kind_is(c, "aliased_import"@) && field_text_is(c, "name"@, src, "Any"@)
}

/// A child of an import that imports `Any`, directly or inside a parenthesized list.
pub open spec fn imports_any(c: SyntaxNode, src: Seq<u8>) -> bool {
    ||| names_any(c, src)
    ||| kind_is(c, "import_list"@) && exists|j: int|
        0 <= j < c.children@.len() && names_any(#[trigger] c.children@[j], src)
}

/// `from typing import Any` or `from typing_extensions import Any`.
pub open spec fn imports_any_from_typing(n: SyntaxNode, src: Seq<u8>) -> bool {
    &&& field_child(n, "module_name"@) matches Some(m)
    &&& (text(m, src) == "typing"@ || text(m, src) == "typing_extensions"@)
    &&& exists|i: int| 0 <= i < n.children@.len() && imports_any(#[trigger] n.children@[i], src)
}

pub open spec fn no_typing_any_findings(n: SyntaxNode, src: Seq<u8>) -> Seq<Finding> {
    if kind_is(n, "type"@) {
        any_in_annotation(n, src)
    } else if kind_is(n, "import_from_statement"@) {
        if imports_any_from_typing(n, src) {
            seq![finding("no-typing-any"@, n.line, n.col, any_import_message())]
        } else {
            Seq::empty()
        }
    } else {
        Seq::empty()
    }
}

/// Reports each `Any` identifier in the annotation `n`.
fn find_any_identifiers(n: &SyntaxNode, src: &[u8], out: &mut Vec<Diagnostic>)
    ensures
        findings(final(out)@) == findings(old(out)@) + any_in_annotation(*n, src@),
    decreases n, 1int, 0int,
{
    if n.kind_is("identifier") && n.text_is(src, "Any") {
        let mut m: Vec<char> = Vec::new();
        append_str(&mut m, "Avoid `Any` in type annotations; use specific types or protocols");
        let d = report("no-typing-any", n, &m);
        let ghost before = findings(out@);
        emit(out, d);
        assert(findings(out@) =~= before + any_in_annotation(*n, src@));
        return;
    }
    find_any_in_children(n, 0, src, out);
}

fn find_any_in_children(n: &SyntaxNode, i: usize, src: &[u8], out: &mut Vec<Diagnostic>)
    requires
        i <= n.children@.len(),
    ensures
        findings(final(out)@) == findings(old(out)@) + any_in_children(*n, src@, i as int),
    decreases n, 0int, n.children@.len() - i,
{
    if i == n.children.len() {
        assert(findings(out@) =~= findings(out@) + Seq::<Finding>::empty());
        return;
    }
    let ghost start = findings(out@);
    let c = &n.children[i];
    if !c.kind_is("type") {
        assert(decreases_to!(n => n.children@[i as int]));
        find_any_identifiers(c, src, out);
    }
    let ghost mid = findings(out@);
    find_any_in_children(n, i + 1, src, out);
    assert(findings(out@) =~= start + any_in_children(*n, src@, i as int));
}

fn names_any_exec(c: &SyntaxNode, src: &[u8]) -> (r: bool)
    ensures
        r == names_any(*c, src@),
{
    (c.kind_is("dotted_name") && c.text_is(src, "Any")) || (c.kind_is("aliased_import")
        && field_text_is_exec(c, "name", src, "Any"))
}

fn imports_any_exec(c: &SyntaxNode, src: &[u8]) -> (r: bool)
    ensures
        r == imports_any(*c, src@),
{
    if names_any_exec(c, src) {
        return true;
    }
    if !c.kind_is("import_list") {
        return false;
    }
    let len = c.children.len();
    let mut j: usize = 0;
    while j < len
        invariant
            len == c.children@.len(),
            0 <= j <= len,
            kind_is(*c, "import_list"@),
            forall|k: int| 0 <= k < j ==> !names_any(#[trigger] c.children@[k], src@),
        decreases len - j,
    {
        if names_any_exec(&c.children[j], src) {
            return true;
        }
        j = j + 1;
    }
    false
}

fn imports_any_from_typing_exec(n: &SyntaxNode, src: &[u8]) -> (r: bool)
    ensures
        r == imports_any_from_typing(*n, src@),
{
    let m = match n.field_child("module_name") {
        Some(m) => m,
        None => return false,
    };
    if !(m.text_is(src, "typing") || m.text_is(src, "typing_extensions")) {
        return false;
    }
    let len = n.children.len();
    let mut i: usize = 0;
    while i < len
        invariant
            len == n.children@.len(),
            0 <= i <= len,
            field_child(*n, "module_name"@) == Some(*m),
            text(*m, src@) == "typing"@ || text(*m, src@) == "typing_extensions"@,
            forall|k: int| 0 <= k < i ==> !imports_any(#[trigger] n.children@[k], src@),
        decreases len - i,
    {
        if imports_any_exec(&n.children[i], src) {
            return true;
        }
        i = i + 1;
    }
    false
}

impl NoTypingAny {
    pub fn check(&self, node: &SyntaxNode, src: &[u8], out: &mut Vec<Diagnostic>)
        ensures
            findings(final(out)@) == findings(old(out)@) + no_typing_any_findings(*node, src@),
    {
        if node.kind_is("type") {
            find_any_identifiers(node, src, out);
            return;
        }
        if !(node.kind_is("import_from_statement") && imports_any_from_typing_exec(node, src)) {
            assert(findings(out@) =~= findings(out@) + Seq::<Finding>::empty());
            return;
        }
        let mut m: Vec<char> = Vec::new();
        append_str(&mut m, "Avoid importing `Any`; use specific types or protocols");
        let d = report("no-typing-any", node, &m);
        let ghost before = findings(out@);
        emit(out, d);
        assert(findings(out@) =~= before + no_typing_any_findings(*node, src@));
    }
}


/// Every finding of `any_in_annotation` is reported under this rule's name.
pub proof fn lemma_any_in_annotation_ids(n: SyntaxNode, src: Seq<u8>)
    ensures
        all_under(any_in_annotation(n, src), "no-typing-any"@),
    decreases n, 1int, 0int,
{
    if !(kind_is(n, "identifier"@) && text(n, src) == "Any"@) {
        lemma_any_in_children_ids(n, src, 0);
    }
}

pub proof fn lemma_any_in_children_ids(n: SyntaxNode, src: Seq<u8>, i: int)
    ensures
        all_under(any_in_children(n, src, i), "no-typing-any"@),
    decreases n, 0int, n.children@.len() - i,
{
    if 0 <= i < n.children@.len() {
        let c = n.children@[i];
        let here = if kind_is(c, "type"@) {
            Seq::empty()
        } else {
            any_in_annotation(c, src)
        };
        if !kind_is(c, "type"@) {
            lemma_any_in_annotation_ids(c, src);
        }
        lemma_any_in_children_ids(n, src, i + 1);
        lemma_all_under_add(here, any_in_children(n, src, i + 1), "no-typing-any"@);
    }
}

} // verus!
