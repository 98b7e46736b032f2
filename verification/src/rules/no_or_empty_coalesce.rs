//! `no-or-empty-coalesce`: `obj.attr or {}` and the like.
use vstd::prelude::*;

use crate::diagnostic::{finding, findings, Diagnostic, Finding};
use crate::rules::{emit, report};
use crate::syntax::{field_child, kind_is, text, text_opt, SyntaxNode};
use crate::text::append_str;

verus! {

#[derive(Clone, Copy)]
pub struct NoOrEmptyCoalesce;

pub open spec fn is_bracket(c: SyntaxNode) -> bool {
    ||| kind_is(c, "{"@)
    ||| kind_is(c, "}"@)
    ||| kind_is(c, "["@)
    ||| kind_is(c, "]"@)
    ||| kind_is(c, "("@)
    ||| kind_is(c, ")"@)
}

/// A container literal with nothing but its brackets.
pub open spec fn is_empty_container(n: SyntaxNode) -> bool {
    forall|i: int| 0 <= i < n.children@.len() ==> is_bracket(#[trigger] n.children@[i])
}

/// A string literal with no content.
pub open spec fn is_empty_string(n: SyntaxNode) -> bool {
    &&& kind_is(n, "string"@)
    &&& forall|i: int| 0 <= i < n.children@.len() ==> !kind_is(#[trigger] n.children@[i], "string_content"@)
}

/// Adjacent string literals that are all empty.
pub open spec fn is_empty_concat_string(n: SyntaxNode) -> bool {
    forall|i: int| 0 <= i < n.children@.len() && kind_is(#[trigger] n.children@[i], "string"@)
        ==> is_empty_string(n.children@[i])
}

/// `set()` or `frozenset()` with nothing between the parentheses.
pub open spec fn is_empty_set_call(n: SyntaxNode, src: Seq<u8>) -> bool {
    &&& field_child(n, "function"@) matches Some(f)
    &&& kind_is(f, "identifier"@)
    &&& (text(f, src) == "set"@ || text(f, src) == "frozenset"@)
    &&& field_child(n, "arguments"@) matches Some(args)
    &&& forall|i: int| 0 <= i < args.children@.len()
        ==> (kind_is(#[trigger] args.children@[i], "("@) || kind_is(args.children@[i], ")"@))
}

/// A literal for an empty or falsy value: `{}`, `[]`, `()`, `""`, `0`, `0.0`,
/// `False`, empty adjacent strings, `set()`, `frozenset()`.
pub open spec fn is_empty_falsy_literal(n: SyntaxNode, src: Seq<u8>) -> bool {
    if kind_is(n, "dictionary"@) || kind_is(n, "list"@) || kind_is(n, "tuple"@) {
        is_empty_container(n)
    } else if kind_is(n, "string"@) {
        is_empty_string(n)
    } else if kind_is(n, "integer"@) {
        text(n, src) == "0"@
    } else if kind_is(n, "float"@) {
        text(n, src) == "0.0"@
    } else if kind_is(n, "false"@) {
        true
    } else if kind_is(n, "concatenated_string"@) {
        is_empty_concat_string(n)
    } else if kind_is(n, "call"@) {
        is_empty_set_call(n, src)
    } else {
        false
    }
}

pub open spec fn or_empty_message(rhs: Seq<char>) -> Seq<char> {
    "Avoid `... or "@ + rhs
        + "` — if the attribute can be None, check explicitly with `is None`; otherwise remove the fallback"@
}

/// `x.attr or <empty literal>` is reported, quoting the literal.
pub open spec fn no_or_empty_coalesce_findings(n: SyntaxNode, src: Seq<u8>) -> Seq<Finding> {
    match (field_child(n, "operator"@), field_child(n, "right"@), field_child(n, "left"@)) {
        (Some(op), Some(right), Some(left)) => if text(op, src) == "or"@ && is_empty_falsy_literal(
            right,
            src,
        ) && kind_is(left, "attribute"@) {
            let rhs = match text_opt(right, src) {
                Some(t) => t,
                None => "<empty>"@,
            };
            seq![finding("no-or-empty-coalesce"@, n.line, n.col, or_empty_message(rhs))]
        } else {
            Seq::empty()
        },
        _ => Seq::empty(),
    }
}

fn is_bracket_exec(c: &SyntaxNode) -> (r: bool)
    ensures
        r == is_bracket(*c),
{
    c.kind_is("{") || c.kind_is("}") || c.kind_is("[") || c.kind_is("]") || c.kind_is("(") || c.kind_is(")")
}

fn is_empty_container_exec(n: &SyntaxNode) -> (r: bool)
    ensures
        r == is_empty_container(*n),
{
    let len = n.children.len();
    let mut i: usize = 0;
    while i < len
        invariant
            len == n.children@.len(),
            0 <= i <= len,
            forall|j: int| 0 <= j < i ==> is_bracket(#[trigger] n.children@[j]),
        decreases len - i,
    {
        if !is_bracket_exec(&n.children[i]) {
            return false;
        }
        i = i + 1;
    }
    true
}

fn is_empty_string_exec(n: &SyntaxNode) -> (r: bool)
    ensures
        r == is_empty_string(*n),
{
    if !n.kind_is("string") {
        return false;
    }
    let len = n.children.len();
    let mut i: usize = 0;
    while i < len
        invariant
            len == n.children@.len(),
            0 <= i <= len,
            forall|j: int| 0 <= j < i ==> !kind_is(#[trigger] n.children@[j], "string_content"@),
        decreases len - i,
    {
        if n.children[i].kind_is("string_content") {
            return false;
        }
        i = i + 1;
    }
    true
}

fn is_empty_concat_string_exec(n: &SyntaxNode) -> (r: bool)
    ensures
        r == is_empty_concat_string(*n),
{
    let len = n.children.len();
    let mut i: usize = 0;
    while i < len
        invariant
            len == n.children@.len(),
            0 <= i <= len,
            forall|j: int| 0 <= j < i && kind_is(#[trigger] n.children@[j], "string"@)
                ==> is_empty_string(n.children@[j]),
        decreases len - i,
    {
        let c = &n.children[i];
        if c.kind_is("string") && !is_empty_string_exec(c) {
            return false;
        }
        i = i + 1;
    }
    true
}

fn is_empty_set_call_exec(n: &SyntaxNode, src: &[u8]) -> (r: bool)
    ensures
        r == is_empty_set_call(*n, src@),
{
    let f = match n.field_child("function") {
        Some(f) => f,
        None => return false,
    };
    if !f.kind_is("identifier") {
        return false;
    }
    if !(f.text_is(src, "set") || f.text_is(src, "frozenset")) {
        return false;
    }
    let args = match n.field_child("arguments") {
        Some(a) => a,
        None => return false,
    };
    let len = args.children.len();
    let mut i: usize = 0;
    while i < len
        invariant
            len == args.children@.len(),
            0 <= i <= len,
            field_child(*n, "arguments"@) == Some(*args),
            forall|j: int| 0 <= j < i ==> (kind_is(#[trigger] args.children@[j], "("@) || kind_is(
                args.children@[j],
                ")"@,
            )),
        decreases len - i,
    {
        let c = &args.children[i];
        if !(c.kind_is("(") || c.kind_is(")")) {
            assert(!(kind_is(args.children@[i as int], "("@) || kind_is(args.children@[i as int], ")"@)));
            return false;
        }
        i = i + 1;
    }
    true
}

/// Whether `n` is an empty or falsy literal.
pub fn is_empty_falsy_literal_exec(n: &SyntaxNode, src: &[u8]) -> (r: bool)
    ensures
        r == is_empty_falsy_literal(*n, src@),
{
    if n.kind_is("dictionary") || n.kind_is("list") || n.kind_is("tuple") {
        is_empty_container_exec(n)
    } else if n.kind_is("string") {
        is_empty_string_exec(n)
    } else if n.kind_is("integer") {
        n.text_is(src, "0")
    } else if n.kind_is("float") {
        n.text_is(src, "0.0")
    } else if n.kind_is("false") {
        true
    } else if n.kind_is("concatenated_string") {
        is_empty_concat_string_exec(n)
    } else if n.kind_is("call") {
        is_empty_set_call_exec(n, src)
    } else {
        false
    }
}

impl NoOrEmptyCoalesce {
    pub fn check(&self, node: &SyntaxNode, src: &[u8], out: &mut Vec<Diagnostic>)
        ensures
            findings(final(out)@) == findings(old(out)@) + no_or_empty_coalesce_findings(*node, src@),
    {
        let op = node.field_child("operator");
        let right = node.field_child("right");
        let left = node.field_child("left");
        let (op, right, left) = match (op, right, left) {
            (Some(o), Some(r), Some(l)) => (o, r, l),
            _ => {
                assert(findings(out@) =~= findings(out@) + Seq::<Finding>::empty());
                return;
            },
        };
        if !(op.text_is(src, "or") && is_empty_falsy_literal_exec(right, src) && left.kind_is("attribute")) {
            assert(findings(out@) =~= findings(out@) + Seq::<Finding>::empty());
            return;
        }
        let mut m: Vec<char> = Vec::new();
        append_str(&mut m, "Avoid `... or ");
        match right.text_str(src) {
            Some(t) => append_str(&mut m, t),
            None => append_str(&mut m, "<empty>"),
        }
        append_str(
            &mut m,
            "` — if the attribute can be None, check explicitly with `is None`; otherwise remove the fallback",
        );
        let d = report("no-or-empty-coalesce", node, &m);
        let ghost before = findings(out@);
        emit(out, d);
        assert(findings(out@) =~= before + no_or_empty_coalesce_findings(*node, src@));
    }
}

} // verus!
