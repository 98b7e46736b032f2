//! What the rules and the walk report of a tree depends only on what its
//! nodes read: two trees that are the same node for node give the same
//! findings.
use vstd::prelude::*;

use crate::diagnostic::Finding;
use crate::rules::{callee_name, enter, field_text_is, rule_findings, rule_kinds, Rule, Scope};
use crate::engine::{children_findings, lint_findings, node_findings, tree_findings};
use crate::syntax::{
    field_child, kind_is, lemma_same_field_child, same_node, same_nodes, same_opt, text, text_opt,
    SyntaxNode,
};
use crate::text::first_index_from;
use crate::rules::no_dataclass::{imports_dataclasses, is_dataclass_expr};
use crate::rules::no_future_annotations::names_annotations;
use crate::rules::no_or_empty_coalesce::{
    is_bracket, is_empty_concat_string, is_empty_container, is_empty_falsy_literal, is_empty_set_call, is_empty_string,
};
use crate::rules::no_pass_except::{is_block, named_count, only_pass};
use crate::rules::no_sentinel_default::{
    assignment_parts, is_content, is_sentinel_arg, is_sentinel_call, is_sentinel_string,
    is_sentinel_value, string_content,
};
use crate::rules::no_typing_any::{any_in_annotation, any_in_children, imports_any, names_any};

verus! {

proof fn lemma_same_child(a: SyntaxNode, b: SyntaxNode, i: int)
    requires
        same_node(a, b),
        0 <= i < a.children@.len(),
    ensures
        same_node(a.children@[i], b.children@[i]),
        a.children@.len() == b.children@.len(),
{
    crate::syntax::lemma_same_children(a, b);
}

proof fn lemma_same_callee(a: SyntaxNode, b: SyntaxNode)
    requires
        same_node(a, b),
    ensures
        same_opt(callee_name(a), callee_name(b)),
{
    lemma_same_field_child(a, b, "function"@);
    match (field_child(a, "function"@), field_child(b, "function"@)) {
        (Some(fa), Some(fb)) => {
            lemma_same_field_child(fa, fb, "attribute"@);
        },
        _ => {},
    }
}

proof fn lemma_same_field_text(a: SyntaxNode, b: SyntaxNode, f: Seq<char>, src: Seq<u8>, lit: Seq<char>)
    requires
        same_node(a, b),
    ensures
        field_text_is(a, f, src, lit) == field_text_is(b, f, src, lit),
{
    lemma_same_field_child(a, b, f);
}

/// A search over the children that reads only what each child reads.
proof fn lemma_same_first_index(a: Seq<SyntaxNode>, b: Seq<SyntaxNode>, pred: spec_fn(SyntaxNode) -> bool, i: int)
    requires
        same_nodes(a, b),
        forall|j: int| 0 <= j < a.len() ==> pred(#[trigger] a[j]) == pred(b[j]),
    ensures
        first_index_from(a, pred, i) == first_index_from(b, pred, i),
    decreases a.len() - i,
{
    if 0 <= i < a.len() {
        assert(pred(a[i]) == pred(b[i]));
        lemma_same_first_index(a, b, pred, i + 1);
    }
}


proof fn lemma_same_exception_type_from(a: Seq<SyntaxNode>, b: Seq<SyntaxNode>, src: Seq<u8>, i: int, found: bool)
    requires
        same_nodes(a, b),
    ensures
        same_opt(
            crate::rules::no_bare_except::exception_type_from(a, src, i, found),
            crate::rules::no_bare_except::exception_type_from(b, src, i, found),
        ),
    decreases a.len() - i,
{
    if 0 <= i < a.len() {
        let (ca, cb) = (a[i], b[i]);
        assert(same_node(ca, cb));
        lemma_same_exception_type_from(a, b, src, i + 1, true);
        lemma_same_exception_type_from(a, b, src, i + 1, false);
        if kind_is(ca, "as_pattern"@) && ca.children@.len() > 0 {
            lemma_same_child(ca, cb, 0);
        }
    }
}

proof fn lemma_same_exception_type(a: SyntaxNode, b: SyntaxNode, src: Seq<u8>)
    requires
        same_node(a, b),
    ensures
        same_opt(
            crate::rules::no_bare_except::exception_type(a, src),
            crate::rules::no_bare_except::exception_type(b, src),
        ),
{
    crate::syntax::lemma_same_children(a, b);
    lemma_same_exception_type_from(a.children@, b.children@, src, 0, false);
}

proof fn lemma_same_param_count(a: Seq<SyntaxNode>, b: Seq<SyntaxNode>, src: Seq<u8>, i: int)
    requires
        same_nodes(a, b),
    ensures
        crate::rules::max_function_params::param_count(a, src, i)
            == crate::rules::max_function_params::param_count(b, src, i),
    decreases a.len() - i,
{
    if 0 <= i < a.len() {
        assert(same_node(a[i], b[i]));
        lemma_same_field_text(a[i], b[i], "name"@, src, "self"@);
        lemma_same_field_text(a[i], b[i], "name"@, src, "cls"@);
        lemma_same_param_count(a, b, src, i + 1);
    }
}

proof fn lemma_same_bool_args(a: Seq<SyntaxNode>, b: Seq<SyntaxNode>, src: Seq<u8>, i: int)
    requires
        same_nodes(a, b),
    ensures
        crate::rules::no_boolean_positional::bool_arg_findings(a, src, i)
            == crate::rules::no_boolean_positional::bool_arg_findings(b, src, i),
    decreases a.len() - i,
{
    if 0 <= i < a.len() {
        assert(same_node(a[i], b[i]));
        lemma_same_bool_args(a, b, src, i + 1);
    }
}

proof fn lemma_same_dataclass_expr(a: SyntaxNode, b: SyntaxNode, src: Seq<u8>)
    requires
        same_node(a, b),
    ensures
        crate::rules::no_dataclass::is_dataclass_expr(a, src)
            == crate::rules::no_dataclass::is_dataclass_expr(b, src),
    decreases a,
{
    lemma_same_field_text(a, b, "attribute"@, src, "dataclass"@);
    crate::syntax::lemma_same_children(a, b);
    crate::syntax::lemma_same_field_index(a.children@, b.children@, "function"@, 0);
    match crate::syntax::field_index_from(a.children@, "function"@, 0) {
        Some(i) => {
            if 0 <= i < a.children@.len() {
                assert(same_node(a.children@[i], b.children@[i]));
                lemma_same_dataclass_expr(a.children@[i], b.children@[i], src);
            }
        },
        None => {},
    }
}

proof fn lemma_same_uses_dataclass(a: SyntaxNode, b: SyntaxNode, src: Seq<u8>)
    requires
        same_node(a, b),
    ensures
        crate::rules::no_dataclass::uses_dataclass(a, src) == crate::rules::no_dataclass::uses_dataclass(b, src),
{
    crate::syntax::lemma_same_children(a, b);
    lemma_same_field_text(a, b, "module_name"@, src, "dataclasses"@);
    assert forall|i: int| 0 <= i < a.children@.len() implies is_dataclass_expr(#[trigger] a.children@[i], src)
        == is_dataclass_expr(b.children@[i], src) && imports_dataclasses(a.children@[i], src)
        == imports_dataclasses(b.children@[i], src) by {
        assert(same_node(a.children@[i], b.children@[i]));
        lemma_same_dataclass_expr(a.children@[i], b.children@[i], src);
        lemma_same_field_text(a.children@[i], b.children@[i], "name"@, src, "dataclasses"@);
    }
    if exists|i: int| 0 <= i < a.children@.len() && is_dataclass_expr(#[trigger] a.children@[i], src) {
        let i = choose|i: int| 0 <= i < a.children@.len() && is_dataclass_expr(#[trigger] a.children@[i], src);
        assert(is_dataclass_expr(b.children@[i], src));
    }
    if exists|i: int| 0 <= i < b.children@.len() && is_dataclass_expr(#[trigger] b.children@[i], src) {
        let i = choose|i: int| 0 <= i < b.children@.len() && is_dataclass_expr(#[trigger] b.children@[i], src);
        assert(is_dataclass_expr(a.children@[i], src));
    }
    if exists|i: int| 0 <= i < a.children@.len() && imports_dataclasses(#[trigger] a.children@[i], src) {
        let i = choose|i: int| 0 <= i < a.children@.len() && imports_dataclasses(#[trigger] a.children@[i], src);
        assert(imports_dataclasses(b.children@[i], src));
    }
    if exists|i: int| 0 <= i < b.children@.len() && imports_dataclasses(#[trigger] b.children@[i], src) {
        let i = choose|i: int| 0 <= i < b.children@.len() && imports_dataclasses(#[trigger] b.children@[i], src);
        assert(imports_dataclasses(a.children@[i], src));
    }
}

proof fn lemma_same_future(a: SyntaxNode, b: SyntaxNode, src: Seq<u8>)
    requires
        same_node(a, b),
    ensures
        crate::rules::no_future_annotations::no_future_annotations_findings(a, src)
            == crate::rules::no_future_annotations::no_future_annotations_findings(b, src),
{
    crate::syntax::lemma_same_children(a, b);
    assert forall|i: int| 0 <= i < a.children@.len() implies names_annotations(#[trigger] a.children@[i], src)
        == names_annotations(b.children@[i], src) by {
        assert(same_node(a.children@[i], b.children@[i]));
        lemma_same_field_text(a.children@[i], b.children@[i], "name"@, src, "annotations"@);
    }
    if exists|i: int| 0 <= i < a.children@.len() && names_annotations(#[trigger] a.children@[i], src) {
        let i = choose|i: int| 0 <= i < a.children@.len() && names_annotations(#[trigger] a.children@[i], src);
        assert(names_annotations(b.children@[i], src));
    }
    if exists|i: int| 0 <= i < b.children@.len() && names_annotations(#[trigger] b.children@[i], src) {
        let i = choose|i: int| 0 <= i < b.children@.len() && names_annotations(#[trigger] b.children@[i], src);
        assert(names_annotations(a.children@[i], src));
    }
}

proof fn lemma_same_loop_dispatch(a: SyntaxNode, b: SyntaxNode, src: Seq<u8>)
    requires
        same_node(a, b),
    ensures
        crate::rules::no_async_from_sync::loop_dispatch_name(a, src)
            == crate::rules::no_async_from_sync::loop_dispatch_name(b, src),
{
    lemma_same_field_child(a, b, "function"@);
    match (field_child(a, "function"@), field_child(b, "function"@)) {
        (Some(fa), Some(fb)) => {
            lemma_same_field_child(fa, fb, "attribute"@);
            lemma_same_field_child(fa, fb, "object"@);
        },
        _ => {},
    }
}


proof fn lemma_same_empty_string(a: SyntaxNode, b: SyntaxNode)
    requires
        same_node(a, b),
    ensures
        is_empty_string(a) == is_empty_string(b),
{
    crate::syntax::lemma_same_children(a, b);
    assert forall|i: int| 0 <= i < a.children@.len() implies kind_is(#[trigger] a.children@[i], "string_content"@)
        == kind_is(b.children@[i], "string_content"@) by {
        assert(same_node(a.children@[i], b.children@[i]));
    }
    if !is_empty_string(b) && kind_is(b, "string"@) {
        let i = choose|i: int| 0 <= i < b.children@.len() && kind_is(#[trigger] b.children@[i], "string_content"@);
        assert(kind_is(a.children@[i], "string_content"@));
    }
    if !is_empty_string(a) && kind_is(a, "string"@) {
        let i = choose|i: int| 0 <= i < a.children@.len() && kind_is(#[trigger] a.children@[i], "string_content"@);
        assert(kind_is(b.children@[i], "string_content"@));
    }
}

proof fn lemma_same_falsy(a: SyntaxNode, b: SyntaxNode, src: Seq<u8>)
    requires
        same_node(a, b),
    ensures
        is_empty_falsy_literal(a, src) == is_empty_falsy_literal(b, src),
{
    crate::syntax::lemma_same_children(a, b);
    lemma_same_empty_string(a, b);
    assert forall|i: int| 0 <= i < a.children@.len() implies is_bracket(#[trigger] a.children@[i])
        == is_bracket(b.children@[i]) && kind_is(a.children@[i], "string"@) == kind_is(b.children@[i], "string"@)
        && is_empty_string(a.children@[i]) == is_empty_string(b.children@[i]) by {
        assert(same_node(a.children@[i], b.children@[i]));
        lemma_same_empty_string(a.children@[i], b.children@[i]);
    }
    if !is_empty_container(b) {
        let i = choose|i: int| 0 <= i < b.children@.len() && !is_bracket(#[trigger] b.children@[i]);
        assert(!is_bracket(a.children@[i]));
    }
    if !is_empty_container(a) {
        let i = choose|i: int| 0 <= i < a.children@.len() && !is_bracket(#[trigger] a.children@[i]);
        assert(!is_bracket(b.children@[i]));
    }
    if !is_empty_concat_string(b) {
        let i = choose|i: int|
            0 <= i < b.children@.len() && kind_is(#[trigger] b.children@[i], "string"@) && !is_empty_string(
                b.children@[i],
            );
        assert(kind_is(a.children@[i], "string"@) && !is_empty_string(a.children@[i]));
    }
    if !is_empty_concat_string(a) {
        let i = choose|i: int|
            0 <= i < a.children@.len() && kind_is(#[trigger] a.children@[i], "string"@) && !is_empty_string(
                a.children@[i],
            );
        assert(kind_is(b.children@[i], "string"@) && !is_empty_string(b.children@[i]));
    }
    lemma_same_field_child(a, b, "function"@);
    lemma_same_field_child(a, b, "arguments"@);
    match (field_child(a, "arguments"@), field_child(b, "arguments"@)) {
        (Some(xa), Some(xb)) => {
            crate::syntax::lemma_same_children(xa, xb);
            assert forall|i: int| 0 <= i < xa.children@.len() implies same_node(
                #[trigger] xa.children@[i],
                xb.children@[i],
            ) by {}
            if !is_empty_set_call(b, src) && (field_child(b, "function"@) matches Some(f) && kind_is(
                f,
                "identifier"@,
            ) && (text(f, src) == "set"@ || text(f, src) == "frozenset"@)) {
                let i = choose|i: int|
                    0 <= i < xb.children@.len() && !(kind_is(#[trigger] xb.children@[i], "("@) || kind_is(
                        xb.children@[i],
                        ")"@,
                    ));
                assert(same_node(xa.children@[i], xb.children@[i]));
            }
            if !is_empty_set_call(a, src) && (field_child(a, "function"@) matches Some(f) && kind_is(
                f,
                "identifier"@,
            ) && (text(f, src) == "set"@ || text(f, src) == "frozenset"@)) {
                let i = choose|i: int|
                    0 <= i < xa.children@.len() && !(kind_is(#[trigger] xa.children@[i], "("@) || kind_is(
                        xa.children@[i],
                        ")"@,
                    ));
                assert(same_node(xa.children@[i], xb.children@[i]));
            }
        },
        _ => {},
    }
}

proof fn lemma_same_or_empty(a: SyntaxNode, b: SyntaxNode, src: Seq<u8>)
    requires
        same_node(a, b),
    ensures
        crate::rules::no_or_empty_coalesce::no_or_empty_coalesce_findings(a, src)
            == crate::rules::no_or_empty_coalesce::no_or_empty_coalesce_findings(b, src),
{
    lemma_same_field_child(a, b, "operator"@);
    lemma_same_field_child(a, b, "right"@);
    lemma_same_field_child(a, b, "left"@);
    match (field_child(a, "right"@), field_child(b, "right"@)) {
        (Some(ra), Some(rb)) => {
            lemma_same_falsy(ra, rb, src);
        },
        _ => {},
    }
}

proof fn lemma_same_named_count(a: Seq<SyntaxNode>, b: Seq<SyntaxNode>, i: int)
    requires
        same_nodes(a, b),
    ensures
        named_count(a, i) == named_count(b, i),
    decreases a.len() - i,
{
    if 0 <= i < a.len() {
        assert(same_node(a[i], b[i]));
        lemma_same_named_count(a, b, i + 1);
    }
}

proof fn lemma_same_only_pass(a: SyntaxNode, b: SyntaxNode)
    requires
        same_node(a, b),
    ensures
        only_pass(a) == only_pass(b),
{
    crate::syntax::lemma_same_children(a, b);
    lemma_same_named_count(a.children@, b.children@, 0);
    assert forall|j: int| 0 <= j < a.children@.len() implies (#[trigger] a.children@[j]).named
        == b.children@[j].named && kind_is(a.children@[j], "pass_statement"@) == kind_is(
        b.children@[j],
        "pass_statement"@,
    ) by {
        assert(same_node(a.children@[j], b.children@[j]));
    }
    if !only_pass(b) && named_count(b.children@, 0) == 1 {
        let j = choose|j: int|
            0 <= j < b.children@.len() && (#[trigger] b.children@[j]).named && !kind_is(
                b.children@[j],
                "pass_statement"@,
            );
        assert(a.children@[j].named);
    }
    if !only_pass(a) && named_count(a.children@, 0) == 1 {
        let j = choose|j: int|
            0 <= j < a.children@.len() && (#[trigger] a.children@[j]).named && !kind_is(
                a.children@[j],
                "pass_statement"@,
            );
        assert(b.children@[j].named);
    }
}

proof fn lemma_same_pass_except(a: SyntaxNode, b: SyntaxNode)
    requires
        same_node(a, b),
    ensures
        crate::rules::no_pass_except::no_pass_except_findings(a)
            == crate::rules::no_pass_except::no_pass_except_findings(b),
{
    crate::syntax::lemma_same_children(a, b);
    assert forall|j: int| 0 <= j < a.children@.len() implies is_block()(#[trigger] a.children@[j])
        == is_block()(b.children@[j]) by {
        assert(same_node(a.children@[j], b.children@[j]));
    }
    lemma_same_first_index(a.children@, b.children@, is_block(), 0);
    crate::text::lemma_first_index_from(a.children@, is_block(), 0);
    match first_index_from(a.children@, is_block(), 0) {
        Some(i) => {
            assert(same_node(a.children@[i], b.children@[i]));
            lemma_same_only_pass(a.children@[i], b.children@[i]);
        },
        None => {},
    }
}


proof fn lemma_same_string_content(a: SyntaxNode, b: SyntaxNode, src: Seq<u8>)
    requires
        same_node(a, b),
    ensures
        string_content(a, src) == string_content(b, src),
{
    crate::syntax::lemma_same_children(a, b);
    assert forall|j: int| 0 <= j < a.children@.len() implies is_content()(#[trigger] a.children@[j])
        == is_content()(b.children@[j]) by {
        assert(same_node(a.children@[j], b.children@[j]));
    }
    lemma_same_first_index(a.children@, b.children@, is_content(), 0);
    crate::text::lemma_first_index_from(a.children@, is_content(), 0);
    match first_index_from(a.children@, is_content(), 0) {
        Some(i) => {
            assert(same_node(a.children@[i], b.children@[i]));
        },
        None => {},
    }
}

proof fn lemma_same_sentinel_arg(a: SyntaxNode, b: SyntaxNode, src: Seq<u8>)
    requires
        same_node(a, b),
    ensures
        is_sentinel_arg(a, src) == is_sentinel_arg(b, src),
{
    lemma_same_field_child(a, b, "name"@);
    lemma_same_field_child(a, b, "value"@);
    lemma_same_string_content(a, b, src);
}

proof fn lemma_same_sentinel_value(a: SyntaxNode, b: SyntaxNode, src: Seq<u8>)
    requires
        same_node(a, b),
    ensures
        is_sentinel_value(a, src) == is_sentinel_value(b, src),
{
    lemma_same_string_content(a, b, src);
    lemma_same_field_child(a, b, "function"@);
    lemma_same_field_child(a, b, "arguments"@);
    match (field_child(a, "function"@), field_child(b, "function"@)) {
        (Some(fa), Some(fb)) => {
            lemma_same_field_text(fa, fb, "attribute"@, src, "UUID"@);
        },
        _ => {},
    }
    match (field_child(a, "arguments"@), field_child(b, "arguments"@)) {
        (Some(xa), Some(xb)) => {
            crate::syntax::lemma_same_children(xa, xb);
            assert forall|i: int| 0 <= i < xa.children@.len() implies is_sentinel_arg(
                #[trigger] xa.children@[i],
                src,
            ) == is_sentinel_arg(xb.children@[i], src) by {
                assert(same_node(xa.children@[i], xb.children@[i]));
                lemma_same_sentinel_arg(xa.children@[i], xb.children@[i], src);
            }
            if exists|i: int| 0 <= i < xa.children@.len() && is_sentinel_arg(#[trigger] xa.children@[i], src) {
                let i = choose|i: int| 0 <= i < xa.children@.len() && is_sentinel_arg(#[trigger] xa.children@[i], src);
                assert(is_sentinel_arg(xb.children@[i], src));
            }
            if exists|i: int| 0 <= i < xb.children@.len() && is_sentinel_arg(#[trigger] xb.children@[i], src) {
                let i = choose|i: int| 0 <= i < xb.children@.len() && is_sentinel_arg(#[trigger] xb.children@[i], src);
                assert(is_sentinel_arg(xa.children@[i], src));
            }
        },
        _ => {},
    }
}

proof fn lemma_same_assignment_parts(
    a: Seq<SyntaxNode>,
    b: Seq<SyntaxNode>,
    i: int,
    has_type: bool,
    found_eq: bool,
    value: Option<int>,
)
    requires
        same_nodes(a, b),
    ensures
        assignment_parts(a, i, has_type, found_eq, value) == assignment_parts(b, i, has_type, found_eq, value),
    decreases a.len() - i,
{
    if 0 <= i < a.len() {
        assert(same_node(a[i], b[i]));
        lemma_same_assignment_parts(a, b, i + 1, true, found_eq, value);
        lemma_same_assignment_parts(a, b, i + 1, has_type, true, value);
        lemma_same_assignment_parts(a, b, i + 1, has_type, found_eq, Some(i));
        lemma_same_assignment_parts(a, b, i + 1, has_type, found_eq, value);
    }
}

proof fn lemma_same_sentinel(a: SyntaxNode, b: SyntaxNode, src: Seq<u8>, scope: Scope)
    requires
        same_node(a, b),
    ensures
        crate::rules::no_sentinel_default::no_sentinel_default_findings(a, src, scope)
            == crate::rules::no_sentinel_default::no_sentinel_default_findings(b, src, scope),
{
    lemma_same_field_child(a, b, "value"@);
    match (field_child(a, "value"@), field_child(b, "value"@)) {
        (Some(va), Some(vb)) => {
            lemma_same_sentinel_value(va, vb, src);
        },
        _ => {},
    }
    crate::syntax::lemma_same_children(a, b);
    lemma_same_assignment_parts(a.children@, b.children@, 0, false, false, None);
    match assignment_parts(a.children@, 0, false, false, None).1 {
        Some(i) => {
            if 0 <= i < a.children@.len() {
                assert(same_node(a.children@[i], b.children@[i]));
                lemma_same_sentinel_value(a.children@[i], b.children@[i], src);
            }
        },
        None => {},
    }
}

proof fn lemma_same_any_in_annotation(a: SyntaxNode, b: SyntaxNode, src: Seq<u8>)
    requires
        same_node(a, b),
    ensures
        any_in_annotation(a, src) == any_in_annotation(b, src),
    decreases a, 1int, 0int,
{
    lemma_same_any_in_children(a, b, src, 0);
}

proof fn lemma_same_any_in_children(a: SyntaxNode, b: SyntaxNode, src: Seq<u8>, i: int)
    requires
        same_node(a, b),
    ensures
        any_in_children(a, src, i) == any_in_children(b, src, i),
    decreases a, 0int, a.children@.len() - i,
{
    crate::syntax::lemma_same_children(a, b);
    if 0 <= i < a.children@.len() {
        assert(same_node(a.children@[i], b.children@[i]));
        lemma_same_any_in_annotation(a.children@[i], b.children@[i], src);
        lemma_same_any_in_children(a, b, src, i + 1);
    }
}

proof fn lemma_same_imports_any(a: SyntaxNode, b: SyntaxNode, src: Seq<u8>)
    requires
        same_node(a, b),
    ensures
        imports_any(a, src) == imports_any(b, src),
{
    lemma_same_field_text(a, b, "name"@, src, "Any"@);
    crate::syntax::lemma_same_children(a, b);
    assert forall|j: int| 0 <= j < a.children@.len() implies names_any(#[trigger] a.children@[j], src)
        == names_any(b.children@[j], src) by {
        assert(same_node(a.children@[j], b.children@[j]));
        lemma_same_field_text(a.children@[j], b.children@[j], "name"@, src, "Any"@);
    }
    if exists|j: int| 0 <= j < a.children@.len() && names_any(#[trigger] a.children@[j], src) {
        let j = choose|j: int| 0 <= j < a.children@.len() && names_any(#[trigger] a.children@[j], src);
        assert(names_any(b.children@[j], src));
    }
    if exists|j: int| 0 <= j < b.children@.len() && names_any(#[trigger] b.children@[j], src) {
        let j = choose|j: int| 0 <= j < b.children@.len() && names_any(#[trigger] b.children@[j], src);
        assert(names_any(a.children@[j], src));
    }
}

proof fn lemma_same_typing_any(a: SyntaxNode, b: SyntaxNode, src: Seq<u8>)
    requires
        same_node(a, b),
    ensures
        crate::rules::no_typing_any::no_typing_any_findings(a, src)
            == crate::rules::no_typing_any::no_typing_any_findings(b, src),
{
    lemma_same_any_in_annotation(a, b, src);
    lemma_same_field_child(a, b, "module_name"@);
    crate::syntax::lemma_same_children(a, b);
    assert forall|i: int| 0 <= i < a.children@.len() implies imports_any(#[trigger] a.children@[i], src)
        == imports_any(b.children@[i], src) by {
        assert(same_node(a.children@[i], b.children@[i]));
        lemma_same_imports_any(a.children@[i], b.children@[i], src);
    }
    if exists|i: int| 0 <= i < a.children@.len() && imports_any(#[trigger] a.children@[i], src) {
        let i = choose|i: int| 0 <= i < a.children@.len() && imports_any(#[trigger] a.children@[i], src);
        assert(imports_any(b.children@[i], src));
    }
    if exists|i: int| 0 <= i < b.children@.len() && imports_any(#[trigger] b.children@[i], src) {
        let i = choose|i: int| 0 <= i < b.children@.len() && imports_any(#[trigger] b.children@[i], src);
        assert(imports_any(a.children@[i], src));
    }
}


/// What a rule reports of a node depends only on what the node's tree reads.
pub proof fn lemma_same_rule_findings(r: Rule, a: SyntaxNode, b: SyntaxNode, src: Seq<u8>, scope: Scope)
    requires
        same_node(a, b),
    ensures
        rule_findings(r, a, src, scope) == rule_findings(r, b, src, scope),
{
    lemma_same_callee(a, b);
    lemma_same_exception_type(a, b, src);
    match r {
        Rule::NoDataclass(_) => lemma_same_uses_dataclass(a, b, src),
        Rule::NoFutureAnnotations(_) => lemma_same_future(a, b, src),
        Rule::MaxFunctionParams(_) => {
            lemma_same_field_child(a, b, "parameters"@);
            match (field_child(a, "parameters"@), field_child(b, "parameters"@)) {
                (Some(pa), Some(pb)) => {
                    crate::syntax::lemma_same_children(pa, pb);
                    lemma_same_param_count(pa.children@, pb.children@, src, 0);
                },
                _ => {},
            }
        },
        Rule::NoAsyncFromSync(_) => lemma_same_loop_dispatch(a, b, src),
        Rule::NoBooleanPositional(_) => {
            lemma_same_field_child(a, b, "arguments"@);
            match (field_child(a, "arguments"@), field_child(b, "arguments"@)) {
                (Some(pa), Some(pb)) => {
                    crate::syntax::lemma_same_children(pa, pb);
                    lemma_same_bool_args(pa.children@, pb.children@, src, 0);
                },
                _ => {},
            }
        },
        Rule::NoOrEmptyCoalesce(_) => lemma_same_or_empty(a, b, src),
        Rule::NoPassExcept(_) => lemma_same_pass_except(a, b),
        Rule::NoSentinelDefault(_) => lemma_same_sentinel(a, b, src, scope),
        Rule::NoTypingAny(_) => lemma_same_typing_any(a, b, src),
        _ => {},
    }
}

proof fn lemma_same_enter(a: SyntaxNode, b: SyntaxNode, scope: Scope)
    requires
        same_node(a, b),
    ensures
        enter(scope, a) == enter(scope, b),
{
    crate::syntax::lemma_same_children(a, b);
    if a.children@.len() > 0 {
        assert(same_node(a.children@[0], b.children@[0]));
    }
}

proof fn lemma_same_node_findings(rules: Seq<Rule>, a: SyntaxNode, b: SyntaxNode, src: Seq<u8>, scope: Scope, i: int)
    requires
        same_node(a, b),
    ensures
        node_findings(rules, a, src, scope, i) == node_findings(rules, b, src, scope, i),
    decreases rules.len() - i,
{
    if 0 <= i < rules.len() {
        lemma_same_rule_findings(rules[i], a, b, src, scope);
        lemma_same_node_findings(rules, a, b, src, scope, i + 1);
    }
}

/// The walk reports the same of the same trees.
pub proof fn lemma_same_tree_findings(a: SyntaxNode, b: SyntaxNode, src: Seq<u8>, scope: Scope, rules: Seq<Rule>)
    requires
        same_node(a, b),
    ensures
        tree_findings(a, src, scope, rules) == tree_findings(b, src, scope, rules),
    decreases a, 1int, 0int,
{
    lemma_same_node_findings(rules, a, b, src, scope, 0);
    lemma_same_enter(a, b, scope);
    lemma_same_children_findings(a, b, src, enter(scope, a), rules, 0);
}

proof fn lemma_same_children_findings(a: SyntaxNode, b: SyntaxNode, src: Seq<u8>, inner: Scope, rules: Seq<Rule>, i: int)
    requires
        same_node(a, b),
    ensures
        children_findings(a, src, inner, rules, i) == children_findings(b, src, inner, rules, i),
    decreases a, 0int, a.children@.len() - i,
{
    crate::syntax::lemma_same_children(a, b);
    if 0 <= i < a.children@.len() {
        assert(same_node(a.children@[i], b.children@[i]));
        lemma_same_tree_findings(a.children@[i], b.children@[i], src, inner, rules);
        lemma_same_children_findings(a, b, src, inner, rules, i + 1);
    }
}

/// Linting the same trees gives the same findings.
pub proof fn lemma_same_lint_findings(a: SyntaxNode, b: SyntaxNode, source: Seq<char>, path: Seq<char>, rules: Seq<Rule>)
    requires
        same_node(a, b),
    ensures
        lint_findings(a, source, path, rules) == lint_findings(b, source, path, rules),
{
    lemma_same_tree_findings(a, b, vstd::utf8::encode_utf8(source), crate::rules::top_scope(), rules);
}

} // verus!
