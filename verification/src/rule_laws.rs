//! What the rules report, stated over the syntax the rules read: which
//! calls, imports, parameters, comments and defaults each rule reports and
//! with what message.
use vstd::prelude::*;
use vstd::utf8::*;

use crate::diagnostic::{finding, Finding};
use crate::rules::max_function_params::{max_function_params_findings, param_count};
use crate::rules::no_async_from_sync::no_async_from_sync_findings;
use crate::rules::no_dataclass::no_dataclass_findings;
use crate::rules::no_sentinel_default::{assignment_parts, is_placeholder_text, lower_text, no_sentinel_default_findings};
use crate::rules::no_todo_comment::no_todo_comment_findings;
use crate::rules::no_hasattr_getattr::no_hasattr_getattr_findings;
use crate::rules::no_print::no_print_findings;
use crate::rules::no_nested_try::no_nested_try_findings;
use crate::rules::no_assert::no_assert_findings;
use crate::rules::no_future_annotations::no_future_annotations_findings;
use crate::rules::no_bare_except::no_bare_except_findings;
use crate::rules::no_broad_except::no_broad_except_findings;
use crate::rules::no_pass_except::{named_count, no_pass_except_findings};
use crate::rules::no_or_empty_coalesce::no_or_empty_coalesce_findings;
use crate::rules::no_typing_any::{any_in_annotation, any_in_children, no_typing_any_findings};
use crate::rules::no_assert::is_test_path;
use crate::rules::no_boolean_positional::{bool_arg_findings, no_boolean_positional_findings};
use crate::diagnostic::Severity;
use crate::engine::handles;
use crate::rules::{rule_severity, Rule, Scope};
use crate::syntax::{field_child, kind_is, text, SyntaxNode};
use crate::text::{decimal, find, lemma_find_from, occurs_at};

verus! {

// ---------------------------------------------------------------------------
// no-async-from-sync
// ---------------------------------------------------------------------------

/// The attribute names that drive the asyncio loop whatever they are called on.
pub open spec fn loop_method(name: Seq<char>) -> bool {
    name == "get_event_loop"@ || name == "new_event_loop"@ || name == "run_until_complete"@
        || name == "ensure_future"@
}

/// `n` is a call `obj.name(...)` of attribute `name`, with object `obj`.
pub open spec fn attribute_call(n: SyntaxNode, src: Seq<u8>, obj: SyntaxNode, name: Seq<char>) -> bool {
    &&& field_child(n, "function"@) matches Some(f)
    &&& kind_is(f, "attribute"@)
    &&& field_child(f, "attribute"@) matches Some(a)
    &&& text(a, src) == name
    &&& field_child(f, "object"@) == Some(obj)
}

pub open spec fn dispatch_message(name: Seq<char>) -> Seq<char> {
    "Avoid `"@ + name
        + "()` inside a sync function; make the caller `async def` or move the sync/async boundary to an entrypoint"@
}

/// A call of `get_event_loop`, `new_event_loop`, `run_until_complete` or
/// `ensure_future` on any object, met inside a function that is not `async`,
/// is reported once, naming the method.
pub proof fn law_loop_methods_on_any_object(n: SyntaxNode, src: Seq<u8>, scope: Scope, obj: SyntaxNode, name: Seq<char>)
    requires
        attribute_call(n, src, obj, name),
        loop_method(name),
        scope.enclosing_def_is_async == Some(false),
    ensures
        no_async_from_sync_findings(n, src, scope) == seq![
            finding("no-async-from-sync"@, n.line, n.col, dispatch_message(name)),
        ],
{
}

/// `asyncio.run(...)` and `asyncio.create_task(...)` inside a function that
/// is not `async` are reported too.
pub proof fn law_asyncio_entry_points(n: SyntaxNode, src: Seq<u8>, scope: Scope, obj: SyntaxNode, name: Seq<char>)
    requires
        attribute_call(n, src, obj, name),
        name == "run"@ || name == "create_task"@,
        kind_is(obj, "identifier"@),
        text(obj, src) == "asyncio"@,
        scope.enclosing_def_is_async == Some(false),
    ensures
        no_async_from_sync_findings(n, src, scope) == seq![
            finding("no-async-from-sync"@, n.line, n.col, dispatch_message(name)),
        ],
{
}

/// `run` and `create_task` on anything but the name `asyncio` are not reported.
pub proof fn law_other_run_calls_pass(n: SyntaxNode, src: Seq<u8>, scope: Scope, obj: SyntaxNode, name: Seq<char>)
    requires
        attribute_call(n, src, obj, name),
        name == "run"@ || name == "create_task"@,
        !(kind_is(obj, "identifier"@) && text(obj, src) == "asyncio"@),
    ensures
        no_async_from_sync_findings(n, src, scope) == Seq::<Finding>::empty(),
{
    reveal_strlit("run");
    reveal_strlit("create_task");
    reveal_strlit("get_event_loop");
    reveal_strlit("new_event_loop");
    reveal_strlit("run_until_complete");
    reveal_strlit("ensure_future");
}

/// Nothing is reported outside a function, or inside an `async def`.
pub proof fn law_async_or_module_level_pass(n: SyntaxNode, src: Seq<u8>, scope: Scope)
    requires
        scope.enclosing_def_is_async != Some(false),
    ensures
        no_async_from_sync_findings(n, src, scope) == Seq::<Finding>::empty(),
{
}

// ---------------------------------------------------------------------------
// no-sentinel-default: placeholder texts
// ---------------------------------------------------------------------------

/// A text that, lowered, holds an example domain anywhere is a placeholder.
pub proof fn law_example_domains_are_placeholders(t: Seq<char>, d: Seq<char>, i: int)
    requires
        d == "example.com"@ || d == "example.org"@ || d == "example.net"@,
        occurs_at(lower_text(t), d, i),
    ensures
        is_placeholder_text(t),
{
    lemma_find_from(lower_text(t), d, 0);
    assert(find(lower_text(t), d) is Some);
}

/// A text that, lowered, starts with `/path/to/` or `sk-` is a placeholder.
pub proof fn law_placeholder_prefixes(t: Seq<char>, p: Seq<char>)
    requires
        p == "/path/to/"@ || p == "sk-"@,
        occurs_at(lower_text(t), p, 0),
    ensures
        is_placeholder_text(t),
{
}

/// The well-known placeholder words, in any ASCII case, are placeholders.
pub proof fn law_placeholder_words(t: Seq<char>)
    requires
        ({
            let w = lower_text(t);
            ||| w == "deadbeef"@
            ||| w == "replace_me"@
            ||| w == "changeme"@
            ||| w == "insert_key_here"@
            ||| w == "your-api-key-here"@
            ||| w == "your-api-key"@
            ||| w == "your-key-here"@
            ||| w == "fake-jwt"@
            ||| w == "placeholder"@
            ||| w == "test_string"@
            ||| w == "foo"@
            ||| w == "bar"@
            ||| w == "baz"@
            ||| w == "qux"@
            ||| w == "quux"@
            ||| w == "lorem ipsum"@
            ||| w == "hello world"@
        }),
    ensures
        is_placeholder_text(t),
{
}

// ---------------------------------------------------------------------------
// max-function-params
// ---------------------------------------------------------------------------

pub open spec fn is_self_or_cls_text(t: Seq<char>) -> bool {
    t == "self"@ || t == "cls"@
}

/// `c` is a parameter of a parameter list, and not `self` or `cls`.
pub open spec fn real_parameter(c: SyntaxNode, src: Seq<u8>) -> bool {
    ||| kind_is(c, "identifier"@) && !is_self_or_cls_text(text(c, src))
    ||| (kind_is(c, "typed_parameter"@) || kind_is(c, "typed_default_parameter"@)) && !(field_child(
        c,
        "name"@,
    ) matches Some(nm) && is_self_or_cls_text(text(nm, src)))
    ||| kind_is(c, "default_parameter"@)
    ||| kind_is(c, "list_splat_pattern"@)
    ||| kind_is(c, "dictionary_splat_pattern"@)
}

proof fn lemma_parameter_kind_lengths()
    ensures
        "("@.len() == 1,
        ")"@.len() == 1,
        ","@.len() == 1,
        "("@[0] == '(',
        ")"@[0] == ')',
        ","@[0] == ',',
        "identifier"@.len() == 10,
        "typed_parameter"@.len() == 15,
        "default_parameter"@.len() == 17,
        "typed_default_parameter"@.len() == 23,
        "list_splat_pattern"@.len() == 18,
        "dictionary_splat_pattern"@.len() == 24,
        "typed_parameter"@[0] == 't',
        "list_splat_pattern"@[0] == 'l',
{
    reveal_strlit("(");
    reveal_strlit(")");
    reveal_strlit(",");
    reveal_strlit("identifier");
    reveal_strlit("typed_parameter");
    reveal_strlit("default_parameter");
    reveal_strlit("typed_default_parameter");
    reveal_strlit("list_splat_pattern");
    reveal_strlit("dictionary_splat_pattern");
}

/// Every parameter adds one to the count: plain, typed, with a default,
/// typed with a default, `*args` or `**kwargs`, unless it is `self` or `cls`.
pub proof fn law_each_parameter_counts(cs: Seq<SyntaxNode>, src: Seq<u8>, i: int)
    requires
        0 <= i < cs.len(),
        real_parameter(cs[i], src),
    ensures
        param_count(cs, src, i) == param_count(cs, src, i + 1) + 1,
{
    reveal_strlit("identifier");
    reveal_strlit("typed_parameter");
    reveal_strlit("default_parameter");
    reveal_strlit("typed_default_parameter");
    reveal_strlit("list_splat_pattern");
    reveal_strlit("dictionary_splat_pattern");
    lemma_parameter_kind_lengths();
    assert(crate::rules::max_function_params::counts_as_param(cs[i], src));
}

/// `self`, `cls` and the punctuation of a parameter list add nothing.
pub proof fn law_self_and_punctuation_do_not_count(cs: Seq<SyntaxNode>, src: Seq<u8>, i: int)
    requires
        0 <= i < cs.len(),
        ({
            let c = cs[i];
            ||| kind_is(c, "("@) || kind_is(c, ")"@) || kind_is(c, ","@)
            ||| kind_is(c, "identifier"@) && is_self_or_cls_text(text(c, src))
            ||| (kind_is(c, "typed_parameter"@) || kind_is(c, "typed_default_parameter"@)) && (field_child(
                c,
                "name"@,
            ) matches Some(nm) && is_self_or_cls_text(text(nm, src)))
        }),
    ensures
        param_count(cs, src, i) == param_count(cs, src, i + 1),
{
    reveal_strlit("(");
    reveal_strlit(")");
    reveal_strlit(",");
    reveal_strlit("identifier");
    reveal_strlit("typed_parameter");
    reveal_strlit("default_parameter");
    reveal_strlit("typed_default_parameter");
    reveal_strlit("list_splat_pattern");
    reveal_strlit("dictionary_splat_pattern");
    lemma_parameter_kind_lengths();
    assert(!crate::rules::max_function_params::counts_as_param(cs[i], src));
}

/// Nothing but a parameter adds to the count: punctuation, the `*` and `/`
/// separators, comments, `self` and `cls` add nothing.
pub proof fn law_only_parameters_count(cs: Seq<SyntaxNode>, src: Seq<u8>, i: int)
    requires
        0 <= i < cs.len(),
        !real_parameter(cs[i], src),
    ensures
        param_count(cs, src, i) == param_count(cs, src, i + 1),
{
    lemma_parameter_kind_lengths();
    assert(!crate::rules::max_function_params::counts_as_param(cs[i], src));
}

/// A function is reported exactly when it counts more parameters than the
/// limit, with the count and the limit in the message.
pub proof fn law_parameter_limit(max: usize, n: SyntaxNode, src: Seq<u8>, params: SyntaxNode)
    requires
        field_child(n, "parameters"@) == Some(params),
    ensures
        param_count(params.children@, src, 0) > max ==> max_function_params_findings(max, n, src) == seq![
            finding(
                "max-function-params"@,
                n.line,
                n.col,
                "Function has "@ + decimal(param_count(params.children@, src, 0)) + " parameters (max "@
                    + decimal(max as nat) + "); group related parameters into a dataclass or model"@,
            ),
        ],
        param_count(params.children@, src, 0) <= max ==> max_function_params_findings(max, n, src)
            == Seq::<Finding>::empty(),
{
}

// ---------------------------------------------------------------------------
// no-todo-comment
// ---------------------------------------------------------------------------

/// A byte of an identifier: an ASCII letter or digit, or `_`.
pub open spec fn identifier_byte(b: u8) -> bool {
    (48 <= b <= 57) || (65 <= b <= 90) || (97 <= b <= 122) || b == 95
}

/// The comment's bytes after its `#`.
pub open spec fn after_hash(n: SyntaxNode, src: Seq<u8>) -> Seq<u8> {
    let t = encode_utf8(text(n, src));
    if t.len() > 0 && t[0] == 35u8 {
        t.drop_first()
    } else {
        t
    }
}

/// `m` stands at index `k` of `body` with no identifier byte right before or after it.
pub open spec fn stands_as_word(body: Seq<u8>, m: Seq<char>, k: int) -> bool {
    let mb = encode_utf8(m);
    &&& occurs_at(body, mb, k)
    &&& (k == 0 || !identifier_byte(body[k - 1]))
    &&& (k + mb.len() >= body.len() || !identifier_byte(body[k + mb.len()]))
}

pub open spec fn holds_word(body: Seq<u8>, m: Seq<char>) -> bool {
    exists|k: int| stands_as_word(body, m, k)
}

pub open spec fn marker_message(m: Seq<char>) -> Seq<char> {
    "Found `"@ + m + "` comment; resolve or track in an issue"@
}

proof fn lemma_word_same(body: Seq<u8>, m: Seq<char>)
    ensures
        holds_word(body, m) == crate::rules::no_todo_comment::marker_hit(body, m),
{
    if holds_word(body, m) {
        let k = choose|k: int| stands_as_word(body, m, k);
        assert(crate::rules::no_todo_comment::word_at(body, encode_utf8(m), k));
    }
    if crate::rules::no_todo_comment::marker_hit(body, m) {
        let k = choose|k: int| crate::rules::no_todo_comment::word_at(body, encode_utf8(m), k);
        assert(stands_as_word(body, m, k));
    }
}

/// A comment holding TODO, FIXME, HACK or XXX as a word is reported once,
/// naming the first of them in that order that it holds; a comment holding
/// none of them is not reported.
pub proof fn law_comment_markers(n: SyntaxNode, src: Seq<u8>)
    ensures
        ({
            let b = after_hash(n, src);
            let f = |m: Seq<char>| seq![finding("no-todo-comment"@, n.line, n.col, marker_message(m))];
            no_todo_comment_findings(n, src) == if holds_word(b, "TODO"@) {
                f("TODO"@)
            } else if holds_word(b, "FIXME"@) {
                f("FIXME"@)
            } else if holds_word(b, "HACK"@) {
                f("HACK"@)
            } else if holds_word(b, "XXX"@) {
                f("XXX"@)
            } else {
                Seq::<Finding>::empty()
            }
        }),
{
    let b = after_hash(n, src);
    lemma_word_same(b, "TODO"@);
    lemma_word_same(b, "FIXME"@);
    lemma_word_same(b, "HACK"@);
    lemma_word_same(b, "XXX"@);
}

// ---------------------------------------------------------------------------
// no-dataclass
// ---------------------------------------------------------------------------

pub open spec fn dataclass_finding(n: SyntaxNode) -> Seq<Finding> {
    seq![
        finding(
            "no-dataclass"@,
            n.line,
            n.col,
            "Avoid `dataclass`; use Pydantic `BaseModel` or project-standard model base"@,
        ),
    ]
}

/// `c` names the module `dataclasses`, plainly or under an alias.
pub open spec fn names_dataclasses(c: SyntaxNode, src: Seq<u8>) -> bool {
    ||| kind_is(c, "dotted_name"@) && text(c, src) == "dataclasses"@
    ||| kind_is(c, "aliased_import"@) && (field_child(c, "name"@) matches Some(nm) && text(nm, src)
        == "dataclasses"@)
}

proof fn lemma_statement_kind_lengths()
    ensures
        "decorator"@.len() == 9,
        "import_statement"@.len() == 16,
        "import_from_statement"@.len() == 21,
        "identifier"@.len() == 10,
        "attribute"@.len() == 9,
        "call"@.len() == 4,
{
    reveal_strlit("decorator");
    reveal_strlit("import_statement");
    reveal_strlit("import_from_statement");
    reveal_strlit("identifier");
    reveal_strlit("attribute");
    reveal_strlit("call");
}

/// `import dataclasses` and `import dataclasses as X` are reported once.
pub proof fn law_dataclasses_import(n: SyntaxNode, src: Seq<u8>, i: int)
    requires
        kind_is(n, "import_statement"@),
        0 <= i < n.children@.len(),
        names_dataclasses(n.children@[i], src),
    ensures
        no_dataclass_findings(n, src) == dataclass_finding(n),
{
    lemma_statement_kind_lengths();
    assert(crate::rules::no_dataclass::imports_dataclasses(n.children@[i], src));
    assert(!kind_is(n, "decorator"@));
    assert(crate::rules::no_dataclass::uses_dataclass(n, src));
}

/// `from dataclasses import ...` is reported once.
pub proof fn law_dataclasses_from_import(n: SyntaxNode, src: Seq<u8>, m: SyntaxNode)
    requires
        kind_is(n, "import_from_statement"@),
        field_child(n, "module_name"@) == Some(m),
        text(m, src) == "dataclasses"@,
    ensures
        no_dataclass_findings(n, src) == dataclass_finding(n),
{
    lemma_statement_kind_lengths();
}

/// A decorator `@dataclass`, `@x.dataclass`, or either of them called, is
/// reported once.
pub proof fn law_dataclass_decorator(n: SyntaxNode, src: Seq<u8>, i: int)
    requires
        kind_is(n, "decorator"@),
        0 <= i < n.children@.len(),
        ({
            let c = n.children@[i];
            ||| kind_is(c, "identifier"@) && text(c, src) == "dataclass"@
            ||| kind_is(c, "attribute"@) && (field_child(c, "attribute"@) matches Some(a) && text(a, src)
                == "dataclass"@)
        }),
    ensures
        no_dataclass_findings(n, src) == dataclass_finding(n),
{
    lemma_statement_kind_lengths();
    let c = n.children@[i];
    if kind_is(c, "identifier"@) {
        assert(!kind_is(c, "attribute"@));
    }
    assert(crate::rules::no_dataclass::is_dataclass_expr(n.children@[i], src));
}

// ---------------------------------------------------------------------------
// Calls by name: no-hasattr-getattr, no-print, no-async-from-sync
// ---------------------------------------------------------------------------

proof fn lemma_callee_kind_lengths()
    ensures
        "identifier"@.len() == 10,
        "attribute"@.len() == 9,
{
    reveal_strlit("identifier");
    reveal_strlit("attribute");
}

/// `n` calls the bare name `name`: `name(...)`.
pub open spec fn plain_call(n: SyntaxNode, src: Seq<u8>, name: Seq<char>) -> bool {
    &&& field_child(n, "function"@) matches Some(f)
    &&& kind_is(f, "identifier"@)
    &&& text(f, src) == name
}

/// `n` calls a method named `name`: `something.name(...)`.
pub open spec fn method_call(n: SyntaxNode, src: Seq<u8>, name: Seq<char>) -> bool {
    &&& field_child(n, "function"@) matches Some(f)
    &&& kind_is(f, "attribute"@)
    &&& field_child(f, "attribute"@) matches Some(a)
    &&& text(a, src) == name
}

pub open spec fn calls_name(n: SyntaxNode, src: Seq<u8>, name: Seq<char>) -> bool {
    plain_call(n, src, name) || method_call(n, src, name)
}

pub open spec fn accessor_finding(n: SyntaxNode, name: Seq<char>) -> Seq<Finding> {
    seq![
        finding(
            "no-hasattr-getattr"@,
            n.line,
            n.col,
            "Avoid `"@ + name + "()`; use explicit attribute checks or protocols"@,
        ),
    ]
}

/// A call of `hasattr` or `getattr`, bare or as a method, is reported once,
/// naming the function; every other call is not.
pub proof fn law_accessor_calls(n: SyntaxNode, src: Seq<u8>)
    ensures
        no_hasattr_getattr_findings(n, src) == if calls_name(n, src, "hasattr"@) {
            accessor_finding(n, "hasattr"@)
        } else if calls_name(n, src, "getattr"@) {
            accessor_finding(n, "getattr"@)
        } else {
            Seq::<Finding>::empty()
        },
{
    lemma_callee_kind_lengths();
}

/// A call of `print`, bare or as a method, is reported once; every other
/// call is not.
pub proof fn law_print_calls(n: SyntaxNode, src: Seq<u8>)
    ensures
        no_print_findings(n, src) == if calls_name(n, src, "print"@) {
            seq![
                finding(
                    "no-print"@,
                    n.line,
                    n.col,
                    "Avoid `print()`; use structured logging (structlog, logging, etc.)"@,
                ),
            ]
        } else {
            Seq::<Finding>::empty()
        },
{
    lemma_callee_kind_lengths();
}

/// A call that is not a method call of one of the loop methods, of `run` or
/// of `create_task` is never reported.
pub proof fn law_other_calls_are_not_dispatch(n: SyntaxNode, src: Seq<u8>, scope: Scope)
    requires
        forall|name: Seq<char>| #[trigger] method_call(n, src, name) ==> !loop_method(name) && name != "run"@
            && name != "create_task"@,
    ensures
        no_async_from_sync_findings(n, src, scope) == Seq::<Finding>::empty(),
{
    match field_child(n, "function"@) {
        Some(f) => {
            if kind_is(f, "attribute"@) {
                match field_child(f, "attribute"@) {
                    Some(a) => {
                        assert(method_call(n, src, text(a, src)));
                    },
                    None => {},
                }
            }
        },
        None => {},
    }
}

/// A call met directly in the body of a `def` that is not `async` is in a
/// sync function, and is reported when it calls a loop method; in the body
/// of an `async def` it is not.
pub proof fn law_def_decides_sync(d: SyntaxNode, outer: Scope, n: SyntaxNode, src: Seq<u8>, obj: SyntaxNode, name: Seq<char>)
    requires
        kind_is(d, "function_definition"@),
        attribute_call(n, src, obj, name),
        loop_method(name),
    ensures
        d.children@.len() > 0 && kind_is(d.children@[0], "async"@) ==> no_async_from_sync_findings(
            n,
            src,
            crate::rules::enter(outer, d),
        ) == Seq::<Finding>::empty(),
        !(d.children@.len() > 0 && kind_is(d.children@[0], "async"@)) ==> no_async_from_sync_findings(
            n,
            src,
            crate::rules::enter(outer, d),
        ) == seq![finding("no-async-from-sync"@, n.line, n.col, dispatch_message(name))],
{
}

/// Statements other than a function definition (a class, a loop, a `with`)
/// do not change whether the nearest enclosing function is `async`.
pub proof fn law_nearest_def_decides(s: Scope, m: SyntaxNode)
    requires
        !kind_is(m, "function_definition"@),
    ensures
        crate::rules::enter(s, m).enclosing_def_is_async == s.enclosing_def_is_async,
{
}

// ---------------------------------------------------------------------------
// no-nested-try, no-assert, no-future-annotations
// ---------------------------------------------------------------------------

/// A `try` statement inside the body of another `try` statement is reported,
/// and stays so however deeply it is nested; one in no `try` is not.
pub proof fn law_nested_try(outer: SyntaxNode, s: Scope, n: SyntaxNode, m: SyntaxNode)
    ensures
        kind_is(outer, "try_statement"@) ==> no_nested_try_findings(n, crate::rules::enter(s, outer)) == seq![
            finding(
                "no-nested-try"@,
                n.line,
                n.col,
                "Avoid nested `try` blocks; extract the inner try into a separate function"@,
            ),
        ],
        s.in_try ==> crate::rules::enter(s, m).in_try,
        !s.in_try ==> no_nested_try_findings(n, s) == Seq::<Finding>::empty(),
{
}

/// Every `assert` statement is reported once.
pub proof fn law_assert_statements(n: SyntaxNode)
    ensures
        no_assert_findings(n) == seq![
            finding(
                "no-assert"@,
                n.line,
                n.col,
                "Avoid `assert` in production code; use `if not ...: raise ValueError(...)` instead"@,
            ),
        ],
{
}

/// `c` is `annotations` among the names a `__future__` import brings, plainly or aliased.
pub open spec fn brings_annotations(c: SyntaxNode, src: Seq<u8>) -> bool {
    ||| kind_is(c, "dotted_name"@) && text(c, src) == "annotations"@
    ||| kind_is(c, "aliased_import"@) && (field_child(c, "name"@) matches Some(nm) && text(nm, src)
        == "annotations"@)
}

/// A `__future__` import is reported once exactly when one of the names it
/// brings is `annotations`, aliased or not.
pub proof fn law_future_annotations(n: SyntaxNode, src: Seq<u8>)
    ensures
        no_future_annotations_findings(n, src) == if exists|i: int|
            0 <= i < n.children@.len() && brings_annotations(#[trigger] n.children@[i], src) {
            seq![
                finding(
                    "no-future-annotations"@,
                    n.line,
                    n.col,
                    "Do not use `from __future__ import annotations`; unnecessary on Python 3.13+ and breaks runtime annotation inspection"@,
                ),
            ]
        } else {
            Seq::<Finding>::empty()
        },
{
    assert forall|i: int| 0 <= i < n.children@.len() implies brings_annotations(n.children@[i], src)
        == crate::rules::no_future_annotations::names_annotations(n.children@[i], src) by {}
}

// ---------------------------------------------------------------------------
// except clauses: no-bare-except, no-broad-except, no-pass-except
// ---------------------------------------------------------------------------

proof fn lemma_except_kind_lengths()
    ensures
        ":"@.len() == 1,
        "except"@.len() == 6,
        "as"@.len() == 2,
        "block"@.len() == 5,
        "block"@[0] == 'b',
        "identifier"@.len() == 10,
        "identifier"@[0] == 'i',
        "attribute"@.len() == 9,
        "tuple"@.len() == 5,
        "tuple"@[0] == 't',
        "parenthesized_expression"@.len() == 24,
        "as_pattern"@.len() == 10,
        "as_pattern"@[0] == 'a',
        "Exception"@.len() == 9,
        "BaseException"@.len() == 13,
{
    reveal_strlit(":");
    reveal_strlit("except");
    reveal_strlit("as");
    reveal_strlit("block");
    reveal_strlit("identifier");
    reveal_strlit("attribute");
    reveal_strlit("tuple");
    reveal_strlit("parenthesized_expression");
    reveal_strlit("as_pattern");
    reveal_strlit("Exception");
    reveal_strlit("BaseException");
}

pub open spec fn bare_message() -> Seq<char> {
    "Bare `except:` catches all exceptions including KeyboardInterrupt; specify an exception type"@
}

pub open spec fn broad_message(t: Seq<char>) -> Seq<char> {
    "`except "@ + t + "` is too broad; catch specific exception types"@
}

/// `t` is the type that the clause `n` names right after its `except`
/// keyword: `except T:` or `except T as e:`.
pub open spec fn names_caught_type(n: SyntaxNode, src: Seq<u8>, t: SyntaxNode) -> bool {
    let cs = n.children@;
    &&& cs.len() >= 2
    &&& text(cs[0], src) == "except"@
    &&& text(cs[1], src) != "except"@
    &&& {
        ||| (kind_is(cs[1], "identifier"@) || kind_is(cs[1], "attribute"@) || kind_is(cs[1], "tuple"@)
            || kind_is(cs[1], "parenthesized_expression"@)) && cs[1] == t && text(t, src) != "as"@
        ||| kind_is(cs[1], "as_pattern"@) && cs[1].children@.len() > 0 && cs[1].children@[0] == t
    }
}

/// `except:` is reported as bare by `no-bare-except`, and not by `no-broad-except`.
pub proof fn law_bare_except(n: SyntaxNode, src: Seq<u8>)
    requires
        n.children@.len() >= 2,
        text(n.children@[0], src) == "except"@,
        kind_is(n.children@[1], ":"@),
        text(n.children@[1], src) == ":"@,
    ensures
        no_bare_except_findings(n, src) == seq![finding("no-bare-except"@, n.line, n.col, bare_message())],
        no_broad_except_findings(n, src) == Seq::<Finding>::empty(),
{
    lemma_except_kind_lengths();
    reveal_with_fuel(crate::rules::no_bare_except::exception_type_from, 3);
}

/// An `except` naming `Exception` or `BaseException` is reported as too
/// broad, quoting the type, by `no-bare-except`; any other named type is not.
pub proof fn law_except_type(n: SyntaxNode, src: Seq<u8>, t: SyntaxNode)
    requires
        names_caught_type(n, src, t),
    ensures
        no_bare_except_findings(n, src) == if text(t, src) == "Exception"@ || text(t, src) == "BaseException"@ {
            seq![finding("no-bare-except"@, n.line, n.col, broad_message(text(t, src)))]
        } else {
            Seq::<Finding>::empty()
        },
{
    lemma_except_kind_lengths();
    reveal_with_fuel(crate::rules::no_bare_except::exception_type_from, 3);
}

/// `no-broad-except` reports an `except` naming `Exception` or
/// `BaseException`, quoting it, and nothing for a single other type.
pub proof fn law_broad_except(n: SyntaxNode, src: Seq<u8>, t: SyntaxNode)
    requires
        names_caught_type(n, src, t),
    ensures
        text(t, src) == "Exception"@ || text(t, src) == "BaseException"@ ==> no_broad_except_findings(n, src)
            == seq![finding("no-broad-except"@, n.line, n.col, broad_message(text(t, src)))],
        !(text(t, src) == "Exception"@ || text(t, src) == "BaseException"@) && !(text(t, src).len() > 0
            && text(t, src)[0] == '(') ==> no_broad_except_findings(n, src) == Seq::<Finding>::empty(),
{
    lemma_except_kind_lengths();
    reveal_with_fuel(crate::rules::no_bare_except::exception_type_from, 3);
}

/// The number of named nodes among `cs[i..]`, counted by a spec of its own.
proof fn lemma_single_named(cs: Seq<SyntaxNode>, i: int, k: int)
    requires
        0 <= i <= k < cs.len(),
        cs[k].named,
        forall|j: int| i <= j < cs.len() && j != k ==> !(#[trigger] cs[j]).named,
    ensures
        named_count(cs, i) == 1,
    decreases cs.len() - i,
{
    if i < k {
        lemma_single_named(cs, i + 1, k);
    } else {
        lemma_no_named(cs, i + 1);
    }
}

proof fn lemma_no_named(cs: Seq<SyntaxNode>, i: int)
    requires
        0 <= i,
        forall|j: int| i <= j < cs.len() ==> !(#[trigger] cs[j]).named,
    ensures
        named_count(cs, i) == 0,
    decreases cs.len() - i,
{
    if i < cs.len() {
        lemma_no_named(cs, i + 1);
    }
}

proof fn lemma_two_named(cs: Seq<SyntaxNode>, i: int, k1: int, k2: int)
    requires
        0 <= i <= k1 < k2 < cs.len(),
        cs[k1].named,
        cs[k2].named,
    ensures
        named_count(cs, i) >= 2,
    decreases cs.len() - i,
{
    if i < k1 {
        lemma_two_named(cs, i + 1, k1, k2);
    } else {
        lemma_some_named(cs, i + 1, k2);
    }
}

proof fn lemma_some_named(cs: Seq<SyntaxNode>, i: int, k: int)
    requires
        0 <= i <= k < cs.len(),
        cs[k].named,
    ensures
        named_count(cs, i) >= 1,
    decreases cs.len() - i,
{
    if i < k {
        lemma_some_named(cs, i + 1, k);
    }
}

/// The block holds one statement, `pass`, and nothing else named.
pub open spec fn holds_only_pass(block: SyntaxNode) -> bool {
    exists|k: int|
        0 <= k < block.children@.len() && (#[trigger] block.children@[k]).named && kind_is(
            block.children@[k],
            "pass_statement"@,
        ) && forall|j: int| 0 <= j < block.children@.len() && j != k ==> !(#[trigger] block.children@[j]).named
}

/// `b` is the first block among the children of `n`.
pub open spec fn first_block_at(n: SyntaxNode, b: int) -> bool {
    &&& 0 <= b < n.children@.len()
    &&& kind_is(n.children@[b], "block"@)
    &&& forall|j: int| 0 <= j < b ==> !kind_is(#[trigger] n.children@[j], "block"@)
}

/// An `except` clause whose body is `pass` alone is reported once; one whose
/// body holds anything else, or that has no body, is not.
pub proof fn law_pass_except(n: SyntaxNode)
    ensures
        no_pass_except_findings(n) == if exists|b: int| first_block_at(n, b) && holds_only_pass(
            #[trigger] n.children@[b],
        ) {
            seq![
                finding(
                    "no-pass-except"@,
                    n.line,
                    n.col,
                    "`except` block contains only `pass`; silently swallowing exceptions hides bugs"@,
                ),
            ]
        } else {
            Seq::<Finding>::empty()
        },
{
    let blk = crate::rules::no_pass_except::is_block();
    crate::text::lemma_first_index_from(n.children@, blk, 0);
    match crate::text::first_index_from(n.children@, blk, 0) {
        Some(b) => {
            assert(first_block_at(n, b));
            let cs = n.children@[b].children@;
            if holds_only_pass(n.children@[b]) {
                let k = choose|k: int|
                    0 <= k < cs.len() && (#[trigger] cs[k]).named && kind_is(cs[k], "pass_statement"@)
                        && forall|j: int| 0 <= j < cs.len() && j != k ==> !(#[trigger] cs[j]).named;
                lemma_single_named(cs, 0, k);
                assert(crate::rules::no_pass_except::only_pass(n.children@[b]));
            } else if crate::rules::no_pass_except::only_pass(n.children@[b]) {
                if exists|k: int| 0 <= k < cs.len() && (#[trigger] cs[k]).named {
                    let k = choose|k: int| 0 <= k < cs.len() && (#[trigger] cs[k]).named;
                    assert forall|j: int| 0 <= j < cs.len() && j != k implies !(#[trigger] cs[j]).named by {
                        if cs[j].named {
                            if j < k {
                                lemma_two_named(cs, 0, j, k);
                            } else {
                                lemma_two_named(cs, 0, k, j);
                            }
                        }
                    }
                    assert(holds_only_pass(n.children@[b]));
                } else {
                    lemma_no_named(cs, 0);
                }
            }
            assert forall|b2: int| first_block_at(n, b2) implies b2 == b by {
                if b2 < b {
                    assert(!kind_is(n.children@[b2], "block"@));
                } else if b2 > b {
                    assert(!kind_is(n.children@[b], "block"@));
                }
            }
        },
        None => {
            assert forall|b2: int| !first_block_at(n, b2) by {
                if 0 <= b2 < n.children@.len() {
                    assert(!blk(n.children@[b2]));
                }
            }
        },
    }
}

// ---------------------------------------------------------------------------
// no-boolean-positional
// ---------------------------------------------------------------------------

/// A positional argument written as `True` or `False`.
pub open spec fn bool_literal_arg(a: SyntaxNode, src: Seq<u8>) -> bool {
    ||| kind_is(a, "true"@)
    ||| kind_is(a, "false"@)
    ||| kind_is(a, "identifier"@) && (text(a, src) == "True"@ || text(a, src) == "False"@)
}

/// Each argument of a call that is a bare `True` or `False` gives one finding,
/// at the argument, in the order of the arguments; keyword arguments and
/// other values give none.
pub proof fn law_boolean_arguments(args: Seq<SyntaxNode>, src: Seq<u8>, i: int)
    requires
        0 <= i < args.len(),
    ensures
        bool_arg_findings(args, src, i) == (if bool_literal_arg(args[i], src) {
            seq![
                finding(
                    "no-boolean-positional"@,
                    args[i].line,
                    args[i].col,
                    "Avoid bare boolean positional arguments; use keyword arguments for clarity"@,
                ),
            ]
        } else {
            Seq::<Finding>::empty()
        }) + bool_arg_findings(args, src, i + 1),
{
    reveal_strlit("keyword_argument");
    reveal_strlit("true");
    reveal_strlit("false");
    reveal_strlit("identifier");
    assert("keyword_argument"@.len() == 16);
    assert("true"@.len() == 4);
    assert("false"@.len() == 5);
    assert("identifier"@.len() == 10);
}

/// A call without an argument list reports no boolean argument.
pub proof fn law_boolean_needs_arguments(n: SyntaxNode, src: Seq<u8>)
    requires
        field_child(n, "arguments"@) is None,
    ensures
        no_boolean_positional_findings(n, src) == Seq::<Finding>::empty(),
{
}

// ---------------------------------------------------------------------------
// no-or-empty-coalesce
// ---------------------------------------------------------------------------

proof fn lemma_literal_kind_lengths()
    ensures
        "dictionary"@.len() == 10,
        "list"@.len() == 4,
        "list"@[0] == 'l',
        "tuple"@.len() == 5,
        "tuple"@[0] == 't',
        "string"@.len() == 6,
        "integer"@.len() == 7,
        "float"@.len() == 5,
        "float"@[0] == 'f',
        "float"@[1] == 'l',
        "false"@.len() == 5,
        "false"@[0] == 'f',
        "false"@[1] == 'a',
        "concatenated_string"@.len() == 19,
        "call"@.len() == 4,
        "call"@[0] == 'c',
{
    reveal_strlit("dictionary");
    reveal_strlit("list");
    reveal_strlit("tuple");
    reveal_strlit("string");
    reveal_strlit("integer");
    reveal_strlit("float");
    reveal_strlit("false");
    reveal_strlit("concatenated_string");
    reveal_strlit("call");
}

pub open spec fn bracket_token(c: SyntaxNode) -> bool {
    kind_is(c, "{"@) || kind_is(c, "}"@) || kind_is(c, "["@) || kind_is(c, "]"@) || kind_is(c, "("@)
        || kind_is(c, ")"@)
}

/// A string literal with nothing between its quotes.
pub open spec fn blank_string(c: SyntaxNode) -> bool {
    kind_is(c, "string"@) && forall|j: int|
        0 <= j < c.children@.len() ==> !kind_is(#[trigger] c.children@[j], "string_content"@)
}

/// `{}`, `[]`, `()`, `""`, `0`, `0.0`, `False`, adjacent empty strings,
/// `set()` or `frozenset()`.
pub open spec fn empty_or_false_literal(r: SyntaxNode, src: Seq<u8>) -> bool {
    ||| (kind_is(r, "dictionary"@) || kind_is(r, "list"@) || kind_is(r, "tuple"@)) && forall|j: int|
        0 <= j < r.children@.len() ==> bracket_token(#[trigger] r.children@[j])
    ||| blank_string(r)
    ||| kind_is(r, "integer"@) && text(r, src) == "0"@
    ||| kind_is(r, "float"@) && text(r, src) == "0.0"@
    ||| kind_is(r, "false"@)
    ||| kind_is(r, "concatenated_string"@) && forall|j: int|
        0 <= j < r.children@.len() && kind_is(#[trigger] r.children@[j], "string"@) ==> blank_string(
            r.children@[j],
        )
    ||| kind_is(r, "call"@) && empty_set_call(r, src)
}

/// `set()` or `frozenset()`.
pub open spec fn empty_set_call(r: SyntaxNode, src: Seq<u8>) -> bool {
    &&& field_child(r, "function"@) matches Some(f)
    &&& kind_is(f, "identifier"@)
    &&& (text(f, src) == "set"@ || text(f, src) == "frozenset"@)
    &&& field_child(r, "arguments"@) matches Some(args)
    &&& forall|j: int|
        0 <= j < args.children@.len() ==> (kind_is(#[trigger] args.children@[j], "("@) || kind_is(
            args.children@[j],
            ")"@,
        ))
}

/// `x.attr or <empty literal>` is reported once, quoting the literal as
/// written; an `or` whose left side is not an attribute, whose right side is
/// anything else, or an `and`, is not.
pub proof fn law_or_empty(n: SyntaxNode, src: Seq<u8>, op: SyntaxNode, left: SyntaxNode, right: SyntaxNode)
    requires
        field_child(n, "operator"@) == Some(op),
        field_child(n, "left"@) == Some(left),
        field_child(n, "right"@) == Some(right),
    ensures
        no_or_empty_coalesce_findings(n, src) == if text(op, src) == "or"@ && kind_is(left, "attribute"@)
            && empty_or_false_literal(right, src) {
            seq![
                finding(
                    "no-or-empty-coalesce"@,
                    n.line,
                    n.col,
                    "Avoid `... or "@ + (match crate::syntax::text_opt(right, src) {
                        Some(t) => t,
                        None => "<empty>"@,
                    })
                        + "` — if the attribute can be None, check explicitly with `is None`; otherwise remove the fallback"@,
                ),
            ]
        } else {
            Seq::<Finding>::empty()
        },
{
    lemma_literal_kind_lengths();
    if kind_is(right, "concatenated_string"@) {
        assert(empty_or_false_literal(right, src)
            == crate::rules::no_or_empty_coalesce::is_empty_concat_string(right));
    }
}

// ---------------------------------------------------------------------------
// no-typing-any
// ---------------------------------------------------------------------------

/// An imported name that is `Any`, plain or aliased.
pub open spec fn any_name(c: SyntaxNode, src: Seq<u8>) -> bool {
    ||| kind_is(c, "dotted_name"@) && text(c, src) == "Any"@
    ||| kind_is(c, "aliased_import"@) && (field_child(c, "name"@) matches Some(nm) && text(nm, src)
        == "Any"@)
}

/// A child of a `from ... import` that brings `Any`, directly or inside parentheses.
pub open spec fn brings_any(c: SyntaxNode, src: Seq<u8>) -> bool {
    ||| any_name(c, src)
    ||| kind_is(c, "import_list"@) && exists|j: int| 0 <= j < c.children@.len() && any_name(#[trigger] c.children@[j], src)
}

/// `from typing import Any` and `from typing_extensions import Any`, however
/// written, are reported once; imports from other modules, or of other
/// names, are not.
pub proof fn law_any_import(n: SyntaxNode, src: Seq<u8>)
    requires
        kind_is(n, "import_from_statement"@),
    ensures
        no_typing_any_findings(n, src) == if (field_child(n, "module_name"@) matches Some(m) && (text(m, src)
            == "typing"@ || text(m, src) == "typing_extensions"@)) && exists|i: int|
            0 <= i < n.children@.len() && brings_any(#[trigger] n.children@[i], src) {
            seq![
                finding(
                    "no-typing-any"@,
                    n.line,
                    n.col,
                    "Avoid importing `Any`; use specific types or protocols"@,
                ),
            ]
        } else {
            Seq::<Finding>::empty()
        },
{
    reveal_strlit("type");
    reveal_strlit("import_from_statement");
    assert("type"@.len() == 4);
    assert("import_from_statement"@.len() == 21);
    assert forall|i: int| 0 <= i < n.children@.len() implies brings_any(n.children@[i], src)
        == crate::rules::no_typing_any::imports_any(n.children@[i], src) by {
        let c = n.children@[i];
        assert forall|j: int| 0 <= j < c.children@.len() implies any_name(c.children@[j], src)
            == crate::rules::no_typing_any::names_any(c.children@[j], src) by {}
    }
}

/// An annotation is inspected whole: a `type` node reports what its search finds.
pub proof fn law_any_annotation(n: SyntaxNode, src: Seq<u8>)
    requires
        kind_is(n, "type"@),
    ensures
        no_typing_any_findings(n, src) == any_in_annotation(n, src),
{
}

/// The identifier `Any` is reported once, where it stands.
pub proof fn law_any_identifier(n: SyntaxNode, src: Seq<u8>)
    requires
        kind_is(n, "identifier"@),
        text(n, src) == "Any"@,
    ensures
        any_in_annotation(n, src) == seq![
            finding(
                "no-typing-any"@,
                n.line,
                n.col,
                "Avoid `Any` in type annotations; use specific types or protocols"@,
            ),
        ],
{
}

proof fn lemma_any_in_children(n: SyntaxNode, src: Seq<u8>, j: int, i: int, f: Finding)
    requires
        0 <= j <= i < n.children@.len(),
        !kind_is(n.children@[i], "type"@),
        any_in_annotation(n.children@[i], src).contains(f),
    ensures
        any_in_children(n, src, j).contains(f),
    decreases i - j,
{
    let here = if kind_is(n.children@[j], "type"@) {
        Seq::<Finding>::empty()
    } else {
        any_in_annotation(n.children@[j], src)
    };
    let rest = any_in_children(n, src, j + 1);
    assert(any_in_children(n, src, j) == here + rest);
    if j == i {
        let k = choose|k: int| 0 <= k < here.len() && here[k] == f;
        assert((here + rest)[k] == f);
    } else {
        lemma_any_in_children(n, src, j + 1, i, f);
        let k = choose|k: int| 0 <= k < rest.len() && rest[k] == f;
        assert((here + rest)[here.len() + k] == f);
    }
}

/// What is found in a part of an annotation is found in the annotation: an
/// `Any` anywhere below a node (other than inside a nested `type`, which is
/// inspected on its own) is reported when the node is searched, unless the
/// node is itself `Any`.
pub proof fn law_any_found_below(n: SyntaxNode, src: Seq<u8>, i: int, f: Finding)
    requires
        !(kind_is(n, "identifier"@) && text(n, src) == "Any"@),
        0 <= i < n.children@.len(),
        !kind_is(n.children@[i], "type"@),
        any_in_annotation(n.children@[i], src).contains(f),
    ensures
        any_in_annotation(n, src).contains(f),
{
    lemma_any_in_children(n, src, 0, i, f);
}

// ---------------------------------------------------------------------------
// no-assert: test files
// ---------------------------------------------------------------------------

pub open spec fn separator(c: char) -> bool {
    c == '/' || c == '\\'
}

/// A path with a whole component `tests`, `test` or `testing` is a test path.
pub proof fn law_test_directories(path: Seq<char>, a: Seq<char>, d: Seq<char>, b: Seq<char>)
    requires
        d == "tests"@ || d == "test"@ || d == "testing"@,
        path == a + d + b,
        a.len() == 0 || separator(a.last()),
        b.len() == 0 || separator(b[0]),
    ensures
        is_test_path(path),
{
    let i = a.len() as int;
    assert(path.subrange(i, i + d.len()) == d);
    if a.len() > 0 {
        assert(path[i - 1] == a.last());
    }
    if b.len() > 0 {
        assert(path[i + d.len()] == b[0]);
    }
    assert(crate::rules::no_assert::component_at(path, d, i));
}

proof fn lemma_after_last_append(u: Seq<char>, name: Seq<char>, pred: spec_fn(char) -> bool)
    requires
        forall|j: int| 0 <= j < name.len() ==> !pred(#[trigger] name[j]),
    ensures
        crate::text::after_last(u + name, pred) == crate::text::after_last(u, pred) + name,
{
    let s = u + name;
    crate::text::lemma_last_index_before(s, pred, s.len() as int);
    crate::text::lemma_last_index_before(u, pred, u.len() as int);
    match crate::text::last_index_before(s, pred, s.len() as int) {
        Some(j) => {
            assert(j < u.len()) by {
                if j >= u.len() {
                    assert(s[j] == name[j - u.len()]);
                }
            }
            assert(s[j] == u[j]);
            match crate::text::last_index_before(u, pred, u.len() as int) {
                Some(j2) => {
                    if j2 > j {
                        assert(s[j2] == u[j2]);
                    }
                    if j2 < j {
                        assert(u[j] == s[j]);
                    }
                    assert(s.skip(j + 1) =~= u.skip(j + 1) + name);
                },
                None => {},
            }
        },
        None => {
            match crate::text::last_index_before(u, pred, u.len() as int) {
                Some(j2) => {
                    assert(s[j2] == u[j2]);
                },
                None => {},
            }
        },
    }
}

proof fn lemma_after_last_at_end(u: Seq<char>, pred: spec_fn(char) -> bool)
    requires
        u.len() > 0,
        pred(u.last()),
    ensures
        crate::text::after_last(u, pred) == Seq::<char>::empty(),
{
    assert(u.skip(u.len() as int) =~= Seq::<char>::empty());
}

/// The file name of a path is what follows its last separator, `/` or `\`.
pub proof fn law_file_name(dir: Seq<char>, name: Seq<char>)
    requires
        dir.len() == 0 || separator(dir.last()),
        forall|j: int| 0 <= j < name.len() ==> !separator(#[trigger] name[j]),
    ensures
        crate::rules::no_assert::file_name(dir + name) == name,
{
    let sl = crate::rules::no_assert::slash();
    let bs = crate::rules::no_assert::backslash();
    assert forall|j: int| 0 <= j < name.len() implies !sl(#[trigger] name[j]) by {
        assert(!separator(name[j]));
    }
    assert forall|j: int| 0 <= j < name.len() implies !bs(#[trigger] name[j]) by {
        assert(!separator(name[j]));
    }
    lemma_after_last_append(dir, name, sl);
    let d1 = crate::text::after_last(dir, sl);
    lemma_after_last_append(d1, name, bs);
    if dir.len() == 0 {
        assert(d1 == dir);
        assert(crate::text::after_last(d1, bs) == d1);
    } else if dir.last() == '/' {
        lemma_after_last_at_end(dir, sl);
        assert(d1 == Seq::<char>::empty());
        assert(crate::text::after_last(d1, bs) == d1);
    } else {
        crate::text::lemma_last_index_before(dir, sl, dir.len() as int);
        assert(d1.len() > 0 && d1.last() == dir.last()) by {
            match crate::text::last_index_before(dir, sl, dir.len() as int) {
                Some(j) => {
                    assert(j < dir.len() - 1);
                },
                None => {},
            }
        }
        lemma_after_last_at_end(d1, bs);
    }
    assert(Seq::<char>::empty() + name == name);
}

/// A file whose name starts with `test_` or ends with `_test.py`, in any
/// directory, is a test file.
pub proof fn law_test_file_names(dir: Seq<char>, name: Seq<char>)
    requires
        dir.len() == 0 || separator(dir.last()),
        forall|j: int| 0 <= j < name.len() ==> !separator(#[trigger] name[j]),
        crate::text::starts_with(name, "test_"@) || crate::text::ends_with(name, "_test.py"@),
    ensures
        is_test_path(dir + name),
{
    law_file_name(dir, name);
}

// ---------------------------------------------------------------------------
// no-sentinel-default: defaults in the tree
// ---------------------------------------------------------------------------

proof fn lemma_value_kind_lengths()
    ensures
        "string"@.len() == 6,
        "call"@.len() == 4,
        "keyword_argument"@.len() == 16,
        "identifier"@.len() == 10,
        "attribute"@.len() == 9,
        "typed_default_parameter"@.len() == 23,
        "assignment"@.len() == 10,
        "type"@.len() == 4,
        "="@.len() == 1,
{
    reveal_strlit("string");
    reveal_strlit("call");
    reveal_strlit("keyword_argument");
    reveal_strlit("identifier");
    reveal_strlit("attribute");
    reveal_strlit("typed_default_parameter");
    reveal_strlit("assignment");
    reveal_strlit("type");
    reveal_strlit("=");
}

/// The text between a string's quotes is `t`: that of its first `string_content` child.
pub open spec fn string_body_is(v: SyntaxNode, src: Seq<u8>, t: Seq<char>) -> bool {
    exists|k: int|
        0 <= k < v.children@.len() && kind_is(#[trigger] v.children@[k], "string_content"@) && text(
            v.children@[k],
            src,
        ) == t && forall|j: int| 0 <= j < k ==> !kind_is(#[trigger] v.children@[j], "string_content"@)
}

/// A string literal whose text is non-empty placeholder text.
pub open spec fn placeholder_string(v: SyntaxNode, src: Seq<u8>) -> bool {
    kind_is(v, "string"@) && exists|t: Seq<char>| #[trigger] string_body_is(v, src, t) && t.len() > 0
        && is_placeholder_text(t)
}

/// `int=N` with `N` a decimal literal, optionally signed `+`, below 10 000.
pub open spec fn small_int_keyword(a: SyntaxNode, src: Seq<u8>) -> bool {
    &&& kind_is(a, "keyword_argument"@)
    &&& field_child(a, "name"@) matches Some(nm)
    &&& text(nm, src) == "int"@
    &&& field_child(a, "value"@) matches Some(v)
    &&& kind_is(v, "integer"@)
    &&& digits_part(text(v, src)).len() > 0
    &&& forall|j: int|
        0 <= j < digits_part(text(v, src)).len() ==> '0' <= #[trigger] digits_part(text(v, src))[j] <= '9'
    &&& crate::rules::no_sentinel_default::digits_value(digits_part(text(v, src))) < 10000
}

/// The text after one optional leading `+`.
pub open spec fn digits_part(t: Seq<char>) -> Seq<char> {
    if t.len() > 0 && t[0] == '+' {
        t.subrange(1, t.len() as int)
    } else {
        t
    }
}

/// `UUID(...)` or `x.UUID(...)` with a placeholder string or a small `int=` argument.
pub open spec fn placeholder_uuid_call(v: SyntaxNode, src: Seq<u8>) -> bool {
    &&& kind_is(v, "call"@)
    &&& field_child(v, "function"@) matches Some(f)
    &&& (kind_is(f, "identifier"@) && text(f, src) == "UUID"@ || kind_is(f, "attribute"@) && (field_child(
        f,
        "attribute"@,
    ) matches Some(a) && text(a, src) == "UUID"@))
    &&& field_child(v, "arguments"@) matches Some(args)
    &&& exists|i: int|
        0 <= i < args.children@.len() && (placeholder_string(#[trigger] args.children@[i], src)
            || small_int_keyword(args.children@[i], src))
}

pub open spec fn placeholder_value(v: SyntaxNode, src: Seq<u8>) -> bool {
    placeholder_string(v, src) || placeholder_uuid_call(v, src)
}

proof fn lemma_string_body(v: SyntaxNode, src: Seq<u8>)
    ensures
        kind_is(v, "string"@) ==> (placeholder_string(v, src)
            == crate::rules::no_sentinel_default::is_sentinel_string(v, src)),
{
    let cs = v.children@;
    let pc = crate::rules::no_sentinel_default::is_content();
    crate::text::lemma_first_index_from(cs, pc, 0);
    let body = crate::rules::no_sentinel_default::string_content(v, src);
    match crate::text::first_index_from(cs, pc, 0) {
        Some(k) => {
            assert(string_body_is(v, src, body));
            assert forall|t: Seq<char>| #[trigger] string_body_is(v, src, t) implies t == body by {
                let k2 = choose|k2: int|
                    0 <= k2 < cs.len() && kind_is(#[trigger] cs[k2], "string_content"@) && text(cs[k2], src)
                        == t && forall|j: int| 0 <= j < k2 ==> !kind_is(#[trigger] cs[j], "string_content"@);
                if k2 < k {
                    assert(!pc(cs[k2]));
                } else if k2 > k {
                    assert(pc(cs[k]));
                }
            }
        },
        None => {
            assert forall|t: Seq<char>| !#[trigger] string_body_is(v, src, t) by {
                if string_body_is(v, src, t) {
                    let k2 = choose|k2: int|
                        0 <= k2 < cs.len() && kind_is(#[trigger] cs[k2], "string_content"@) && text(cs[k2], src)
                            == t && forall|j: int| 0 <= j < k2 ==> !kind_is(#[trigger] cs[j], "string_content"@);
                    assert(!pc(cs[k2]));
                }
            }
        },
    }
}

proof fn lemma_placeholder_value(v: SyntaxNode, src: Seq<u8>)
    ensures
        placeholder_value(v, src) == crate::rules::no_sentinel_default::is_sentinel_value(v, src),
{
    lemma_value_kind_lengths();
    lemma_string_body(v, src);
    if kind_is(v, "call"@) {
        match field_child(v, "arguments"@) {
            Some(args) => {
                assert forall|i: int| 0 <= i < args.children@.len() implies (placeholder_string(
                    #[trigger] args.children@[i],
                    src,
                ) || small_int_keyword(args.children@[i], src))
                    == crate::rules::no_sentinel_default::is_sentinel_arg(args.children@[i], src) by {
                    let a = args.children@[i];
                    lemma_string_body(a, src);
                    match field_child(a, "value"@) {
                        Some(w) => {
                            let t = text(w, src);
                            let d = crate::rules::no_sentinel_default::unsigned_digits(t);
                            if t.len() > 0 && t[0] == '+' {
                                assert(t.subrange(1, t.len() as int) =~= t.drop_first());
                            }
                            assert(digits_part(t) == d);
                        },
                        None => {},
                    }
                }
            },
            None => {},
        }
    }
}

/// A typed parameter is reported once when its default is a placeholder
/// string or a placeholder `UUID(...)`, and not otherwise.
pub proof fn law_parameter_default(n: SyntaxNode, src: Seq<u8>, scope: Scope, v: SyntaxNode)
    requires
        kind_is(n, "typed_default_parameter"@),
        field_child(n, "value"@) == Some(v),
    ensures
        no_sentinel_default_findings(n, src, scope) == if placeholder_value(v, src) {
            sentinel_finding(n)
        } else {
            Seq::<Finding>::empty()
        },
{
    lemma_placeholder_value(v, src);
}

pub open spec fn sentinel_finding(n: SyntaxNode) -> Seq<Finding> {
    seq![
        finding(
            "no-sentinel-default"@,
            n.line,
            n.col,
            "Avoid sentinel/placeholder default values; thread the real value or use `None`"@,
        ),
    ]
}

proof fn lemma_parts_after(cs: Seq<SyntaxNode>, i: int, fe: bool, v: int)
    requires
        0 <= i,
    ensures
        assignment_parts(cs, i, true, fe, Some(v)) == (true, Some(v)),
    decreases cs.len() - i,
{
    if i < cs.len() {
        lemma_parts_after(cs, i + 1, fe || kind_is(cs[i], "="@), v);
    }
}

proof fn lemma_parts_before(cs: Seq<SyntaxNode>, i: int, e: int, h: bool)
    requires
        0 <= i <= e,
        e + 1 < cs.len(),
        kind_is(cs[e], "="@),
        !kind_is(cs[e + 1], "="@),
        forall|j: int| i <= j < e ==> !kind_is(#[trigger] cs[j], "="@),
        h || exists|j: int| i <= j < e && kind_is(#[trigger] cs[j], "type"@),
    ensures
        assignment_parts(cs, i, h, false, None) == (true, Some(e + 1)),
    decreases e - i,
{
    lemma_value_kind_lengths();
    if i == e {
        assert(h);
        reveal_with_fuel(assignment_parts, 3);
        lemma_parts_after(cs, e + 2, true, e + 1);
    } else {
        if kind_is(cs[i], "type"@) && !h {
            lemma_parts_before(cs, i + 1, e, true);
        } else {
            if !h {
                let j = choose|j: int| i <= j < e && kind_is(#[trigger] cs[j], "type"@);
                assert(j != i);
            }
            lemma_parts_before(cs, i + 1, e, h);
        }
    }
}

/// An annotated assignment `name: T = value` in a class body is reported
/// once when the value is a placeholder string or a placeholder `UUID(...)`;
/// the same assignment outside a class is not.
pub proof fn law_class_field_default(n: SyntaxNode, src: Seq<u8>, scope: Scope, e: int)
    requires
        kind_is(n, "assignment"@),
        0 <= e,
        e + 1 < n.children@.len(),
        kind_is(n.children@[e], "="@),
        !kind_is(n.children@[e + 1], "="@),
        forall|j: int| 0 <= j < e ==> !kind_is(#[trigger] n.children@[j], "="@),
        exists|j: int| 0 <= j < e && kind_is(#[trigger] n.children@[j], "type"@),
    ensures
        no_sentinel_default_findings(n, src, scope) == if scope.in_class && placeholder_value(
            n.children@[e + 1],
            src,
        ) {
            sentinel_finding(n)
        } else {
            Seq::<Finding>::empty()
        },
{
    lemma_value_kind_lengths();
    lemma_parts_before(n.children@, 0, e, false);
    lemma_placeholder_value(n.children@[e + 1], src);
}

/// Nodes other than typed parameters and assignments are never reported.
pub proof fn law_other_nodes_no_default(n: SyntaxNode, src: Seq<u8>, scope: Scope)
    requires
        !kind_is(n, "typed_default_parameter"@),
        !kind_is(n, "assignment"@),
    ensures
        no_sentinel_default_findings(n, src, scope) == Seq::<Finding>::empty(),
{
}

/// Lowering changes the ASCII capitals `A`..`Z` to `a`..`z` and nothing else.
pub proof fn law_lowering(t: Seq<char>, i: int)
    requires
        0 <= i < t.len(),
    ensures
        lower_text(t).len() == t.len(),
        'A' <= t[i] <= 'Z' ==> lower_text(t)[i] as u32 == t[i] as u32 + 32,
        !('A' <= t[i] <= 'Z') ==> lower_text(t)[i] == t[i],
{
}

// ---------------------------------------------------------------------------
// no-sentinel-default: placeholder UUIDs
// ---------------------------------------------------------------------------

pub open spec fn no_hyphen(g: Seq<char>) -> bool {
    forall|j: int| 0 <= j < g.len() ==> #[trigger] g[j] != '-'
}

pub open spec fn hex_group(g: Seq<char>, len: nat) -> bool {
    &&& g.len() == len
    &&& forall|j: int|
        0 <= j < g.len() ==> ('0' <= #[trigger] g[j] <= '9') || ('a' <= g[j] <= 'f') || ('A' <= g[j] <= 'F')
}

/// Every character of `t` but the hyphens is `a`, `b` or `c`.
pub open spec fn chars_among(t: Seq<char>, a: char, b: char, c: char) -> bool {
    forall|j: int| 0 <= j < t.len() && #[trigger] t[j] != '-' ==> t[j] == a || t[j] == b || t[j] == c
}

/// Every character of `t` but the hyphens is one of three.
pub open spec fn three_chars_at_most(t: Seq<char>) -> bool {
    exists|a: char, b: char, c: char| #[trigger] chars_among(t, a, b, c)
}

proof fn lemma_split_single(a: Seq<char>)
    requires
        no_hyphen(a),
    ensures
        crate::text::split_by(a, crate::rules::no_sentinel_default::hyphen()) == seq![a],
{
    let hy = crate::rules::no_sentinel_default::hyphen();
    crate::text::lemma_first_index_from(a, hy, 0);
    if crate::text::first_index_from(a, hy, 0) is Some {
        let k = crate::text::first_index_from(a, hy, 0)->Some_0;
        assert(a[k] != '-');
    }
}

proof fn lemma_split_piece(a: Seq<char>, b: Seq<char>)
    requires
        no_hyphen(a),
    ensures
        crate::text::split_by(a + seq!['-'] + b, crate::rules::no_sentinel_default::hyphen()) == seq![a]
            + crate::text::split_by(b, crate::rules::no_sentinel_default::hyphen()),
{
    let hy = crate::rules::no_sentinel_default::hyphen();
    let s = a + seq!['-'] + b;
    assert(forall|j: int| 0 <= j < a.len() ==> !hy(#[trigger] s[j])) by {
        assert forall|j: int| 0 <= j < a.len() implies !hy(#[trigger] s[j]) by {
            assert(s[j] == a[j]);
        }
    }
    assert(s[a.len() as int] == '-');
    crate::text::lemma_first_index_scan(s, hy, 0, a.len() as int);
    assert(s.take(a.len() as int) =~= a);
    assert(s.skip(a.len() as int + 1) =~= b);
}

/// A text shaped as a UUID (hex groups of 8, 4, 4, 4 and 12 between
/// hyphens) is a placeholder exactly when it is the documentation example
/// `123e4567-e89b-12d3-a456-426614174000`, its first four groups are zeros,
/// its first group is `12345678`, or it uses three characters at most.
pub proof fn law_uuid_placeholders(g0: Seq<char>, g1: Seq<char>, g2: Seq<char>, g3: Seq<char>, g4: Seq<char>)
    requires
        hex_group(g0, 8),
        hex_group(g1, 4),
        hex_group(g2, 4),
        hex_group(g3, 4),
        hex_group(g4, 12),
    ensures
        ({
            let t = g0 + seq!['-'] + g1 + seq!['-'] + g2 + seq!['-'] + g3 + seq!['-'] + g4;
            crate::rules::no_sentinel_default::is_uuid_placeholder(t) == (t
                == "123e4567-e89b-12d3-a456-426614174000"@ || (g0 == "00000000"@ && g1 == "0000"@ && g2
                == "0000"@ && g3 == "0000"@) || g0 == "12345678"@ || three_chars_at_most(t))
        }),
{
    let t = g0 + seq!['-'] + g1 + seq!['-'] + g2 + seq!['-'] + g3 + seq!['-'] + g4;
    let hy = crate::rules::no_sentinel_default::hyphen();
    assert(no_hyphen(g0));
    assert(no_hyphen(g1));
    assert(no_hyphen(g2));
    assert(no_hyphen(g3));
    assert(no_hyphen(g4));
    let r4 = g4;
    let r3 = g3 + seq!['-'] + r4;
    let r2 = g2 + seq!['-'] + r3;
    let r1 = g1 + seq!['-'] + r2;
    assert(t =~= g0 + seq!['-'] + r1);
    lemma_split_single(r4);
    lemma_split_piece(g3, r4);
    lemma_split_piece(g2, r3);
    lemma_split_piece(g1, r2);
    lemma_split_piece(g0, r1);
    let parts = crate::text::split_by(t, hy);
    assert(parts =~= seq![g0, g1, g2, g3, g4]);
    assert forall|i: int| 0 <= i < t.len() && t[i] != '-' implies crate::rules::no_sentinel_default::is_hex_digit(
        #[trigger] t[i],
    ) by {
        if i < 8 {
            assert(t[i] == g0[i]);
        } else if 9 <= i < 13 {
            assert(t[i] == g1[i - 9]);
        } else if 14 <= i < 18 {
            assert(t[i] == g2[i - 14]);
        } else if 19 <= i < 23 {
            assert(t[i] == g3[i - 19]);
        } else if 24 <= i {
            assert(t[i] == g4[i - 24]);
        }
    }
    if three_chars_at_most(t) {
        let (a, b, c) = choose|a: char, b: char, c: char| #[trigger] chars_among(t, a, b, c);
        assert(crate::rules::no_sentinel_default::covered_by(t, a, b, c));
    }
    if crate::rules::no_sentinel_default::at_most_three_hex_chars(t) {
        let (a, b, c) = choose|a: char, b: char, c: char| #[trigger]
            crate::rules::no_sentinel_default::covered_by(t, a, b, c);
        assert(chars_among(t, a, b, c));
    }
}

proof fn lemma_split_head(t: Seq<char>)
    ensures
        ({
            let hy = crate::rules::no_sentinel_default::hyphen();
            let ps = crate::text::split_by(t, hy);
            match crate::text::first_index_from(t, hy, 0) {
                Some(i) => 0 <= i < t.len() && t[i] == '-' && no_hyphen(t.take(i)) && ps == seq![t.take(i)]
                    + crate::text::split_by(t.skip(i + 1), hy),
                None => no_hyphen(t) && ps == seq![t],
            }
        }),
{
    let hy = crate::rules::no_sentinel_default::hyphen();
    crate::text::lemma_first_index_from(t, hy, 0);
    match crate::text::first_index_from(t, hy, 0) {
        Some(i) => {
            assert forall|j: int| 0 <= j < i implies #[trigger] t.take(i)[j] != '-' by {
                assert(!hy(t[j]));
            }
        },
        None => {
            assert forall|j: int| 0 <= j < t.len() implies #[trigger] t[j] != '-' by {
                assert(!hy(t[j]));
            }
        },
    }
}

/// Only a text shaped as a UUID can be a placeholder UUID: 36 characters,
/// hyphens at 8, 13, 18 and 23, hexadecimal digits everywhere else.
pub proof fn law_uuid_shape(t: Seq<char>)
    requires
        crate::rules::no_sentinel_default::is_uuid_placeholder(t),
    ensures
        t.len() == 36,
        t[8] == '-' && t[13] == '-' && t[18] == '-' && t[23] == '-',
        forall|j: int|
            0 <= j < 36 && j != 8 && j != 13 && j != 18 && j != 23 ==> ('0' <= #[trigger] t[j] <= '9') || (
            'a' <= t[j] <= 'f') || ('A' <= t[j] <= 'F'),
{
    let hy = crate::rules::no_sentinel_default::hyphen();
    let ps = crate::text::split_by(t, hy);
    lemma_split_head(t);
    let i0 = crate::text::first_index_from(t, hy, 0)->Some_0;
    let t1 = t.skip(i0 + 1);
    lemma_split_head(t1);
    let i1 = crate::text::first_index_from(t1, hy, 0)->Some_0;
    let t2 = t1.skip(i1 + 1);
    lemma_split_head(t2);
    let i2 = crate::text::first_index_from(t2, hy, 0)->Some_0;
    let t3 = t2.skip(i2 + 1);
    lemma_split_head(t3);
    let i3 = crate::text::first_index_from(t3, hy, 0)->Some_0;
    let t4 = t3.skip(i3 + 1);
    lemma_split_head(t4);
    assert(crate::text::first_index_from(t4, hy, 0) is None) by {
        if crate::text::first_index_from(t4, hy, 0) is Some {
            let i4 = crate::text::first_index_from(t4, hy, 0)->Some_0;
            lemma_split_head(t4.skip(i4 + 1));
            assert(ps.len() >= 6);
        }
    }
    assert(i0 == 8 && i1 == 4 && i2 == 4 && i3 == 4 && t4.len() == 12);
    assert(t[8] == '-');
    assert(t[13] == t1[4]);
    assert(t[18] == t2[4]);
    assert(t[23] == t3[4]);
    assert(t.len() == 36);
    assert forall|j: int| 0 <= j < 36 && j != 8 && j != 13 && j != 18 && j != 23 implies ('0' <= #[trigger] t[j]
        <= '9') || ('a' <= t[j] <= 'f') || ('A' <= t[j] <= 'F') by {
        if j < 8 {
            assert(t[j] == t.take(8)[j]);
        } else if j < 13 {
            assert(t[j] == t1[j - 9]);
            assert(t1[j - 9] == t1.take(4)[j - 9]);
        } else if j < 18 {
            assert(t[j] == t2[j - 14]);
            assert(t2[j - 14] == t2.take(4)[j - 14]);
        } else if j < 23 {
            assert(t[j] == t3[j - 19]);
            assert(t3[j - 19] == t3.take(4)[j - 19]);
        } else {
            assert(t[j] == t4[j - 24]);
        }
        assert(t[j] != '-');
        assert(crate::rules::no_sentinel_default::is_hex_digit(t[j]));
    }
}

// ---------------------------------------------------------------------------
// guarded-function-import
// ---------------------------------------------------------------------------

/// The lines, each followed by a newline.
pub open spec fn joined_lines(lines: Seq<Seq<u8>>) -> Seq<u8>
    decreases lines.len(),
{
    if lines.len() == 0 {
        Seq::empty()
    } else {
        lines[0] + seq![10u8] + joined_lines(lines.drop_first())
    }
}

pub open spec fn no_newline(l: Seq<u8>) -> bool {
    forall|j: int| 0 <= j < l.len() ==> #[trigger] l[j] != 10u8
}

/// After blanks (space, tab, newline, form feed, carriage return), the line starts with `#`.
pub open spec fn comment_line(l: Seq<u8>) -> bool {
    exists|k: int|
        0 <= k < l.len() && #[trigger] l[k] == 35u8 && forall|j: int|
            0 <= j < k ==> (#[trigger] l[j] == 32u8 || l[j] == 9u8 || l[j] == 10u8 || l[j] == 12u8 || l[j]
                == 13u8)
}

pub open spec fn guarded_finding(n: SyntaxNode) -> Seq<Finding> {
    seq![
        finding(
            "guarded-function-import"@,
            n.line,
            n.col,
            "Function-scope `import` requires a `# reason` comment on the line immediately above"@,
        ),
    ]
}

proof fn lemma_split_line(a: Seq<u8>, b: Seq<u8>)
    requires
        no_newline(a),
    ensures
        crate::text::split_by(a + seq![10u8] + b, crate::rules::guarded_function_import::newline()) == seq![a]
            + crate::text::split_by(b, crate::rules::guarded_function_import::newline()),
{
    let nl = crate::rules::guarded_function_import::newline();
    let s = a + seq![10u8] + b;
    assert forall|j: int| 0 <= j < a.len() implies !nl(#[trigger] s[j]) by {
        assert(s[j] == a[j]);
    }
    assert(s[a.len() as int] == 10u8);
    crate::text::lemma_first_index_scan(s, nl, 0, a.len() as int);
    assert(s.take(a.len() as int) =~= a);
    assert(s.skip(a.len() as int + 1) =~= b);
}

proof fn lemma_split_lines(lines: Seq<Seq<u8>>, rest: Seq<u8>)
    requires
        forall|i: int| 0 <= i < lines.len() ==> no_newline(#[trigger] lines[i]),
    ensures
        crate::text::split_by(joined_lines(lines) + rest, crate::rules::guarded_function_import::newline())
            == lines + crate::text::split_by(rest, crate::rules::guarded_function_import::newline()),
    decreases lines.len(),
{
    let nl = crate::rules::guarded_function_import::newline();
    if lines.len() == 0 {
        assert(joined_lines(lines) + rest =~= rest);
        assert(lines + crate::text::split_by(rest, nl) =~= crate::text::split_by(rest, nl));
    } else {
        let tail = lines.drop_first();
        assert forall|i: int| 0 <= i < tail.len() implies no_newline(#[trigger] tail[i]) by {
            assert(tail[i] == lines[i + 1]);
        }
        lemma_split_lines(tail, rest);
        assert(no_newline(lines[0]));
        assert(joined_lines(lines) + rest =~= lines[0] + seq![10u8] + (joined_lines(tail) + rest));
        lemma_split_line(lines[0], joined_lines(tail) + rest);
        assert(seq![lines[0]] + (tail + crate::text::split_by(rest, nl)) =~= lines + crate::text::split_by(
            rest,
            nl,
        ));
    }
}

/// An import inside a function or class is reported unless the line right
/// above it is a comment; one on the first line is always reported; an
/// import at module level is never reported.
pub proof fn law_guarded_import(n: SyntaxNode, src: Seq<u8>, scope: Scope, lines: Seq<Seq<u8>>, above: Seq<u8>, rest: Seq<u8>)
    requires
        forall|i: int| 0 <= i < lines.len() ==> no_newline(#[trigger] lines[i]),
        no_newline(above),
        src == joined_lines(lines) + above + seq![10u8] + rest,
        n.line == lines.len() + 2,
    ensures
        !scope.in_def_or_class ==> crate::rules::guarded_function_import::guarded_function_import_findings(
            n,
            src,
            scope,
        ) == Seq::<Finding>::empty(),
        scope.in_def_or_class ==> crate::rules::guarded_function_import::guarded_function_import_findings(
            n,
            src,
            scope,
        ) == if comment_line(above) {
            Seq::<Finding>::empty()
        } else {
            guarded_finding(n)
        },
{
    let nl = crate::rules::guarded_function_import::newline();
    assert(src =~= joined_lines(lines) + (above + seq![10u8] + rest));
    lemma_split_lines(lines, above + seq![10u8] + rest);
    lemma_split_line(above, rest);
    let rows = crate::text::split_by(src, nl);
    assert(rows[lines.len() as int] == above);
    let ns = crate::rules::guarded_function_import::not_ascii_space();
    crate::text::lemma_first_index_from(above, ns, 0);
    if comment_line(above) {
        let k = choose|k: int|
            0 <= k < above.len() && #[trigger] above[k] == 35u8 && forall|j: int|
                0 <= j < k ==> (#[trigger] above[j] == 32u8 || above[j] == 9u8 || above[j] == 10u8
                    || above[j] == 12u8 || above[j] == 13u8);
        assert(ns(above[k]));
        match crate::text::first_index_from(above, ns, 0) {
            Some(i) => {
                if i < k {
                    assert(!ns(above[i]));
                }
            },
            None => {},
        }
    } else {
        match crate::text::first_index_from(above, ns, 0) {
            Some(i) => {
                if above[i] == 35u8 {
                    assert forall|j: int| 0 <= j < i implies (#[trigger] above[j] == 32u8 || above[j] == 9u8
                        || above[j] == 10u8 || above[j] == 12u8 || above[j] == 13u8) by {
                        assert(!ns(above[j]));
                    }
                    assert(comment_line(above));
                }
            },
            None => {},
        }
    }
}

/// An import on the first line of a function or class scope is always reported.
pub proof fn law_import_on_first_line(n: SyntaxNode, src: Seq<u8>, scope: Scope)
    requires
        scope.in_def_or_class,
        n.line <= 1,
    ensures
        crate::rules::guarded_function_import::guarded_function_import_findings(n, src, scope)
            == guarded_finding(n),
{
}

// ---------------------------------------------------------------------------
// What each rule inspects, and where it stands
// ---------------------------------------------------------------------------

/// The node kinds rule `r` is run on.
pub open spec fn inspected_kind(r: Rule, k: Seq<char>) -> bool {
    match r {
        Rule::NoHasattrGetattr(_) => k == "call"@,
        Rule::GuardedFunctionImport(_) => k == "import_statement"@ || k == "import_from_statement"@,
        Rule::NoFutureAnnotations(_) => k == "future_import_statement"@,
        Rule::NoDataclass(_) => k == "decorator"@ || k == "import_statement"@ || k == "import_from_statement"@,
        Rule::NoBareExcept(_) => k == "except_clause"@,
        Rule::NoPrint(_) => k == "call"@,
        Rule::MaxFunctionParams(_) => k == "function_definition"@,
        Rule::NoAssert(_) => k == "assert_statement"@,
        Rule::NoAsyncFromSync(_) => k == "call"@,
        Rule::NoBooleanPositional(_) => k == "call"@,
        Rule::NoBroadExcept(_) => k == "except_clause"@,
        Rule::NoNestedTry(_) => k == "try_statement"@,
        Rule::NoOrEmptyCoalesce(_) => k == "boolean_operator"@,
        Rule::NoPassExcept(_) => k == "except_clause"@,
        Rule::NoSentinelDefault(_) => k == "typed_default_parameter"@ || k == "assignment"@,
        Rule::NoTodoComment(_) => k == "comment"@,
        Rule::NoTypingAny(_) => k == "type"@ || k == "import_from_statement"@,
    }
}

/// The severity rule `r` reports with: warnings for the rules of style and
/// of judgement, errors for the others.
pub open spec fn expected_severity(r: Rule) -> Severity {
    match r {
        Rule::GuardedFunctionImport(_) => Severity::Warning,
        Rule::NoFutureAnnotations(_) => Severity::Warning,
        Rule::NoDataclass(_) => Severity::Warning,
        Rule::NoBooleanPositional(_) => Severity::Warning,
        Rule::NoOrEmptyCoalesce(_) => Severity::Warning,
        Rule::NoSentinelDefault(_) => Severity::Warning,
        Rule::NoTodoComment(_) => Severity::Warning,
        _ => Severity::Error,
    }
}

/// Each rule is run on exactly the node kinds it is about, and reports with
/// its severity.
pub proof fn law_rule_kinds(r: Rule, k: Seq<char>)
    ensures
        handles(r, k) <==> inspected_kind(r, k),
        rule_severity(r) == expected_severity(r),
{
    let ks = crate::rules::rule_kinds(r);
    if inspected_kind(r, k) {
        if ks.len() > 0 && ks[0] == k {
            assert(ks.contains(k));
        } else if ks.len() > 1 && ks[1] == k {
            assert(ks.contains(k));
        } else {
            assert(ks.len() > 2 && ks[2] == k);
            assert(ks.contains(k));
        }
    }
    if handles(r, k) {
        let i = choose|i: int| 0 <= i < ks.len() && ks[i] == k;
        assert(inspected_kind(r, k));
    }
}

/// The registry holds each of the seventeen rules once, with
/// `max-function-params` at its default limit of 8.
pub proof fn law_registry_rules()
    ensures
        crate::rules::registry().len() == 17,
        crate::rules::registry()[6] == Rule::MaxFunctionParams(
            crate::rules::max_function_params::MaxFunctionParams { max: 8 },
        ),
{
}

/// Entering a node: a function or class definition puts its body in a
/// definition scope, a class definition in a class, a `try` statement in a
/// `try`; and once in one, every nested node stays in it.
pub proof fn law_scope_enter(s: Scope, m: SyntaxNode)
    ensures
        kind_is(m, "function_definition"@) || kind_is(m, "class_definition"@) ==> crate::rules::enter(
            s,
            m,
        ).in_def_or_class,
        kind_is(m, "class_definition"@) ==> crate::rules::enter(s, m).in_class,
        kind_is(m, "try_statement"@) ==> crate::rules::enter(s, m).in_try,
        s.in_def_or_class ==> crate::rules::enter(s, m).in_def_or_class,
        s.in_class ==> crate::rules::enter(s, m).in_class,
        s.in_try ==> crate::rules::enter(s, m).in_try,
        !kind_is(m, "function_definition"@) && !kind_is(m, "class_definition"@) && !kind_is(m, "try_statement"@)
            ==> crate::rules::enter(s, m) == s,
        crate::rules::top_scope() == (Scope {
            in_def_or_class: false,
            in_class: false,
            in_try: false,
            enclosing_def_is_async: None,
        }),
{
}

// ---------------------------------------------------------------------------
// no-dataclass: the remaining forms
// ---------------------------------------------------------------------------

/// `dataclass` or `x.dataclass`, not called.
pub open spec fn dataclass_name(f: SyntaxNode, src: Seq<u8>) -> bool {
    ||| kind_is(f, "identifier"@) && text(f, src) == "dataclass"@
    ||| kind_is(f, "attribute"@) && (field_child(f, "attribute"@) matches Some(a) && text(a, src)
        == "dataclass"@)
}

/// A decorator that calls `dataclass` or `x.dataclass`, such as
/// `@dataclass(frozen=True)`, is reported once.
pub proof fn law_called_dataclass_decorator(n: SyntaxNode, src: Seq<u8>, i: int, f: SyntaxNode)
    requires
        kind_is(n, "decorator"@),
        0 <= i < n.children@.len(),
        kind_is(n.children@[i], "call"@),
        field_child(n.children@[i], "function"@) == Some(f),
        dataclass_name(f, src),
    ensures
        no_dataclass_findings(n, src) == dataclass_finding(n),
{
    lemma_statement_kind_lengths();
    let c = n.children@[i];
    crate::syntax::lemma_field_index_from_bounds(c.children@, "function"@, 0);
    if kind_is(f, "identifier"@) {
        assert(!kind_is(f, "attribute"@));
    }
    assert(crate::rules::no_dataclass::is_dataclass_expr(f, src));
    assert(crate::rules::no_dataclass::is_dataclass_expr(c, src));
}

/// `from M import ...` is reported only when `M` is `dataclasses`.
pub proof fn law_other_from_imports_pass(n: SyntaxNode, src: Seq<u8>)
    requires
        kind_is(n, "import_from_statement"@),
        !(field_child(n, "module_name"@) matches Some(m) && text(m, src) == "dataclasses"@),
    ensures
        no_dataclass_findings(n, src) == Seq::<Finding>::empty(),
{
    lemma_statement_kind_lengths();
}

/// `import ...` is reported only when one of the modules it names, aliased
/// or not, is `dataclasses`.
pub proof fn law_other_imports_pass(n: SyntaxNode, src: Seq<u8>)
    requires
        kind_is(n, "import_statement"@),
        forall|i: int| 0 <= i < n.children@.len() ==> !names_dataclasses(#[trigger] n.children@[i], src),
    ensures
        no_dataclass_findings(n, src) == Seq::<Finding>::empty(),
{
    lemma_statement_kind_lengths();
    assert forall|i: int| 0 <= i < n.children@.len() implies !crate::rules::no_dataclass::imports_dataclasses(
        #[trigger] n.children@[i],
        src,
    ) by {
        assert(!names_dataclasses(n.children@[i], src));
    }
}

/// A decorator none of whose parts is `dataclass`, `x.dataclass`, or a call
/// of either, is not reported.
pub proof fn law_other_decorators_pass(n: SyntaxNode, src: Seq<u8>)
    requires
        kind_is(n, "decorator"@),
        forall|i: int|
            0 <= i < n.children@.len() ==> !dataclass_name(#[trigger] n.children@[i], src) && !(kind_is(
                n.children@[i],
                "call"@,
            ) && (field_child(n.children@[i], "function"@) matches Some(f) && dataclass_like(f, src))),
    ensures
        no_dataclass_findings(n, src) == Seq::<Finding>::empty(),
{
    lemma_statement_kind_lengths();
    assert forall|i: int| 0 <= i < n.children@.len() implies !crate::rules::no_dataclass::is_dataclass_expr(
        #[trigger] n.children@[i],
        src,
    ) by {
        let c = n.children@[i];
        assert(!dataclass_name(c, src));
        if kind_is(c, "call"@) {
            crate::syntax::lemma_field_index_from_bounds(c.children@, "function"@, 0);
            match crate::syntax::field_index_from(c.children@, "function"@, 0) {
                Some(j) => {
                    lemma_dataclass_like(c.children@[j], src);
                },
                None => {},
            }
        }
    }
}

/// `dataclass`, `x.dataclass`, or a call, however nested, of either.
pub open spec fn dataclass_like(f: SyntaxNode, src: Seq<u8>) -> bool
    decreases f,
{
    if dataclass_name(f, src) {
        true
    } else if kind_is(f, "call"@) {
        match crate::syntax::field_index_from(f.children@, "function"@, 0) {
            Some(j) => if 0 <= j < f.children@.len() {
                dataclass_like(f.children@[j], src)
            } else {
                false
            },
            None => false,
        }
    } else {
        false
    }
}

proof fn lemma_dataclass_like(f: SyntaxNode, src: Seq<u8>)
    ensures
        dataclass_like(f, src) == crate::rules::no_dataclass::is_dataclass_expr(f, src),
    decreases f,
{
    lemma_statement_kind_lengths();
    if kind_is(f, "call"@) {
        match crate::syntax::field_index_from(f.children@, "function"@, 0) {
            Some(j) => {
                if 0 <= j < f.children@.len() {
                    assert(decreases_to!(f => f.children@[j]));
                    lemma_dataclass_like(f.children@[j], src);
                }
            },
            None => {},
        }
    }
}

/// Nodes other than decorators and imports are never reported.
pub proof fn law_other_nodes_no_dataclass(n: SyntaxNode, src: Seq<u8>)
    requires
        !kind_is(n, "decorator"@),
        !kind_is(n, "import_statement"@),
        !kind_is(n, "import_from_statement"@),
    ensures
        no_dataclass_findings(n, src) == Seq::<Finding>::empty(),
{
}

} // verus!
