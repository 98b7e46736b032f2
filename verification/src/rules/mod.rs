//! The rules, the scope a rule sees a node in, and the rule registry.
use vstd::prelude::*;

use crate::diagnostic::{all_under, finding, findings, Diagnostic, Finding};
pub use crate::diagnostic::Severity;
use crate::rules::no_boolean_positional::lemma_bool_arg_ids;
use crate::rules::no_typing_any::lemma_any_in_annotation_ids;
use crate::rules::no_hasattr_getattr::{NoHasattrGetattr, no_hasattr_getattr_findings};
use crate::rules::guarded_function_import::{GuardedFunctionImport, guarded_function_import_findings};
use crate::rules::no_future_annotations::{NoFutureAnnotations, no_future_annotations_findings};
use crate::rules::no_dataclass::{NoDataclass, no_dataclass_findings};
use crate::rules::no_bare_except::{NoBareExcept, no_bare_except_findings};
use crate::rules::no_print::{NoPrint, no_print_findings};
use crate::rules::max_function_params::{max_function_params_findings, MaxFunctionParams, DEFAULT_MAX_PARAMS};
use crate::rules::no_assert::{NoAssert, no_assert_findings};
use crate::rules::no_async_from_sync::{NoAsyncFromSync, no_async_from_sync_findings};
use crate::rules::no_boolean_positional::{NoBooleanPositional, no_boolean_positional_findings};
use crate::rules::no_broad_except::{NoBroadExcept, no_broad_except_findings};
use crate::rules::no_nested_try::{NoNestedTry, no_nested_try_findings};
use crate::rules::no_or_empty_coalesce::{NoOrEmptyCoalesce, no_or_empty_coalesce_findings};
use crate::rules::no_pass_except::{NoPassExcept, no_pass_except_findings};
use crate::rules::no_sentinel_default::{NoSentinelDefault, no_sentinel_default_findings};
use crate::rules::no_todo_comment::{NoTodoComment, no_todo_comment_findings};
use crate::rules::no_typing_any::{NoTypingAny, no_typing_any_findings};

use crate::syntax::{field_child, kind_is, text, SyntaxNode};
use crate::text::string_of;

pub mod guarded_function_import;
pub mod max_function_params;

pub mod no_assert;
pub mod no_async_from_sync;
pub mod no_bare_except;
pub mod no_boolean_positional;
pub mod no_broad_except;
pub mod no_dataclass;


pub mod no_future_annotations;
pub mod no_hasattr_getattr;
pub mod no_nested_try;
pub mod no_or_empty_coalesce;
pub mod no_pass_except;

pub mod no_print;
pub mod no_sentinel_default;
pub mod no_todo_comment;
pub mod no_typing_any;

verus! {

/// What the rules know of the nodes that enclose the node they inspect.
#[derive(Clone, Copy)]
pub struct Scope {
    /// Some enclosing node is a function or class definition.
    pub in_def_or_class: bool,
    /// Some enclosing node is a class definition.
    pub in_class: bool,
    /// Some enclosing node is a `try` statement.
    pub in_try: bool,
    /// For the nearest enclosing function definition, whether it is `async`.
    pub enclosing_def_is_async: Option<bool>,
}

/// The scope at the root of a tree: nothing encloses it.
pub open spec fn top_scope() -> Scope {
    Scope { in_def_or_class: false, in_class: false, in_try: false, enclosing_def_is_async: None }
}

/// A function definition is `async` when its first child is the `async` token.
pub open spec fn is_async_def(n: SyntaxNode) -> bool {
    n.children@.len() > 0 && kind_is(n.children@[0], "async"@)
}

/// The scope of the children of `n`, which stands in scope `s`.
pub open spec fn enter(s: Scope, n: SyntaxNode) -> Scope {
    Scope {
        in_def_or_class: s.in_def_or_class || kind_is(n, "function_definition"@) || kind_is(
            n,
            "class_definition"@,
        ),
        in_class: s.in_class || kind_is(n, "class_definition"@),
        in_try: s.in_try || kind_is(n, "try_statement"@),
        enclosing_def_is_async: if kind_is(n, "function_definition"@) {
            Some(is_async_def(n))
        } else {
            s.enclosing_def_is_async
        },
    }
}

impl Scope {
    pub fn top() -> (r: Scope)
        ensures
            r == top_scope(),
    {
        Scope { in_def_or_class: false, in_class: false, in_try: false, enclosing_def_is_async: None }
    }

    /// The scope of the children of `n`.
    pub fn enter(&self, n: &SyntaxNode) -> (r: Scope)
        ensures
            r == enter(*self, *n),
    {
        let is_def = n.kind_is("function_definition");
        let is_class = n.kind_is("class_definition");
        let is_try = n.kind_is("try_statement");
        let enclosing = if is_def {
            Some(n.children.len() > 0 && n.children[0].kind_is("async"))
        } else {
            self.enclosing_def_is_async
        };
        Scope {
            in_def_or_class: self.in_def_or_class || is_def || is_class,
            in_class: self.in_class || is_class,
            in_try: self.in_try || is_try,
            enclosing_def_is_async: enclosing,
        }
    }
}

/// A diagnostic for `node` under `rule_id` with the given message.
pub fn report(rule_id: &'static str, node: &SyntaxNode, message: &Vec<char>) -> (d: Diagnostic)
    ensures
        d@ == finding(rule_id@, node.line, node.col, message@),
{
    Diagnostic::new(rule_id, node.line, node.col, string_of(message))
}

/// Appends `d` to `out`.
pub fn emit(out: &mut Vec<Diagnostic>, d: Diagnostic)
    ensures
        findings(final(out)@) == findings(old(out)@).push(d@),
{
    let ghost before = out@;
    out.push(d);
    assert(findings(out@) =~= findings(before).push(d@));
}


/// The node naming what a call calls: the called identifier itself, or the
/// attribute name of `obj.name(...)`.
pub open spec fn callee_name(call: SyntaxNode) -> Option<SyntaxNode> {
    match field_child(call, "function"@) {
        Some(f) => if kind_is(f, "identifier"@) {
            Some(f)
        } else if kind_is(f, "attribute"@) {
            field_child(f, "attribute"@)
        } else {
            None
        },
        None => None,
    }
}

pub fn callee_name_exec(call: &SyntaxNode) -> (r: Option<&SyntaxNode>)
    ensures
        r matches Some(c) ==> callee_name(*call) == Some(*c),
        r is None ==> callee_name(*call) is None,
{
    match call.field_child("function") {
        Some(f) => {
            if f.kind_is("identifier") {
                Some(f)
            } else if f.kind_is("attribute") {
                f.field_child("attribute")
            } else {
                None
            }
        },
        None => None,
    }
}

/// The child under field `f` exists and its text is `lit`.
pub open spec fn field_text_is(n: SyntaxNode, f: Seq<char>, src: Seq<u8>, lit: Seq<char>) -> bool {
    field_child(n, f) matches Some(c) && text(c, src) == lit
}

pub fn field_text_is_exec(n: &SyntaxNode, f: &str, src: &[u8], lit: &str) -> (r: bool)
    ensures
        r == field_text_is(*n, f@, src@, lit@),
{
    match n.field_child(f) {
        Some(c) => c.text_is(src, lit),
        None => false,
    }
}


/// A rule of the registry.
#[derive(Clone, Copy)]
pub enum Rule {
    NoHasattrGetattr(NoHasattrGetattr),
    GuardedFunctionImport(GuardedFunctionImport),
    NoFutureAnnotations(NoFutureAnnotations),
    NoDataclass(NoDataclass),
    NoBareExcept(NoBareExcept),
    NoPrint(NoPrint),
    MaxFunctionParams(MaxFunctionParams),
    NoAssert(NoAssert),
    NoAsyncFromSync(NoAsyncFromSync),
    NoBooleanPositional(NoBooleanPositional),
    NoBroadExcept(NoBroadExcept),
    NoNestedTry(NoNestedTry),
    NoOrEmptyCoalesce(NoOrEmptyCoalesce),
    NoPassExcept(NoPassExcept),
    NoSentinelDefault(NoSentinelDefault),
    NoTodoComment(NoTodoComment),
    NoTypingAny(NoTypingAny),
}

/// The identifier under which a rule reports, is excluded and is suppressed.
pub open spec fn rule_name(r: Rule) -> Seq<char> {
    match r {
        Rule::NoHasattrGetattr(_) => "no-hasattr-getattr"@,
        Rule::GuardedFunctionImport(_) => "guarded-function-import"@,
        Rule::NoFutureAnnotations(_) => "no-future-annotations"@,
        Rule::NoDataclass(_) => "no-dataclass"@,
        Rule::NoBareExcept(_) => "no-bare-except"@,
        Rule::NoPrint(_) => "no-print"@,
        Rule::MaxFunctionParams(_) => "max-function-params"@,
        Rule::NoAssert(_) => "no-assert"@,
        Rule::NoAsyncFromSync(_) => "no-async-from-sync"@,
        Rule::NoBooleanPositional(_) => "no-boolean-positional"@,
        Rule::NoBroadExcept(_) => "no-broad-except"@,
        Rule::NoNestedTry(_) => "no-nested-try"@,
        Rule::NoOrEmptyCoalesce(_) => "no-or-empty-coalesce"@,
        Rule::NoPassExcept(_) => "no-pass-except"@,
        Rule::NoSentinelDefault(_) => "no-sentinel-default"@,
        Rule::NoTodoComment(_) => "no-todo-comment"@,
        Rule::NoTypingAny(_) => "no-typing-any"@,
    }
}

/// The severity that the findings of a rule carry.
pub open spec fn rule_severity(r: Rule) -> Severity {
    match r {
        Rule::NoHasattrGetattr(_) => Severity::Error,
        Rule::GuardedFunctionImport(_) => Severity::Warning,
        Rule::NoFutureAnnotations(_) => Severity::Warning,
        Rule::NoDataclass(_) => Severity::Warning,
        Rule::NoBareExcept(_) => Severity::Error,
        Rule::NoPrint(_) => Severity::Error,
        Rule::MaxFunctionParams(_) => Severity::Error,
        Rule::NoAssert(_) => Severity::Error,
        Rule::NoAsyncFromSync(_) => Severity::Error,
        Rule::NoBooleanPositional(_) => Severity::Warning,
        Rule::NoBroadExcept(_) => Severity::Error,
        Rule::NoNestedTry(_) => Severity::Error,
        Rule::NoOrEmptyCoalesce(_) => Severity::Warning,
        Rule::NoPassExcept(_) => Severity::Error,
        Rule::NoSentinelDefault(_) => Severity::Warning,
        Rule::NoTodoComment(_) => Severity::Warning,
        Rule::NoTypingAny(_) => Severity::Error,
    }
}

/// The advice shown with a rule's findings; empty for the rules that give none.
pub open spec fn rule_help(r: Rule) -> Seq<char> {
    match r {
        Rule::NoHasattrGetattr(_) => "`hasattr()` and `getattr()` hide AttributeError and bypass type checkers. Replace with an explicit `try`/`except AttributeError`, a Protocol that declares the expected interface, or a direct attribute access. If the call is genuinely dynamic (plugin dispatch, deserialization), suppress with `# slopcop: ignore[no-hasattr-getattr]`."@,
        Rule::GuardedFunctionImport(_) => "Verify whether a real circular dependency or optional-dependency guard exists before adding a `# reason` comment. Trace the import chain: does module_A -> module_B -> ... -> module_A form a cycle? If a genuine cycle exists, document it: `# reason: avoid import cycle between foo.bar and baz.qux`. If the import is for an optional heavy dependency, document that: `# reason: optional dep; imported only when feature X is used`. If NO cycle or optional-dep guard exists, move the import to the top of the file. Do NOT add a `# reason` comment just to silence this warning."@,
        Rule::NoFutureAnnotations(_) => "`from __future__ import annotations` is unnecessary on Python 3.13+ and breaks runtime inspection of annotations used by Pydantic, FastAPI, and other frameworks that evaluate type hints at runtime. Remove the import line."@,
        Rule::NoDataclass(_) => ""@,
        Rule::NoBareExcept(_) => ""@,
        Rule::NoPrint(_) => ""@,
        Rule::MaxFunctionParams(_) => ""@,
        Rule::NoAssert(_) => ""@,
        Rule::NoAsyncFromSync(_) => "Dispatching an async coroutine from a sync function via `asyncio.get_event_loop()`, `asyncio.run()`, `loop.run_until_complete()`, `asyncio.ensure_future()`, or `asyncio.create_task()` either deadlocks (when a loop is already running), silently creates a new loop that never runs tasks scheduled elsewhere, or raises `RuntimeError`. Make the caller `async def` and `await` the coroutine, or move the sync/async boundary to a single well-defined entrypoint (`asyncio.run(main())` at `if __name__ == \"__main__\"`). If this is a deliberate sync/async bridge (e.g. `nest_asyncio`, Jupyter, Django ORM adapter), suppress with `# slopcop: ignore[no-async-from-sync]`."@,
        Rule::NoBooleanPositional(_) => ""@,
        Rule::NoBroadExcept(_) => "Catching `Exception` or `BaseException` masks bugs and makes debugging harder. Identify the specific exceptions the code actually needs to handle (e.g. `ValueError`, `KeyError`, `IOError`) and catch those instead. If this is a top-level error boundary (event loop, request handler) where broad catching is intentional, suppress with `# slopcop: ignore[no-broad-except]`."@,
        Rule::NoNestedTry(_) => ""@,
        Rule::NoOrEmptyCoalesce(_) => "`obj.attr or {}` / `or []` / `or \"\"` etc. silently replaces *any* falsy value (including legitimate empty containers, zero, or empty strings) with a new default. If the attribute can be `None`, check explicitly with `if obj.attr is None`; if it cannot be `None`, the `or` fallback is dead code and should be removed."@,
        Rule::NoPassExcept(_) => "An `except` block with only `pass` silently swallows errors, hiding bugs. At minimum log the exception with `logger.exception(...)`. If the exception truly should be ignored (e.g. optional cleanup), add a comment explaining why and suppress with `# slopcop: ignore[no-pass-except]`."@,
        Rule::NoSentinelDefault(_) => ""@,
        Rule::NoTodoComment(_) => "Unresolved TODO/FIXME/HACK/XXX comments rot in the codebase. Either fix the issue now, or create a ticket in the issue tracker and reference it (e.g. `# TODO(PROJ-123): ...`). If the comment is tracking a known limitation that cannot be fixed yet, suppress with `# slopcop: ignore[no-todo-comment]`."@,
        Rule::NoTypingAny(_) => ""@,
    }
}

/// The node kinds a rule inspects.
pub open spec fn rule_kinds(r: Rule) -> Seq<Seq<char>> {
    match r {
        Rule::NoHasattrGetattr(_) => seq!["call"@],
        Rule::GuardedFunctionImport(_) => seq!["import_statement"@, "import_from_statement"@],
        Rule::NoFutureAnnotations(_) => seq!["future_import_statement"@],
        Rule::NoDataclass(_) => seq!["decorator"@, "import_statement"@, "import_from_statement"@],
        Rule::NoBareExcept(_) => seq!["except_clause"@],
        Rule::NoPrint(_) => seq!["call"@],
        Rule::MaxFunctionParams(_) => seq!["function_definition"@],
        Rule::NoAssert(_) => seq!["assert_statement"@],
        Rule::NoAsyncFromSync(_) => seq!["call"@],
        Rule::NoBooleanPositional(_) => seq!["call"@],
        Rule::NoBroadExcept(_) => seq!["except_clause"@],
        Rule::NoNestedTry(_) => seq!["try_statement"@],
        Rule::NoOrEmptyCoalesce(_) => seq!["boolean_operator"@],
        Rule::NoPassExcept(_) => seq!["except_clause"@],
        Rule::NoSentinelDefault(_) => seq!["typed_default_parameter"@, "assignment"@],
        Rule::NoTodoComment(_) => seq!["comment"@],
        Rule::NoTypingAny(_) => seq!["type"@, "import_from_statement"@],
    }
}

/// What a rule reports of node `n`, met in scope `scope`, before the engine
/// gives the findings a path and the rule's severity.
pub open spec fn rule_findings(r: Rule, n: SyntaxNode, src: Seq<u8>, scope: Scope) -> Seq<Finding> {
    match r {
        Rule::NoHasattrGetattr(_) => no_hasattr_getattr_findings(n, src),
        Rule::GuardedFunctionImport(_) => guarded_function_import_findings(n, src, scope),
        Rule::NoFutureAnnotations(_) => no_future_annotations_findings(n, src),
        Rule::NoDataclass(_) => no_dataclass_findings(n, src),
        Rule::NoBareExcept(_) => no_bare_except_findings(n, src),
        Rule::NoPrint(_) => no_print_findings(n, src),
        Rule::MaxFunctionParams(x) => max_function_params_findings(x.max, n, src),
        Rule::NoAssert(_) => no_assert_findings(n),
        Rule::NoAsyncFromSync(_) => no_async_from_sync_findings(n, src, scope),
        Rule::NoBooleanPositional(_) => no_boolean_positional_findings(n, src),
        Rule::NoBroadExcept(_) => no_broad_except_findings(n, src),
        Rule::NoNestedTry(_) => no_nested_try_findings(n, scope),
        Rule::NoOrEmptyCoalesce(_) => no_or_empty_coalesce_findings(n, src),
        Rule::NoPassExcept(_) => no_pass_except_findings(n),
        Rule::NoSentinelDefault(_) => no_sentinel_default_findings(n, src, scope),
        Rule::NoTodoComment(_) => no_todo_comment_findings(n, src),
        Rule::NoTypingAny(_) => no_typing_any_findings(n, src),
    }
}

impl Rule {
    pub fn name(&self) -> (r: &'static str)
        ensures
            r@ == rule_name(*self),
    {
        match self {
            Rule::NoHasattrGetattr(_) => "no-hasattr-getattr",
            Rule::GuardedFunctionImport(_) => "guarded-function-import",
            Rule::NoFutureAnnotations(_) => "no-future-annotations",
            Rule::NoDataclass(_) => "no-dataclass",
            Rule::NoBareExcept(_) => "no-bare-except",
            Rule::NoPrint(_) => "no-print",
            Rule::MaxFunctionParams(_) => "max-function-params",
            Rule::NoAssert(_) => "no-assert",
            Rule::NoAsyncFromSync(_) => "no-async-from-sync",
            Rule::NoBooleanPositional(_) => "no-boolean-positional",
            Rule::NoBroadExcept(_) => "no-broad-except",
            Rule::NoNestedTry(_) => "no-nested-try",
            Rule::NoOrEmptyCoalesce(_) => "no-or-empty-coalesce",
            Rule::NoPassExcept(_) => "no-pass-except",
            Rule::NoSentinelDefault(_) => "no-sentinel-default",
            Rule::NoTodoComment(_) => "no-todo-comment",
            Rule::NoTypingAny(_) => "no-typing-any",
        }
    }

    pub fn severity(&self) -> (r: Severity)
        ensures
            r == rule_severity(*self),
    {
        match self {
            Rule::NoHasattrGetattr(_) => Severity::Error,
            Rule::GuardedFunctionImport(_) => Severity::Warning,
            Rule::NoFutureAnnotations(_) => Severity::Warning,
            Rule::NoDataclass(_) => Severity::Warning,
            Rule::NoBareExcept(_) => Severity::Error,
            Rule::NoPrint(_) => Severity::Error,
            Rule::MaxFunctionParams(_) => Severity::Error,
            Rule::NoAssert(_) => Severity::Error,
            Rule::NoAsyncFromSync(_) => Severity::Error,
            Rule::NoBooleanPositional(_) => Severity::Warning,
            Rule::NoBroadExcept(_) => Severity::Error,
            Rule::NoNestedTry(_) => Severity::Error,
            Rule::NoOrEmptyCoalesce(_) => Severity::Warning,
            Rule::NoPassExcept(_) => Severity::Error,
            Rule::NoSentinelDefault(_) => Severity::Warning,
            Rule::NoTodoComment(_) => Severity::Warning,
            Rule::NoTypingAny(_) => Severity::Error,
        }
    }

    pub fn help(&self) -> (r: &'static str)
        ensures
            r@ == rule_help(*self),
    {
        match self {
            Rule::NoHasattrGetattr(_) => "`hasattr()` and `getattr()` hide AttributeError and bypass type checkers. Replace with an explicit `try`/`except AttributeError`, a Protocol that declares the expected interface, or a direct attribute access. If the call is genuinely dynamic (plugin dispatch, deserialization), suppress with `# slopcop: ignore[no-hasattr-getattr]`.",
            Rule::GuardedFunctionImport(_) => "Verify whether a real circular dependency or optional-dependency guard exists before adding a `# reason` comment. Trace the import chain: does module_A -> module_B -> ... -> module_A form a cycle? If a genuine cycle exists, document it: `# reason: avoid import cycle between foo.bar and baz.qux`. If the import is for an optional heavy dependency, document that: `# reason: optional dep; imported only when feature X is used`. If NO cycle or optional-dep guard exists, move the import to the top of the file. Do NOT add a `# reason` comment just to silence this warning.",
            Rule::NoFutureAnnotations(_) => "`from __future__ import annotations` is unnecessary on Python 3.13+ and breaks runtime inspection of annotations used by Pydantic, FastAPI, and other frameworks that evaluate type hints at runtime. Remove the import line.",
            Rule::NoDataclass(_) => "",
            Rule::NoBareExcept(_) => "",
            Rule::NoPrint(_) => "",
            Rule::MaxFunctionParams(_) => "",
            Rule::NoAssert(_) => "",
            Rule::NoAsyncFromSync(_) => "Dispatching an async coroutine from a sync function via `asyncio.get_event_loop()`, `asyncio.run()`, `loop.run_until_complete()`, `asyncio.ensure_future()`, or `asyncio.create_task()` either deadlocks (when a loop is already running), silently creates a new loop that never runs tasks scheduled elsewhere, or raises `RuntimeError`. Make the caller `async def` and `await` the coroutine, or move the sync/async boundary to a single well-defined entrypoint (`asyncio.run(main())` at `if __name__ == \"__main__\"`). If this is a deliberate sync/async bridge (e.g. `nest_asyncio`, Jupyter, Django ORM adapter), suppress with `# slopcop: ignore[no-async-from-sync]`.",
            Rule::NoBooleanPositional(_) => "",
            Rule::NoBroadExcept(_) => "Catching `Exception` or `BaseException` masks bugs and makes debugging harder. Identify the specific exceptions the code actually needs to handle (e.g. `ValueError`, `KeyError`, `IOError`) and catch those instead. If this is a top-level error boundary (event loop, request handler) where broad catching is intentional, suppress with `# slopcop: ignore[no-broad-except]`.",
            Rule::NoNestedTry(_) => "",
            Rule::NoOrEmptyCoalesce(_) => "`obj.attr or {}` / `or []` / `or \"\"` etc. silently replaces *any* falsy value (including legitimate empty containers, zero, or empty strings) with a new default. If the attribute can be `None`, check explicitly with `if obj.attr is None`; if it cannot be `None`, the `or` fallback is dead code and should be removed.",
            Rule::NoPassExcept(_) => "An `except` block with only `pass` silently swallows errors, hiding bugs. At minimum log the exception with `logger.exception(...)`. If the exception truly should be ignored (e.g. optional cleanup), add a comment explaining why and suppress with `# slopcop: ignore[no-pass-except]`.",
            Rule::NoSentinelDefault(_) => "",
            Rule::NoTodoComment(_) => "Unresolved TODO/FIXME/HACK/XXX comments rot in the codebase. Either fix the issue now, or create a ticket in the issue tracker and reference it (e.g. `# TODO(PROJ-123): ...`). If the comment is tracking a known limitation that cannot be fixed yet, suppress with `# slopcop: ignore[no-todo-comment]`.",
            Rule::NoTypingAny(_) => "",
        }
    }

    pub fn node_kinds(&self) -> (r: Vec<&'static str>)
        ensures
            r@.len() == rule_kinds(*self).len(),
            forall|i: int| 0 <= i < r@.len() ==> #[trigger] r@[i]@ == rule_kinds(*self)[i],
    {
        match self {
            Rule::NoHasattrGetattr(_) => vec!["call"],
            Rule::GuardedFunctionImport(_) => vec!["import_statement", "import_from_statement"],
            Rule::NoFutureAnnotations(_) => vec!["future_import_statement"],
            Rule::NoDataclass(_) => vec!["decorator", "import_statement", "import_from_statement"],
            Rule::NoBareExcept(_) => vec!["except_clause"],
            Rule::NoPrint(_) => vec!["call"],
            Rule::MaxFunctionParams(_) => vec!["function_definition"],
            Rule::NoAssert(_) => vec!["assert_statement"],
            Rule::NoAsyncFromSync(_) => vec!["call"],
            Rule::NoBooleanPositional(_) => vec!["call"],
            Rule::NoBroadExcept(_) => vec!["except_clause"],
            Rule::NoNestedTry(_) => vec!["try_statement"],
            Rule::NoOrEmptyCoalesce(_) => vec!["boolean_operator"],
            Rule::NoPassExcept(_) => vec!["except_clause"],
            Rule::NoSentinelDefault(_) => vec!["typed_default_parameter", "assignment"],
            Rule::NoTodoComment(_) => vec!["comment"],
            Rule::NoTypingAny(_) => vec!["type", "import_from_statement"],
        }
    }

    /// Inspects `node` and appends what the rule finds to `out`.
    pub fn check(&self, node: &SyntaxNode, src: &[u8], scope: &Scope, out: &mut Vec<Diagnostic>)
        ensures
            findings(final(out)@) == findings(old(out)@) + rule_findings(*self, *node, src@, *scope),
    {
        match self {
            Rule::NoHasattrGetattr(r) => r.check(node, src, out),
            Rule::GuardedFunctionImport(r) => r.check(node, src, scope, out),
            Rule::NoFutureAnnotations(r) => r.check(node, src, out),
            Rule::NoDataclass(r) => r.check(node, src, out),
            Rule::NoBareExcept(r) => r.check(node, src, out),
            Rule::NoPrint(r) => r.check(node, src, out),
            Rule::MaxFunctionParams(r) => r.check(node, src, out),
            Rule::NoAssert(r) => r.check(node, out),
            Rule::NoAsyncFromSync(r) => r.check(node, src, scope, out),
            Rule::NoBooleanPositional(r) => r.check(node, src, out),
            Rule::NoBroadExcept(r) => r.check(node, src, out),
            Rule::NoNestedTry(r) => r.check(node, scope, out),
            Rule::NoOrEmptyCoalesce(r) => r.check(node, src, out),
            Rule::NoPassExcept(r) => r.check(node, out),
            Rule::NoSentinelDefault(r) => r.check(node, src, scope, out),
            Rule::NoTodoComment(r) => r.check(node, src, out),
            Rule::NoTypingAny(r) => r.check(node, src, out),
        }
    }
}

/// The registry: every rule, `max-function-params` with its default limit.
pub open spec fn registry() -> Seq<Rule> {
    seq![
        Rule::NoHasattrGetattr(NoHasattrGetattr),
        Rule::GuardedFunctionImport(GuardedFunctionImport),
        Rule::NoFutureAnnotations(NoFutureAnnotations),
        Rule::NoDataclass(NoDataclass),
        Rule::NoBareExcept(NoBareExcept),
        Rule::NoPrint(NoPrint),
        Rule::MaxFunctionParams(MaxFunctionParams { max: DEFAULT_MAX_PARAMS }),
        Rule::NoAssert(NoAssert),
        Rule::NoAsyncFromSync(NoAsyncFromSync),
        Rule::NoBooleanPositional(NoBooleanPositional),
        Rule::NoBroadExcept(NoBroadExcept),
        Rule::NoNestedTry(NoNestedTry),
        Rule::NoOrEmptyCoalesce(NoOrEmptyCoalesce),
        Rule::NoPassExcept(NoPassExcept),
        Rule::NoSentinelDefault(NoSentinelDefault),
        Rule::NoTodoComment(NoTodoComment),
        Rule::NoTypingAny(NoTypingAny),
    ]
}

/// All rules of the registry.
pub fn all_rules() -> (r: Vec<Rule>)
    ensures
        r@ == registry(),
{
    let mut v: Vec<Rule> = Vec::new();
    v.push(Rule::NoHasattrGetattr(NoHasattrGetattr));
    v.push(Rule::GuardedFunctionImport(GuardedFunctionImport));
    v.push(Rule::NoFutureAnnotations(NoFutureAnnotations));
    v.push(Rule::NoDataclass(NoDataclass));
    v.push(Rule::NoBareExcept(NoBareExcept));
    v.push(Rule::NoPrint(NoPrint));
    v.push(Rule::MaxFunctionParams(MaxFunctionParams::default()));
    v.push(Rule::NoAssert(NoAssert));
    v.push(Rule::NoAsyncFromSync(NoAsyncFromSync));
    v.push(Rule::NoBooleanPositional(NoBooleanPositional));
    v.push(Rule::NoBroadExcept(NoBroadExcept));
    v.push(Rule::NoNestedTry(NoNestedTry));
    v.push(Rule::NoOrEmptyCoalesce(NoOrEmptyCoalesce));
    v.push(Rule::NoPassExcept(NoPassExcept));
    v.push(Rule::NoSentinelDefault(NoSentinelDefault));
    v.push(Rule::NoTodoComment(NoTodoComment));
    v.push(Rule::NoTypingAny(NoTypingAny));
    v
}


/// Every finding a rule reports carries the rule's name.
pub proof fn lemma_rule_ids(r: Rule, n: SyntaxNode, src: Seq<u8>, scope: Scope)
    ensures
        all_under(rule_findings(r, n, src, scope), rule_name(r)),
{
    match r {
        Rule::NoBooleanPositional(_) => {
            match field_child(n, "arguments"@) {
                Some(args) => lemma_bool_arg_ids(args.children@, src, 0),
                None => {},
            }
        },
        Rule::NoTypingAny(_) => {
            if kind_is(n, "type"@) {
                lemma_any_in_annotation_ids(n, src);
            }
        },
        _ => {},
    }
}

} // verus!
