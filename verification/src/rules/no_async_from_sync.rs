//! `no-async-from-sync`: driving the asyncio loop from inside a sync function.
use vstd::prelude::*;

use crate::diagnostic::{finding, findings, Diagnostic, Finding};
use crate::rules::{emit, field_text_is, field_text_is_exec, report, Scope};
use crate::syntax::{field_child, kind_is, text, SyntaxNode};
use crate::text::append_str;

verus! {

#[derive(Clone, Copy)]
pub struct NoAsyncFromSync;

/// Attribute names that are asyncio loop dispatch whatever object they are called on.
pub open spec fn is_always_banned(name: Seq<char>) -> bool {
    ||| name == "get_event_loop"@
    ||| name == "new_event_loop"@
    ||| name == "run_until_complete"@
    ||| name == "ensure_future"@
}

/// Attribute names that count only when called on `asyncio` itself.
pub open spec fn is_asyncio_only(name: Seq<char>) -> bool {
    name == "run"@ || name == "create_task"@
}

/// The attribute name of a call `obj.name(...)` that dispatches to the asyncio loop.
pub open spec fn loop_dispatch_name(n: SyntaxNode, src: Seq<u8>) -> Option<Seq<char>> {
    match field_child(n, "function"@) {
        Some(f) => if !kind_is(f, "attribute"@) {
            None
        } else {
            match field_child(f, "attribute"@) {
                Some(a) => {
                    let name = text(a, src);
                    if is_always_banned(name) {
                        Some(name)
                    } else if is_asyncio_only(name) {
                        match field_child(f, "object"@) {
                            Some(o) => if kind_is(o, "identifier"@) && text(o, src) == "asyncio"@ {
                                Some(name)
                            } else {
                                None
                            },
                            None => None,
                        }
                    } else {
                        None
                    }
                },
                None => None,
            }
        },
        None => None,
    }
}

pub open spec fn async_from_sync_message(name: Seq<char>) -> Seq<char> {
    "Avoid `"@ + name
        + "()` inside a sync function; make the caller `async def` or move the sync/async boundary to an entrypoint"@
}

/// A loop-dispatch call is reported when the nearest enclosing function
/// definition is not `async`; calls outside any function are not.
pub open spec fn no_async_from_sync_findings(n: SyntaxNode, src: Seq<u8>, scope: Scope) -> Seq<Finding> {
    match loop_dispatch_name(n, src) {
        Some(name) => if scope.enclosing_def_is_async == Some(false) {
            seq![finding("no-async-from-sync"@, n.line, n.col, async_from_sync_message(name))]
        } else {
            Seq::empty()
        },
        None => Seq::empty(),
    }
}

/// The literal that the attribute node's text equals, among the dispatch names.
fn dispatch_name_exec(n: &SyntaxNode, src: &[u8]) -> (r: Option<&'static str>)
    ensures
        r matches Some(s) ==> loop_dispatch_name(*n, src@) == Some(s@),
        r is None ==> loop_dispatch_name(*n, src@) is None,
{
    let f = match n.field_child("function") {
        Some(f) => f,
        None => return None,
    };
    if !f.kind_is("attribute") {
        return None;
    }
    let a = match f.field_child("attribute") {
        Some(a) => a,
        None => return None,
    };
    if a.text_is(src, "get_event_loop") {
        return Some("get_event_loop");
    }
    if a.text_is(src, "new_event_loop") {
        return Some("new_event_loop");
    }
    if a.text_is(src, "run_until_complete") {
        return Some("run_until_complete");
    }
    if a.text_is(src, "ensure_future") {
        return Some("ensure_future");
    }
    let name: &'static str = if a.text_is(src, "run") {
        "run"
    } else if a.text_is(src, "create_task") {
        "create_task"
    } else {
        return None;
    };
    let on_asyncio = match f.field_child("object") {
        Some(o) => o.kind_is("identifier") && o.text_is(src, "asyncio"),
        None => false,
    };
    if on_asyncio {
        Some(name)
    } else {
        None
    }
}

impl NoAsyncFromSync {
    pub fn check(&self, node: &SyntaxNode, src: &[u8], scope: &Scope, out: &mut Vec<Diagnostic>)
        ensures
            findings(final(out)@) == findings(old(out)@) + no_async_from_sync_findings(*node, src@, *scope),
    {
        let name = match dispatch_name_exec(node, src) {
            Some(name) => name,
            None => {
                assert(findings(out@) =~= findings(out@) + Seq::<Finding>::empty());
                return;
            },
        };
        match scope.enclosing_def_is_async {
            Some(false) => {},
            _ => {
                assert(findings(out@) =~= findings(out@) + Seq::<Finding>::empty());
                return;
            },
        }
        let mut m: Vec<char> = Vec::new();
        append_str(&mut m, "Avoid `");
        append_str(&mut m, name);
        append_str(
            &mut m,
            "()` inside a sync function; make the caller `async def` or move the sync/async boundary to an entrypoint",
        );
        let d = report("no-async-from-sync", node, &m);
        let ghost before = findings(out@);
        emit(out, d);
        assert(findings(out@) =~= before + no_async_from_sync_findings(*node, src@, *scope));
    }
}

} // verus!
