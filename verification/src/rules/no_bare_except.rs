//! `no-bare-except`: `except:` and `except Exception:`.
use vstd::prelude::*;

use crate::diagnostic::{finding, findings, Diagnostic, Finding};
use crate::rules::{emit, report};
use crate::syntax::{kind_is, text, SyntaxNode};
use crate::text::append_str;

verus! {

#[derive(Clone, Copy)]
pub struct NoBareExcept;

/// The kinds of node that name the caught exception type directly.
pub open spec fn is_type_expr_kind(c: SyntaxNode) -> bool {
    ||| kind_is(c, "identifier"@)
    ||| kind_is(c, "attribute"@)
    ||| kind_is(c, "tuple"@)
    ||| kind_is(c, "parenthesized_expression"@)
}

/// Scanning the children `cs[i..]` of an `except` clause (`found`: the
/// `except` keyword has been passed), the node that names the caught type.
pub open spec fn exception_type_from(cs: Seq<SyntaxNode>, src: Seq<u8>, i: int, found: bool) -> Option<SyntaxNode>
    decreases cs.len() - i,
{
    if i < 0 || i >= cs.len() {
        None
    } else {
        let c = cs[i];
        if text(c, src) == "except"@ {
            exception_type_from(cs, src, i + 1, true)
        } else if !found {
            exception_type_from(cs, src, i + 1, false)
        } else if kind_is(c, ":"@) || kind_is(c, "block"@) {
            None
        } else if is_type_expr_kind(c) {
            if text(c, src) == "as"@ {
                exception_type_from(cs, src, i + 1, found)
            } else {
                Some(c)
            }
        } else if kind_is(c, "as_pattern"@) && c.children@.len() > 0 {
            Some(c.children@[0])
        } else {
            exception_type_from(cs, src, i + 1, found)
        }
    }
}

/// The node that names the type an `except` clause catches; `None` for a bare `except:`.
pub open spec fn exception_type(n: SyntaxNode, src: Seq<u8>) -> Option<SyntaxNode> {
    exception_type_from(n.children@, src, 0, false)
}

pub open spec fn bare_except_message() -> Seq<char> {
    "Bare `except:` catches all exceptions including KeyboardInterrupt; specify an exception type"@
}

pub open spec fn too_broad_message(t: Seq<char>) -> Seq<char> {
    "`except "@ + t + "` is too broad; catch specific exception types"@
}

pub open spec fn is_broad_type(t: Seq<char>) -> bool {
    t == "Exception"@ || t == "BaseException"@
}

/// A bare `except:` is reported, and so is `except Exception` or `except BaseException`.
pub open spec fn no_bare_except_findings(n: SyntaxNode, src: Seq<u8>) -> Seq<Finding> {
    match exception_type(n, src) {
        None => seq![finding("no-bare-except"@, n.line, n.col, bare_except_message())],
        Some(t) => if is_broad_type(text(t, src)) {
            seq![finding("no-bare-except"@, n.line, n.col, too_broad_message(text(t, src)))]
        } else {
            Seq::empty()
        },
    }
}

/// The node that names the type an `except` clause catches.
pub fn find_exception_type<'a>(n: &'a SyntaxNode, src: &[u8]) -> (r: Option<&'a SyntaxNode>)
    ensures
        r matches Some(t) ==> exception_type(*n, src@) == Some(*t),
        r is None ==> exception_type(*n, src@) is None,
{
    let cs = &n.children;
    let len = cs.len();
    let mut found = false;
    let mut i: usize = 0;
    while i < len
        invariant
            len == cs@.len(),
            0 <= i <= len,
            exception_type(*n, src@) == exception_type_from(cs@, src@, i as int, found),
        decreases len - i,
    {
        let c = &cs[i];
        if c.text_is(src, "except") {
            found = true;
        } else if !found {
        } else if c.kind_is(":") || c.kind_is("block") {
            return None;
        } else if c.kind_is("identifier") || c.kind_is("attribute") || c.kind_is("tuple")
            || c.kind_is("parenthesized_expression") {
            if !c.text_is(src, "as") {
                return Some(c);
            }
        } else if c.kind_is("as_pattern") && c.children.len() > 0 {
            return Some(&c.children[0]);
        }
        i = i + 1;
    }
    None
}

impl NoBareExcept {
    pub fn check(&self, node: &SyntaxNode, src: &[u8], out: &mut Vec<Diagnostic>)
        ensures
            findings(final(out)@) == findings(old(out)@) + no_bare_except_findings(*node, src@),
    {
        let mut m: Vec<char> = Vec::new();
        match find_exception_type(node, src) {
            None => {
                append_str(
                    &mut m,
                    "Bare `except:` catches all exceptions including KeyboardInterrupt; specify an exception type",
                );
            },
            Some(t) => {
                let name: &'static str = if t.text_is(src, "Exception") {
                    "Exception"
                } else if t.text_is(src, "BaseException") {
                    "BaseException"
                } else {
                    assert(findings(out@) =~= findings(out@) + Seq::<Finding>::empty());
                    return;
                };
                append_str(&mut m, "`except ");
                append_str(&mut m, name);
                append_str(&mut m, "` is too broad; catch specific exception types");
            },
        }
        let d = report("no-bare-except", node, &m);
        let ghost before = findings(out@);
        emit(out, d);
        assert(findings(out@) =~= before + no_bare_except_findings(*node, src@));
    }
}

} // verus!
