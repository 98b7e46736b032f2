//! `no-boolean-positional`: bare `True`/`False` passed by position.
use vstd::prelude::*;

use crate::diagnostic::{all_under, finding, findings, lemma_all_under_add, Diagnostic, Finding};
use crate::rules::{emit, report};
use crate::syntax::{field_child, kind_is, text, SyntaxNode};
use crate::text::append_str;

verus! {

#[derive(Clone, Copy)]
pub struct NoBooleanPositional;

/// A positional argument that is a bare boolean literal.
pub open spec fn is_bool_positional(a: SyntaxNode, src: Seq<u8>) -> bool {
    &&& !kind_is(a, "keyword_argument"@)
    &&& {
        ||| kind_is(a, "true"@)
        ||| kind_is(a, "false"@)
        ||| kind_is(a, "identifier"@) && (text(a, src) == "True"@ || text(a, src) == "False"@)
    }
}

pub open spec fn bool_positional_message() -> Seq<char> {
    "Avoid bare boolean positional arguments; use keyword arguments for clarity"@
}

/// One finding per boolean positional argument among `args[i..]`, at the argument.
pub open spec fn bool_arg_findings(args: Seq<SyntaxNode>, src: Seq<u8>, i: int) -> Seq<Finding>
    decreases args.len() - i,
{
    if i < 0 || i >= args.len() {
        Seq::empty()
    } else {
        let a = args[i];
        let here = if is_bool_positional(a, src) {
            seq![finding("no-boolean-positional"@, a.line, a.col, bool_positional_message())]
        } else {
            Seq::empty()
        };
        here + bool_arg_findings(args, src, i + 1)
    }
}

pub open spec fn no_boolean_positional_findings(n: SyntaxNode, src: Seq<u8>) -> Seq<Finding> {
    match field_child(n, "arguments"@) {
        Some(args) => bool_arg_findings(args.children@, src, 0),
        None => Seq::empty(),
    }
}

impl NoBooleanPositional {
    pub fn check(&self, node: &SyntaxNode, src: &[u8], out: &mut Vec<Diagnostic>)
        ensures
            findings(final(out)@) == findings(old(out)@) + no_boolean_positional_findings(*node, src@),
    {
        let args = match node.field_child("arguments") {
            Some(a) => a,
            None => {
                assert(findings(out@) =~= findings(out@) + Seq::<Finding>::empty());
                return;
            },
        };
        let ghost start = findings(out@);
        let n = args.children.len();
        let mut i: usize = 0;
        while i < n
            invariant
                n == args.children@.len(),
                0 <= i <= n,
                start + bool_arg_findings(args.children@, src@, 0) == findings(out@)
                    + bool_arg_findings(args.children@, src@, i as int),
            decreases n - i,
        {
            let a = &args.children[i];
            let ghost before = findings(out@);
            let hit = !a.kind_is("keyword_argument") && (a.kind_is("true") || a.kind_is("false")
                || (a.kind_is("identifier") && (a.text_is(src, "True") || a.text_is(src, "False"))));
            if hit {
                let mut m: Vec<char> = Vec::new();
                append_str(&mut m, "Avoid bare boolean positional arguments; use keyword arguments for clarity");
                let d = report("no-boolean-positional", a, &m);
                emit(out, d);
            }
            assert(findings(out@) + bool_arg_findings(args.children@, src@, i + 1) =~= before
                + bool_arg_findings(args.children@, src@, i as int));
            i = i + 1;
        }
        assert(findings(out@) + bool_arg_findings(args.children@, src@, i as int) =~= findings(out@));
    }
}


/// Every finding of `bool_arg_findings` is reported under this rule's name.
pub proof fn lemma_bool_arg_ids(args: Seq<SyntaxNode>, src: Seq<u8>, i: int)
    ensures
        all_under(bool_arg_findings(args, src, i), "no-boolean-positional"@),
    decreases args.len() - i,
{
    if 0 <= i < args.len() {
        lemma_bool_arg_ids(args, src, i + 1);
        let a = args[i];
        let here = if is_bool_positional(a, src) {
            seq![finding("no-boolean-positional"@, a.line, a.col, bool_positional_message())]
        } else {
            Seq::empty()
        };
        lemma_all_under_add(here, bool_arg_findings(args, src, i + 1), "no-boolean-positional"@);
    }
}

} // verus!
