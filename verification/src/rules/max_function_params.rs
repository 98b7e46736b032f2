//! `max-function-params`: functions with too many parameters.
use vstd::prelude::*;

use crate::diagnostic::{finding, findings, Diagnostic, Finding};
use crate::rules::{emit, field_text_is, field_text_is_exec, report};
use crate::syntax::{field_child, kind_is, text, SyntaxNode};
use crate::text::{append_chars, append_str, decimal, decimal_chars};

verus! {

/// The parameter limit that `MaxFunctionParams::default` uses.
pub const DEFAULT_MAX_PARAMS: usize = 8;

#[derive(Clone, Copy)]
pub struct MaxFunctionParams {
    pub max: usize,
}

impl Default for MaxFunctionParams {
    fn default() -> (r: Self)
        ensures
            r.max == DEFAULT_MAX_PARAMS,
    {
        MaxFunctionParams { max: DEFAULT_MAX_PARAMS }
    }
}

/// The node kinds that stand for a parameter in a parameter list.
pub open spec fn is_param_kind(c: SyntaxNode) -> bool {
    ||| kind_is(c, "identifier"@)
    ||| kind_is(c, "typed_parameter"@)
    ||| kind_is(c, "default_parameter"@)
    ||| kind_is(c, "typed_default_parameter"@)
    ||| kind_is(c, "list_splat_pattern"@)
    ||| kind_is(c, "dictionary_splat_pattern"@)
}

pub open spec fn is_self_or_cls(t: Seq<char>) -> bool {
    t == "self"@ || t == "cls"@
}

/// A parameter that counts: `self` and `cls` do not, bare or typed.
pub open spec fn counts_as_param(c: SyntaxNode, src: Seq<u8>) -> bool {
    &&& is_param_kind(c)
    &&& !(kind_is(c, "identifier"@) && is_self_or_cls(text(c, src)))
    &&& !((kind_is(c, "typed_parameter"@) || kind_is(c, "typed_default_parameter"@)) && (
    field_text_is(c, "name"@, src, "self"@) || field_text_is(c, "name"@, src, "cls"@)))
}

/// The number of counted parameters among `cs[i..]`.
pub open spec fn param_count(cs: Seq<SyntaxNode>, src: Seq<u8>, i: int) -> nat
    decreases cs.len() - i,
{
    if i < 0 || i >= cs.len() {
        0
    } else {
        (if counts_as_param(cs[i], src) { 1nat } else { 0nat }) + param_count(cs, src, i + 1)
    }
}

pub open spec fn params_message(count: nat, max: nat) -> Seq<char> {
    "Function has "@ + decimal(count) + " parameters (max "@ + decimal(max)
        + "); group related parameters into a dataclass or model"@
}

/// A function definition whose parameter list counts more than `max`
/// parameters is reported.
pub open spec fn max_function_params_findings(max: usize, n: SyntaxNode, src: Seq<u8>) -> Seq<Finding> {
    match field_child(n, "parameters"@) {
        Some(params) => {
            let count = param_count(params.children@, src, 0);
            if count > max {
                seq![finding("max-function-params"@, n.line, n.col, params_message(count, max as nat))]
            } else {
                Seq::empty()
            }
        },
        None => Seq::empty(),
    }
}

fn counts_as_param_exec(c: &SyntaxNode, src: &[u8]) -> (r: bool)
    ensures
        r == counts_as_param(*c, src@),
{
    let is_param = c.kind_is("identifier") || c.kind_is("typed_parameter") || c.kind_is("default_parameter")
        || c.kind_is("typed_default_parameter") || c.kind_is("list_splat_pattern")
        || c.kind_is("dictionary_splat_pattern");
    if !is_param {
        return false;
    }
    if c.kind_is("identifier") && (c.text_is(src, "self") || c.text_is(src, "cls")) {
        return false;
    }
    if (c.kind_is("typed_parameter") || c.kind_is("typed_default_parameter")) && (field_text_is_exec(
        c,
        "name",
        src,
        "self",
    ) || field_text_is_exec(c, "name", src, "cls")) {
        return false;
    }
    true
}

impl MaxFunctionParams {
    pub fn check(&self, node: &SyntaxNode, src: &[u8], out: &mut Vec<Diagnostic>)
        ensures
            findings(final(out)@) == findings(old(out)@) + max_function_params_findings(self.max, *node, src@),
    {
        let params = match node.field_child("parameters") {
            Some(p) => p,
            None => {
                assert(findings(out@) =~= findings(out@) + Seq::<Finding>::empty());
                return;
            },
        };
        let cs = &params.children;
        let n = cs.len();
        let mut count: usize = 0;
        let mut i: usize = n;
        while i > 0
            invariant
                n == cs@.len(),
                0 <= i <= n,
                count == param_count(cs@, src@, i as int),
                count <= n - i,
            decreases i,
        {
            i = i - 1;
            if counts_as_param_exec(&cs[i], src) {
                count = count + 1;
            }
        }
        if count <= self.max {
            assert(findings(out@) =~= findings(out@) + Seq::<Finding>::empty());
            return;
        }
        let mut m: Vec<char> = Vec::new();
        append_str(&mut m, "Function has ");
        let c = decimal_chars(count);
        append_chars(&mut m, c.as_slice());
        append_str(&mut m, " parameters (max ");
        let x = decimal_chars(self.max);
        append_chars(&mut m, x.as_slice());
        append_str(&mut m, "); group related parameters into a dataclass or model");
        let d = report("max-function-params", node, &m);
        let ghost before = findings(out@);
        emit(out, d);
        assert(findings(out@) =~= before + max_function_params_findings(self.max, *node, src@));
    }
}

} // verus!
