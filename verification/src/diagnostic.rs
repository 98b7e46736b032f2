//! A finding of a rule at a place in a file.
use vstd::prelude::*;

use crate::text::{append_chars, append_str, decimal, decimal_chars, string_of};

verus! {

/// How much a finding weighs: errors fail a run, warnings fail it unless
/// only errors are to count.
#[derive(Clone, Copy, Debug, PartialEq, Eq, Structural)]
pub enum Severity {
    Error,
    Warning,
}

/// A rule violation found in a file.
#[derive(Debug, Clone, PartialEq, Eq)]
pub struct Diagnostic {
    pub path: String,
    /// 1-based line of the offending construct.
    pub line: usize,
    /// 0-based byte column of the offending construct.
    pub col: usize,
    pub rule_id: &'static str,
    pub severity: Severity,
    pub message: String,
}

/// The mathematical value of a `Diagnostic`.
pub struct Finding {
    pub path: Seq<char>,
    pub line: usize,
    pub col: usize,
    pub rule_id: Seq<char>,
    pub severity: Severity,
    pub message: Seq<char>,
}

impl View for Diagnostic {
    type V = Finding;

    open spec fn view(&self) -> Finding {
        Finding {
            path: self.path@,
            line: self.line,
            col: self.col,
            rule_id: self.rule_id@,
            severity: self.severity,
            message: self.message@,
        }
    }
}

/// The findings that a sequence of diagnostics stands for.
pub open spec fn findings(ds: Seq<Diagnostic>) -> Seq<Finding> {
    ds.map_values(|d: Diagnostic| d@)
}

/// A finding as a rule reports it: no path yet, `Error` severity.
pub open spec fn finding(rule_id: Seq<char>, line: usize, col: usize, message: Seq<char>) -> Finding {
    Finding { path: Seq::empty(), line, col, rule_id, severity: Severity::Error, message }
}

/// The one-line rendering `path:line:col  [rule] message`.
pub open spec fn rendered(f: Finding) -> Seq<char> {
    f.path + ":"@ + decimal(f.line as nat) + ":"@ + decimal(f.col as nat) + "  ["@ + f.rule_id
        + "] "@ + f.message
}

impl Diagnostic {
    /// A diagnostic with no path and `Error` severity; the engine fills in the
    /// path and the reporting rule's severity.
    pub fn new(rule_id: &'static str, line: usize, col: usize, message: String) -> (r: Self)
        ensures
            r@ == finding(rule_id@, line, col, message@),
    {
        Diagnostic { path: String::new(), line, col, rule_id, severity: Severity::Error, message }
    }

    /// A copy of the diagnostic, field for field.
    pub fn duplicate(&self) -> (r: Self)
        ensures
            r@ == self@,
    {
        Diagnostic {
            path: self.path.clone(),
            line: self.line,
            col: self.col,
            rule_id: self.rule_id,
            severity: self.severity,
            message: self.message.clone(),
        }
    }

    /// The diagnostic as one line of text, as the command line prints it.
    pub fn to_string(&self) -> (r: String)
        ensures
            r@ == rendered(self@),
    {
        let mut v: Vec<char> = Vec::new();
        append_str(&mut v, self.path.as_str());
        append_str(&mut v, ":");
        let l = decimal_chars(self.line);
        append_chars(&mut v, l.as_slice());
        append_str(&mut v, ":");
        let c = decimal_chars(self.col);
        append_chars(&mut v, c.as_slice());
        append_str(&mut v, "  [");
        append_str(&mut v, self.rule_id);
        append_str(&mut v, "] ");
        append_str(&mut v, self.message.as_str());
        string_of(&v)
    }
}


/// Every finding of `fs` is reported under rule `id`.
pub open spec fn all_under(fs: Seq<Finding>, id: Seq<char>) -> bool {
    forall|i: int| 0 <= i < fs.len() ==> (#[trigger] fs[i]).rule_id == id
}

/// Joining two sequences of findings under `id` gives one under `id`.
pub proof fn lemma_all_under_add(a: Seq<Finding>, b: Seq<Finding>, id: Seq<char>)
    requires
        all_under(a, id),
        all_under(b, id),
    ensures
        all_under(a + b, id),
{
    assert forall|i: int| 0 <= i < (a + b).len() implies (#[trigger] (a + b)[i]).rule_id == id by {
        if i < a.len() {
            assert((a + b)[i] == a[i]);
        } else {
            assert((a + b)[i] == b[i - a.len()]);
        }
    }
}

} // verus!
