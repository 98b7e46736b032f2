//! `guarded-function-import`: an import inside a function or class needs a
//! comment on the line right above it that gives the reason.
use vstd::prelude::*;

use crate::diagnostic::{finding, findings, Diagnostic, Finding};
use crate::rules::{emit, report, Scope};
use crate::syntax::SyntaxNode;
use crate::text::{append_str, first_index_from, lemma_first_index_scan, lemma_split_by_step, split_by};

verus! {

#[derive(Clone, Copy)]
pub struct GuardedFunctionImport;

pub open spec fn newline() -> spec_fn(u8) -> bool {
    |b: u8| b == 10u8
}

/// The bytes of line `row` (0-based) of the source when it is split at each
/// `\n`; empty when the source has fewer lines.
pub open spec fn source_row(src: Seq<u8>, row: int) -> Seq<u8> {
    let rows = split_by(src, newline());
    if 0 <= row < rows.len() {
        rows[row]
    } else {
        Seq::empty()
    }
}

/// ASCII whitespace as `<[u8]>::trim_ascii` removes it.
pub open spec fn is_ascii_space(b: u8) -> bool {
    b == 32u8 || b == 9u8 || b == 10u8 || b == 12u8 || b == 13u8
}

pub open spec fn not_ascii_space() -> spec_fn(u8) -> bool {
    |b: u8| !is_ascii_space(b)
}

/// After its leading ASCII whitespace, the line starts with `#`.
pub open spec fn is_comment_line(line: Seq<u8>) -> bool {
    first_index_from(line, not_ascii_space(), 0) matches Some(i) && line[i] == 35u8
}

pub open spec fn guarded_import_message() -> Seq<char> {
    "Function-scope `import` requires a `# reason` comment on the line immediately above"@
}

/// An import inside a function or class body is reported unless the line right
/// above it is a comment; an import on the first line is always reported.
pub open spec fn guarded_function_import_findings(n: SyntaxNode, src: Seq<u8>, scope: Scope) -> Seq<Finding> {
    let f = finding("guarded-function-import"@, n.line, n.col, guarded_import_message());
    if !scope.in_def_or_class {
        Seq::empty()
    } else if n.line <= 1 {
        seq![f]
    } else if is_comment_line(source_row(src, n.line - 2)) {
        Seq::empty()
    } else {
        seq![f]
    }
}

/// The index just past the next `\n` at or after `from`, or the end.
fn next_newline(src: &[u8], from: usize) -> (r: usize)
    requires
        from <= src@.len(),
    ensures
        from <= r <= src@.len(),
        forall|j: int| from <= j < r ==> src@[j] != 10u8,
        r < src@.len() ==> src@[r as int] == 10u8,
{
    let mut k = from;
    while k < src.len()
        invariant
            from <= k <= src@.len(),
            forall|j: int| from <= j < k ==> src@[j] != 10u8,
        decreases src@.len() - k,
    {
        if src[k] == 10u8 {
            return k;
        }
        k = k + 1;
    }
    k
}

/// The bytes of line `row` of `src`.
fn source_row_exec(src: &[u8], row: usize) -> (r: &[u8])
    ensures
        r@ == source_row(src@, row as int),
{
    let ghost rows = split_by(src@, newline());
    let mut p: usize = 0;
    let mut k: usize = 0;
    assert(src@.skip(0) =~= src@);
    loop
        invariant
            0 <= p <= src@.len(),
            0 <= k <= row,
            rows == split_by(src@, newline()),
            k <= rows.len(),
            rows.skip(k as int) == split_by(src@.skip(p as int), newline()),
        decreases src@.len() - p,
    {
        let j = next_newline(src, p);
        proof {
            lemma_split_by_step(src@, newline(), p as int, j as int);
            assert(split_by(src@.skip(p as int), newline()).len() >= 1);
            assert(rows.skip(k as int).len() == rows.len() - k);
        }
        if j == src.len() {
            assert(rows.skip(k as int)[0] == rows[k as int]);
            if k == row {
                return &src[p..src.len()];
            }
            assert(rows.len() == k + 1);
            return &src[0..0];
        }
        assert(rows.skip(k as int)[0] == rows[k as int]);
        if k == row {
            return &src[p..j];
        }
        assert(rows.skip(k + 1) =~= rows.skip(k as int).skip(1));
        assert(split_by(src@.skip(p as int), newline()).skip(1) =~= split_by(
            src@.skip(j + 1),
            newline(),
        ));
        p = j + 1;
        k = k + 1;
    }
}

fn is_ascii_space_byte(b: u8) -> (r: bool)
    ensures
        r == is_ascii_space(b),
{
    b == 32u8 || b == 9u8 || b == 10u8 || b == 12u8 || b == 13u8
}

fn is_comment_line_exec(line: &[u8]) -> (r: bool)
    ensures
        r == is_comment_line(line@),
{
    let mut i: usize = 0;
    while i < line.len()
        invariant
            0 <= i <= line@.len(),
            forall|j: int| 0 <= j < i ==> !not_ascii_space()(#[trigger] line@[j]),
        decreases line@.len() - i,
    {
        if !is_ascii_space_byte(line[i]) {
            proof { lemma_first_index_scan(line@, not_ascii_space(), 0, i as int); }
            return line[i] == 35u8;
        }
        i = i + 1;
    }
    proof { lemma_first_index_scan(line@, not_ascii_space(), 0, i as int); }
    false
}

impl GuardedFunctionImport {
    pub fn check(&self, node: &SyntaxNode, src: &[u8], scope: &Scope, out: &mut Vec<Diagnostic>)
        ensures
            findings(final(out)@) == findings(old(out)@) + guarded_function_import_findings(
                *node,
                src@,
                *scope,
            ),
    {
        if !scope.in_def_or_class {
            assert(findings(out@) =~= findings(out@) + Seq::<Finding>::empty());
            return;
        }
        let guarded = if node.line <= 1 {
            false
        } else {
            let prev = source_row_exec(src, node.line - 2);
            is_comment_line_exec(prev)
        };
        if guarded {
            assert(findings(out@) =~= findings(out@) + Seq::<Finding>::empty());
            return;
        }
        let mut m: Vec<char> = Vec::new();
        append_str(
            &mut m,
            "Function-scope `import` requires a `# reason` comment on the line immediately above",
        );
        let d = report("guarded-function-import", node, &m);
        let ghost before = findings(out@);
        emit(out, d);
        assert(findings(out@) =~= before + guarded_function_import_findings(*node, src@, *scope));
    }
}

} // verus!
