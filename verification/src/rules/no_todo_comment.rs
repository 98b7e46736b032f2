//! `no-todo-comment`: TODO, FIXME, HACK and XXX markers in comments.
//!
//! A marker counts when it stands as a word: the bytes right before and after
//! it are neither ASCII letters, digits nor `_`.
use vstd::prelude::*;
use vstd::utf8::*;

use crate::diagnostic::{finding, findings, Diagnostic, Finding};
use crate::rules::{emit, report};
use crate::syntax::{text, SyntaxNode};
use crate::text::{append_str, occurs_at, occurs_at_bytes};

verus! {

#[derive(Clone, Copy)]
pub struct NoTodoComment;

pub open spec fn is_word_byte(b: u8) -> bool {
    (48 <= b <= 57) || (97 <= b <= 122) || (65 <= b <= 90) || b == 95
}

/// No byte, or one that cannot continue a word.
pub open spec fn word_boundary(b: Option<u8>) -> bool {
    match b {
        None => true,
        Some(x) => !is_word_byte(x),
    }
}

/// The comment's bytes without its leading `#`.
pub open spec fn comment_body(t: Seq<u8>) -> Seq<u8> {
    if t.len() > 0 && t[0] == 35u8 {
        t.drop_first()
    } else {
        t
    }
}

pub open spec fn byte_at(s: Seq<u8>, i: int) -> Option<u8> {
    if 0 <= i < s.len() {
        Some(s[i])
    } else {
        None
    }
}

/// `marker` stands as a word at index `k` of `body`.
pub open spec fn word_at(body: Seq<u8>, m: Seq<u8>, k: int) -> bool {
    occurs_at(body, m, k) && word_boundary(byte_at(body, k - 1)) && word_boundary(byte_at(body, k + m.len()))
}

/// Some occurrence of `marker` in `body` stands as a word.
pub open spec fn marker_hit(body: Seq<u8>, marker: Seq<char>) -> bool {
    exists|k: int| word_at(body, encode_utf8(marker), k)
}

/// The first marker, in the order TODO, FIXME, HACK, XXX, that the comment
/// text `t` holds as a word.
pub open spec fn todo_marker(t: Seq<char>) -> Option<Seq<char>> {
    let b = comment_body(encode_utf8(t));
    if marker_hit(b, "TODO"@) {
        Some("TODO"@)
    } else if marker_hit(b, "FIXME"@) {
        Some("FIXME"@)
    } else if marker_hit(b, "HACK"@) {
        Some("HACK"@)
    } else if marker_hit(b, "XXX"@) {
        Some("XXX"@)
    } else {
        None
    }
}

pub open spec fn todo_message(marker: Seq<char>) -> Seq<char> {
    "Found `"@ + marker + "` comment; resolve or track in an issue"@
}

/// A comment is reported once, for the first marker it holds as a word.
pub open spec fn no_todo_comment_findings(n: SyntaxNode, src: Seq<u8>) -> Seq<Finding> {
    match todo_marker(text(n, src)) {
        Some(m) => seq![finding("no-todo-comment"@, n.line, n.col, todo_message(m))],
        None => Seq::empty(),
    }
}

/// Whether the byte next to a marker ends the word (or there is none).
pub fn is_word_boundary(byte: Option<u8>) -> (r: bool)
    ensures
        r == word_boundary(byte),
{
    match byte {
        None => true,
        Some(b) => !((48 <= b && b <= 57) || (97 <= b && b <= 122) || (65 <= b && b <= 90) || b == 95),
    }
}

fn marker_hit_exec(body: &[u8], marker: &str) -> (r: bool)
    ensures
        r == marker_hit(body@, marker@),
{
    let m = marker.as_bytes();
    let n = body.len();
    let mut k: usize = 0;
    while k <= n
        invariant
            n == body@.len(),
            m@ == encode_utf8(marker@),
            0 <= k <= n + 1,
            forall|j: int| 0 <= j < k ==> !word_at(body@, m@, j),
        decreases n + 1 - k,
    {
        if occurs_at_bytes(body, m, k) {
            let before = if k == 0 { None } else { Some(body[k - 1]) };
            let after_i = k + m.len();
            let after = if after_i < n { Some(body[after_i]) } else { None };
            if is_word_boundary(before) && is_word_boundary(after) {
                assert(word_at(body@, m@, k as int));
                return true;
            }
        }
        if k == n {
            assert forall|j: int| !word_at(body@, m@, j) by {
                if j > n as int {
                    assert(!occurs_at(body@, m@, j));
                }
            }
            return false;
        }
        k = k + 1;
    }
    false
}

impl NoTodoComment {
    pub fn check(&self, node: &SyntaxNode, src: &[u8], out: &mut Vec<Diagnostic>)
        ensures
            findings(final(out)@) == findings(old(out)@) + no_todo_comment_findings(*node, src@),
    {
        let t: &str = match node.text_str(src) {
            Some(t) => t,
            None => {
                proof { reveal_strlit(""); }
                ""
            },
        };
        assert(t@ == text(*node, src@));
        let tb = t.as_bytes();
        let body = if tb.len() > 0 && tb[0] == 35u8 { &tb[1..tb.len()] } else { tb };
        assert(body@ == comment_body(encode_utf8(t@))) by {
            if tb@.len() > 0 && tb@[0] == 35u8 {
                assert(tb@.subrange(1, tb@.len() as int) =~= tb@.drop_first());
            }
        }
        let marker: &'static str = if marker_hit_exec(body, "TODO") {
            "TODO"
        } else if marker_hit_exec(body, "FIXME") {
            "FIXME"
        } else if marker_hit_exec(body, "HACK") {
            "HACK"
        } else if marker_hit_exec(body, "XXX") {
            "XXX"
        } else {
            assert(findings(out@) =~= findings(out@) + Seq::<Finding>::empty());
            return;
        };
        let mut m: Vec<char> = Vec::new();
        append_str(&mut m, "Found `");
        append_str(&mut m, marker);
        append_str(&mut m, "` comment; resolve or track in an issue");
        let d = report("no-todo-comment", node, &m);
        let ghost before = findings(out@);
        emit(out, d);
        assert(findings(out@) =~= before + no_todo_comment_findings(*node, src@));
    }
}

} // verus!
