//! `no-sentinel-default`: placeholder values used as defaults.
use vstd::prelude::*;

use crate::diagnostic::{finding, findings, Diagnostic, Finding};
use crate::rules::{emit, field_text_is, field_text_is_exec, report, Scope};
use crate::syntax::{field_child, kind_is, text, SyntaxNode};
use crate::text::{
    append_str, ascii_lower, ascii_lower_exec, chars_eq, chars_of, contains, find_chars, split_bounds,
    split_by, starts_with, starts_with_chars,
};

verus! {

#[derive(Clone, Copy)]
pub struct NoSentinelDefault;

// ---------------------------------------------------------------------------
// Placeholder texts
// ---------------------------------------------------------------------------

pub open spec fn hyphen() -> spec_fn(char) -> bool {
    |c: char| c == '-'
}

pub open spec fn is_hex_digit(c: char) -> bool {
    ('0' <= c <= '9') || ('a' <= c <= 'f') || ('A' <= c <= 'F')
}

/// The text with ASCII letters lowered (`str::to_ascii_lowercase`).
pub open spec fn lower_text(t: Seq<char>) -> Seq<char> {
    t.map_values(|c: char| ascii_lower(c))
}

/// Every character of `t` other than `-` is `a`, `b` or `c`.
pub open spec fn covered_by(t: Seq<char>, a: char, b: char, c: char) -> bool {
    forall|i: int| 0 <= i < t.len() && t[i] != '-' ==> (#[trigger] t[i] == a || t[i] == b || t[i] == c)
}

/// The characters of `t` other than `-` are at most three distinct ones.
pub open spec fn at_most_three_hex_chars(t: Seq<char>) -> bool {
    exists|a: char, b: char, c: char| #[trigger] covered_by(t, a, b, c)
}

/// A UUID-shaped text (hex groups of 8-4-4-4-12 between hyphens) that is an
/// obvious placeholder: the documentation example, zeros in the first four
/// groups, a first group of `12345678`, or three distinct digits at most.
pub open spec fn is_uuid_placeholder(t: Seq<char>) -> bool {
    let parts = split_by(t, hyphen());
    &&& parts.len() == 5
    &&& parts[0].len() == 8
    &&& parts[1].len() == 4
    &&& parts[2].len() == 4
    &&& parts[3].len() == 4
    &&& parts[4].len() == 12
    &&& forall|i: int| 0 <= i < t.len() && t[i] != '-' ==> is_hex_digit(#[trigger] t[i])
    &&& {
        ||| t == "123e4567-e89b-12d3-a456-426614174000"@
        ||| (parts[0] == "00000000"@ && parts[1] == "0000"@ && parts[2] == "0000"@ && parts[3]
            == "0000"@)
        ||| parts[0] == "12345678"@
        ||| at_most_three_hex_chars(t)
    }
}

/// Lower-cased texts that are well-known placeholders.
pub open spec fn is_keyword_placeholder(lower: Seq<char>) -> bool {
    ||| lower == "deadbeef"@
    ||| lower == "replace_me"@
    ||| lower == "changeme"@
    ||| lower == "insert_key_here"@
    ||| lower == "your-api-key-here"@
    ||| lower == "your-api-key"@
    ||| lower == "your-key-here"@
    ||| lower == "fake-jwt"@
    ||| lower == "placeholder"@
    ||| lower == "test_string"@
    ||| lower == "foo"@
    ||| lower == "bar"@
    ||| lower == "baz"@
    ||| lower == "qux"@
    ||| lower == "quux"@
    ||| lower == "lorem ipsum"@
    ||| lower == "hello world"@
}

/// A text that is a placeholder: a placeholder UUID, a placeholder keyword in
/// any case, an example domain, a `/path/to/` path or an `sk-` key.
pub open spec fn is_placeholder_text(t: Seq<char>) -> bool {
    let lower = lower_text(t);
    ||| is_uuid_placeholder(t)
    ||| is_keyword_placeholder(lower)
    ||| contains(lower, "example.com"@)
    ||| contains(lower, "example.org"@)
    ||| contains(lower, "example.net"@)
    ||| starts_with(lower, "/path/to/"@)
    ||| starts_with(lower, "sk-"@)
}

// ---------------------------------------------------------------------------
// Placeholder values in the tree
// ---------------------------------------------------------------------------

pub open spec fn is_content() -> spec_fn(SyntaxNode) -> bool {
    |c: SyntaxNode| kind_is(c, "string_content"@)
}

/// The text of the first `string_content` child, empty when there is none.
pub open spec fn string_content(n: SyntaxNode, src: Seq<u8>) -> Seq<char> {
    match crate::text::first_index_from(n.children@, is_content(), 0) {
        Some(i) => text(n.children@[i], src),
        None => Seq::empty(),
    }
}

pub open spec fn is_sentinel_string(n: SyntaxNode, src: Seq<u8>) -> bool {
    string_content(n, src).len() > 0 && is_placeholder_text(string_content(n, src))
}

/// `UUID` or `x.UUID`.
pub open spec fn is_uuid_constructor(f: SyntaxNode, src: Seq<u8>) -> bool {
    ||| kind_is(f, "identifier"@) && text(f, src) == "UUID"@
    ||| kind_is(f, "attribute"@) && field_text_is(f, "attribute"@, src, "UUID"@)
}

pub open spec fn is_digit(c: char) -> bool {
    '0' <= c <= '9'
}

/// The value of a string of decimal digits.
pub open spec fn digits_value(d: Seq<char>) -> nat
    decreases d.len(),
{
    if d.len() == 0 {
        0
    } else {
        digits_value(d.drop_last()) * 10 + ((d.last() as u32) - ('0' as u32)) as nat
    }
}

/// The text after an optional leading `+`.
pub open spec fn unsigned_digits(t: Seq<char>) -> Seq<char> {
    if t.len() > 0 && t[0] == '+' {
        t.drop_first()
    } else {
        t
    }
}

pub open spec fn all_digits(d: Seq<char>) -> bool {
    forall|i: int| 0 <= i < d.len() ==> is_digit(#[trigger] d[i])
}

/// The text parses as a `u64` (an optional `+`, then decimal digits) below 10 000.
pub open spec fn is_small_uint(t: Seq<char>) -> bool {
    let d = unsigned_digits(t);
    d.len() > 0 && all_digits(d) && digits_value(d) < 10000
}

/// An argument of a `UUID(...)` call that makes it a placeholder: `int=` a
/// small integer literal, or a placeholder string.
pub open spec fn is_sentinel_arg(a: SyntaxNode, src: Seq<u8>) -> bool {
    ||| kind_is(a, "keyword_argument"@) && (field_child(a, "name"@) matches Some(nm) && field_child(
        a,
        "value"@,
    ) matches Some(v) && text(nm, src) == "int"@ && kind_is(v, "integer"@) && is_small_uint(
        text(v, src),
    ))
    ||| kind_is(a, "string"@) && is_sentinel_string(a, src)
}

pub open spec fn is_sentinel_call(n: SyntaxNode, src: Seq<u8>) -> bool {
    &&& field_child(n, "function"@) matches Some(f)
    &&& is_uuid_constructor(f, src)
    &&& field_child(n, "arguments"@) matches Some(args)
    &&& exists|i: int| 0 <= i < args.children@.len() && is_sentinel_arg(#[trigger] args.children@[i], src)
}

pub open spec fn is_sentinel_value(n: SyntaxNode, src: Seq<u8>) -> bool {
    if kind_is(n, "string"@) {
        is_sentinel_string(n, src)
    } else if kind_is(n, "call"@) {
        is_sentinel_call(n, src)
    } else {
        false
    }
}

/// Scanning the children `cs[i..]` of an assignment: whether a type annotation
/// came, and which child is the assigned value (the first child after `=`
/// that is neither `=` nor the annotation).
pub open spec fn assignment_parts(cs: Seq<SyntaxNode>, i: int, has_type: bool, found_eq: bool, value: Option<int>) -> (bool, Option<int>)
    decreases cs.len() - i,
{
    if i < 0 || i >= cs.len() {
        (has_type, value)
    } else if kind_is(cs[i], "type"@) && !has_type {
        assignment_parts(cs, i + 1, true, found_eq, value)
    } else if kind_is(cs[i], "="@) {
        assignment_parts(cs, i + 1, has_type, true, value)
    } else if found_eq && value is None {
        assignment_parts(cs, i + 1, has_type, found_eq, Some(i))
    } else {
        assignment_parts(cs, i + 1, has_type, found_eq, value)
    }
}

pub open spec fn sentinel_message() -> Seq<char> {
    "Avoid sentinel/placeholder default values; thread the real value or use `None`"@
}

/// Whether the node is reported: a typed parameter default that is a
/// placeholder, or an annotated assignment in a class body whose value is one.
pub open spec fn has_sentinel_default(n: SyntaxNode, src: Seq<u8>, scope: Scope) -> bool {
    if kind_is(n, "typed_default_parameter"@) {
        field_child(n, "value"@) matches Some(v) && is_sentinel_value(v, src)
    } else if kind_is(n, "assignment"@) {
        let parts = assignment_parts(n.children@, 0, false, false, None);
        &&& scope.in_class
        &&& parts.0
        &&& parts.1 matches Some(i)
        &&& 0 <= i < n.children@.len()
        &&& is_sentinel_value(n.children@[i], src)
    } else {
        false
    }
}

pub open spec fn no_sentinel_default_findings(n: SyntaxNode, src: Seq<u8>, scope: Scope) -> Seq<Finding> {
    if has_sentinel_default(n, src, scope) {
        seq![finding("no-sentinel-default"@, n.line, n.col, sentinel_message())]
    } else {
        Seq::empty()
    }
}


fn is_hex_digit_exec(c: char) -> (r: bool)
    ensures
        r == is_hex_digit(c),
{
    ('0' <= c && c <= '9') || ('a' <= c && c <= 'f') || ('A' <= c && c <= 'F')
}

/// Whether the characters other than `-` are at most three distinct ones.
fn at_most_three_exec(t: &[char]) -> (r: bool)
    ensures
        r == at_most_three_hex_chars(t@),
{
    let mut seen: Vec<char> = Vec::new();
    let mut pos: Vec<usize> = Vec::new();
    let n = t.len();
    let mut i: usize = 0;
    while i < n
        invariant
            n == t@.len(),
            0 <= i <= n,
            seen@.len() <= 3,
            pos@.len() == seen@.len(),
            forall|k: int| 0 <= k < seen@.len() ==> #[trigger] pos@[k] < n && t@[pos@[k] as int] == seen@[k] && seen@[k] != '-',
            forall|k1: int, k2: int| 0 <= k1 < k2 < seen@.len() ==> seen@[k1] != seen@[k2],
            forall|j: int| 0 <= j < i && t@[j] != '-' ==> seen@.contains(#[trigger] t@[j]),
        decreases n - i,
    {
        let c = t[i];
        if c != '-' {
            let mut known = false;
            let mut k: usize = 0;
            while k < seen.len()
                invariant
                    0 <= k <= seen@.len(),
                    known == exists|x: int| 0 <= x < k && seen@[x] == c,
                decreases seen@.len() - k,
            {
                if seen[k] == c {
                    known = true;
                }
                k = k + 1;
            }
            if !known {
                if seen.len() == 3 {
                    proof {
                        let ghost p0 = pos@[0] as int;
                        let ghost p1 = pos@[1] as int;
                        let ghost p2 = pos@[2] as int;
                        assert forall|a: char, b: char, d: char| !#[trigger] covered_by(t@, a, b, d) by {
                            if covered_by(t@, a, b, d) {
                                assert(t@[p0] == a || t@[p0] == b || t@[p0] == d);
                                assert(t@[p1] == a || t@[p1] == b || t@[p1] == d);
                                assert(t@[p2] == a || t@[p2] == b || t@[p2] == d);
                                assert(t@[i as int] == a || t@[i as int] == b || t@[i as int] == d);
                                assert(!seen@.contains(c));
                            }
                        }
                    }
                    return false;
                }
                let ghost old_seen = seen@;
                seen.push(c);
                pos.push(i);
                proof {
                    assert(seen@[old_seen.len() as int] == c);
                    assert forall|j: int| 0 <= j < i + 1 && t@[j] != '-' implies seen@.contains(#[trigger] t@[j]) by {
                        if j < i {
                            let x = choose|x: int| 0 <= x < old_seen.len() && old_seen[x] == t@[j];
                            assert(seen@[x] == t@[j]);
                        }
                    }
                }
            } else {
                proof {
                    let x = choose|x: int| 0 <= x < k && seen@[x] == c;
                    assert(seen@[x] == t@[i as int]);
                }
            }
        }
        i = i + 1;
    }
    proof {
        let a = if seen@.len() > 0 { seen@[0] } else { 'a' };
        let b = if seen@.len() > 1 { seen@[1] } else { a };
        let d = if seen@.len() > 2 { seen@[2] } else { a };
        assert forall|j: int| 0 <= j < t@.len() && t@[j] != '-' implies (#[trigger] t@[j] == a || t@[j] == b
            || t@[j] == d) by {
            assert(seen@.contains(t@[j]));
        }
        assert(covered_by(t@, a, b, d));
    }
    true
}

/// Whether `text` is a placeholder UUID.
pub fn is_placeholder_uuid(text: &str) -> (r: bool)
    ensures
        r == is_uuid_placeholder(text@),
{
    let cs = chars_of(text);
    let t = cs.as_slice();
    let b = split_bounds(t, '-', 5, Ghost(hyphen()));
    if b.len() != 5 {
        return false;
    }
    let (s0, e0) = b[0];
    let (s1, e1) = b[1];
    let (s2, e2) = b[2];
    let (s3, e3) = b[3];
    let (s4, e4) = b[4];
    assert(t@.subrange(s0 as int, e0 as int) == split_by(t@, hyphen())[0]);
    assert(t@.subrange(s1 as int, e1 as int) == split_by(t@, hyphen())[1]);
    assert(t@.subrange(s2 as int, e2 as int) == split_by(t@, hyphen())[2]);
    assert(t@.subrange(s3 as int, e3 as int) == split_by(t@, hyphen())[3]);
    assert(t@.subrange(s4 as int, e4 as int) == split_by(t@, hyphen())[4]);
    if !(e0 - s0 == 8 && e1 - s1 == 4 && e2 - s2 == 4 && e3 - s3 == 4 && e4 - s4 == 12) {
        return false;
    }
    let n = t.len();
    let mut i: usize = 0;
    while i < n
        invariant
            n == t@.len(),
            0 <= i <= n,
            t@ == text@,
            forall|j: int| 0 <= j < i && t@[j] != '-' ==> is_hex_digit(#[trigger] t@[j]),
        decreases n - i,
    {
        if t[i] != '-' && !is_hex_digit_exec(t[i]) {
            assert(t@[i as int] != '-' && !is_hex_digit(t@[i as int]));
            return false;
        }
        i = i + 1;
    }
    let example = chars_of("123e4567-e89b-12d3-a456-426614174000");
    if chars_eq(t, example.as_slice()) {
        return true;
    }
    let z8 = chars_of("00000000");
    let z4 = chars_of("0000");
    if chars_eq(&t[s0..e0], z8.as_slice()) && chars_eq(&t[s1..e1], z4.as_slice()) && chars_eq(
        &t[s2..e2],
        z4.as_slice(),
    ) && chars_eq(&t[s3..e3], z4.as_slice()) {
        return true;
    }
    let ascending = chars_of("12345678");
    if chars_eq(&t[s0..e0], ascending.as_slice()) {
        return true;
    }
    at_most_three_exec(t)
}

fn is_placeholder_keyword_chars(l: &[char]) -> (r: bool)
    ensures
        r == is_keyword_placeholder(l@),
{
    let kws: [&'static str; 17] = [
        "deadbeef",
        "replace_me",
        "changeme",
        "insert_key_here",
        "your-api-key-here",
        "your-api-key",
        "your-key-here",
        "fake-jwt",
        "placeholder",
        "test_string",
        "foo",
        "bar",
        "baz",
        "qux",
        "quux",
        "lorem ipsum",
        "hello world",
    ];
    let ghost spec_kws: Seq<Seq<char>> = seq![
        "deadbeef"@,
        "replace_me"@,
        "changeme"@,
        "insert_key_here"@,
        "your-api-key-here"@,
        "your-api-key"@,
        "your-key-here"@,
        "fake-jwt"@,
        "placeholder"@,
        "test_string"@,
        "foo"@,
        "bar"@,
        "baz"@,
        "qux"@,
        "quux"@,
        "lorem ipsum"@,
        "hello world"@,
    ];
    assert(forall|k: int| 0 <= k < 17 ==> (#[trigger] kws@[k])@ == spec_kws[k]);
    assert(is_keyword_placeholder(l@) == exists|k: int| 0 <= k < 17 && l@ == #[trigger] spec_kws[k]);
    let mut k: usize = 0;
    while k < 17
        invariant
            0 <= k <= 17,
            spec_kws.len() == 17,
            is_keyword_placeholder(l@) == exists|x: int| 0 <= x < 17 && l@ == #[trigger] spec_kws[x],
            forall|x: int| 0 <= x < 17 ==> (#[trigger] kws@[x])@ == spec_kws[x],
            forall|x: int| 0 <= x < k ==> l@ != #[trigger] spec_kws[x],
        decreases 17 - k,
    {
        let w = chars_of(kws[k]);
        if chars_eq(l, w.as_slice()) {
            return true;
        }
        k = k + 1;
    }
    false
}

/// Whether the lower-cased text is a placeholder keyword.
pub fn is_placeholder_keyword(lower: &str) -> (r: bool)
    ensures
        r == is_keyword_placeholder(lower@),
{
    let cs = chars_of(lower);
    is_placeholder_keyword_chars(cs.as_slice())
}

/// The characters with ASCII letters lowered.
fn lower_chars(t: &[char]) -> (r: Vec<char>)
    ensures
        r@ == lower_text(t@),
{
    let mut v: Vec<char> = Vec::new();
    let n = t.len();
    let mut i: usize = 0;
    while i < n
        invariant
            n == t@.len(),
            0 <= i <= n,
            v@ == lower_text(t@.take(i as int)),
        decreases n - i,
    {
        v.push(ascii_lower_exec(t[i]));
        assert(lower_text(t@.take(i + 1)) =~= lower_text(t@.take(i as int)).push(ascii_lower(t@[i as int])));
        i = i + 1;
    }
    assert(t@.take(n as int) =~= t@);
    v
}

/// Whether a string value is a placeholder.
pub fn is_sentinel_text(text: &str) -> (r: bool)
    ensures
        r == is_placeholder_text(text@),
{
    if is_placeholder_uuid(text) {
        return true;
    }
    let cs = chars_of(text);
    let lower = lower_chars(cs.as_slice());
    let l = lower.as_slice();
    if is_placeholder_keyword_chars(l) {
        return true;
    }
    let com = chars_of("example.com");
    let org = chars_of("example.org");
    let net = chars_of("example.net");
    if find_chars(l, com.as_slice()).is_some() || find_chars(l, org.as_slice()).is_some() || find_chars(
        l,
        net.as_slice(),
    ).is_some() {
        return true;
    }
    let path = chars_of("/path/to/");
    let sk = chars_of("sk-");
    starts_with_chars(l, path.as_slice()) || starts_with_chars(l, sk.as_slice())
}


/// The text of the first `string_content` child of a string, empty when none.
pub fn extract_string_content(n: &SyntaxNode, src: &[u8]) -> (r: Vec<char>)
    ensures
        r@ == string_content(*n, src@),
{
    let len = n.children.len();
    let mut i: usize = 0;
    while i < len
        invariant
            len == n.children@.len(),
            0 <= i <= len,
            forall|j: int| 0 <= j < i ==> !is_content()(#[trigger] n.children@[j]),
        decreases len - i,
    {
        if n.children[i].kind_is("string_content") {
            proof { crate::text::lemma_first_index_scan(n.children@, is_content(), 0, i as int); }
            return n.children[i].text_or_empty(src);
        }
        i = i + 1;
    }
    proof { crate::text::lemma_first_index_scan(n.children@, is_content(), 0, i as int); }
    Vec::new()
}

fn is_sentinel_string_exec(n: &SyntaxNode, src: &[u8]) -> (r: bool)
    ensures
        r == is_sentinel_string(*n, src@),
{
    let content = extract_string_content(n, src);
    if content.len() == 0 {
        return false;
    }
    let s = crate::text::string_of(&content);
    is_sentinel_text(s.as_str())
}

fn is_uuid_constructor_exec(f: &SyntaxNode, src: &[u8]) -> (r: bool)
    ensures
        r == is_uuid_constructor(*f, src@),
{
    (f.kind_is("identifier") && f.text_is(src, "UUID")) || (f.kind_is("attribute") && field_text_is_exec(
        f,
        "attribute",
        src,
        "UUID",
    ))
}

/// Whether decimal text (with an optional `+`) is a `u64` below 10 000.
fn is_small_uint_exec(t: &[char]) -> (r: bool)
    ensures
        r == is_small_uint(t@),
{
    let start: usize = if t.len() > 0 && t[0] == '+' { 1 } else { 0 };
    let d = &t[start..t.len()];
    assert(d@ == unsigned_digits(t@)) by {
        if start == 1 {
            assert(t@.subrange(1, t@.len() as int) =~= t@.drop_first());
        } else {
            assert(t@.subrange(0, t@.len() as int) =~= t@);
        }
    }
    if d.len() == 0 {
        return false;
    }
    let n = d.len();
    let mut v: u64 = 0;
    let mut i: usize = 0;
    while i < n
        invariant
            n == d@.len(),
            0 <= i <= n,
            d@ == unsigned_digits(t@),
            forall|j: int| 0 <= j < i ==> is_digit(#[trigger] d@[j]),
            v as nat == if digits_value(d@.take(i as int)) < 10000 {
                digits_value(d@.take(i as int))
            } else {
                10000
            },
        decreases n - i,
    {
        let c = d[i];
        if !('0' <= c && c <= '9') {
            assert(!is_digit(d@[i as int]));
            return false;
        }
        let dig = (c as u32 - '0' as u32) as u64;
        assert(d@.take(i + 1).drop_last() =~= d@.take(i as int));
        assert(d@.take(i + 1).last() == c);
        v = if v * 10 + dig < 10000 { v * 10 + dig } else { 10000 };
        i = i + 1;
    }
    assert(d@.take(n as int) =~= d@);
    v < 10000
}

fn is_sentinel_arg_exec(a: &SyntaxNode, src: &[u8]) -> (r: bool)
    ensures
        r == is_sentinel_arg(*a, src@),
{
    let small_int = if a.kind_is("keyword_argument") {
        match (a.field_child("name"), a.field_child("value")) {
            (Some(nm), Some(v)) => {
                if nm.text_is(src, "int") && v.kind_is("integer") {
                    let vt = v.text_or_empty(src);
                    is_small_uint_exec(vt.as_slice())
                } else {
                    false
                }
            },
            _ => false,
        }
    } else {
        false
    };
    small_int || (a.kind_is("string") && is_sentinel_string_exec(a, src))
}

fn is_sentinel_call_exec(n: &SyntaxNode, src: &[u8]) -> (r: bool)
    ensures
        r == is_sentinel_call(*n, src@),
{
    let f = match n.field_child("function") {
        Some(f) => f,
        None => return false,
    };
    if !is_uuid_constructor_exec(f, src) {
        return false;
    }
    let args = match n.field_child("arguments") {
        Some(a) => a,
        None => return false,
    };
    let len = args.children.len();
    let mut i: usize = 0;
    while i < len
        invariant
            len == args.children@.len(),
            0 <= i <= len,
            field_child(*n, "function"@) == Some(*f),
            is_uuid_constructor(*f, src@),
            field_child(*n, "arguments"@) == Some(*args),
            forall|j: int| 0 <= j < i ==> !is_sentinel_arg(#[trigger] args.children@[j], src@),
        decreases len - i,
    {
        if is_sentinel_arg_exec(&args.children[i], src) {
            return true;
        }
        i = i + 1;
    }
    false
}

/// Whether a default value is a placeholder string or a placeholder `UUID(...)`.
pub fn is_sentinel_value_exec(n: &SyntaxNode, src: &[u8]) -> (r: bool)
    ensures
        r == is_sentinel_value(*n, src@),
{
    if n.kind_is("string") {
        is_sentinel_string_exec(n, src)
    } else if n.kind_is("call") {
        is_sentinel_call_exec(n, src)
    } else {
        false
    }
}

/// Whether the assignment is annotated, and the index of its value.
fn assignment_parts_exec(n: &SyntaxNode) -> (r: (bool, Option<usize>))
    ensures
        r.0 == assignment_parts(n.children@, 0, false, false, None).0,
        r.1 matches Some(i) ==> assignment_parts(n.children@, 0, false, false, None).1 == Some(i as int)
            && i < n.children@.len(),
        r.1 is None ==> assignment_parts(n.children@, 0, false, false, None).1 is None,
{
    let cs = &n.children;
    let len = cs.len();
    let mut has_type = false;
    let mut found_eq = false;
    let mut value: Option<usize> = None;
    let mut i: usize = 0;
    while i < len
        invariant
            len == cs@.len(),
            0 <= i <= len,
            value matches Some(v) ==> v < i,
            assignment_parts(cs@, 0, false, false, None) == assignment_parts(
                cs@,
                i as int,
                has_type,
                found_eq,
                match value {
                    Some(v) => Some(v as int),
                    None => None,
                },
            ),
        decreases len - i,
    {
        let c = &cs[i];
        if c.kind_is("type") && !has_type {
            has_type = true;
        } else if c.kind_is("=") {
            found_eq = true;
        } else if found_eq && value.is_none() {
            value = Some(i);
        }
        i = i + 1;
    }
    (has_type, value)
}

impl NoSentinelDefault {
    pub fn check(&self, node: &SyntaxNode, src: &[u8], scope: &Scope, out: &mut Vec<Diagnostic>)
        ensures
            findings(final(out)@) == findings(old(out)@) + no_sentinel_default_findings(*node, src@, *scope),
    {
        let hit = if node.kind_is("typed_default_parameter") {
            match node.field_child("value") {
                Some(v) => is_sentinel_value_exec(v, src),
                None => false,
            }
        } else if node.kind_is("assignment") {
            if !scope.in_class {
                false
            } else {
                let (has_type, value) = assignment_parts_exec(node);
                match value {
                    Some(i) => has_type && is_sentinel_value_exec(&node.children[i], src),
                    None => false,
                }
            }
        } else {
            false
        };
        if !hit {
            assert(findings(out@) =~= findings(out@) + Seq::<Finding>::empty());
            return;
        }
        let mut m: Vec<char> = Vec::new();
        append_str(&mut m, "Avoid sentinel/placeholder default values; thread the real value or use `None`");
        let d = report("no-sentinel-default", node, &m);
        let ghost before = findings(out@);
        emit(out, d);
        assert(findings(out@) =~= before + no_sentinel_default_findings(*node, src@, *scope));
    }
}

} // verus!
