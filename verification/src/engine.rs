//! The lint pass: one depth-first walk over the syntax tree that hands each
//! node to the rules that inspect its kind, then the finishing steps (path,
//! inline suppression, the test-file exemption of `no-assert`).
use vstd::prelude::*;
use vstd::utf8::*;

use crate::config::{active, active_rules, lemma_active_none, Config};
use crate::diagnostic::{findings, Diagnostic, Finding, Severity};
use crate::laws::{law_active_rules, law_exclusion_filters, law_parse_determines_findings, law_lint_findings_sound, not_excluded, reported_by};
use crate::rules::no_assert::{is_test_file, is_test_path};
use crate::rules::{
    enter, registry, rule_findings, rule_kinds, rule_name, rule_severity, top_scope, Rule, Scope,
};
use crate::suppression::{filter_suppressed, is_suppressed_in, unsuppressed};
use crate::syntax::{parse_python, parsed_from, parses, SyntaxNode};
use crate::text::str_eq;

verus! {

/// Rule `r` inspects nodes of kind `k`.
pub open spec fn handles(r: Rule, k: Seq<char>) -> bool {
    rule_kinds(r).contains(k)
}

/// `fs` with every finding given severity `s`.
pub open spec fn with_severity(fs: Seq<Finding>, s: Severity) -> Seq<Finding> {
    Seq::new(
        fs.len(),
        |i: int|
            Finding {
                path: fs[i].path,
                line: fs[i].line,
                col: fs[i].col,
                rule_id: fs[i].rule_id,
                severity: s,
                message: fs[i].message,
            },
    )
}

/// `fs` with every finding given path `p`.
pub open spec fn with_path(fs: Seq<Finding>, p: Seq<char>) -> Seq<Finding> {
    Seq::new(
        fs.len(),
        |i: int|
            Finding {
                path: p,
                line: fs[i].line,
                col: fs[i].col,
                rule_id: fs[i].rule_id,
                severity: fs[i].severity,
                message: fs[i].message,
            },
    )
}

/// What `rules[i..]`, in their order, report of node `n` met in `scope`: each
/// rule that inspects the node's kind contributes its findings with its own
/// severity.
pub open spec fn node_findings(rules: Seq<Rule>, n: SyntaxNode, src: Seq<u8>, scope: Scope, i: int) -> Seq<Finding>
    decreases rules.len() - i,
{
    if i < 0 || i >= rules.len() {
        Seq::empty()
    } else {
        let here = if handles(rules[i], n.kind@) {
            with_severity(rule_findings(rules[i], n, src, scope), rule_severity(rules[i]))
        } else {
            Seq::empty()
        };
        here + node_findings(rules, n, src, scope, i + 1)
    }
}

/// What the rules report of the tree `n` met in `scope`, in pre-order: the
/// node itself first, then its children from first to last.
pub open spec fn tree_findings(n: SyntaxNode, src: Seq<u8>, scope: Scope, rules: Seq<Rule>) -> Seq<Finding>
    decreases n, 1int, 0int,
{
    node_findings(rules, n, src, scope, 0) + children_findings(n, src, enter(scope, n), rules, 0)
}

/// What the rules report of the children `i..` of `n`, met in `inner`.
pub open spec fn children_findings(n: SyntaxNode, src: Seq<u8>, inner: Scope, rules: Seq<Rule>, i: int) -> Seq<Finding>
    decreases n, 0int, n.children@.len() - i,
{
    if i < 0 || i >= n.children@.len() {
        Seq::empty()
    } else {
        tree_findings(n.children@[i], src, inner, rules) + children_findings(n, src, inner, rules, i + 1)
    }
}

/// `fs` without the findings of rule `id`, in their order.
pub open spec fn without_rule(fs: Seq<Finding>, id: Seq<char>) -> Seq<Finding>
    decreases fs.len(),
{
    if fs.len() == 0 {
        fs
    } else {
        let rest = without_rule(fs.drop_last(), id);
        if fs.last().rule_id == id {
            rest
        } else {
            rest.push(fs.last())
        }
    }
}

/// The result of linting the tree `root` of `source`, read from `path`, with
/// `rules`: every finding of the walk with the path set, less those an inline
/// comment suppresses, and less the `no-assert` findings in a test file.
pub open spec fn lint_findings(root: SyntaxNode, source: Seq<char>, path: Seq<char>, rules: Seq<Rule>) -> Seq<Finding> {
    let all = with_path(tree_findings(root, encode_utf8(source), top_scope(), rules), path);
    let kept = unsuppressed(all, source);
    if is_test_path(path) {
        without_rule(kept, "no-assert"@)
    } else {
        kept
    }
}

/// A copy of `d` with severity `s`.
fn with_severity_of(d: &Diagnostic, s: Severity) -> (r: Diagnostic)
    ensures
        r@ == (Finding { severity: s, ..d@ }),
{
    Diagnostic {
        path: d.path.clone(),
        line: d.line,
        col: d.col,
        rule_id: d.rule_id,
        severity: s,
        message: d.message.clone(),
    }
}

/// Appends the diagnostics of `found` to `out`, each with severity `s`.
fn push_with_severity(out: &mut Vec<Diagnostic>, found: &Vec<Diagnostic>, s: Severity)
    ensures
        findings(final(out)@) == findings(old(out)@) + with_severity(findings(found@), s),
{
    let ghost start = findings(out@);
    let mut i: usize = 0;
    while i < found.len()
        invariant
            0 <= i <= found@.len(),
            findings(out@) == start + with_severity(findings(found@), s).take(i as int),
        decreases found@.len() - i,
    {
        let ghost before = findings(out@);
        out.push(with_severity_of(&found[i], s));
        assert(with_severity(findings(found@), s).take(i + 1) =~= with_severity(
            findings(found@),
            s,
        ).take(i as int).push(with_severity(findings(found@), s)[i as int]));
        assert(findings(out@) =~= before.push(findings(out@).last()));
        i = i + 1;
    }
    assert(with_severity(findings(found@), s).take(i as int) =~= with_severity(findings(found@), s));
}


/// The indices of the rules among `rules[..i]` that inspect kind `k`, in order.
pub open spec fn handlers(rules: Seq<Rule>, k: Seq<char>, i: int) -> Seq<usize>
    decreases i,
{
    if i <= 0 {
        Seq::empty()
    } else {
        let rest = handlers(rules, k, i - 1);
        if handles(rules[i - 1], k) {
            rest.push((i - 1) as usize)
        } else {
            rest
        }
    }
}

/// Some rule of `rules` inspects nodes of kind `k`.
pub open spec fn inspected(rules: Seq<Rule>, k: Seq<char>) -> bool {
    exists|j: int| 0 <= j < rules.len() && #[trigger] handles(rules[j], k)
}

/// For each node kind that a rule inspects, the rules that inspect it.
pub struct DispatchMap {
    /// The node kinds, each once.
    pub kinds: Vec<&'static str>,
    /// For the kind at the same position, the indices of its rules in order.
    pub rules: Vec<Vec<usize>>,
}

impl DispatchMap {
    /// The map dispatches `rules`: the keys are the kinds some rule inspects,
    /// each once, and a key's entry lists exactly the rules that inspect it,
    /// in order.
    pub open spec fn dispatches(&self, rules: Seq<Rule>) -> bool {
        &&& self.kinds@.len() == self.rules@.len()
        &&& forall|a: int, b: int|
            0 <= a < b < self.kinds@.len() ==> (#[trigger] self.kinds@[a])@ != (#[trigger] self.kinds@[b])@
        &&& forall|e: int|
            0 <= e < self.kinds@.len() ==> (#[trigger] self.rules@[e])@ == handlers(
                rules,
                self.kinds@[e]@,
                rules.len() as int,
            )
        &&& forall|i: int, k: Seq<char>|
            0 <= i < rules.len() && #[trigger] handles(rules[i], k) ==> exists|e: int|
                0 <= e < self.kinds@.len() && (#[trigger] self.kinds@[e])@ == k
        &&& forall|e: int| 0 <= e < self.kinds@.len() ==> inspected(rules, (#[trigger] self.kinds@[e])@)
    }
}

proof fn lemma_handlers_bounds(rules: Seq<Rule>, k: Seq<char>, i: int)
    requires
        0 <= i <= rules.len(),
    ensures
        forall|m: int| 0 <= m < handlers(rules, k, i).len() ==> #[trigger] handlers(rules, k, i)[m] < i,
    decreases i,
{
    if i > 0 {
        lemma_handlers_bounds(rules, k, i - 1);
        let rest = handlers(rules, k, i - 1);
        if handles(rules[i - 1], k) {
            assert forall|m: int| 0 <= m < rest.push((i - 1) as usize).len() implies #[trigger] rest.push(
                (i - 1) as usize,
            )[m] < i by {
                if m < rest.len() {
                    assert(rest.push((i - 1) as usize)[m] == rest[m]);
                }
            }
        }
    }
}

proof fn lemma_handlers_none(rules: Seq<Rule>, k: Seq<char>, i: int)
    requires
        0 <= i <= rules.len(),
        forall|j: int| 0 <= j < i ==> !handles(#[trigger] rules[j], k),
    ensures
        handlers(rules, k, i) == Seq::<usize>::empty(),
    decreases i,
{
    if i > 0 {
        lemma_handlers_none(rules, k, i - 1);
    }
}

/// Builds the map that dispatches each node kind to the rules of `rules`
/// that inspect it.
pub fn build_dispatch_map(rules: &[Rule]) -> (map: DispatchMap)
    ensures
        map.dispatches(rules@),
{
    let mut kinds: Vec<&'static str> = Vec::new();
    let mut lists: Vec<Vec<usize>> = Vec::new();
    let mut i: usize = 0;
    while i < rules.len()
        invariant
            0 <= i <= rules@.len(),
            kinds@.len() == lists@.len(),
            forall|e: int| 0 <= e < kinds@.len() ==> inspected(rules@, (#[trigger] kinds@[e])@),
            forall|a: int, b: int|
                0 <= a < b < kinds@.len() ==> (#[trigger] kinds@[a])@ != (#[trigger] kinds@[b])@,
            forall|e: int|
                0 <= e < kinds@.len() ==> (#[trigger] lists@[e])@ == handlers(rules@, kinds@[e]@, i as int),
            forall|j: int, k: Seq<char>|
                0 <= j < i && #[trigger] handles(rules@[j], k) ==> exists|e: int|
                    0 <= e < kinds@.len() && (#[trigger] kinds@[e])@ == k,
        decreases rules@.len() - i,
    {
        let r = &rules[i];
        let ks = r.node_kinds();
        let mut t: usize = 0;
        while t < ks.len()
            invariant
                0 <= i < rules@.len(),
                *r == rules@[i as int],
                0 <= t <= ks@.len(),
                ks@.len() == rule_kinds(*r).len(),
                forall|j: int| 0 <= j < ks@.len() ==> #[trigger] ks@[j]@ == rule_kinds(*r)[j],
                kinds@.len() == lists@.len(),
                forall|e: int| 0 <= e < kinds@.len() ==> inspected(rules@, (#[trigger] kinds@[e])@),
                forall|a: int, b: int|
                    0 <= a < b < kinds@.len() ==> (#[trigger] kinds@[a])@ != (#[trigger] kinds@[b])@,
                forall|e: int|
                    0 <= e < kinds@.len() ==> (#[trigger] lists@[e])@ == if rule_kinds(*r).take(t as int).contains(
                        kinds@[e]@,
                    ) {
                        handlers(rules@, kinds@[e]@, i + 1)
                    } else {
                        handlers(rules@, kinds@[e]@, i as int)
                    },
                forall|j: int, k: Seq<char>|
                    0 <= j < i && #[trigger] handles(rules@[j], k) ==> exists|e: int|
                        0 <= e < kinds@.len() && (#[trigger] kinds@[e])@ == k,
                forall|u: int| #![trigger rule_kinds(*r)[u]] 0 <= u < t ==> exists|e: int|
                    0 <= e < kinds@.len() && (#[trigger] kinds@[e])@ == rule_kinds(*r)[u],
            decreases ks@.len() - t,
        {
            let kind = ks[t];
            assert(kind@ == rule_kinds(*r)[t as int]);
            assert(handles(*r, kind@));
            // Find the entry of `kind`.
            let mut e: usize = 0;
            while e < kinds.len() && !str_eq(kinds[e], kind)
                invariant
                    0 <= e <= kinds@.len(),
                    forall|x: int| 0 <= x < e ==> (#[trigger] kinds@[x])@ != kind@,
                decreases kinds@.len() - e,
            {
                e = e + 1;
            }
            let ghost before_lists = lists@;
            let ghost seen = rule_kinds(*r).take(t as int).contains(kind@);
            assert(rule_kinds(*r).take(t + 1) =~= rule_kinds(*r).take(t as int).push(kind@));
            if e < kinds.len() {
                assert(kinds@[e as int]@ == kind@);
                let ghost old_list = lists@[e as int]@;
                proof {
                    lemma_handlers_bounds(rules@, kind@, i as int);
                }
                let last_is_i = lists[e].len() > 0 && lists[e][lists[e].len() - 1] == i;
                if !last_is_i {
                    assert(!seen);
                    lists[e].push(i);
                    assert(lists@[e as int]@ =~= handlers(rules@, kind@, i + 1));
                } else {
                    assert(seen);
                }
                assert forall|x: int| 0 <= x < kinds@.len() implies (#[trigger] lists@[x])@ == if rule_kinds(
                    *r,
                ).take(t + 1).contains(kinds@[x]@) {
                    handlers(rules@, kinds@[x]@, i + 1)
                } else {
                    handlers(rules@, kinds@[x]@, i as int)
                } by {
                    if x != e {
                        assert(lists@[x] == before_lists[x]);
                        assert(kinds@[x]@ != kind@);
                        assert(rule_kinds(*r).take(t + 1).contains(kinds@[x]@) == rule_kinds(*r).take(
                            t as int,
                        ).contains(kinds@[x]@)) by {
                            if rule_kinds(*r).take(t + 1).contains(kinds@[x]@) {
                                let w = choose|w: int|
                                    0 <= w < t + 1 && #[trigger] rule_kinds(*r).take(t + 1)[w] == kinds@[x]@;
                                assert(w < t);
                                assert(rule_kinds(*r).take(t as int)[w] == kinds@[x]@);
                            }
                        }
                    } else {
                        assert(rule_kinds(*r).take(t + 1)[t as int] == kind@);
                    }
                }
            } else {
                proof {
                    assert forall|j: int| 0 <= j < i implies !handles(#[trigger] rules@[j], kind@) by {
                        if handles(rules@[j], kind@) {
                            let x = choose|x: int| 0 <= x < kinds@.len() && (#[trigger] kinds@[x])@ == kind@;
                            assert(kinds@[x]@ != kind@);
                        }
                    }
                    lemma_handlers_none(rules@, kind@, i as int);
                    assert(!seen) by {
                        if seen {
                            let w = choose|w: int|
                                0 <= w < t && #[trigger] rule_kinds(*r).take(t as int)[w] == kind@;
                            assert(rule_kinds(*r)[w] == kind@);
                            let x = choose|x: int|
                                0 <= x < kinds@.len() && (#[trigger] kinds@[x])@ == rule_kinds(*r)[w];
                            assert(kinds@[x]@ != kind@);
                        }
                    }
                }
                let ghost old_kinds = kinds@;
                kinds.push(kind);
                let mut fresh: Vec<usize> = Vec::new();
                fresh.push(i);
                lists.push(fresh);
                assert(lists@[e as int]@ =~= handlers(rules@, kind@, i + 1));
                assert forall|a: int, b: int|
                    0 <= a < b < kinds@.len() implies (#[trigger] kinds@[a])@ != (#[trigger] kinds@[b])@ by {
                    if b == e {
                        assert(old_kinds[a] == kinds@[a]);
                    } else {
                        assert(old_kinds[a] == kinds@[a]);
                        assert(old_kinds[b] == kinds@[b]);
                    }
                }
                assert forall|x: int| 0 <= x < kinds@.len() implies (#[trigger] lists@[x])@ == if rule_kinds(
                    *r,
                ).take(t + 1).contains(kinds@[x]@) {
                    handlers(rules@, kinds@[x]@, i + 1)
                } else {
                    handlers(rules@, kinds@[x]@, i as int)
                } by {
                    if x != e {
                        assert(lists@[x] == before_lists[x]);
                        assert(kinds@[x] == old_kinds[x]);
                        assert(kinds@[x]@ != kind@);
                        assert(rule_kinds(*r).take(t + 1).contains(kinds@[x]@) == rule_kinds(*r).take(
                            t as int,
                        ).contains(kinds@[x]@)) by {
                            if rule_kinds(*r).take(t + 1).contains(kinds@[x]@) {
                                let w = choose|w: int|
                                    0 <= w < t + 1 && #[trigger] rule_kinds(*r).take(t + 1)[w] == kinds@[x]@;
                                assert(w < t);
                                assert(rule_kinds(*r).take(t as int)[w] == kinds@[x]@);
                            }
                        }
                    } else {
                        assert(rule_kinds(*r).take(t + 1)[t as int] == kind@);
                    }
                }
                assert forall|j: int, k: Seq<char>|
                    0 <= j < i && #[trigger] handles(rules@[j], k) implies exists|x: int|
                        0 <= x < kinds@.len() && (#[trigger] kinds@[x])@ == k by {
                    let x = choose|x: int| 0 <= x < old_kinds.len() && (#[trigger] old_kinds[x])@ == k;
                    assert(kinds@[x] == old_kinds[x]);
                }
                assert forall|x: int| 0 <= x < kinds@.len() implies inspected(rules@, (#[trigger] kinds@[x])@) by {
                    if x == e {
                        assert(handles(rules@[i as int], kinds@[x]@));
                    } else {
                        assert(kinds@[x] == old_kinds[x]);
                    }
                }
                assert forall|u: int| #![trigger rule_kinds(*r)[u]] 0 <= u < t implies exists|x: int|
                    0 <= x < kinds@.len() && (#[trigger] kinds@[x])@ == rule_kinds(*r)[u] by {
                    let x = choose|x: int|
                        0 <= x < old_kinds.len() && (#[trigger] old_kinds[x])@ == rule_kinds(*r)[u];
                    assert(kinds@[x] == old_kinds[x]);
                }
            }
            assert(exists|x: int| 0 <= x < kinds@.len() && (#[trigger] kinds@[x])@ == rule_kinds(*r)[t as int]) by {
                assert(kinds@[e as int]@ == kind@);
            }
            t = t + 1;
        }
        assert(rule_kinds(*r).take(t as int) =~= rule_kinds(*r));
        assert forall|e: int| 0 <= e < kinds@.len() implies (#[trigger] lists@[e])@ == handlers(
            rules@,
            kinds@[e]@,
            i + 1,
        ) by {
            if !rule_kinds(*r).contains(kinds@[e]@) {
                assert(!handles(rules@[i as int], kinds@[e]@));
            }
        }
        assert forall|j: int, k: Seq<char>|
            0 <= j < i + 1 && #[trigger] handles(rules@[j], k) implies exists|e: int|
                0 <= e < kinds@.len() && (#[trigger] kinds@[e])@ == k by {
            if j == i {
                let u = choose|u: int| 0 <= u < rule_kinds(*r).len() && #[trigger] rule_kinds(*r)[u] == k;
                assert(exists|x: int| 0 <= x < kinds@.len() && (#[trigger] kinds@[x])@ == rule_kinds(*r)[u]);
            }
        }
        i = i + 1;
    }
    let map = DispatchMap { kinds, rules: lists };
    assert(map.kinds@.len() == map.rules@.len());
    assert(forall|e: int| 0 <= e < map.kinds@.len() ==> inspected(rules@, (#[trigger] map.kinds@[e])@));
    assert(forall|e: int|
        0 <= e < map.kinds@.len() ==> (#[trigger] map.rules@[e])@ == handlers(
            rules@,
            map.kinds@[e]@,
            rules@.len() as int,
        ));
    assert(forall|i: int, k: Seq<char>|
        0 <= i < rules@.len() && #[trigger] handles(rules@[i], k) ==> exists|e: int|
            0 <= e < map.kinds@.len() && (#[trigger] map.kinds@[e])@ == k);
    map
}

/// What the rules at the indices `idx` report of `n`, in the order listed,
/// each finding with its rule's severity.
pub open spec fn listed_findings(rules: Seq<Rule>, idx: Seq<usize>, n: SyntaxNode, src: Seq<u8>, scope: Scope) -> Seq<Finding>
    decreases idx.len(),
{
    if idx.len() == 0 {
        Seq::empty()
    } else {
        let r = rules[idx.last() as int];
        listed_findings(rules, idx.drop_last(), n, src, scope) + with_severity(
            rule_findings(r, n, src, scope),
            rule_severity(r),
        )
    }
}

/// What `rules[..i]` report of `n`, in their order.
pub open spec fn node_prefix(rules: Seq<Rule>, n: SyntaxNode, src: Seq<u8>, scope: Scope, i: int) -> Seq<Finding>
    decreases i,
{
    if i <= 0 {
        Seq::empty()
    } else {
        let here = if handles(rules[i - 1], n.kind@) {
            with_severity(rule_findings(rules[i - 1], n, src, scope), rule_severity(rules[i - 1]))
        } else {
            Seq::empty()
        };
        node_prefix(rules, n, src, scope, i - 1) + here
    }
}

proof fn lemma_listed_handlers(rules: Seq<Rule>, n: SyntaxNode, src: Seq<u8>, scope: Scope, i: int)
    requires
        0 <= i <= rules.len(),
        rules.len() <= usize::MAX,
    ensures
        listed_findings(rules, handlers(rules, n.kind@, i), n, src, scope) == node_prefix(rules, n, src, scope, i),
    decreases i,
{
    if i > 0 {
        lemma_listed_handlers(rules, n, src, scope, i - 1);
        let h = handlers(rules, n.kind@, i - 1);
        if handles(rules[i - 1], n.kind@) {
            assert(h.push((i - 1) as usize).drop_last() =~= h);
            assert(h.push((i - 1) as usize).last() as int == i - 1);
        } else {
            assert(node_prefix(rules, n, src, scope, i) =~= node_prefix(rules, n, src, scope, i - 1));
        }
    }
}

pub proof fn lemma_prefix_suffix(rules: Seq<Rule>, n: SyntaxNode, src: Seq<u8>, scope: Scope, i: int)
    requires
        0 <= i <= rules.len(),
    ensures
        node_prefix(rules, n, src, scope, i) + node_findings(rules, n, src, scope, i) == node_findings(
            rules,
            n,
            src,
            scope,
            0,
        ),
    decreases i,
{
    if i == 0 {
        assert(Seq::<Finding>::empty() + node_findings(rules, n, src, scope, 0) =~= node_findings(
            rules,
            n,
            src,
            scope,
            0,
        ));
    } else {
        lemma_prefix_suffix(rules, n, src, scope, i - 1);
        let p = node_prefix(rules, n, src, scope, i - 1);
        let here = if handles(rules[i - 1], n.kind@) {
            with_severity(rule_findings(rules[i - 1], n, src, scope), rule_severity(rules[i - 1]))
        } else {
            Seq::empty()
        };
        assert(p + (here + node_findings(rules, n, src, scope, i)) =~= (p + here) + node_findings(
            rules,
            n,
            src,
            scope,
            i,
        ));
    }
}

/// Hands `node`, met in `scope`, to the rules that `map` dispatches its kind to.
fn check_node(node: &SyntaxNode, src: &[u8], scope: &Scope, rules: &[Rule], map: &DispatchMap, out: &mut Vec<Diagnostic>)
    requires
        map.dispatches(rules@),
    ensures
        findings(final(out)@) == findings(old(out)@) + node_findings(rules@, *node, src@, *scope, 0),
{
    let ghost start = findings(out@);
    let nrules = rules.len();
    let ghost len = rules@.len() as int;
    proof {
        assert(rules@.len() == nrules);
        lemma_listed_handlers(rules@, *node, src@, *scope, len);
        lemma_prefix_suffix(rules@, *node, src@, *scope, len);
        assert(node_findings(rules@, *node, src@, *scope, len) =~= Seq::<Finding>::empty());
        assert(node_prefix(rules@, *node, src@, *scope, len) =~= node_findings(rules@, *node, src@, *scope, 0));
    }
    let mut e: usize = 0;
    while e < map.kinds.len() && !str_eq(map.kinds[e], node.kind)
        invariant
            0 <= e <= map.kinds@.len(),
            forall|x: int| 0 <= x < e ==> (#[trigger] map.kinds@[x])@ != node.kind@,
        decreases map.kinds@.len() - e,
    {
        e = e + 1;
    }
    if e == map.kinds.len() {
        proof {
            assert forall|j: int| 0 <= j < len implies !handles(#[trigger] rules@[j], node.kind@) by {
                if handles(rules@[j], node.kind@) {
                    let x = choose|x: int| 0 <= x < map.kinds@.len() && (#[trigger] map.kinds@[x])@ == node.kind@;
                    assert(map.kinds@[x]@ != node.kind@);
                }
            }
            lemma_handlers_none(rules@, node.kind@, len);
            assert(listed_findings(rules@, Seq::<usize>::empty(), *node, src@, *scope) == Seq::<Finding>::empty());
            assert(findings(out@) =~= findings(out@) + Seq::<Finding>::empty());
        }
        return;
    }
    let list = &map.rules[e];
    assert(list@ == handlers(rules@, node.kind@, len));
    proof {
        lemma_handlers_bounds(rules@, node.kind@, len);
    }
    let mut m: usize = 0;
    while m < list.len()
        invariant
            0 <= m <= list@.len(),
            list@ == handlers(rules@, node.kind@, len),
            len == rules@.len(),
            forall|t: int| 0 <= t < list@.len() ==> #[trigger] list@[t] < len,
            findings(out@) == start + listed_findings(rules@, list@.take(m as int), *node, src@, *scope),
        decreases list@.len() - m,
    {
        let idx = list[m];
        assert(list@[m as int] < len);
        let r = &rules[idx];
        let mut found: Vec<Diagnostic> = Vec::new();
        r.check(node, src, scope, &mut found);
        assert(findings(found@) =~= rule_findings(*r, *node, src@, *scope)) by {
            assert(findings(Seq::<Diagnostic>::empty()) =~= Seq::<Finding>::empty());
        }
        let ghost before = findings(out@);
        push_with_severity(out, &found, r.severity());
        assert(list@.take(m + 1).drop_last() =~= list@.take(m as int));
        assert(list@.take(m + 1).last() == idx);
        assert(findings(out@) =~= start + listed_findings(rules@, list@.take(m + 1), *node, src@, *scope));
        m = m + 1;
    }
    assert(list@.take(m as int) =~= list@);
}

/// Walks the tree `node`, met in `scope`, in pre-order.
fn walk(node: &SyntaxNode, src: &[u8], scope: &Scope, rules: &[Rule], map: &DispatchMap, out: &mut Vec<Diagnostic>)
    requires
        map.dispatches(rules@),
    ensures
        findings(final(out)@) == findings(old(out)@) + tree_findings(*node, src@, *scope, rules@),
    decreases node, 1int, 0int,
{
    let ghost start = findings(out@);
    check_node(node, src, scope, rules, map, out);
    let ghost mid = findings(out@);
    let inner = scope.enter(node);
    walk_children(node, 0, src, &inner, rules, map, out);
    assert(findings(out@) =~= start + tree_findings(*node, src@, *scope, rules@));
}

/// Walks the children `i..` of `node`, met in `inner`.
fn walk_children(node: &SyntaxNode, i: usize, src: &[u8], inner: &Scope, rules: &[Rule], map: &DispatchMap, out: &mut Vec<Diagnostic>)
    requires
        i <= node.children@.len(),
        map.dispatches(rules@),
    ensures
        findings(final(out)@) == findings(old(out)@) + children_findings(*node, src@, *inner, rules@, i as int),
    decreases node, 0int, node.children@.len() - i,
{
    if i == node.children.len() {
        assert(findings(out@) =~= findings(out@) + Seq::<Finding>::empty());
        return;
    }
    let ghost start = findings(out@);
    assert(decreases_to!(node => node.children@[i as int]));
    walk(&node.children[i], src, inner, rules, map, out);
    walk_children(node, i + 1, src, inner, rules, map, out);
    assert(findings(out@) =~= start + children_findings(*node, src@, *inner, rules@, i as int));
}

/// The diagnostics of `ds`, each with path `path`.
fn set_path(ds: &Vec<Diagnostic>, path: &str) -> (r: Vec<Diagnostic>)
    ensures
        findings(r@) == with_path(findings(ds@), path@),
{
    let mut out: Vec<Diagnostic> = Vec::new();
    let mut i: usize = 0;
    while i < ds.len()
        invariant
            0 <= i <= ds@.len(),
            findings(out@) == with_path(findings(ds@), path@).take(i as int),
        decreases ds@.len() - i,
    {
        let d = &ds[i];
        let ghost before = findings(out@);
        let p = path.to_owned();
        let m = d.message.clone();
        let nd = Diagnostic {
            path: p,
            line: d.line,
            col: d.col,
            rule_id: d.rule_id,
            severity: d.severity,
            message: m,
        };
        assert(findings(ds@)[i as int] == d@);
        assert(nd@ == with_path(findings(ds@), path@)[i as int]);
        out.push(nd);
        assert(findings(out@) =~= before.push(nd@));
        assert(findings(out@) =~= with_path(findings(ds@), path@).take(i + 1));
        i = i + 1;
    }
    assert(with_path(findings(ds@), path@).take(i as int) =~= with_path(findings(ds@), path@));
    out
}

/// The diagnostics of `ds` whose rule is not `id`, in their order.
fn drop_rule(ds: Vec<Diagnostic>, id: &str) -> (r: Vec<Diagnostic>)
    ensures
        findings(r@) == without_rule(findings(ds@), id@),
{
    let mut out: Vec<Diagnostic> = Vec::new();
    let mut ds = ds;
    let ghost all = findings(ds@);
    let mut rev: Vec<Diagnostic> = Vec::new();
    // Move the kept diagnostics out from the back, then restore their order.
    let n = ds.len();
    let mut i: usize = n;
    assert(all.take(n as int) =~= all);
    assert(findings(rev@).reverse() =~= Seq::<Finding>::empty());
    while i > 0
        invariant
            0 <= i <= n,
            n == all.len(),
            findings(ds@) == all.take(i as int),
            without_rule(all, id@) == without_rule(all.take(i as int), id@) + findings(rev@).reverse(),
        decreases i,
    {
        let d = ds.pop().unwrap();
        let ghost fd = d@;
        proof {
            assert(all.take(i as int).drop_last() =~= all.take(i - 1));
            assert(all.take(i as int).last() == fd);
        }
        if !str_eq(d.rule_id, id) {
            let ghost before = findings(rev@);
            rev.push(d);
            assert(findings(rev@) =~= before.push(fd));
            assert(findings(rev@).reverse() =~= seq![fd] + before.reverse());
            assert(without_rule(all.take(i as int), id@) =~= without_rule(all.take(i - 1), id@).push(fd));
        }
        i = i - 1;
    }
    assert(all.take(0) =~= Seq::<Finding>::empty());
    let m = rev.len();
    let mut j: usize = m;
    let ghost kept = findings(rev@).reverse();
    while j > 0
        invariant
            0 <= j <= m,
            m == kept.len(),
            kept == without_rule(all, id@),
            findings(rev@) == kept.reverse().take(j as int),
            rev@.len() == j,
            findings(out@) == kept.take(m - j),
        decreases j,
    {
        let ghost rv = findings(rev@);
        let d = rev.pop().unwrap();
        let ghost before = findings(out@);
        proof {
            assert(rv.last() == d@);
            assert(findings(rev@) =~= rv.drop_last());
            assert(kept.reverse().take(j as int).last() == kept[m - j]);
            assert(kept.reverse().take(j as int).drop_last() =~= kept.reverse().take(j - 1));
        }
        out.push(d);
        assert(findings(out@) =~= before.push(kept[m - j]));
        assert(findings(out@) =~= kept.take(m - j + 1));
        j = j - 1;
    }
    assert(kept.take(m as int) =~= kept);
    out
}

/// Lints the parsed tree `root` of `source`, read from `path`, with `rules`.
pub fn lint_tree(root: &SyntaxNode, source: &str, path: &str, rules: &[Rule]) -> (r: Vec<Diagnostic>)
    ensures
        findings(r@) == lint_findings(*root, source@, path@, rules@),
{
    let src = source.as_bytes();
    let mut raw: Vec<Diagnostic> = Vec::new();
    let top = Scope::top();
    let map = build_dispatch_map(rules);
    walk(root, src, &top, rules, &map, &mut raw);
    assert(findings(raw@) =~= tree_findings(*root, src@, top_scope(), rules@)) by {
        assert(findings(Seq::<Diagnostic>::empty()) =~= Seq::<Finding>::empty());
    }
    let pathed = set_path(&raw, path);
    let kept = filter_suppressed(pathed, source);
    if is_test_file(path) {
        drop_rule(kept, "no-assert")
    } else {
        kept
    }
}


/// Lints `source`, read from `path`, with `rules`: parses it with tree-sitter
/// and lints the tree. Nothing is reported when the parser yields no tree.
pub fn lint_source_with_rules(source: &str, path: &str, rules: &[Rule]) -> (r: Vec<Diagnostic>)
    ensures
        !parses(source@) ==> r@.len() == 0,
        parses(source@) ==> exists|t: SyntaxNode|
            parsed_from(t, source@) && findings(r@) == lint_findings(t, source@, path@, rules@),
        forall|t: SyntaxNode|
            parsed_from(t, source@) ==> findings(r@) == lint_findings(t, source@, path@, rules@),
        forall|i: int|
            0 <= i < r@.len() ==> {
                let f = (#[trigger] r@[i])@;
                &&& f.path == path@
                &&& reported_by(f, rules@)
                &&& !is_suppressed_in(f, source@)
                &&& is_test_path(path@) ==> f.rule_id != "no-assert"@
            },
{
    match parse_python(source) {
        Some(root) => {
            let r = lint_tree(&root, source, path, rules);
            proof {
                assert forall|t: SyntaxNode| parsed_from(t, source@) implies findings(r@) == lint_findings(
                    t,
                    source@,
                    path@,
                    rules@,
                ) by {
                    law_parse_determines_findings(root, t, source@, path@, rules@);
                }
                law_lint_findings_sound(root, source@, path@, rules@);
                assert forall|i: int| 0 <= i < r@.len() implies (#[trigger] r@[i])@ == lint_findings(
                    root,
                    source@,
                    path@,
                    rules@,
                )[i] by {}
            }
            r
        },
        None => Vec::new(),
    }
}

/// Lints `source`, read from `path`, with the rules that `config` leaves active.
pub fn lint_source_with_config(source: &str, path: &str, config: &Config) -> (r: Vec<Diagnostic>)
    ensures
        !parses(source@) ==> r@.len() == 0,
        parses(source@) ==> exists|t: SyntaxNode|
            parsed_from(t, source@) && findings(r@) == lint_findings(
                t,
                source@,
                path@,
                active(registry(), config@),
            ) && findings(r@) == not_excluded(lint_findings(t, source@, path@, registry()), config@),
        forall|t: SyntaxNode|
            parsed_from(t, source@) ==> findings(r@) == lint_findings(
                t,
                source@,
                path@,
                active(registry(), config@),
            ) && findings(r@) == not_excluded(lint_findings(t, source@, path@, registry()), config@),
        forall|i: int| 0 <= i < r@.len() ==> !config@.contains((#[trigger] r@[i]).rule_id@),
{
    let rules = active_rules(config);
    let r = lint_source_with_rules(source, path, rules.as_slice());
    proof {
        law_active_rules(config@);
        assert forall|i: int| 0 <= i < r@.len() implies !config@.contains((#[trigger] r@[i]).rule_id@) by {
            let f = r@[i]@;
            assert(reported_by(f, rules@));
            let j = choose|j: int|
                0 <= j < rules@.len() && rule_name(#[trigger] rules@[j]) == f.rule_id && rule_severity(rules@[j])
                    == f.severity;
            assert(rules@ == active(registry(), config@));
            assert(active(registry(), config@)[j] == rules@[j]);
            assert(active(registry(), config@).contains(rules@[j]));
            assert(!config@.contains(rule_name(rules@[j])));
            assert(f.rule_id == r@[i].rule_id@);
        }
        if parses(source@) {
            let t = choose|t: SyntaxNode|
                parsed_from(t, source@) && findings(r@) == lint_findings(t, source@, path@, rules@);
            law_exclusion_filters(t, source@, path@, registry(), config@);
        }
        assert forall|t: SyntaxNode| parsed_from(t, source@) implies findings(r@) == lint_findings(
            t,
            source@,
            path@,
            active(registry(), config@),
        ) && findings(r@) == not_excluded(lint_findings(t, source@, path@, registry()), config@) by {
            law_exclusion_filters(t, source@, path@, registry(), config@);
        }
    }
    r
}

/// Lints `source`, read from `path`, with every rule.
pub fn lint_source(source: &str, path: &str) -> (r: Vec<Diagnostic>)
    ensures
        !parses(source@) ==> r@.len() == 0,
        parses(source@) ==> exists|t: SyntaxNode|
            parsed_from(t, source@) && findings(r@) == lint_findings(t, source@, path@, registry()),
        forall|t: SyntaxNode|
            parsed_from(t, source@) ==> findings(r@) == lint_findings(t, source@, path@, registry()),
{
    let config = Config::default();
    let r = lint_source_with_config(source, path, &config);
    proof {
        lemma_active_none(registry());
    }
    r
}

} // verus!
