//! What holds of every lint result, whatever the tree and the source.
use vstd::prelude::*;

use crate::config::active;
use crate::diagnostic::{all_under, lemma_all_under_add, Finding, Severity};
use crate::engine::{lemma_prefix_suffix, node_prefix,
    children_findings, lint_findings, node_findings, tree_findings, with_path, with_severity,
    without_rule,
};
use crate::rules::no_assert::is_test_path;
use crate::rules::{enter, lemma_rule_ids, registry, rule_findings, rule_name, rule_severity, Rule, Scope};
use crate::suppression::{is_suppressed_in, unsuppressed};
use crate::syntax::{lemma_heads_same, parsed_from, python_parse, SyntaxNode};
use crate::same_tree::lemma_same_lint_findings;

verus! {

/// One of `rules` is named `f.rule_id` and has severity `f.severity`.
pub open spec fn reported_by(f: Finding, rules: Seq<Rule>) -> bool {
    exists|j: int|
        0 <= j < rules.len() && rule_name(#[trigger] rules[j]) == f.rule_id && rule_severity(rules[j])
            == f.severity
}

pub open spec fn all_reported_by(fs: Seq<Finding>, rules: Seq<Rule>) -> bool {
    forall|i: int| 0 <= i < fs.len() ==> reported_by(#[trigger] fs[i], rules)
}

proof fn lemma_all_reported_add(a: Seq<Finding>, b: Seq<Finding>, rules: Seq<Rule>)
    requires
        all_reported_by(a, rules),
        all_reported_by(b, rules),
    ensures
        all_reported_by(a + b, rules),
{
    assert forall|i: int| 0 <= i < (a + b).len() implies reported_by(#[trigger] (a + b)[i], rules) by {
        if i < a.len() {
            assert((a + b)[i] == a[i]);
        } else {
            assert((a + b)[i] == b[i - a.len()]);
        }
    }
}

proof fn lemma_node_reported(rules: Seq<Rule>, n: SyntaxNode, src: Seq<u8>, scope: Scope, i: int)
    ensures
        all_reported_by(node_findings(rules, n, src, scope, i), rules),
    decreases rules.len() - i,
{
    if 0 <= i < rules.len() {
        lemma_node_reported(rules, n, src, scope, i + 1);
        let r = rules[i];
        let fs = rule_findings(r, n, src, scope);
        lemma_rule_ids(r, n, src, scope);
        let here = if crate::engine::handles(r, n.kind@) {
            with_severity(fs, rule_severity(r))
        } else {
            Seq::empty()
        };
        assert forall|k: int| 0 <= k < here.len() implies reported_by(#[trigger] here[k], rules) by {
            assert(fs[k].rule_id == rule_name(r));
        }
        lemma_all_reported_add(here, node_findings(rules, n, src, scope, i + 1), rules);
    }
}

proof fn lemma_tree_reported(n: SyntaxNode, src: Seq<u8>, scope: Scope, rules: Seq<Rule>)
    ensures
        all_reported_by(tree_findings(n, src, scope, rules), rules),
    decreases n, 1int, 0int,
{
    lemma_node_reported(rules, n, src, scope, 0);
    lemma_children_reported(n, src, enter(scope, n), rules, 0);
    lemma_all_reported_add(
        node_findings(rules, n, src, scope, 0),
        children_findings(n, src, enter(scope, n), rules, 0),
        rules,
    );
}

proof fn lemma_children_reported(n: SyntaxNode, src: Seq<u8>, inner: Scope, rules: Seq<Rule>, i: int)
    ensures
        all_reported_by(children_findings(n, src, inner, rules, i), rules),
    decreases n, 0int, n.children@.len() - i,
{
    if 0 <= i < n.children@.len() {
        lemma_tree_reported(n.children@[i], src, inner, rules);
        lemma_children_reported(n, src, inner, rules, i + 1);
        lemma_all_reported_add(
            tree_findings(n.children@[i], src, inner, rules),
            children_findings(n, src, inner, rules, i + 1),
            rules,
        );
    }
}

/// Every element of `unsuppressed(fs, source)` is an unsuppressed element of `fs`.
proof fn lemma_unsuppressed_sound(fs: Seq<Finding>, source: Seq<char>)
    ensures
        forall|i: int|
            0 <= i < unsuppressed(fs, source).len() ==> fs.contains(#[trigger] unsuppressed(fs, source)[i])
                && !is_suppressed_in(unsuppressed(fs, source)[i], source),
    decreases fs.len(),
{
    if fs.len() > 0 {
        let init = fs.drop_last();
        lemma_unsuppressed_sound(init, source);
        let rest = unsuppressed(init, source);
        assert forall|i: int| 0 <= i < unsuppressed(fs, source).len() implies fs.contains(
            #[trigger] unsuppressed(fs, source)[i],
        ) && !is_suppressed_in(unsuppressed(fs, source)[i], source) by {
            if i < rest.len() {
                assert(unsuppressed(fs, source)[i] == rest[i]);
                let k = choose|k: int| 0 <= k < init.len() && init[k] == rest[i];
                assert(fs[k] == init[k]);
            } else {
                assert(fs[fs.len() - 1] == fs.last());
            }
        }
    }
}

/// Every element of `fs` that its line does not suppress stays in `unsuppressed(fs, source)`.
proof fn lemma_unsuppressed_complete(fs: Seq<Finding>, source: Seq<char>)
    ensures
        forall|i: int|
            0 <= i < fs.len() && !is_suppressed_in(#[trigger] fs[i], source) ==> unsuppressed(
                fs,
                source,
            ).contains(fs[i]),
    decreases fs.len(),
{
    if fs.len() > 0 {
        let init = fs.drop_last();
        lemma_unsuppressed_complete(init, source);
        let rest = unsuppressed(init, source);
        assert forall|i: int| 0 <= i < fs.len() && !is_suppressed_in(#[trigger] fs[i], source) implies unsuppressed(
            fs,
            source,
        ).contains(fs[i]) by {
            if i < init.len() {
                assert(init[i] == fs[i]);
                let k = choose|k: int| 0 <= k < rest.len() && rest[k] == init[i];
                assert(unsuppressed(fs, source)[k] == rest[k]);
            } else {
                assert(fs[i] == fs.last());
                assert(unsuppressed(fs, source)[rest.len() as int] == fs.last());
            }
        }
    }
}

/// Every element of `without_rule(fs, id)` is an element of `fs` of another rule.
proof fn lemma_without_rule_sound(fs: Seq<Finding>, id: Seq<char>)
    ensures
        forall|i: int|
            0 <= i < without_rule(fs, id).len() ==> fs.contains(#[trigger] without_rule(fs, id)[i])
                && without_rule(fs, id)[i].rule_id != id,
    decreases fs.len(),
{
    if fs.len() > 0 {
        let init = fs.drop_last();
        lemma_without_rule_sound(init, id);
        let rest = without_rule(init, id);
        assert forall|i: int| 0 <= i < without_rule(fs, id).len() implies fs.contains(
            #[trigger] without_rule(fs, id)[i],
        ) && without_rule(fs, id)[i].rule_id != id by {
            if i < rest.len() {
                assert(without_rule(fs, id)[i] == rest[i]);
                let k = choose|k: int| 0 <= k < init.len() && init[k] == rest[i];
                assert(fs[k] == init[k]);
            } else {
                assert(fs[fs.len() - 1] == fs.last());
            }
        }
    }
}

/// Every finding of a lint result carries the linted path, comes from one of
/// the rules with that rule's severity, is not suppressed by an inline comment
/// on its line, and, in a test file, is not a `no-assert` finding.
pub proof fn law_lint_findings_sound(root: SyntaxNode, source: Seq<char>, path: Seq<char>, rules: Seq<Rule>)
    ensures
        forall|i: int|
            0 <= i < lint_findings(root, source, path, rules).len() ==> {
                let f = #[trigger] lint_findings(root, source, path, rules)[i];
                &&& f.path == path
                &&& reported_by(f, rules)
                &&& !is_suppressed_in(f, source)
                &&& is_test_path(path) ==> f.rule_id != "no-assert"@
            },
{
    let walked = tree_findings(root, vstd::utf8::encode_utf8(source), crate::rules::top_scope(), rules);
    lemma_tree_reported(root, vstd::utf8::encode_utf8(source), crate::rules::top_scope(), rules);
    let all = with_path(walked, path);
    assert forall|i: int| 0 <= i < all.len() implies (#[trigger] all[i]).path == path && reported_by(
        all[i],
        rules,
    ) by {
        assert(reported_by(walked[i], rules));
        let j = choose|j: int|
            0 <= j < rules.len() && rule_name(#[trigger] rules[j]) == walked[i].rule_id
                && rule_severity(rules[j]) == walked[i].severity;
        assert(rule_name(rules[j]) == all[i].rule_id);
    }
    let kept = unsuppressed(all, source);
    lemma_unsuppressed_sound(all, source);
    assert forall|i: int| 0 <= i < kept.len() implies (#[trigger] kept[i]).path == path && reported_by(
        kept[i],
        rules,
    ) && !is_suppressed_in(kept[i], source) by {
        assert(all.contains(kept[i]));
        let k = choose|k: int| 0 <= k < all.len() && all[k] == kept[i];
        assert(all[k].path == path);
    }
    if is_test_path(path) {
        let out = without_rule(kept, "no-assert"@);
        lemma_without_rule_sound(kept, "no-assert"@);
        assert forall|i: int| 0 <= i < out.len() implies (#[trigger] out[i]).path == path && reported_by(
            out[i],
            rules,
        ) && !is_suppressed_in(out[i], source) && out[i].rule_id != "no-assert"@ by {
            assert(kept.contains(out[i]));
            let k = choose|k: int| 0 <= k < kept.len() && kept[k] == out[i];
            assert(kept[k].path == path);
        }
    }
}


/// Every element of `without_rule(fs, id)` is kept there when it is of another rule.
proof fn lemma_without_rule_complete(fs: Seq<Finding>, id: Seq<char>)
    ensures
        forall|i: int|
            0 <= i < fs.len() && (#[trigger] fs[i]).rule_id != id ==> without_rule(fs, id).contains(fs[i]),
    decreases fs.len(),
{
    if fs.len() > 0 {
        let init = fs.drop_last();
        lemma_without_rule_complete(init, id);
        let rest = without_rule(init, id);
        assert forall|i: int| 0 <= i < fs.len() && (#[trigger] fs[i]).rule_id != id implies without_rule(
            fs,
            id,
        ).contains(fs[i]) by {
            if i < init.len() {
                assert(init[i] == fs[i]);
                let k = choose|k: int| 0 <= k < rest.len() && rest[k] == init[i];
                assert(without_rule(fs, id)[k] == rest[k]);
            } else {
                assert(fs[i] == fs.last());
                assert(without_rule(fs, id)[rest.len() as int] == fs.last());
            }
        }
    }
}

/// Nothing is dropped but what inline comments suppress and, in a test file,
/// the `no-assert` findings: every other finding of the walk, with the path
/// set, is in the lint result.
pub proof fn law_lint_findings_complete(root: SyntaxNode, source: Seq<char>, path: Seq<char>, rules: Seq<Rule>)
    ensures
        ({
            let all = with_path(
                tree_findings(root, vstd::utf8::encode_utf8(source), crate::rules::top_scope(), rules),
                path,
            );
            forall|i: int|
                0 <= i < all.len() && !is_suppressed_in(#[trigger] all[i], source) && !(is_test_path(path)
                    && all[i].rule_id == "no-assert"@) ==> lint_findings(root, source, path, rules).contains(
                    all[i],
                )
        }),
{
    let all = with_path(
        tree_findings(root, vstd::utf8::encode_utf8(source), crate::rules::top_scope(), rules),
        path,
    );
    let kept = unsuppressed(all, source);
    lemma_unsuppressed_complete(all, source);
    if is_test_path(path) {
        lemma_without_rule_complete(kept, "no-assert"@);
        assert forall|i: int|
            0 <= i < all.len() && !is_suppressed_in(#[trigger] all[i], source) && all[i].rule_id
                != "no-assert"@ implies lint_findings(root, source, path, rules).contains(all[i]) by {
            let k = choose|k: int| 0 <= k < kept.len() && kept[k] == all[i];
            assert(kept[k].rule_id != "no-assert"@);
        }
    }
}

/// Every rule of `active(rules, exclude)` is one of `rules` that `exclude` does not name.
proof fn lemma_active_sound(rules: Seq<Rule>, exclude: Seq<Seq<char>>)
    ensures
        forall|i: int|
            0 <= i < active(rules, exclude).len() ==> rules.contains(#[trigger] active(rules, exclude)[i])
                && !exclude.contains(rule_name(active(rules, exclude)[i])),
    decreases rules.len(),
{
    if rules.len() > 0 {
        let init = rules.drop_last();
        lemma_active_sound(init, exclude);
        let rest = active(init, exclude);
        assert forall|i: int| 0 <= i < active(rules, exclude).len() implies rules.contains(
            #[trigger] active(rules, exclude)[i],
        ) && !exclude.contains(rule_name(active(rules, exclude)[i])) by {
            if i < rest.len() {
                assert(active(rules, exclude)[i] == rest[i]);
                let k = choose|k: int| 0 <= k < init.len() && init[k] == rest[i];
                assert(rules[k] == init[k]);
            } else {
                assert(rules[rules.len() - 1] == rules.last());
            }
        }
    }
}

/// Every rule of `rules` that `exclude` does not name stays in `active(rules, exclude)`.
proof fn lemma_active_complete(rules: Seq<Rule>, exclude: Seq<Seq<char>>)
    ensures
        forall|i: int|
            0 <= i < rules.len() && !exclude.contains(rule_name(#[trigger] rules[i])) ==> active(
                rules,
                exclude,
            ).contains(rules[i]),
    decreases rules.len(),
{
    if rules.len() > 0 {
        let init = rules.drop_last();
        lemma_active_complete(init, exclude);
        let rest = active(init, exclude);
        assert forall|i: int| 0 <= i < rules.len() && !exclude.contains(rule_name(#[trigger] rules[i])) implies active(
            rules,
            exclude,
        ).contains(rules[i]) by {
            if i < init.len() {
                assert(init[i] == rules[i]);
                let k = choose|k: int| 0 <= k < rest.len() && rest[k] == init[i];
                assert(active(rules, exclude)[k] == rest[k]);
            } else {
                assert(rules[i] == rules.last());
                assert(active(rules, exclude)[rest.len() as int] == rules.last());
            }
        }
    }
}

/// A configuration leaves active exactly the registry's rules it does not
/// exclude.
pub proof fn law_active_rules(exclude: Seq<Seq<char>>)
    ensures
        forall|r: Rule|
            #![trigger active(registry(), exclude).contains(r)]
            #![trigger registry().contains(r)]
            active(registry(), exclude).contains(r) <==> registry().contains(r) && !exclude.contains(
                rule_name(r),
            ),
{
    lemma_active_sound(registry(), exclude);
    lemma_active_complete(registry(), exclude);
    assert forall|r: Rule| active(registry(), exclude).contains(r) <==> registry().contains(r)
        && !exclude.contains(rule_name(r)) by {
        if active(registry(), exclude).contains(r) {
            let k = choose|k: int| 0 <= k < active(registry(), exclude).len() && active(registry(), exclude)[k] == r;
            assert(registry().contains(active(registry(), exclude)[k]));
        }
        if registry().contains(r) && !exclude.contains(rule_name(r)) {
            let k = choose|k: int| 0 <= k < registry().len() && registry()[k] == r;
            assert(active(registry(), exclude).contains(registry()[k]));
        }
    }
}

/// A rule that the configuration excludes reports nothing.
pub proof fn law_excluded_rules_report_nothing(root: SyntaxNode, source: Seq<char>, path: Seq<char>, exclude: Seq<Seq<char>>)
    ensures
        forall|i: int|
            0 <= i < lint_findings(root, source, path, active(registry(), exclude)).len() ==> !exclude.contains(
                (#[trigger] lint_findings(root, source, path, active(registry(), exclude))[i]).rule_id,
            ),
{
    let rules = active(registry(), exclude);
    let out = lint_findings(root, source, path, rules);
    law_lint_findings_sound(root, source, path, rules);
    lemma_active_sound(registry(), exclude);
    assert forall|i: int| 0 <= i < out.len() implies !exclude.contains((#[trigger] out[i]).rule_id) by {
        assert(reported_by(out[i], rules));
        let j = choose|j: int|
            0 <= j < rules.len() && rule_name(#[trigger] rules[j]) == out[i].rule_id && rule_severity(rules[j])
                == out[i].severity;
        assert(!exclude.contains(rule_name(rules[j])));
    }
}


/// The findings of `fs` reported under rule `id`, in their order.
pub open spec fn only_rule(fs: Seq<Finding>, id: Seq<char>) -> Seq<Finding>
    decreases fs.len(),
{
    if fs.len() == 0 {
        fs
    } else {
        let rest = only_rule(fs.drop_last(), id);
        if fs.last().rule_id == id {
            rest.push(fs.last())
        } else {
            rest
        }
    }
}

proof fn lemma_only_rule_add(a: Seq<Finding>, b: Seq<Finding>, id: Seq<char>)
    ensures
        only_rule(a + b, id) == only_rule(a, id) + only_rule(b, id),
    decreases b.len(),
{
    if b.len() == 0 {
        assert(a + b =~= a);
        assert(only_rule(a, id) + only_rule(b, id) =~= only_rule(a, id));
    } else {
        lemma_only_rule_add(a, b.drop_last(), id);
        assert((a + b).drop_last() =~= a + b.drop_last());
        assert((a + b).last() == b.last());
        if b.last().rule_id == id {
            assert(only_rule(a, id) + only_rule(b.drop_last(), id).push(b.last()) =~= (only_rule(a, id)
                + only_rule(b.drop_last(), id)).push(b.last()));
        }
    }
}

proof fn lemma_only_rule_all(fs: Seq<Finding>, id: Seq<char>)
    requires
        all_under(fs, id),
    ensures
        only_rule(fs, id) == fs,
    decreases fs.len(),
{
    if fs.len() > 0 {
        assert(all_under(fs.drop_last(), id)) by {
            assert forall|i: int| 0 <= i < fs.drop_last().len() implies (#[trigger] fs.drop_last()[i]).rule_id
                == id by {
                assert(fs.drop_last()[i] == fs[i]);
            }
        }
        lemma_only_rule_all(fs.drop_last(), id);
        assert(fs[fs.len() - 1].rule_id == id);
        assert(fs.drop_last().push(fs.last()) =~= fs);
    }
}

proof fn lemma_only_rule_none(fs: Seq<Finding>, other: Seq<char>, id: Seq<char>)
    requires
        all_under(fs, other),
        other != id,
    ensures
        only_rule(fs, id) == Seq::<Finding>::empty(),
    decreases fs.len(),
{
    if fs.len() > 0 {
        assert(all_under(fs.drop_last(), other)) by {
            assert forall|i: int| 0 <= i < fs.drop_last().len() implies (#[trigger] fs.drop_last()[i]).rule_id
                == other by {
                assert(fs.drop_last()[i] == fs[i]);
            }
        }
        lemma_only_rule_none(fs.drop_last(), other, id);
        assert(fs[fs.len() - 1].rule_id == other);
    }
}

proof fn lemma_only_rule_with_path(fs: Seq<Finding>, p: Seq<char>, id: Seq<char>)
    ensures
        only_rule(with_path(fs, p), id) == with_path(only_rule(fs, id), p),
    decreases fs.len(),
{
    if fs.len() == 0 {
        assert(with_path(fs, p) =~= Seq::<Finding>::empty());
        assert(with_path(only_rule(fs, id), p) =~= Seq::<Finding>::empty());
    } else {
        lemma_only_rule_with_path(fs.drop_last(), p, id);
        assert(with_path(fs, p).drop_last() =~= with_path(fs.drop_last(), p));
        let rest = only_rule(fs.drop_last(), id);
        if fs.last().rule_id == id {
            assert(with_path(rest.push(fs.last()), p) =~= with_path(rest, p).push(with_path(fs, p).last()));
        }
    }
}

proof fn lemma_all_under_with_severity(fs: Seq<Finding>, s: Severity, id: Seq<char>)
    requires
        all_under(fs, id),
    ensures
        all_under(with_severity(fs, s), id),
{
    assert forall|i: int| 0 <= i < with_severity(fs, s).len() implies (#[trigger] with_severity(fs, s)[i]).rule_id
        == id by {
        assert(fs[i].rule_id == id);
    }
}

proof fn lemma_only_rule_unsuppressed(fs: Seq<Finding>, source: Seq<char>, id: Seq<char>)
    ensures
        only_rule(unsuppressed(fs, source), id) == unsuppressed(only_rule(fs, id), source),
    decreases fs.len(),
{
    if fs.len() > 0 {
        lemma_only_rule_unsuppressed(fs.drop_last(), source, id);
        let f = fs.last();
        let u = unsuppressed(fs.drop_last(), source);
        assert(u.push(f).drop_last() =~= u);
        assert(u.push(f).last() == f);
        if f.rule_id == id {
            let o = only_rule(fs.drop_last(), id);
            assert(o.push(f).drop_last() =~= o);
            assert(o.push(f).last() == f);
        }
    }
}

proof fn lemma_only_rule_without_rule(fs: Seq<Finding>, x: Seq<char>, id: Seq<char>)
    ensures
        only_rule(without_rule(fs, x), id) == without_rule(only_rule(fs, id), x),
    decreases fs.len(),
{
    if fs.len() > 0 {
        lemma_only_rule_without_rule(fs.drop_last(), x, id);
        let f = fs.last();
        let w = without_rule(fs.drop_last(), x);
        assert(w.push(f).drop_last() =~= w);
        assert(w.push(f).last() == f);
        if f.rule_id == id {
            let o = only_rule(fs.drop_last(), id);
            assert(o.push(f).drop_last() =~= o);
            assert(o.push(f).last() == f);
        }
    }
}

/// `rules[j]` is the only rule of `rules` named as it is.
pub open spec fn sole_rule_named(rules: Seq<Rule>, j: int) -> bool {
    &&& 0 <= j < rules.len()
    &&& forall|k: int| 0 <= k < rules.len() && k != j ==> rule_name(#[trigger] rules[k]) != rule_name(rules[j])
}

proof fn lemma_only_rule_node(rules: Seq<Rule>, j: int, n: SyntaxNode, src: Seq<u8>, scope: Scope, i: int)
    requires
        sole_rule_named(rules, j),
        0 <= i <= rules.len(),
    ensures
        only_rule(node_findings(rules, n, src, scope, i), rule_name(rules[j])) == if i <= j {
            node_findings(seq![rules[j]], n, src, scope, 0)
        } else {
            Seq::<Finding>::empty()
        },
    decreases rules.len() - i,
{
    let id = rule_name(rules[j]);
    if i == rules.len() {
        assert(only_rule(Seq::<Finding>::empty(), id) == Seq::<Finding>::empty());
    } else {
        lemma_only_rule_node(rules, j, n, src, scope, i + 1);
        let r = rules[i];
        let here = if crate::engine::handles(r, n.kind@) {
            with_severity(rule_findings(r, n, src, scope), rule_severity(r))
        } else {
            Seq::empty()
        };
        lemma_rule_ids(r, n, src, scope);
        lemma_all_under_with_severity(rule_findings(r, n, src, scope), rule_severity(r), rule_name(r));
        assert(all_under(here, rule_name(r)));
        lemma_only_rule_add(here, node_findings(rules, n, src, scope, i + 1), id);
        if i == j {
            lemma_only_rule_all(here, id);
            let one = seq![rules[j]];
            assert(one[0] == r);
            assert(node_findings(one, n, src, scope, 1) == Seq::<Finding>::empty());
            assert(node_findings(one, n, src, scope, 0) =~= here);
            assert(here + Seq::<Finding>::empty() =~= here);
        } else {
            lemma_only_rule_none(here, rule_name(r), id);
            assert(Seq::<Finding>::empty() + only_rule(node_findings(rules, n, src, scope, i + 1), id)
                =~= only_rule(node_findings(rules, n, src, scope, i + 1), id));
        }
    }
}

proof fn lemma_only_rule_tree(n: SyntaxNode, src: Seq<u8>, scope: Scope, rules: Seq<Rule>, j: int)
    requires
        sole_rule_named(rules, j),
    ensures
        only_rule(tree_findings(n, src, scope, rules), rule_name(rules[j])) == tree_findings(
            n,
            src,
            scope,
            seq![rules[j]],
        ),
    decreases n, 1int, 0int,
{
    let id = rule_name(rules[j]);
    lemma_only_rule_node(rules, j, n, src, scope, 0);
    lemma_only_rule_children(n, src, enter(scope, n), rules, j, 0);
    lemma_only_rule_add(
        node_findings(rules, n, src, scope, 0),
        children_findings(n, src, enter(scope, n), rules, 0),
        id,
    );
}

proof fn lemma_only_rule_children(n: SyntaxNode, src: Seq<u8>, inner: Scope, rules: Seq<Rule>, j: int, i: int)
    requires
        sole_rule_named(rules, j),
    ensures
        only_rule(children_findings(n, src, inner, rules, i), rule_name(rules[j])) == children_findings(
            n,
            src,
            inner,
            seq![rules[j]],
            i,
        ),
    decreases n, 0int, n.children@.len() - i,
{
    let id = rule_name(rules[j]);
    if 0 <= i < n.children@.len() {
        lemma_only_rule_tree(n.children@[i], src, inner, rules, j);
        lemma_only_rule_children(n, src, inner, rules, j, i + 1);
        lemma_only_rule_add(
            tree_findings(n.children@[i], src, inner, rules),
            children_findings(n, src, inner, rules, i + 1),
            id,
        );
    } else {
        assert(only_rule(Seq::<Finding>::empty(), id) == Seq::<Finding>::empty());
    }
}

/// The rules do not affect one another: what the lint reports under a rule's
/// name is what linting with that rule alone reports, whatever other
/// (differently named) rules run beside it.
pub proof fn law_rules_independent(root: SyntaxNode, source: Seq<char>, path: Seq<char>, rules: Seq<Rule>, j: int)
    requires
        sole_rule_named(rules, j),
    ensures
        only_rule(lint_findings(root, source, path, rules), rule_name(rules[j])) == lint_findings(
            root,
            source,
            path,
            seq![rules[j]],
        ),
{
    let id = rule_name(rules[j]);
    let src = vstd::utf8::encode_utf8(source);
    let top = crate::rules::top_scope();
    lemma_only_rule_tree(root, src, top, rules, j);
    let all = with_path(tree_findings(root, src, top, rules), path);
    lemma_only_rule_with_path(tree_findings(root, src, top, rules), path, id);
    lemma_only_rule_unsuppressed(all, source, id);
    if is_test_path(path) {
        lemma_only_rule_without_rule(unsuppressed(all, source), "no-assert"@, id);
    }
}


/// No two rules of the registry share a name, so each can be excluded,
/// suppressed and linted alone by its name.
pub proof fn law_registry_names_distinct()
    ensures
        forall|j: int| 0 <= j < registry().len() ==> sole_rule_named(registry(), j),
{
    reveal_strlit("no-hasattr-getattr");
    reveal_strlit("guarded-function-import");
    reveal_strlit("no-future-annotations");
    reveal_strlit("no-dataclass");
    reveal_strlit("no-bare-except");
    reveal_strlit("no-print");
    reveal_strlit("max-function-params");
    reveal_strlit("no-assert");
    reveal_strlit("no-async-from-sync");
    reveal_strlit("no-boolean-positional");
    reveal_strlit("no-broad-except");
    reveal_strlit("no-nested-try");
    reveal_strlit("no-or-empty-coalesce");
    reveal_strlit("no-pass-except");
    reveal_strlit("no-sentinel-default");
    reveal_strlit("no-todo-comment");
    reveal_strlit("no-typing-any");
    let rs = registry();
    assert(rule_name(rs[0]).len() == 18 && rule_name(rs[0])[3] == 'h');
    assert(rule_name(rs[1]).len() == 23 && rule_name(rs[1])[3] == 'r');
    assert(rule_name(rs[2]).len() == 21 && rule_name(rs[2])[3] == 'f');
    assert(rule_name(rs[3]).len() == 12 && rule_name(rs[3])[3] == 'd');
    assert(rule_name(rs[4]).len() == 14 && rule_name(rs[4])[3] == 'b');
    assert(rule_name(rs[5]).len() == 8 && rule_name(rs[5])[3] == 'p');
    assert(rule_name(rs[6]).len() == 19 && rule_name(rs[6])[3] == '-');
    assert(rule_name(rs[7]).len() == 9 && rule_name(rs[7])[3] == 'a');
    assert(rule_name(rs[8]).len() == 18 && rule_name(rs[8])[3] == 'a');
    assert(rule_name(rs[9]).len() == 21 && rule_name(rs[9])[3] == 'b');
    assert(rule_name(rs[10]).len() == 15 && rule_name(rs[10])[3] == 'b');
    assert(rule_name(rs[11]).len() == 13 && rule_name(rs[11])[3] == 'n');
    assert(rule_name(rs[12]).len() == 20 && rule_name(rs[12])[3] == 'o');
    assert(rule_name(rs[13]).len() == 14 && rule_name(rs[13])[3] == 'p');
    assert(rule_name(rs[14]).len() == 19 && rule_name(rs[14])[3] == 's');
    assert(rule_name(rs[15]).len() == 15 && rule_name(rs[15])[3] == 't');
    assert(rule_name(rs[16]).len() == 13 && rule_name(rs[16])[3] == 't');
    assert forall|j: int, k: int| 0 <= j < rs.len() && 0 <= k < rs.len() && k != j implies rule_name(
        #[trigger] rs[k],
    ) != rule_name(#[trigger] rs[j]) by {
        assert(j == 0 || j == 1 || j == 2 || j == 3 || j == 4 || j == 5 || j == 6 || j == 7 || j == 8 || j == 9 || j == 10 || j == 11 || j == 12 || j == 13 || j == 14 || j == 15 || j == 16);
        assert(k == 0 || k == 1 || k == 2 || k == 3 || k == 4 || k == 5 || k == 6 || k == 7 || k == 8 || k == 9 || k == 10 || k == 11 || k == 12 || k == 13 || k == 14 || k == 15 || k == 16);
        if rule_name(rs[k]) == rule_name(rs[j]) {
            assert(rule_name(rs[k])[3] == rule_name(rs[j])[3]);
        }
    }
}


/// What a full lint reports under one rule's name is what linting with that
/// rule alone reports.
pub proof fn law_lint_by_rule(root: SyntaxNode, source: Seq<char>, path: Seq<char>, j: int)
    requires
        0 <= j < registry().len(),
    ensures
        only_rule(lint_findings(root, source, path, registry()), rule_name(registry()[j])) == lint_findings(
            root,
            source,
            path,
            seq![registry()[j]],
        ),
{
    law_registry_names_distinct();
    law_rules_independent(root, source, path, registry(), j);
}


/// The findings of `fs` whose rule `exclude` does not name, in their order.
pub open spec fn not_excluded(fs: Seq<Finding>, exclude: Seq<Seq<char>>) -> Seq<Finding>
    decreases fs.len(),
{
    if fs.len() == 0 {
        fs
    } else {
        let rest = not_excluded(fs.drop_last(), exclude);
        if exclude.contains(fs.last().rule_id) {
            rest
        } else {
            rest.push(fs.last())
        }
    }
}

proof fn lemma_not_excluded_add(a: Seq<Finding>, b: Seq<Finding>, ex: Seq<Seq<char>>)
    ensures
        not_excluded(a + b, ex) == not_excluded(a, ex) + not_excluded(b, ex),
    decreases b.len(),
{
    if b.len() == 0 {
        assert(a + b =~= a);
        assert(not_excluded(a, ex) + not_excluded(b, ex) =~= not_excluded(a, ex));
    } else {
        lemma_not_excluded_add(a, b.drop_last(), ex);
        assert((a + b).drop_last() =~= a + b.drop_last());
        assert((a + b).last() == b.last());
        if !ex.contains(b.last().rule_id) {
            assert(not_excluded(a, ex) + not_excluded(b.drop_last(), ex).push(b.last()) =~= (not_excluded(
                a,
                ex,
            ) + not_excluded(b.drop_last(), ex)).push(b.last()));
        }
    }
}

/// Findings all of one rule are all kept, or all dropped.
proof fn lemma_not_excluded_under(fs: Seq<Finding>, id: Seq<char>, ex: Seq<Seq<char>>)
    requires
        all_under(fs, id),
    ensures
        not_excluded(fs, ex) == if ex.contains(id) {
            Seq::<Finding>::empty()
        } else {
            fs
        },
    decreases fs.len(),
{
    if fs.len() > 0 {
        assert(all_under(fs.drop_last(), id)) by {
            assert forall|i: int| 0 <= i < fs.drop_last().len() implies (#[trigger] fs.drop_last()[i]).rule_id
                == id by {
                assert(fs.drop_last()[i] == fs[i]);
            }
        }
        lemma_not_excluded_under(fs.drop_last(), id, ex);
        assert(fs[fs.len() - 1].rule_id == id);
        assert(fs.drop_last().push(fs.last()) =~= fs);
    }
}

proof fn lemma_not_excluded_with_path(fs: Seq<Finding>, p: Seq<char>, ex: Seq<Seq<char>>)
    ensures
        not_excluded(with_path(fs, p), ex) == with_path(not_excluded(fs, ex), p),
    decreases fs.len(),
{
    if fs.len() == 0 {
        assert(with_path(fs, p) =~= Seq::<Finding>::empty());
        assert(with_path(not_excluded(fs, ex), p) =~= Seq::<Finding>::empty());
    } else {
        lemma_not_excluded_with_path(fs.drop_last(), p, ex);
        assert(with_path(fs, p).drop_last() =~= with_path(fs.drop_last(), p));
        let rest = not_excluded(fs.drop_last(), ex);
        if !ex.contains(fs.last().rule_id) {
            assert(with_path(rest.push(fs.last()), p) =~= with_path(rest, p).push(with_path(fs, p).last()));
        }
    }
}

proof fn lemma_not_excluded_unsuppressed(fs: Seq<Finding>, source: Seq<char>, ex: Seq<Seq<char>>)
    ensures
        not_excluded(unsuppressed(fs, source), ex) == unsuppressed(not_excluded(fs, ex), source),
    decreases fs.len(),
{
    if fs.len() > 0 {
        lemma_not_excluded_unsuppressed(fs.drop_last(), source, ex);
        let f = fs.last();
        let u = unsuppressed(fs.drop_last(), source);
        assert(u.push(f).drop_last() =~= u);
        assert(u.push(f).last() == f);
        if !ex.contains(f.rule_id) {
            let o = not_excluded(fs.drop_last(), ex);
            assert(o.push(f).drop_last() =~= o);
            assert(o.push(f).last() == f);
        }
    }
}

proof fn lemma_not_excluded_without_rule(fs: Seq<Finding>, x: Seq<char>, ex: Seq<Seq<char>>)
    ensures
        not_excluded(without_rule(fs, x), ex) == without_rule(not_excluded(fs, ex), x),
    decreases fs.len(),
{
    if fs.len() > 0 {
        lemma_not_excluded_without_rule(fs.drop_last(), x, ex);
        let f = fs.last();
        let w = without_rule(fs.drop_last(), x);
        assert(w.push(f).drop_last() =~= w);
        assert(w.push(f).last() == f);
        if !ex.contains(f.rule_id) {
            let o = not_excluded(fs.drop_last(), ex);
            assert(o.push(f).drop_last() =~= o);
            assert(o.push(f).last() == f);
        }
    }
}

/// What `rules[..i]` report of a node depends on those rules alone.
proof fn lemma_node_prefix_push(rules: Seq<Rule>, r: Rule, n: SyntaxNode, src: Seq<u8>, scope: Scope, i: int)
    requires
        0 <= i <= rules.len(),
    ensures
        node_prefix(rules.push(r), n, src, scope, i) == node_prefix(rules, n, src, scope, i),
    decreases i,
{
    if i > 0 {
        lemma_node_prefix_push(rules, r, n, src, scope, i - 1);
        assert(rules.push(r)[i - 1] == rules[i - 1]);
    }
}

proof fn lemma_not_excluded_node(rules: Seq<Rule>, ex: Seq<Seq<char>>, n: SyntaxNode, src: Seq<u8>, scope: Scope)
    ensures
        not_excluded(node_prefix(rules, n, src, scope, rules.len() as int), ex) == node_prefix(
            active(rules, ex),
            n,
            src,
            scope,
            active(rules, ex).len() as int,
        ),
    decreases rules.len(),
{
    if rules.len() == 0 {
        assert(not_excluded(Seq::<Finding>::empty(), ex) == Seq::<Finding>::empty());
    } else {
        let init = rules.drop_last();
        let r = rules.last();
        lemma_not_excluded_node(init, ex, n, src, scope);
        assert(init.push(r) =~= rules);
        lemma_node_prefix_push(init, r, n, src, scope, init.len() as int);
        let here = if crate::engine::handles(r, n.kind@) {
            with_severity(rule_findings(r, n, src, scope), rule_severity(r))
        } else {
            Seq::empty()
        };
        assert(rules[rules.len() - 1] == r);
        assert(node_prefix(rules, n, src, scope, rules.len() as int) == node_prefix(init, n, src, scope, init.len() as int) + here);
        lemma_rule_ids(r, n, src, scope);
        lemma_all_under_with_severity(rule_findings(r, n, src, scope), rule_severity(r), rule_name(r));
        lemma_not_excluded_under(here, rule_name(r), ex);
        lemma_not_excluded_add(node_prefix(init, n, src, scope, init.len() as int), here, ex);
        let a = active(init, ex);
        if ex.contains(rule_name(r)) {
            assert(not_excluded(here, ex) == Seq::<Finding>::empty());
            assert(not_excluded(node_prefix(init, n, src, scope, init.len() as int), ex) + Seq::<Finding>::empty()
                =~= not_excluded(node_prefix(init, n, src, scope, init.len() as int), ex));
        } else {
            lemma_node_prefix_push(a, r, n, src, scope, a.len() as int);
            assert(a.push(r)[a.len() as int] == r);
        }
    }
}

proof fn lemma_not_excluded_tree(n: SyntaxNode, src: Seq<u8>, scope: Scope, rules: Seq<Rule>, ex: Seq<Seq<char>>)
    ensures
        not_excluded(tree_findings(n, src, scope, rules), ex) == tree_findings(n, src, scope, active(rules, ex)),
    decreases n, 1int, 0int,
{
    let a = active(rules, ex);
    lemma_prefix_suffix(rules, n, src, scope, rules.len() as int);
    lemma_prefix_suffix(a, n, src, scope, a.len() as int);
    assert(node_findings(rules, n, src, scope, rules.len() as int) =~= Seq::<Finding>::empty());
    assert(node_findings(a, n, src, scope, a.len() as int) =~= Seq::<Finding>::empty());
    assert(node_prefix(rules, n, src, scope, rules.len() as int) + Seq::<Finding>::empty() =~= node_prefix(
        rules,
        n,
        src,
        scope,
        rules.len() as int,
    ));
    assert(node_prefix(a, n, src, scope, a.len() as int) + Seq::<Finding>::empty() =~= node_prefix(
        a,
        n,
        src,
        scope,
        a.len() as int,
    ));
    lemma_not_excluded_node(rules, ex, n, src, scope);
    lemma_not_excluded_children(n, src, enter(scope, n), rules, ex, 0);
    lemma_not_excluded_add(
        node_findings(rules, n, src, scope, 0),
        children_findings(n, src, enter(scope, n), rules, 0),
        ex,
    );
}

proof fn lemma_not_excluded_children(n: SyntaxNode, src: Seq<u8>, inner: Scope, rules: Seq<Rule>, ex: Seq<Seq<char>>, i: int)
    ensures
        not_excluded(children_findings(n, src, inner, rules, i), ex) == children_findings(
            n,
            src,
            inner,
            active(rules, ex),
            i,
        ),
    decreases n, 0int, n.children@.len() - i,
{
    if 0 <= i < n.children@.len() {
        lemma_not_excluded_tree(n.children@[i], src, inner, rules, ex);
        lemma_not_excluded_children(n, src, inner, rules, ex, i + 1);
        lemma_not_excluded_add(
            tree_findings(n.children@[i], src, inner, rules),
            children_findings(n, src, inner, rules, i + 1),
            ex,
        );
    } else {
        assert(not_excluded(Seq::<Finding>::empty(), ex) == Seq::<Finding>::empty());
    }
}

/// Excluding rules only removes their findings: linting with the rules that
/// `exclude` leaves active gives what linting with all of them gives, less
/// the findings of the excluded rules (names that match no rule change
/// nothing).
pub proof fn law_exclusion_filters(root: SyntaxNode, source: Seq<char>, path: Seq<char>, rules: Seq<Rule>, exclude: Seq<Seq<char>>)
    ensures
        lint_findings(root, source, path, active(rules, exclude)) == not_excluded(
            lint_findings(root, source, path, rules),
            exclude,
        ),
{
    let src = vstd::utf8::encode_utf8(source);
    let top = crate::rules::top_scope();
    lemma_not_excluded_tree(root, src, top, rules, exclude);
    let all = with_path(tree_findings(root, src, top, rules), path);
    lemma_not_excluded_with_path(tree_findings(root, src, top, rules), path, exclude);
    lemma_not_excluded_unsuppressed(all, source, exclude);
    if is_test_path(path) {
        lemma_not_excluded_without_rule(unsuppressed(all, source), "no-assert"@, exclude);
    }
}


/// A source determines its lint: any two trees parsed from one source give
/// the same findings, whatever the path and the rules.
pub proof fn law_parse_determines_findings(t1: SyntaxNode, t2: SyntaxNode, source: Seq<char>, path: Seq<char>, rules: Seq<Rule>)
    requires
        parsed_from(t1, source),
        parsed_from(t2, source),
    ensures
        lint_findings(t1, source, path, rules) == lint_findings(t2, source, path, rules),
{
    let rows = python_parse(vstd::utf8::encode_utf8(source))->0;
    lemma_heads_same(t1, t2, rows, 0, rows.len());
    lemma_same_lint_findings(t1, t2, source, path, rules);
}

/// Linting a source with a configuration gives what linting it with every
/// rule gives, less the findings of the rules the configuration excludes.
pub proof fn law_configured_lint(t1: SyntaxNode, t2: SyntaxNode, source: Seq<char>, path: Seq<char>, exclude: Seq<Seq<char>>)
    requires
        parsed_from(t1, source),
        parsed_from(t2, source),
    ensures
        lint_findings(t1, source, path, active(registry(), exclude)) == not_excluded(
            lint_findings(t2, source, path, registry()),
            exclude,
        ),
{
    law_exclusion_filters(t1, source, path, registry(), exclude);
    law_parse_determines_findings(t1, t2, source, path, registry());
}

} // verus!
