//! Project configuration: the `[tool.pyguard]` table of a `pyproject.toml`,
//! which lists the rules to leave out.
use vstd::prelude::*;

use crate::rules::{all_rules, registry, rule_name, Rule};
use crate::text::str_eq;

verus! {

/// The `[tool.pyguard]` table.
#[derive(Debug, Clone)]
pub struct Config {
    /// Names of the rules to disable; all others stay active.
    pub exclude: Vec<String>,
}

impl View for Config {
    type V = Seq<Seq<char>>;

    /// The excluded rule names.
    open spec fn view(&self) -> Seq<Seq<char>> {
        self.exclude@.map_values(|s: String| s@)
    }
}

impl Default for Config {
    /// No rule excluded.
    fn default() -> (r: Self)
        ensures
            r@ == Seq::<Seq<char>>::empty(),
    {
        let r = Config { exclude: Vec::new() };
        assert(r@ =~= Seq::<Seq<char>>::empty());
        r
    }
}

/// The `[tool]` table of a `pyproject.toml`, as far as it concerns this tool.
pub struct ToolTable {
    pub pyguard: Option<Config>,
}

/// A parsed `pyproject.toml`, as far as it concerns this tool.
pub struct Pyproject {
    pub tool: Option<ToolTable>,
}

/// The excluded rule names of the `[tool.pyguard]` table of `p`, when it has one.
pub open spec fn pyguard_table(p: Option<Pyproject>) -> Option<Seq<Seq<char>>> {
    match p {
        Some(Pyproject { tool: Some(ToolTable { pyguard: Some(c) }) }) => Some(c@),
        _ => None,
    }
}

/// The configuration that the search finds in `found`, the parsed
/// `pyproject.toml` files met from the start directory upward (`None` where a
/// directory has no readable one): the first that has a `[tool.pyguard]`
/// table, or no exclusions when none has.
pub open spec fn discovered(found: Seq<Option<Pyproject>>) -> Seq<Seq<char>>
    decreases found.len(),
{
    if found.len() == 0 {
        Seq::empty()
    } else {
        match pyguard_table(found[0]) {
            Some(c) => c,
            None => discovered(found.drop_first()),
        }
    }
}

/// Picks the configuration from the `pyproject.toml` files found walking up
/// from the start directory, nearest first: the first with a
/// `[tool.pyguard]` table wins; with none, every rule stays active.
pub fn discover_config(found: Vec<Option<Pyproject>>) -> (r: Config)
    ensures
        r@ == discovered(found@),
{
    let ghost all = found@;
    let mut rest = found;
    let n = rest.len();
    let mut i: usize = 0;
    assert(all.skip(0) =~= all);
    while i < n
        invariant
            0 <= i <= n,
            n == all.len(),
            rest@ == all,
            all == found@,
            discovered(all) == discovered(all.skip(i as int)),
        decreases n - i,
    {
        let has = match &rest[i] {
            Some(Pyproject { tool: Some(ToolTable { pyguard: Some(_) }) }) => true,
            _ => false,
        };
        assert(all.skip(i as int)[0] == all[i as int]);
        if has {
            let p = rest.remove(i);
            assert(p == all[i as int]);
            match p {
                Some(Pyproject { tool: Some(ToolTable { pyguard: Some(c) }) }) => {
                    assert(pyguard_table(all[i as int]) == Some(c@));
                    assert(discovered(all.skip(i as int)) == c@);
                    assert(c@ == discovered(all));
                    return c;
                },
                _ => {
                    assert(false);
                },
            }
        }
        assert(all.skip(i as int).drop_first() =~= all.skip(i + 1));
        i = i + 1;
    }
    assert(all.skip(i as int) =~= Seq::<Option<Pyproject>>::empty());
    Config::default()
}

/// The rules of `rules` whose names `exclude` does not list, in their order.
pub open spec fn active(rules: Seq<Rule>, exclude: Seq<Seq<char>>) -> Seq<Rule>
    decreases rules.len(),
{
    if rules.len() == 0 {
        rules
    } else {
        let rest = active(rules.drop_last(), exclude);
        if exclude.contains(rule_name(rules.last())) {
            rest
        } else {
            rest.push(rules.last())
        }
    }
}

/// Whether `config` excludes the rule named `name`.
fn excludes(config: &Config, name: &str) -> (r: bool)
    ensures
        r == config@.contains(name@),
{
    let mut i: usize = 0;
    while i < config.exclude.len()
        invariant
            0 <= i <= config.exclude@.len(),
            forall|j: int| 0 <= j < i ==> config@[j] != name@,
        decreases config.exclude@.len() - i,
    {
        if str_eq(config.exclude[i].as_str(), name) {
            assert(config@[i as int] == name@);
            return true;
        }
        i = i + 1;
    }
    false
}

/// The registry's rules that `config` leaves active, in registry order.
pub fn active_rules(config: &Config) -> (r: Vec<Rule>)
    ensures
        r@ == active(registry(), config@),
{
    let all = all_rules();
    let mut out: Vec<Rule> = Vec::new();
    let mut i: usize = 0;
    while i < all.len()
        invariant
            0 <= i <= all@.len(),
            all@ == registry(),
            out@ == active(registry().take(i as int), config@),
        decreases all@.len() - i,
    {
        let r = all[i];
        assert(registry().take(i + 1).drop_last() =~= registry().take(i as int));
        if !excludes(config, r.name()) {
            out.push(r);
        }
        i = i + 1;
    }
    assert(registry().take(i as int) =~= registry());
    out
}


/// With nothing excluded, every rule stays active.
pub proof fn lemma_active_none(rules: Seq<Rule>)
    ensures
        active(rules, Seq::empty()) == rules,
    decreases rules.len(),
{
    if rules.len() > 0 {
        lemma_active_none(rules.drop_last());
        assert(rules.drop_last().push(rules.last()) =~= rules);
    }
}

} // verus!
