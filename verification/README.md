# pyguard

A linter for Python source that flags patterns commonly produced by language
models (`hasattr`/`getattr`, unguarded function-scope imports, bare `except:`,
`print()`, placeholder defaults, ...). Projects disable rules through an
`exclude` list in the `[tool.pyguard]` table of `pyproject.toml`; single lines
opt out with `# pyguard: ignore` or `# pyguard: ignore[rule-a, rule-b]`
(`# slopcop: ignore` is accepted as well).

The library is written in Verus. Every function in `src/` is verified
against its contract, except the small trusted wrappers (marked
`#[verifier::external_body]`) through which it calls tree-sitter and two
functions of std; their contracts restate what those libraries document, and
the parse itself is named (`python_parse`) rather than described.

A finding renders as `path:line:col  [rule] message`. A TODO-style marker
counts wherever in the comment it stands as a word. `except Exception:` is
reported by `no-bare-except` as well as by `no-broad-except`.

- `src/syntax.rs`: the syntax tree the rules read, built from a tree-sitter parse.
- `src/rules/`: the rules, one file each, with the registry and the scope
  a rule sees a node in.
- `src/engine.rs`: the single pre-order walk, the kind-to-rules dispatch map,
  and the finishing steps (path, suppression, test-file exemption).
- `src/suppression.rs`: inline `# pyguard: ignore` comments.
- `src/same_tree.rs`: the findings depend only on what the tree's nodes read.
- `src/config.rs`: the `[tool.pyguard]` table, its discovery and the active rules.
- `src/report.rs`: display order, counts, the closing line and the exit verdict.
- `src/laws.rs`: properties of every lint result (rules are independent of one
  another, excluded rules report nothing, nothing but suppressed findings is
  dropped, ...).
- `src/text.rs`, `src/diagnostic.rs`: text primitives and the finding type.
- `app/main.rs`: the command line (file discovery, reading `pyproject.toml`,
  parallel linting, output).
