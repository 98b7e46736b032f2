//! A linter for Python source that flags patterns commonly produced by
//! language models, configured per project through `[tool.pyguard]`.
pub mod config;
pub mod diagnostic;
pub mod engine;
pub mod laws;
pub mod output_laws;
pub mod report;
pub mod rule_laws;
pub mod rules;
pub mod same_tree;
pub mod suppression;
pub mod syntax;
pub mod text;

pub use config::Config;
pub use diagnostic::{Diagnostic, Severity};
pub use engine::{lint_source, lint_source_with_config, lint_source_with_rules};
