//! Converts the enabled rules of a Biome configuration into a flat ESLint
//! configuration module.
//!
//! A conversion walks the registry of the analyzer's rules, keeps the rules
//! that are enabled and name an ESLint rule as their equivalent, gives each
//! the severity that the configuration asks for, and lays out a module that
//! imports the plugins it needs and exports
//! `defineConfig({ plugins: {..}, rules: {..} })`.
//!
//! - [`source`]: the families of external rules, their namespaces and imports
//! - [`severity`]: configured, effective and ESLint severities
//! - [`registry`]: the analyzer's rules, ordered by group and name
//! - [`resolve`]: the walk over the registry
//! - [`assemble`]: the layout of the module
//! - [`emit`]: the module as JavaScript text
//! - [`generate`]: all of it in one call
//! - [`text`]: the order of strings that the above rely on
pub mod assemble;
pub mod emit;
pub mod generate;
pub mod registry;
pub mod resolve;
pub mod severity;
pub mod source;
pub mod text;

pub use assemble::{assemble, EslintConfig};
pub use emit::{render, EmitError};
pub use generate::{generate_eslint_config, Conversion};
pub use registry::RuleRegistry;
pub use resolve::{resolve_rules, EnabledRules, ResolvedRules};
pub use severity::Rules;
pub use source::RuleSourceKind;
