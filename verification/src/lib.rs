//! Name resolution and type checking: syntax trees in, a typed program out.
//!
//! [`check::check_modules`] takes the files of a program and the vocabulary of the host, and gives
//! the checked program with one list of diagnostics for each file. Its contract says which program
//! and which diagnostics: what [`check::outcome`] describes, step by step, over the mathematical
//! state in [`state`].
//!
//! What holds of checking as a whole stands in [`growth`], in the modules listed after it, and
//! beside the functions it is about.

use vstd::prelude::*;

pub mod span;
pub mod text;
pub mod table;
pub mod copies;
pub mod specifier;
pub mod ast;
pub mod hir;
pub mod model;
pub mod types;
pub mod graph;
pub mod cycle;
pub mod order;
pub mod walk;
pub mod filing;
pub mod moves;
pub mod sink;
pub mod turns;
pub mod reports;
pub mod say;
pub mod state;
pub mod checker;
pub mod start;
pub mod tables;
pub mod generics;
pub mod infer;
pub mod instances;
pub mod resolve;
pub mod imports;
pub mod binding;
pub mod pat;
pub mod plan;
pub mod path;
pub mod call;
pub mod steps;
pub mod expr;
pub mod item;
pub mod traits;
pub mod scan;
pub mod members;
pub mod wiring;
pub mod reactor;
pub mod mono;
pub mod passes;
pub mod check;
pub mod growth;
pub mod parts;
pub mod ownership;
pub mod sinking;
pub mod calm;
pub mod starting;
pub mod scopes;
pub mod flows;
pub mod declaring;
pub mod substitution;
pub mod spelling;
pub mod copying;
pub mod evaluation;
pub mod matching;
pub mod judging;

pub use check::{check, check_modules, Checked, CheckedModules, ModuleInput};
pub use specifier::{resolve_specifier, Resolved, SpecifierError};
