//! A verified tree-walking interpreter for a small S-expression language.
//!
//! Text is read into a homogeneous value tree ([`types::Mal`]), the tree is
//! evaluated against a lexically scoped environment ([`env::Env`]), and
//! results are serialized back to text ([`printer`]).  The meaning of every
//! operation is stated over a mathematical model of the value tree
//! ([`types::MalV`]) and proved against a definitional spec-level
//! interpreter ([`eval`]).

pub mod builtins;
pub mod env;
pub mod eval;
pub mod laws;
pub mod errors;
pub mod numtext;
pub mod printer;
pub mod reader;
pub mod types;

pub use builtins::core_env;
pub use env::Env;
pub use errors::{linepos, linepos_str, Failure, MalError};
pub use eval::{eval, print, read, rep};
pub use printer::{pr_str, pr_str_into};
pub use reader::{read_atom, read_form, read_hash_map, read_str, Lexer, Token, TokenKind};
pub use types::{mal_equal, Mal, MalList, MalArr, MalMap, MapKey, Keyword, Symbol, MalFunc, Native};
