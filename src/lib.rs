//! A small Lisp: values, scoped environments, and a tree-walking evaluator
//! whose behaviour is stated as spec functions over a mathematical model.
pub mod value;
pub mod env;
pub mod render;
pub mod equality;
pub mod parse;
pub mod builtins;
pub mod semantics;
pub mod evals;
pub mod repl;
pub mod laws;

pub use value::{Builtin, DynamicFunction, Errors, FResult, Value};
pub use env::Env;
pub use builtins::Console;
pub use render::{PRINT, list_to_string};
pub use parse::READ;
pub use evals::{DEPTH_LIMIT, EVAL, eval_list, evaluate};
pub use repl::{build_init_env, get_std_lib, rep, run_std_lib};
