pub mod ast;
pub mod bigint;
pub mod context;
pub mod errors;
pub mod eval;
pub mod financial;
pub mod floats;
pub mod format;
pub mod laws;
pub mod locale;
pub mod number;
pub mod parser;
pub mod rational;
pub mod registry;
pub mod semantics;
pub mod tokens;
pub mod utils;

pub use ast::{BinaryOp, Expr, UnaryOp, UserFunction};
pub use context::Context;
pub use errors::EngineError;
pub use eval::evaluate;
pub use format::{format_complex, format_float, format_number, format_number_decimal};
pub use locale::{init_locale, t, t_in, Locale};
pub use number::{factorial, pow, Number};
pub use parser::parse;
pub use registry::apply;
pub use tokens::Token;
pub use utils::{map_input_token, should_auto_paren};
