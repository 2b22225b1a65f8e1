//! A line-oriented text preprocessor: macro substitution plus conditional
//! directives (`#if` / `#elseif` / `#else` / `#endif`) and file splicing.

pub mod chars;
pub mod expr;
pub mod process;
pub mod resolve;
pub mod strscan;
pub mod subst;

pub use chars::is_define_char;
pub use expr::{eval, eval_inner, tokenize, ExprError, Token};
pub use process::{process_str, Abort, Block, BranchStatus, Context, Error};
pub use resolve::{Includes, MapIncludes, NoIncludes, NotSupported};
pub use subst::substitute;
