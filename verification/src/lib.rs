//! Parse trees of the WhyML language and a printer that lays them out as
//! WhyML source text, with the printer's output specified and proved.

pub mod doc;
mod text;
pub mod big_int;
pub mod lists;
pub mod debug;
pub mod loc;
pub mod number;
pub mod number_spec;
pub mod constant;
pub mod pp;
pub mod decl;
pub mod dterm;
pub mod ident;
pub mod expr;
pub mod ity;
pub mod pmodule;
pub mod ptree;
pub mod ptree_helpers;
pub mod mlw_spec;
pub mod term_spec;
pub mod expr_spec;
pub mod decl_spec;
pub mod mlw_printer;
pub mod print_laws;
pub mod reading_laws;
pub mod wf_check;
mod print_term;
mod print_contract;
mod print_expr;
mod print_decl;
