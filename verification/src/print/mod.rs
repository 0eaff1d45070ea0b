//! Printing anything in the IR, from whole modules to their leaves.
//!
//! A [`Plan`] records everything that has to be printed for one or more
//! roots, definitions before their uses. A [`Printer`] made from it
//! decides which definitions get a name and which are printed where they
//! are used. [`Plan::pretty_print`] prints every definition, puts the
//! prints together as [`Versions`] and lays them out; the result can be
//! written as text or as HTML.
pub mod attrs;
pub mod closure;
pub mod deps;
pub mod discovery;
pub mod func_text;
pub mod interned;
pub mod laws;
pub mod local_defs;
pub mod order;
pub mod module_text;
pub mod output;
pub mod plan;
pub mod printer;
pub mod spv_text;
pub mod traits;
pub mod use_map;
pub mod uses;
pub mod versions;

pub use attrs::{AttrStyle, AttrsAndDef};
pub use discovery::{ExpectedVsFound, NodeDef, Root};
pub use plan::Plan;
pub use printer::{FloatLiteral, Printer};
pub use traits::Print;
pub use use_map::UseMap;
pub use uses::{CxInterned, Node, Use, UseStyle};
pub use versions::Versions;
