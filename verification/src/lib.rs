//! Print planning and rendering for a DAG-shaped compiler IR.
//!
//! A [`print::Plan`] discovers everything reachable from one or more roots,
//! dependencies first; a [`print::Printer`] decides how each referenced
//! definition is named; the renderers turn definitions into abstract
//! documents ([`pretty::Fragment`]); and [`print::Versions`] assembles the
//! renderings of one or many snapshots into text or markup.
pub mod fx;
pub mod ir;
pub mod layout;
pub mod pretty;
pub mod print;
pub mod seqs;
pub mod spv;
pub mod text;
pub mod validate;
