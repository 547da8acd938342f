//! Linker map files read into a model of the memory layout of a program,
//! and questions answered over that model.
//!
//! A map file is what a linker writes down about its work: which segments
//! the image has, which sections of which object files went into each, and
//! where every symbol ended up. Three dialects are read: GNU `ld`, LLVM
//! `ld.lld` and Metrowerks. The model is a tree, [`MapFile`], [`Segment`],
//! [`Section`], [`Symbol`], over which symbols are looked up by name,
//! address or image offset, two maps are compared, and the progress of a
//! decompilation is added up.
//!
//! Every function is verified against a contract. What the library takes
//! from other crates and from the standard library without proof is little:
//! what a regular expression captures in a line ([`pattern`]), and how a
//! path is taken apart ([`paths`]).

pub mod compare;
pub mod csv;
pub mod decomp;
pub mod differing;
pub mod either;
pub mod fixup;
pub mod format;
pub mod found_symbol_info;
pub mod gnu;
pub mod layout;
pub mod lld;
pub mod mapfile;
pub mod maps_comparison_info;
pub mod mix;
pub mod mw;
pub mod parser;
pub mod paths;
pub mod pattern;
pub mod progress;
pub mod progress_stats;
pub mod raw;
pub mod report;
pub mod search;
pub mod section;
pub mod segment;
pub mod symbol;
pub mod symbol_comparison_info;
pub mod symbol_decomp_state;
pub mod text;
pub mod utils;

pub use decomp::PathDecompSettings;
pub use found_symbol_info::FoundSymbolInfo;
pub use mapfile::MapFile;
pub use maps_comparison_info::MapsComparisonInfo;
pub use progress_stats::ProgressStats;
pub use section::Section;
pub use section::Section as File;
pub use segment::Segment;
pub use symbol::Symbol;
pub use symbol_comparison_info::SymbolComparisonInfo;
pub use symbol_decomp_state::{SymbolDecompState, SymbolDecompStateIter};
