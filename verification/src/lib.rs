//! The naming and binding core of a symbolic execution engine for LLVM
//! IR.
//!
//! [`global_allocations`] keeps the table of global allocations: which
//! global variable, function or function hook lives at which address, with
//! the rules of linkage for private, strong and weak definitions.
//! [`varmap`] keeps the map of variables: which version of a local value is
//! the active one, how many versions were made, and how the versions of a
//! function are captured and restored around a recursive call.
//!
//! Both are specified over maps: [`global_allocations::AllocationsView`]
//! and [`varmap::VarMapView`]. What follows from the specifications for
//! every table and every map is proved in [`allocation_laws`] and
//! [`varmap_laws`].

pub mod allocation_laws;
pub mod backend;
pub mod binding;
pub mod callable;
pub mod double_keyed_map;
pub mod global_allocations;
pub mod linkage;
pub mod name;
pub mod symbol;
pub mod symbolic;
pub mod table;
pub mod term;
pub mod varmap;
pub mod varmap_laws;
