//! Resolution of native library dependencies for a binding generator.
//!
//! A build names packages. For each of them this crate finds out where its
//! headers and libraries are: it asks the package registry first, and falls
//! back to looking for one of the package's executables and reasoning from
//! where that is installed. Package records say what a package consists of
//! and which other packages it depends on; the dependencies are walked in
//! turn. What comes out is a [`LibInfo`]: link paths, include paths, header
//! files, and the directives to raise.
//!
//! Nothing in this crate touches the machine. What is known about it is held
//! in a [`Host`]. A resolution that finds an answer missing halts with
//! [`Halt::Needs`] and names the question; the caller asks the machine,
//! records the answer and runs the resolution again. A resolution never asks
//! for what the host already holds, and once it has ended, further answers do
//! not change how it ends.
//!
//! The modules, from the leaves up:
//!
//! - [`package`]: the record of a package; [`store`]: the catalog of
//!   records and the rule by which contributions are merged.
//! - [`host`]: the answers of the machine; [`path`]: path arithmetic.
//! - [`platform`]: the filter that limits a dependency to a platform.
//! - [`linker`]: matching declared libraries against installed files.
//! - [`probe`]: finding one package; [`walk`]: walking its dependencies;
//!   [`plan`]: resolving a whole request and planning the bindings.
//! - [`document`] and [`manifest`]: reading records and requests from TOML.
//! - [`laws`]: what holds of every resolution.
pub mod document;
pub mod failure;
pub mod host;
pub mod laws;
pub mod lib_info;
pub mod linker;
pub mod manifest;
pub mod package;
pub mod path;
pub mod plan;
pub mod platform;
pub mod probe;
pub mod store;
pub mod table;
pub mod text;
pub mod walk;

pub use document::{parse_document, Entry, Field, Node, ParseError, RecordError};
pub use failure::{Failure, Halt};
pub use host::{Host, Package, Query};
pub use lib_info::{Directive, LibInfo};
pub use linker::{emit_cargo_meta_for_libs, get_link_name};
pub use manifest::{clib_metadata, metabuild, requested_packages, save_spec, SpecError};
pub use package::{Dependency, LibGroup, Libs, PackageSpec};
pub use plan::{build, plan, Plan};
pub use platform::{active_dependencies, check_os, match_os, Platform};
pub use probe::{get_includedir, probe_package, probe_via_pkgconf, probe_via_search, ProbedEx};
pub use store::{Conflict, SpecStore};
pub use walk::{fold_lib_info, probe, probe_library};
