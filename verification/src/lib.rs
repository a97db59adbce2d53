use vstd::prelude::*;

pub mod text;
pub mod strmap;
pub mod manifest;
pub mod mode;
pub mod env;
pub mod syntax;
pub mod typescript;
pub mod file_types;
pub mod types_jar;
pub mod route;
pub mod route_directory_info;
pub mod config;
pub mod source_builder;
pub mod external_url;
pub mod url;
pub mod scaffold_project;
pub mod request;
pub mod payload;
pub mod process_manager;
pub mod dev;
pub mod vite_reverse_proxy;
pub mod symbols;

verus! {
} // verus!
