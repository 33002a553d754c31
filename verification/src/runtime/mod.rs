pub mod abi;
pub mod dataspace;
pub mod diagnostics;
pub mod emitter;
pub mod host;
pub mod html;
pub mod kernel;
pub mod livecell_codegen;
pub mod sammy_config;
pub mod schemas;
pub mod signals;
pub mod ui;
