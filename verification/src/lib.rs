//! Rudder plans the folder structure of a Flutter project and of its
//! features.
//!
//! A project is laid out in layers: every feature has an application, a
//! data, a domain and a presentation layer, each with its own files. This
//! library decides which directories and files a command asks for and what
//! the files hold. It never touches the file system: a plan is a list of
//! steps, and whoever calls the library carries them out.
//!
//! The way in is [`cli::probes`] and [`cli::plan`]: the first names the
//! paths whose presence matters to a command, the second turns the command
//! and the list of the paths that are there into the work to do. [`run`]
//! then says in which order the work is carried out, and where it goes on
//! or ends when a task fails.

pub mod args;
pub mod batch;
pub mod classes;
pub mod cli;
pub mod dart;
pub mod deps;
pub mod error;
pub mod feature;
pub mod name;
pub mod path;
pub mod project;
pub mod run;
pub mod safety;
pub mod step;
pub mod template;
pub mod text;

pub use deps::add_dependencies;
pub use feature::add_feature;
pub use project::create_project_structure;
pub use step::{create_file, create_folder};
