//! Scaffolding of an empty version-control repository.
//!
//! The crate decides *what* an initialised repository looks like and *when*
//! a directory may be initialised; it never touches a file system itself.
//! A driver performs the requests that [`init::create_repository`] hands
//! out and reports what happened, and it shows [`repository::Repository`]
//! what it found on the disk.
//!
//! - [`config`]: the configuration document and its default.
//! - [`layout`]: the directories and files of a new repository.
//! - [`init`]: the initialisation, request by request.
//! - [`repository`]: recognising an initialised repository.
//! - [`path`]: joining path components.
//! - [`tree`] and [`model`]: a model of a file tree, and the proof of what
//!   an initialisation makes of one.

pub mod config;
pub mod init;
pub mod layout;
pub mod model;
pub mod path;
pub mod repository;
pub mod tree;
