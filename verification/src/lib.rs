//! The verified core of the Pilatus application framework: names and recipe
//! identifiers, device parameters with variables, the routing of messages to
//! devices, recipe archives and imports, configuration, logos and log files.

pub mod archive;
pub mod blocking;
pub mod config;
pub mod content;
pub mod device;
pub mod import;
pub mod logfile;
pub mod logo;
pub mod metadata_future;
pub mod name;
pub mod occurrence_counter;
pub mod params;
pub mod recipe;
pub mod runner;
pub mod text;
