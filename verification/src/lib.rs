//! A static photo gallery generator's core: capture-time extraction, the
//! derivative cache rule, grouping by capture date, pagination and page
//! rendering, each with a machine-checked contract.

pub mod derivative;
pub mod gallery;
pub mod group;
pub mod metadata;
pub mod options;
pub mod paginate;
pub mod paths;
pub mod photo;
pub mod render;
pub mod text;
pub mod time;
pub mod unique;
pub mod watch;
