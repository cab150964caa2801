//! Environment files (`.env`-style) management: parsing, printing,
//! synchronisation between several environment files, and generation of
//! run scripts that expose their variables.

pub mod text;
pub mod env_file;
pub mod paths;
pub mod case;
pub mod pattern;
pub mod cfg;
pub mod run_file;
pub mod d4d_error;
pub mod io;
pub mod fs;
pub mod template;
pub mod utils;
pub mod cli;
pub mod resource;
pub mod update;
