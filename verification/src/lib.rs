pub mod error;
pub mod forge;
pub mod minecraft;
pub mod mods;
pub mod paths;
pub mod profile;
pub mod progress;
pub mod server_status;
pub mod strmap;
pub mod text;

pub use error::{Error, Result};

use vstd::prelude::*;

verus! {

/// The game version the launcher installs (one fixed modpack for now).
pub const MC_VERSION: &'static str = "1.20.1";

/// The oldest Java major version the game runs on.
pub const REQUIRED_JAVA_MAJOR: u32 = 17;

} // verus!
