pub mod installer;

pub use installer::{installer_url, resolve_forge_version};
