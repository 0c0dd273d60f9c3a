pub mod rules;
pub mod version_manifest;
pub mod download;
pub mod java;
pub mod launch;
