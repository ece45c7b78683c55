pub mod package_version;
pub mod params;
pub mod ubuntu;
pub mod versions;
