pub mod version;
pub mod backport;
pub mod tarball;
pub mod update;
