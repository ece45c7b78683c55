pub mod changelog;
pub mod compat;
pub mod control;
pub mod copyright;
pub mod lintian;
pub mod patches;
pub mod tarball_fetch;
pub mod uscan;
pub mod vendor;
pub mod ppa;
pub mod sbuild;
pub mod autopkgtest;
pub mod git;
pub mod gbp;
pub mod overlay;
