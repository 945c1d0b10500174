//! Build system: versions, change detection, cache busting, build reports.
pub mod version;
pub mod change_detect;
pub mod digest;
pub mod cache_bust;
pub mod pipeline;
pub mod compiler;
pub mod packager;
