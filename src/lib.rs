//! The incremental build pipeline of a desktop application project: a
//! staleness cache per input category, planning of the translation, form and
//! resource stages, the fixed order of the stages, and the two packaging
//! backends with their option composition and layout rules. Everything here
//! decides; the caller runs the tools and touches the disk.

pub mod assets;
pub mod builder;
pub mod cache;
pub mod cli;
pub mod context;
pub mod decimal;
pub mod errcode;
pub mod i18n;
pub mod packaging;
pub mod paths;
pub mod pipeline;
pub mod pyproject;
pub mod stage;
pub mod ui;

