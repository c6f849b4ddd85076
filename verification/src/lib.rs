//! Decision logic of flotilla, a terminal dashboard for development workspaces.

pub mod action;
pub mod clock;
pub mod dashboard;
pub mod data;
pub mod discovery;
pub mod event;
pub mod fs_path;
pub mod overrides;
pub mod places;
pub mod process;
pub mod refresh;
pub mod registry;
pub mod startup;
pub mod text;
pub mod views;
pub mod workspace;
pub mod zellij;
