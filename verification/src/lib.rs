//! A terminal task tracker's verified core: a record store holding a
//! two-level hierarchy of epics and stories, and a page navigator that
//! dispatches user actions into store mutations and page transitions.

pub mod models;
pub mod navigator;
pub mod pages;
