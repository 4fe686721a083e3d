//! Verified core of the Vessel desktop file search: settings normalization,
//! query construction, scan batching, index planning and job bookkeeping.

pub mod text;
pub mod dto;
pub mod path_norm;
pub mod search;
pub mod content_extract;
pub mod index;
pub mod roots;
pub mod config;
pub mod scan;
pub mod jobs;
pub mod windows_explorer;
pub mod commands;
pub mod db;
pub mod job_types;
