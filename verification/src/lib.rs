//! Verified core of the batch transcription desktop application: media
//! discovery rules, transcription backend command lines, export text
//! selection and the small decisions taken by the command layer.

pub mod models;
pub mod text;
pub mod backend;
pub mod export;
pub mod scanner;
pub mod db;
pub mod commands;
pub mod path_order;
