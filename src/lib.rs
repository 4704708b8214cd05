//! A quiz library: question sets read from JSON documents, and the state
//! machine that walks a player through one question at a time.
pub mod data_structs;
pub mod question;
pub mod quiz;
pub mod files;
