//! The request handlers of the Builder job server.
#![allow(unused_imports)]

pub mod audit;
pub mod build_groups;
pub mod build_groups_laws;
pub mod cancel;
pub mod cancel_laws;
pub mod cancellation_laws;
pub mod create;
pub mod create_laws;
pub mod create_new;
pub mod create_new_laws;
pub mod creation_laws;
pub mod error;
pub mod graph;
pub mod graph_laws;
pub mod grouped_laws;
pub mod groups;
pub mod jobs;
pub mod jobs_laws;
pub mod messages;
pub mod projects;
pub mod repeated;
pub mod selection_laws;
pub mod text;
