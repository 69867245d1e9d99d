//! Story-point and time-in-status analysis of a task tree.
//!
//! The library holds the rules: how the replies of the task service are
//! judged and joined into a tree, how a tree is rolled up into points and
//! days in development, and how the result is written out. Sending requests
//! and serving pages is left to the program around it.

pub mod application;
pub mod components;
pub mod domain;
pub mod routes;
pub mod services;
