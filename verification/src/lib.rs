//! Verified core of SLEUTH, a viewer for versioned U.S. Code with bill
//! attribution.
//!
//! - `text`, `pathset`: character-level string utilities and sets of paths;
//! - `model`: the dataset as plain values, and its lookups;
//! - `diff`: the diff between two versions of an element tree;
//! - `annotation`: how annotations read;
//! - `state`: the application's state and how each message changes it;
//! - `views`, `reading`, `changes`, `window`: what each part of the window
//!   shows for a state.
pub mod text;
pub mod pathset;
pub mod model;
pub mod diff;
pub mod state;
pub mod annotation;
pub mod views;
pub mod reading;
pub mod changes;
pub mod window;
