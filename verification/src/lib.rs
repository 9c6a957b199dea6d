//! Core model of a layered 2D animation scene.
//!
//! A scene is a tree of timed, transform-bearing layers; sibling order is
//! paint order, and a layer may nest a whole composition or link to
//! another layer whose animation composes before its own.  This crate
//! holds the verified heart of an editor for such scenes: the data model
//! and its path addressing, the structural editing operations, the
//! transform/opacity evaluator, and a burst-coalescing undo history.
//! Binary codecs, bitmap handling and all presentation stay outside; they
//! exchange plain values with this crate.

pub mod curve;
pub mod edit;
pub mod eq;
pub mod eval;
pub mod fx;
pub mod keys;
pub mod laws;
pub mod mat;
pub mod model;
pub mod names;
pub mod pending;
pub mod scene;
pub mod undo;
pub mod update;
