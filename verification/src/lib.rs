//! Core of a two-dimensional N-body particle simulator: a Barnes-Hut mass
//! tree for long-range gravity, a uniform spatial hash grid for short-range
//! collision springs, and a poll-driven physics dispatcher that rebuilds the
//! spatial structures, evaluates forces and integrates motion in phases.
//!
//! All quantities are fixed-point scalars: an `i64` counts units of
//! `1 / SCALE`. Arithmetic saturates at the `i64` range instead of wrapping;
//! every operation is specified exactly, saturation included.

use vstd::prelude::*;

pub mod fx;
pub mod mathvec;
pub mod particles;
pub mod masstree;
pub mod gridhandler;
pub mod easytime;
pub mod physics_handler;
