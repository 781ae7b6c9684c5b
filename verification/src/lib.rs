//! Development-tier rebalancing for a football roster.
//!
//! The library recomputes development-trait tiers from season statistics and
//! enforces per-position quota bands: it classifies players into canonical
//! position groups, evaluates demotion protections, scores each player with an
//! exact fixed-point formula, and selects the minimal set of promotions and
//! demotions that brings every group's tier counts back inside its configured
//! bands. Input loading and report printing live outside the library; it works
//! on plain in-memory records and returns the proposed tier changes.

pub mod bands;
pub mod config;
pub mod laws;
pub mod pipeline;
pub mod position;
pub mod protect;
pub mod rebalance;
pub mod report;
pub mod rng;
pub mod roster;
pub mod score;
pub mod scoring;
pub mod sort;
pub mod stats;
pub mod text;
pub mod tier;

pub use tier::Tier;
