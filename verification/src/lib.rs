//! A weighted character-recruitment ("gacha") engine and a collage
//! compositor for batch draws.
//!
//! A [`banner::Banner`] owns a validated recruitment configuration: a pool of
//! characters split into rarity tiers, per-tier draw weights, and an optional
//! boosted ("rate-up") subset whose share of its tier's probability mass is
//! raised.  Draws are driven by plain random integers, so the selection logic
//! itself is deterministic and fully specified; the collage module arranges a
//! ten-draw batch of thumbnails into a fixed five-by-two grid and encodes the
//! composite as a JPEG.

pub mod banner;
pub mod character;
pub mod collage;
pub mod engine;
pub mod errors;
mod rng;
