//! Enclosure capture and fusion engine for an arcade capture game.
//!
//! A controlled agent draws a trail through a field of moving entities. When
//! the trail crosses itself it is closed into a loop, the entities enclosed by
//! the loop are collected, and a fusion resolver decides which of them merge
//! into new entities and which are ejected. A phase state machine then
//! sequences the visual and physical consequences of a resolved capture.
//!
//! All positions and velocities are fixed-point integers (a world unit scaled
//! by 1000), so every geometric decision is exact.

pub mod animation;
pub mod category;
pub mod containment;
pub mod entity;
pub mod fusion;
pub mod geometry;
pub mod path;
pub mod registry;
