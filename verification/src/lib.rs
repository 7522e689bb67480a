//! The block subsystem of a voxel game server: the catalog of blocks and
//! their states, the numbering of property values by state ids, the
//! behaviours of blocks, the order in which a change is passed on to the
//! neighbours of a cell, and the scheduled ticks.
//!
//! The catalog is built once from the asset tables (`builder`) and is
//! read-only afterwards (`catalog`). A state id is the id of a block's first
//! state plus the index of a value of the block's properties, and the index
//! is a mixed-radix number over the properties (`codec`, `group`, `typed`).
//!
//! A world (`world`) holds a state id for each cell. Behaviours
//! (`registry`, `dispatch`) never change the world themselves: they read it
//! and decide on actions (`action`), which the world carries out one at a
//! time (`engine`). What the world has to send or spawn it reports as
//! events.

pub mod action;
pub mod block;
pub mod builder;
pub mod bush;
pub mod catalog;
pub mod cells;
pub mod codec;
pub mod direction;
pub mod dispatch;
pub mod engine;
pub mod families;
pub mod farmland;
pub mod flags;
pub mod group;
pub mod names;
pub mod packet;
pub mod placement;
pub mod property;
pub mod registry;
pub mod rules;
pub mod search;
pub mod shelf;
pub mod soul_fire;
pub mod states;
pub mod tags;
pub mod text;
pub mod tick;
pub mod tripwire_hook;
pub mod typed;
pub mod varint;
pub mod world;
