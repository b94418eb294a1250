//! A compiler from tagged module declarations to a plugin definition.
//!
//! A module declares behaviour units, data types and type aliases, and
//! tags them. The compiler classifies every declaration, resolves the
//! ordering constraints between the scheduled systems of each phase, and
//! assembles the plugin: its configuration fields, its helper methods, and
//! the ordered registration calls that construct it inside a
//! component-based host runtime. It runs as one pass; the first violation
//! ends it, and then there is no plugin.
//!
//! The stages, leaves first:
//!
//! - [`token`] flattens the token trees of a tag; [`grammar`] reads
//!   groups, phases, ranks and query elements from token strings;
//! - [`normalize`] rewrites older tag spellings into canonical tags;
//! - [`classify`] applies canonical tags to a unit, and [`systems`] keeps
//!   the classified units and emits their registration calls;
//! - [`schedule`] groups systems by phase and resolves their order;
//! - [`initialization`] collects the requests of type-level tags;
//! - [`prefab`] compiles scoped bundles and derives cleanup systems;
//! - [`plugin`] scans a module and assembles the plugin.
//!
//! [`basic`], [`events`], [`resources`] and [`states`] are collectors by
//! kind of system; [`current`] and [`executable`] serve units that are run
//! on demand. The modules whose names end in `_laws` hold what is proved
//! of every compilation.

pub mod basic;
pub mod classify;
pub mod classify_laws;
pub mod current;
pub mod error;
pub mod events;
pub mod executable;
pub mod grammar;
pub mod grammar_laws;
pub mod groups;
pub mod initialization;
pub mod kind;
pub mod normalize;
pub mod plugin;
pub mod plugin_laws;
pub mod prefab;
pub mod registration;
pub mod resources;
pub mod schedule;
pub mod schedule_laws;
pub mod states;
pub mod systems;
pub mod text;
pub mod token;
pub mod unit;
