//! Core game rules of the Carré space shooter: level registry, level
//! timeline, enemy pool and the wave, chaos and arena spawners, spawn
//! requests, experience thresholds and level-up cards, level selection and
//! campaign progress, boss, mothership and octopus phases, the enemies'
//! behaviour machines and phase graphs, the plan of the next mothership,
//! turret patterns, sprite animations, scheduled sounds, projectile hits
//! and the player's bomb stock.
use vstd::prelude::*;

pub mod levels;
pub mod rng;
pub mod order;
pub mod enemy_pool;
pub mod waves;
pub mod chaos;
pub mod arena;
pub mod timeline;
pub mod experience;
pub mod campaign;
pub mod phases;
pub mod anim;
pub mod items;
pub mod combat;
pub mod turret;
pub mod frames;
pub mod sounds;
pub mod mine;
pub mod octopus;
pub mod shooter;
pub mod behaviors;
pub mod phase_graph;
pub mod mothership;
pub mod cards;
pub mod spawn_requests;

verus! {

} // verus!
