//! Core of a small tower-defense combat simulation: a player defends a
//! central structure (the CPU) from enemies that spawn at perimeter points
//! and walk authored paths toward it.  The library holds the simulation
//! state machines — spawn timers, enemy locomotion, projectile lifecycle,
//! collision-to-damage resolution, health bookkeeping and the upgrade
//! economy — on a fixed-point integer world model: positions count
//! thousandths of a world unit and time counts milliseconds, so that every
//! rule is stated and proved exactly.  Rendering, audio, input devices and
//! the physics broad-phase are external collaborators: a host loop feeds
//! each tick's input gestures and collision events in and plays the
//! returned cues out.

pub mod enemy;
pub mod gun;
pub mod health;
pub mod player;
pub mod timer;
pub mod vec3;
pub mod world;
