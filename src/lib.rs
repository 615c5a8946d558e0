//! An artificial-life simulation in fixed point: mobile entities hunt one
//! another and graze on plants that grow from a fertility-bearing terrain,
//! and dead entities return fertility to the ground they die on.
//!
//! Every quantity is an integer count of milli-units (`fixed::SCALE`). Within
//! a tick, entities take their turns in order against the populations as
//! earlier turns left them; children and sprouts join after the pass.
pub mod fixed;
pub mod terrain;
pub mod random;
pub mod entity;
pub mod world;
pub mod growth;
pub mod sim;
pub mod laws;
