//! The rules of a one-night werewolf table: who may sit down, who is dealt what,
//! and what each role sees and does during the night.

pub mod card_laws;
mod chance;
pub mod game;
pub mod laws;
pub mod messages;
pub mod model;
pub mod night;
pub mod night_laws;
pub mod roles;
pub mod session;
pub mod table_laws;
pub mod text;
pub mod text_laws;
pub mod turn_laws;
pub mod wording_laws;
