pub mod action;
pub mod laws;
pub mod selection;
pub mod vec_historic;

pub use action::{Action, InsertData, MoveData, RemoveData, take_values_from_action};
pub use vec_historic::{IntoIter, VecHistoric};
