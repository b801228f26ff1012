//! A voting pallet: registered voters create proposals, admit members by
//! quorum, add subjects and alternatives, and cast ballots; root registers
//! voters and finishes proposals. Every call is proved against its model.
pub mod bounded;
pub mod keymap;
pub mod laws;
pub mod model;
pub mod pallet;
pub mod preserve;
pub mod types;
