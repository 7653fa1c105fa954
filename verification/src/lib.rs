//! Verified core of the dsh terminal front end: the input draft, the
//! command and picker menus, the state machine that answers every message,
//! and the layout of the live area below the transcript.

pub mod text;
pub mod unicode;
pub mod fit;
pub mod draft;
pub mod terminal;
pub mod tail;
pub mod update;
pub mod probe;
pub mod laws;
