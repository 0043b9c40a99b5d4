//! The keyboard side: layout, layers of key definitions, and the live state.

pub mod display;
pub mod layers;
pub mod layout;
pub mod state;

pub use layers::Layer;
pub use layout::{KeyDef, KeyType, Layout};
pub use state::KeyboardState;
