//! Decision logic of the Codex pet overlay repair tool.
pub mod appearance;
pub mod background;
pub mod gaze;
pub mod identity;
pub mod interface;
pub mod policy;
pub mod protocol;
pub mod repair;
pub mod settings;
pub mod text;
pub mod transport;
