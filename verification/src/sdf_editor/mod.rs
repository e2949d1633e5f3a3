pub mod primitives;
pub mod data_structures;
pub mod containers;
pub mod sdf_editor;
pub mod layout;
pub mod laws;
