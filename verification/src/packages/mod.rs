pub mod glsl_preprocessor;
pub mod input_manager_package;
pub mod node_editor_package;
pub mod new_node_editor;
