pub mod structs;
pub mod functions;
