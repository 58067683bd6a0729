pub mod command;
pub mod device;
pub mod engine;
pub mod names;
pub mod nmos;
pub mod node;
pub mod node_collection;
pub mod nonlinear_func;
pub mod parser;
pub mod sign_matrix;
pub mod spice_fn;
pub mod stamp;
