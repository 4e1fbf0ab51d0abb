pub mod error;
pub mod laws;
pub mod naming;
pub mod temp_mat;
pub mod text;
pub mod timed;
