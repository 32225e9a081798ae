pub mod addr;
pub mod frame;
pub mod laws;
pub mod neighbor;
