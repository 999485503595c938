pub mod lava;
pub mod street;
