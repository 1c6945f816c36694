pub mod fluid;
pub mod latch;
pub mod rational;
pub mod reactor;
pub mod render;
pub mod solid;
pub mod table;
pub mod unit;
