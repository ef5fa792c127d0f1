pub mod diagram;
pub mod image;
pub mod inline;
pub mod math;
pub mod table;
