pub mod conway;
pub mod grid;
