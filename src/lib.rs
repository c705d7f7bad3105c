pub mod geometry;
pub mod selection;
pub mod raster;
pub mod magnifier;
pub mod overlay;
