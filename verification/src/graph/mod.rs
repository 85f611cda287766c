pub mod calc;
pub mod image;
pub mod pixels;
pub mod canvas;
pub mod row_image;
pub mod cache;
pub mod queue;
