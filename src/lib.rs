pub mod api;
pub mod cookie;
pub mod math_span;
pub mod post;
pub mod render;
pub mod router;
pub mod text;
