pub mod news;
pub mod papers;
