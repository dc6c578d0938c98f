pub mod article;
pub mod cna_model;
pub mod helper;
pub mod news_model;
pub mod papers_model;
pub mod sidebar;
pub mod text;
pub mod time_formatter;
pub mod fuzzy;
pub mod header;
