pub mod arxiv;
pub mod businesstimes;
pub mod cna;
pub mod feed;
pub mod straitstimes;
