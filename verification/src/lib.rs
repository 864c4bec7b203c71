pub mod book;
pub mod collection;
pub mod error;
pub mod http;
pub mod library;
pub mod numeric;
pub mod parser;
