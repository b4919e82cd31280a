pub mod text;
pub mod record;
pub mod request;
pub mod query;
pub mod extract;
pub mod archive;
pub mod conf;
