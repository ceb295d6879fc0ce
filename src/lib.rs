//! Vehicle-location pipeline: the 8-byte location codec, the schema check of
//! inbound vehicle records, the ingestion decisions and the query responses.
pub mod codec;
pub mod parser;
pub mod pipeline;
pub mod query;
pub mod settings;
