pub mod aggregate;
pub mod decode;
pub mod fetch;
pub mod records;
pub mod select;
