//! A small relational storage engine: a value codec, slotted pages, a
//! clock-sweep buffer pool, table heaps, an on-disk catalog and a query
//! pipeline that lowers a functional AST to streaming row operators.
pub mod value;
pub mod page;
pub mod pool;
pub mod heap;
pub mod table;
pub mod ast;
pub mod query;
pub mod exec;
pub mod compiler;
pub mod transformer;
pub mod files;
