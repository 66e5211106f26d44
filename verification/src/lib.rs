//! Products of the ABC accounting software, rebuilt from its database export.
//!
//! The export splits each product over two tab-delimited files without header,
//! `item.data` and `item_posted.data`. The rows of each file are read
//! ([`rows::read_rows`]) and turned into partial records by sku
//! ([`IntermediateBaseProduct::parse_item_data`],
//! [`IntermediatePostedProduct::parse_item_posted_data`]); the records of one sku
//! are then joined into a product ([`AbcProduct::from_db_export`]).
//!
//! Two things are asked of the caller, because they are worked out in binary
//! floating point or by a checksum routine of their own: what the weight and stock
//! columns read as, and which barcode each barcode candidate gives. The questions
//! are those of [`IntermediateBaseProduct::questions`] and
//! [`IntermediatePostedProduct::questions`].
pub mod barcode;
pub mod base;
pub mod date;
pub mod error;
pub mod export;
pub mod posted;
pub mod price;
pub mod product;
pub mod quantity;
pub mod rows;
pub mod sku_map;
pub mod text;

pub use barcode::Barcode;
pub use base::{BaseAnswer, BaseQuestion, IntermediateBaseProduct};
pub use error::AbcParseError;
pub use export::AbcProductsBySku;
pub use posted::IntermediatePostedProduct;
pub use price::price_from_str;
pub use product::{AbcProduct, AbcProductBuilder};
pub use quantity::Quantity;
pub use rows::{read_rows, Rows};
pub use sku_map::BySku;
