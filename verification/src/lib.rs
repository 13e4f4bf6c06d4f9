//! Family relationships between Discord users: the rows that record who is
//! married to, adopted by or blocking whom, the rules that the family
//! commands check before they change those rows, the texts that their errors
//! are answered with, and the layout of a family tree.

pub mod commands;
pub mod components;
pub mod error;
pub mod family_manager;
pub mod mention;
pub mod relationships;

pub use error::{Error, Result};
pub use family_manager::FamilyRow;
pub use relationships::Relationships;
