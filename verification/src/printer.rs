//! The printing pipeline: markup reading and translation, printer discovery,
//! and delivery.

pub mod img;
pub mod list;
pub mod markup;
pub mod print;
pub mod xml_to_escpos;
