//! Receipt printing for thermal point-of-sale printers: translation of a print
//! job written in the printers' XML dialect into the binary command stream,
//! recognition of attached USB printers, and the decisions of the two delivery
//! transports.

pub mod escpos;
pub mod printer;
pub mod text;
