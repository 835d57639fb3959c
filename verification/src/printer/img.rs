//! Print requests as they arrive: a command buffer and the address of a
//! printer in text form. Here the address is read and the delivery is made
//! ready; carrying it out is the part of [`crate::printer::print`].

use crate::printer::print::{address_of, printer_address, UsbTarget};
use crate::text::{parse_hex_u16, unsigned_value};
use vstd::prelude::*;
use vstd::slice::slice_to_vec;
use vstd::string::StringExecFns;

verus! {

/// Why the address of a USB printer could not be read.
#[derive(Debug, Clone, Copy, PartialEq, Eq, Structural)]
pub enum AddressError {
    /// The vendor identifier is no 16-bit hexadecimal number.
    InvalidVendorId,
    /// The product identifier is no 16-bit hexadecimal number.
    InvalidProductId,
}

/// A buffer on its way to a USB printer.
#[derive(Debug, Clone)]
pub struct UsbJob {
    pub target: UsbTarget,
    pub data: Vec<u8>,
}

/// A buffer on its way to a network printer.
#[derive(Debug, Clone)]
pub struct NetworkJob {
    /// Host and port of the printer.
    pub address: String,
    pub data: Vec<u8>,
}

/// The identifier that `text` writes in hexadecimal, if it writes one of 16 bits.
pub open spec fn hex_id(text: Seq<char>) -> Option<u16> {
    match unsigned_value(text, 16, 0xffff) {
        Some(v) => Some(v as u16),
        None => None,
    }
}

/// The device that a pair of identifiers in text form names, or which of
/// the two is at fault; the vendor is looked at first.
pub open spec fn usb_target(vid: Seq<char>, pid: Seq<char>) -> Result<UsbTarget, AddressError> {
    match hex_id(vid) {
        None => Err(AddressError::InvalidVendorId),
        Some(vendor_id) => match hex_id(pid) {
            None => Err(AddressError::InvalidProductId),
            Some(product_id) => Ok(UsbTarget { vendor_id, product_id }),
        },
    }
}

impl AddressError {
    /// The error in words.
    pub fn message(&self) -> (text: String)
        ensures
            text@ == match *self {
                AddressError::InvalidVendorId => "Invalid vendor_id"@,
                AddressError::InvalidProductId => "Invalid product_id"@,
            },
    {
        match self {
            AddressError::InvalidVendorId => String::from_str("Invalid vendor_id"),
            AddressError::InvalidProductId => String::from_str("Invalid product_id"),
        }
    }
}

/// Makes a buffer ready for the USB printer with the given identifiers,
/// each written in hexadecimal.
pub fn usb_print(data: &[u8], vid_str: &str, pid_str: &str) -> (job: Result<UsbJob, AddressError>)
    ensures
        match usb_target(vid_str@, pid_str@) {
            Ok(target) => job is Ok && job->Ok_0.target == target && job->Ok_0.data@ == data@,
            Err(e) => job is Err && job->Err_0 == e,
        },
{
    let vendor_id = match parse_hex_u16(vid_str) {
        Some(v) => v,
        None => {
            return Err(AddressError::InvalidVendorId);
        },
    };
    let product_id = match parse_hex_u16(pid_str) {
        Some(v) => v,
        None => {
            return Err(AddressError::InvalidProductId);
        },
    };
    Ok(UsbJob { target: UsbTarget { vendor_id, product_id }, data: slice_to_vec(data) })
}

/// Makes a buffer ready for the network printer at `ip`.
pub fn nw_print(data: &[u8], ip: &str) -> (job: NetworkJob)
    ensures
        job.address@ == address_of(ip@),
        job.data@ == data@,
{
    NetworkJob { address: printer_address(ip), data: slice_to_vec(data) }
}

} // verus!
