//! Recognition of receipt printers among the attached USB devices.
//!
//! Enumerating the bus returns hubs, host controllers and unrelated
//! peripherals beside the printers. This module takes what was read from
//! each device and decides which of them to report, and why.

use crate::text::{contains, format_hex4, hex4, occurs_in};
use std::collections::HashMap;
use vstd::prelude::*;
use vstd::string::StringExecFns;

verus! {

broadcast use vstd::std_specs::hash::group_hash_axioms;

/// The USB class code of printers.
pub const PRINTER_CLASS: u8 = 0x07;

/// A printer as reported to the caller.
#[derive(Debug, Clone)]
pub struct Printer {
    /// The vendor identifier as four hexadecimal digits.
    pub vendor_id: String,
    /// The product identifier as four hexadecimal digits.
    pub product_id: String,
    pub manufacturer: String,
    /// The vendor's name in the table of known vendors, or `Unknown`.
    pub vendor_name: String,
    pub product: String,
    /// The signal by which the device was taken for a printer.
    pub matched_by: String,
}

/// The mathematical form of [`Printer`].
pub struct PrinterModel {
    pub vendor_id: Seq<char>,
    pub product_id: Seq<char>,
    pub manufacturer: Seq<char>,
    pub vendor_name: Seq<char>,
    pub product: Seq<char>,
    pub matched_by: Seq<char>,
}

impl View for Printer {
    type V = PrinterModel;

    open spec fn view(&self) -> PrinterModel {
        PrinterModel {
            vendor_id: self.vendor_id@,
            product_id: self.product_id@,
            manufacturer: self.manufacturer@,
            vendor_name: self.vendor_name@,
            product: self.product@,
            matched_by: self.matched_by@,
        }
    }
}

/// What enumeration read from one device whose descriptor was readable.
#[derive(Debug, Clone)]
pub struct UsbDeviceInfo {
    pub vendor_id: u16,
    pub product_id: u16,
    /// The class code of every interface descriptor of the active
    /// configuration; empty where the configuration could not be read.
    pub interface_classes: Vec<u8>,
    /// The manufacturer string, where the device could be opened and gave one.
    pub manufacturer: Option<String>,
    /// The product string, where the device could be opened and gave one.
    pub product: Option<String>,
}

/// Why discovery could not look at the bus at all.
#[derive(Debug, Clone)]
pub enum DiscoveryError {
    /// The USB subsystem could not be initialised.
    Unavailable(String),
    /// The devices could not be enumerated.
    Enumeration(String),
}

/// The lower-case form of `text`.
pub uninterp spec fn lowercased(text: Seq<char>) -> Seq<char>;

/// Brings text to lower case.
///
/// Calls `str::to_lowercase`.
#[verifier::external_body]
fn to_lowercase(text: &str) -> (lower: String)
    ensures
        lower@ == lowercased(text@),
{
    text.to_lowercase()
}

/// The vendors whose devices are known to be receipt printers.
pub open spec fn vendor_table() -> Map<u16, &'static str> {
    map![
        0x4b43u16 => "Caysn OR Shreyans",
        0x0fe6u16 => "RuGtek or Xprinter",
        0x04b8u16 => "EPSON",
        0x1504u16 => "BIXOLON",
        0x0416u16 => "Winbond",
        0x1fc9u16 => "POSBANK",
        0x0519u16 => "Star Micronics",
    ]
}

/// The words that mark a device as part of the system: a hub or a host controller.
pub open spec fn system_keywords() -> Seq<Seq<char>> {
    seq![
        "linux"@,
        "xhci-hcd"@,
        "ehci-hcd"@,
        "root hub"@,
        "usb hub"@,
        "microsoft"@,
        "standard usb host controller"@,
        "usb root hub"@,
        "generic usb hub"@,
        "apple"@,
        "usb host controller"@,
        "usb high-speed bus"@,
    ]
}

/// The words in a device's name that speak for a printer.
pub open spec fn name_keywords() -> Seq<Seq<char>> {
    seq!["printer"@, "thermal"@, "receipt"@, "pos"@, "rugtek"@, "xprinter"@]
}

/// The texts of a list of words.
pub open spec fn texts(words: Seq<&'static str>) -> Seq<Seq<char>> {
    words.map_values(|w: &'static str| w@)
}

/// Whether one of `keywords` occurs in `text`.
pub open spec fn mentions_any(text: Seq<char>, keywords: Seq<Seq<char>>) -> bool {
    exists|i: int| 0 <= i < keywords.len() && occurs_in(#[trigger] keywords[i], text)
}

/// Whether the strings of a device name it as part of the system: a system
/// keyword occurs in the manufacturer or in the product, case ignored.
pub open spec fn is_system_device(manufacturer: Seq<char>, product: Seq<char>) -> bool {
    mentions_any(lowercased(manufacturer), system_keywords()) || mentions_any(
        lowercased(product),
        system_keywords(),
    )
}

/// Whether one of the interfaces is of the printer class.
pub open spec fn has_printer_class(classes: Seq<u8>) -> bool {
    classes.contains(PRINTER_CLASS)
}

/// A string of the device, or `Unknown` where none could be read.
pub open spec fn device_string(text: Option<String>) -> Seq<char> {
    match text {
        Some(t) => t@,
        None => "Unknown"@,
    }
}

/// Whether the name of the device, manufacturer and product together,
/// holds a printer keyword, case ignored.
pub open spec fn has_name_keyword(manufacturer: Seq<char>, product: Seq<char>) -> bool {
    mentions_any(lowercased(manufacturer + " "@ + product), name_keywords())
}

/// Whether a device that is no system device is reported. Without the
/// filter every such device is. With it the vendor must be known, and then
/// one of the three signals must hold as well.
pub open spec fn is_reported(
    known: bool,
    known_vendor: bool,
    printer_interface: bool,
    name_keyword: bool,
) -> bool {
    !(known && !known_vendor) && !(known && !(known_vendor || printer_interface || name_keyword))
}

/// The reason given for a reported device: none where no filter was
/// applied, else the strongest signal that holds.
pub open spec fn match_reason(known: bool, known_vendor: bool, printer_interface: bool) -> Seq<
    char,
> {
    if !known {
        "no filter applied"@
    } else if known_vendor {
        "Vendor id"@
    } else if printer_interface {
        "Interface class"@
    } else {
        "Name keyword"@
    }
}

/// The name of a vendor: from the table, or `Unknown`.
pub open spec fn vendor_name(vendor_id: u16) -> Seq<char> {
    if vendor_table().contains_key(vendor_id) {
        vendor_table()[vendor_id]@
    } else {
        "Unknown"@
    }
}

/// What discovery makes of one device: the printer it reports, if any.
pub open spec fn classified(known: bool, device: UsbDeviceInfo) -> Option<PrinterModel> {
    let manufacturer = device_string(device.manufacturer);
    let product = device_string(device.product);
    let known_vendor = vendor_table().contains_key(device.vendor_id);
    let printer_interface = has_printer_class(device.interface_classes@);
    if is_system_device(manufacturer, product) {
        None
    } else if !is_reported(
        known,
        known_vendor,
        printer_interface,
        has_name_keyword(manufacturer, product),
    ) {
        None
    } else {
        Some(
            PrinterModel {
                vendor_id: hex4(device.vendor_id),
                product_id: hex4(device.product_id),
                manufacturer,
                vendor_name: vendor_name(device.vendor_id),
                product,
                matched_by: match_reason(known, known_vendor, printer_interface),
            },
        )
    }
}

/// The printers that discovery reports for the enumerated devices, in the
/// order of enumeration. `None` stands for a device whose descriptor could
/// not be read: it is passed over.
pub open spec fn discovered(known: bool, devices: Seq<Option<UsbDeviceInfo>>) -> Seq<PrinterModel>
    decreases devices.len(),
{
    if devices.len() == 0 {
        Seq::empty()
    } else {
        let front = discovered(known, devices.drop_last());
        match devices.last() {
            Some(device) => match classified(known, device) {
                Some(printer) => front.push(printer),
                None => front,
            },
            None => front,
        }
    }
}

/// Whether an enumerated device is readable and classified as `printer`.
pub open spec fn is_classified_as(
    known: bool,
    device: Option<UsbDeviceInfo>,
    printer: PrinterModel,
) -> bool {
    match device {
        Some(d) => classified(known, d) == Some(printer),
        None => false,
    }
}

/// The views of a list of printers.
pub open spec fn printer_models(printers: Seq<Printer>) -> Seq<PrinterModel> {
    printers.map_values(|p: Printer| p@)
}

/// The view of an optional printer.
pub open spec fn optional_printer(printer: Option<Printer>) -> Option<PrinterModel> {
    match printer {
        Some(p) => Some(p@),
        None => None,
    }
}

/// A device whose manufacturer or product holds a system keyword is not
/// reported, whatever its vendor, its interfaces and the filter.
pub proof fn lemma_system_device_is_excluded(known: bool, device: UsbDeviceInfo)
    requires
        is_system_device(device_string(device.manufacturer), device_string(device.product)),
    ensures
        classified(known, device) is None,
{
}

/// Without the filter, a device that is no system device is reported, with
/// the reason that no filter was applied, whatever its vendor and its
/// interfaces.
pub proof fn lemma_unfiltered_device_is_reported(device: UsbDeviceInfo)
    requires
        !is_system_device(device_string(device.manufacturer), device_string(device.product)),
    ensures
        classified(false, device) matches Some(printer) && printer.matched_by
            == "no filter applied"@,
{
}

/// With the filter, a device is reported exactly if it is no system device
/// and its vendor is known, and then for its vendor: the other two signals
/// neither admit a device nor are ever given as the reason.
pub proof fn lemma_filtered_device_is_of_known_vendor(device: UsbDeviceInfo)
    ensures
        classified(true, device) is Some <==> !is_system_device(
            device_string(device.manufacturer),
            device_string(device.product),
        ) && vendor_table().contains_key(device.vendor_id),
        classified(true, device) matches Some(printer) ==> printer.matched_by == "Vendor id"@,
{
}

/// Discovery reports a printer exactly if one of the enumerated devices is
/// classified as that printer.
pub proof fn lemma_discovered_members(
    known: bool,
    devices: Seq<Option<UsbDeviceInfo>>,
    printer: PrinterModel,
)
    ensures
        discovered(known, devices).contains(printer) <==> exists|i: int|
            0 <= i < devices.len() && is_classified_as(known, #[trigger] devices[i], printer),
    decreases devices.len(),
{
    if devices.len() == 0 {
        assert(!discovered(known, devices).contains(printer));
    } else {
        let front_devices = devices.drop_last();
        let front = discovered(known, front_devices);
        lemma_discovered_members(known, front_devices, printer);
        let last = devices.len() - 1;
        if discovered(known, devices).contains(printer) {
            if front.contains(printer) {
                let i = choose|i: int|
                    0 <= i < front_devices.len() && is_classified_as(
                        known,
                        #[trigger] front_devices[i],
                        printer,
                    );
                assert(devices[i] == front_devices[i]);
            } else {
                let k = choose|k: int|
                    0 <= k < discovered(known, devices).len() && discovered(known, devices)[k]
                        == printer;
                if k < front.len() {
                    assert(front[k] == printer);
                    assert(front.contains(printer));
                }
                assert(is_classified_as(known, devices[last], printer));
            }
        }
        if exists|i: int|
            0 <= i < devices.len() && is_classified_as(known, #[trigger] devices[i], printer) {
            let i = choose|i: int|
                0 <= i < devices.len() && is_classified_as(known, #[trigger] devices[i], printer);
            if i < last {
                assert(front_devices[i] == devices[i]);
                assert(front.contains(printer));
                let k = choose|k: int| 0 <= k < front.len() && front[k] == printer;
                assert(discovered(known, devices)[k] == printer);
            } else {
                assert(discovered(known, devices) == front.push(printer));
                assert(discovered(known, devices)[front.len() as int] == printer);
            }
        }
    }
}

/// Without the filter, discovery reports every enumerated device that is
/// no system device, and gives for every printer it reports the reason
/// that no filter was applied.
pub proof fn lemma_unfiltered_discovery(devices: Seq<Option<UsbDeviceInfo>>)
    ensures
        forall|i: int|
            0 <= i < devices.len() && (#[trigger] devices[i]) is Some && !is_system_device(
                device_string(devices[i]->0.manufacturer),
                device_string(devices[i]->0.product),
            ) ==> classified(false, devices[i]->0) is Some && discovered(false, devices).contains(
                classified(false, devices[i]->0)->0,
            ),
        forall|k: int|
            0 <= k < discovered(false, devices).len() ==> (#[trigger] discovered(
                false,
                devices,
            )[k]).matched_by == "no filter applied"@,
{
    assert forall|i: int|
        0 <= i < devices.len() && (#[trigger] devices[i]) is Some && !is_system_device(
            device_string(devices[i]->0.manufacturer),
            device_string(devices[i]->0.product),
        ) implies classified(false, devices[i]->0) is Some && discovered(false, devices).contains(
        classified(false, devices[i]->0)->0,
    ) by {
        let device = devices[i]->0;
        lemma_unfiltered_device_is_reported(device);
        let printer = classified(false, device)->0;
        assert(is_classified_as(false, devices[i], printer));
        lemma_discovered_members(false, devices, printer);
    }
    assert forall|k: int| 0 <= k < discovered(false, devices).len() implies (#[trigger] discovered(
        false,
        devices,
    )[k]).matched_by == "no filter applied"@ by {
        let printer = discovered(false, devices)[k];
        assert(discovered(false, devices).contains(printer));
        lemma_discovered_members(false, devices, printer);
    }
}

/// Whether an enumerated device is readable and no system device.
pub open spec fn is_ordinary(device: Option<UsbDeviceInfo>) -> bool {
    match device {
        Some(d) => !is_system_device(device_string(d.manufacturer), device_string(d.product)),
        None => false,
    }
}

/// Discovery never reports a system device: every printer it reports was
/// made of an enumerated device that is none.
pub proof fn lemma_discovery_excludes_system_devices(
    known: bool,
    devices: Seq<Option<UsbDeviceInfo>>,
    printer: PrinterModel,
)
    requires
        discovered(known, devices).contains(printer),
    ensures
        exists|i: int|
            0 <= i < devices.len() && is_classified_as(known, #[trigger] devices[i], printer)
                && is_ordinary(devices[i]),
{
    lemma_discovered_members(known, devices, printer);
    let i = choose|i: int|
        0 <= i < devices.len() && is_classified_as(known, #[trigger] devices[i], printer);
    assert(is_ordinary(devices[i]));
}

/// The table of known vendors.
pub fn epos_printers() -> (vendors: HashMap<u16, &'static str>)
    ensures
        vendors@ == vendor_table(),
{
    let mut vendors: HashMap<u16, &'static str> = HashMap::new();
    vendors.insert(0x4b43, "Caysn OR Shreyans");
    vendors.insert(0x0fe6, "RuGtek or Xprinter");
    vendors.insert(0x04b8, "EPSON");
    vendors.insert(0x1504, "BIXOLON");
    vendors.insert(0x0416, "Winbond");
    vendors.insert(0x1fc9, "POSBANK");
    vendors.insert(0x0519, "Star Micronics");
    assert(vendors@ =~= vendor_table());
    vendors
}

/// The keywords of system devices.
pub fn system_usb_keywords() -> (keywords: Vec<&'static str>)
    ensures
        texts(keywords@) == system_keywords(),
{
    let mut keywords: Vec<&'static str> = Vec::new();
    keywords.push("linux");
    keywords.push("xhci-hcd");
    keywords.push("ehci-hcd");
    keywords.push("root hub");
    keywords.push("usb hub");
    keywords.push("microsoft");
    keywords.push("standard usb host controller");
    keywords.push("usb root hub");
    keywords.push("generic usb hub");
    keywords.push("apple");
    keywords.push("usb host controller");
    keywords.push("usb high-speed bus");
    assert(texts(keywords@) =~= system_keywords());
    keywords
}

/// The keywords of printer names.
pub fn printer_name_keywords() -> (keywords: Vec<&'static str>)
    ensures
        texts(keywords@) == name_keywords(),
{
    let mut keywords: Vec<&'static str> = Vec::new();
    keywords.push("printer");
    keywords.push("thermal");
    keywords.push("receipt");
    keywords.push("pos");
    keywords.push("rugtek");
    keywords.push("xprinter");
    assert(texts(keywords@) =~= name_keywords());
    keywords
}

/// Whether one of `keywords` occurs in `text`, as it stands.
pub fn mentions_keyword(text: &str, keywords: &Vec<&'static str>) -> (found: bool)
    ensures
        found == mentions_any(text@, texts(keywords@)),
{
    let mut i: usize = 0;
    while i < keywords.len()
        invariant
            i <= keywords.len(),
            forall|k: int| 0 <= k < i ==> !occurs_in(#[trigger] texts(keywords@)[k], text@),
        decreases keywords.len() - i,
    {
        if contains(text, keywords[i]) {
            assert(occurs_in(texts(keywords@)[i as int], text@));
            return true;
        }
        i += 1;
    }
    false
}

/// Whether the strings of a device name it as part of the system.
pub fn is_system_usb_device(manufacturer: &str, product: &str) -> (system: bool)
    ensures
        system == is_system_device(manufacturer@, product@),
{
    let m = to_lowercase(manufacturer);
    let p = to_lowercase(product);
    let keywords = system_usb_keywords();
    mentions_keyword(m.as_str(), &keywords) || mentions_keyword(p.as_str(), &keywords)
}

/// Whether one of the interfaces of a device is of the printer class.
pub fn has_printer_interface(classes: &Vec<u8>) -> (found: bool)
    ensures
        found == has_printer_class(classes@),
{
    let mut i: usize = 0;
    while i < classes.len()
        invariant
            i <= classes.len(),
            forall|k: int| 0 <= k < i ==> classes@[k] != PRINTER_CLASS,
        decreases classes.len() - i,
    {
        if classes[i] == PRINTER_CLASS {
            return true;
        }
        i += 1;
    }
    false
}

/// A string of the device, or `Unknown`.
fn string_or_unknown(text: &Option<String>) -> (out: String)
    ensures
        out@ == device_string(*text),
{
    match text {
        Some(t) => t.clone(),
        None => String::from_str("Unknown"),
    }
}

/// Decides on one device, with the vendor table at hand.
fn classify_with(vendors: &HashMap<u16, &'static str>, known: bool, device: &UsbDeviceInfo) -> (printer:
    Option<Printer>)
    requires
        vendors@ == vendor_table(),
    ensures
        optional_printer(printer) == classified(known, *device),
{
    let is_known_vendor = vendors.contains_key(&device.vendor_id);
    let is_printer_interface = has_printer_interface(&device.interface_classes);
    let manufacturer = string_or_unknown(&device.manufacturer);
    let product = string_or_unknown(&device.product);
    if is_system_usb_device(manufacturer.as_str(), product.as_str()) {
        return None;
    }
    let mut name = manufacturer.clone();
    name.append(" ");
    name.append(product.as_str());
    let name_combined = to_lowercase(name.as_str());
    let has_keyword_match = mentions_keyword(name_combined.as_str(), &printer_name_keywords());
    if known && !is_known_vendor {
        return None;
    } else if known && !(is_known_vendor || is_printer_interface || has_keyword_match) {
        return None;
    }
    let matched_by = if !known {
        "no filter applied"
    } else if is_known_vendor {
        "Vendor id"
    } else if is_printer_interface {
        "Interface class"
    } else {
        "Name keyword"
    };
    let vendor_name = match vendors.get(&device.vendor_id) {
        Some(name) => String::from_str(name),
        None => String::from_str("Unknown"),
    };
    Some(
        Printer {
            vendor_id: format_hex4(device.vendor_id),
            product_id: format_hex4(device.product_id),
            manufacturer,
            vendor_name,
            product,
            matched_by: String::from_str(matched_by),
        },
    )
}

/// Decides whether a device is reported as a printer, and with which reason.
pub fn classify(known: bool, device: &UsbDeviceInfo) -> (printer: Option<Printer>)
    ensures
        optional_printer(printer) == classified(known, *device),
{
    let vendors = epos_printers();
    classify_with(&vendors, known, device)
}

/// Picks the printers among the enumerated devices. With `known` set, only
/// devices of known vendors are reported.
pub fn list_known_epos_printers(known: bool, devices: &Vec<Option<UsbDeviceInfo>>) -> (printers:
    Vec<Printer>)
    ensures
        printer_models(printers@) == discovered(known, devices@),
{
    let vendors = epos_printers();
    let mut printers: Vec<Printer> = Vec::new();
    let mut i: usize = 0;
    assert(devices@.take(0) == Seq::<Option<UsbDeviceInfo>>::empty());
    assert(printer_models(printers@) == Seq::<PrinterModel>::empty());
    while i < devices.len()
        invariant
            i <= devices.len(),
            vendors@ == vendor_table(),
            printer_models(printers@) == discovered(known, devices@.take(i as int)),
        decreases devices.len() - i,
    {
        proof {
            assert(devices@.take(i + 1).drop_last() == devices@.take(i as int));
            assert(devices@.take(i + 1).last() == devices@[i as int]);
        }
        match &devices[i] {
            Some(device) => match classify_with(&vendors, known, device) {
                Some(printer) => {
                    let ghost before = printer_models(printers@);
                    printers.push(printer);
                    assert(printer_models(printers@) == before.push(printer@));
                },
                None => {},
            },
            None => {},
        }
        i += 1;
    }
    assert(devices@.take(devices.len() as int) == devices@);
    printers
}

/// Reports the printers found by an enumeration of the bus, or the
/// failure of that enumeration.
pub fn list_epos_printers(
    known: bool,
    enumeration: Result<Vec<Option<UsbDeviceInfo>>, DiscoveryError>,
) -> (result: Result<Vec<Printer>, DiscoveryError>)
    ensures
        match enumeration {
            Ok(devices) => result is Ok && printer_models(result->Ok_0@) == discovered(
                known,
                devices@,
            ),
            Err(e) => result == Err::<Vec<Printer>, DiscoveryError>(e),
        },
{
    match enumeration {
        Ok(devices) => Ok(list_known_epos_printers(known, &devices)),
        Err(e) => Err(e),
    }
}

} // verus!
