use odoo_printer_manager::printer::list::{
    classify, epos_printers, has_printer_interface, is_system_usb_device, list_epos_printers,
    list_known_epos_printers, mentions_keyword, printer_name_keywords, system_usb_keywords,
    DiscoveryError, Printer, UsbDeviceInfo,
};

fn device(vid: u16, pid: u16, classes: &[u8], m: Option<&str>, p: Option<&str>) -> UsbDeviceInfo {
    UsbDeviceInfo {
        vendor_id: vid,
        product_id: pid,
        interface_classes: classes.to_vec(),
        manufacturer: m.map(|s| s.to_string()),
        product: p.map(|s| s.to_string()),
    }
}

fn summary(p: &Printer) -> (String, String, String, String, String, String) {
    (
        p.vendor_id.clone(),
        p.product_id.clone(),
        p.manufacturer.clone(),
        p.vendor_name.clone(),
        p.product.clone(),
        p.matched_by.clone(),
    )
}

fn row(a: &str, b: &str, c: &str, d: &str, e: &str, f: &str) -> (String, String, String, String, String, String) {
    (a.to_string(), b.to_string(), c.to_string(), d.to_string(), e.to_string(), f.to_string())
}

#[test]
fn table_of_known_vendors() {
    let vendors = epos_printers();
    assert_eq!(vendors.len(), 7);
    assert_eq!(vendors.get(&0x4b43), Some(&"Caysn OR Shreyans"));
    assert_eq!(vendors.get(&0x0fe6), Some(&"RuGtek or Xprinter"));
    assert_eq!(vendors.get(&0x04b8), Some(&"EPSON"));
    assert_eq!(vendors.get(&0x1504), Some(&"BIXOLON"));
    assert_eq!(vendors.get(&0x0416), Some(&"Winbond"));
    assert_eq!(vendors.get(&0x1fc9), Some(&"POSBANK"));
    assert_eq!(vendors.get(&0x0519), Some(&"Star Micronics"));
    assert_eq!(vendors.get(&0x1d6b), None);
}

#[test]
fn keyword_tables() {
    let system = system_usb_keywords();
    assert_eq!(system.len(), 12);
    for word in [
        "linux", "xhci-hcd", "ehci-hcd", "root hub", "usb hub", "microsoft",
        "standard usb host controller", "usb root hub", "generic usb hub", "apple",
        "usb host controller", "usb high-speed bus",
    ] {
        assert!(system.contains(&word), "{}", word);
    }
    for (i, a) in system.iter().enumerate() {
        for b in &system[i + 1..] {
            assert_ne!(a, b);
        }
    }
    assert_eq!(
        printer_name_keywords(),
        vec!["printer", "thermal", "receipt", "pos", "rugtek", "xprinter"]
    );
}

#[test]
fn system_devices_are_told_by_their_strings() {
    assert!(is_system_usb_device("Linux Foundation", "2.0 root hub"));
    assert!(is_system_usb_device("Linux Foundation", "Unknown"));
    assert!(is_system_usb_device("Unknown", "xHCI Host Controller xhci-hcd"));
    assert!(is_system_usb_device("EPSON", "Generic USB Hub"));
    assert!(is_system_usb_device("Apple Inc.", "Keyboard"));
    assert!(is_system_usb_device("MICROSOFT", "Mouse"));
    assert!(!is_system_usb_device("EPSON", "TM-T20II"));
    assert!(!is_system_usb_device("Unknown", "Unknown"));
    assert!(!is_system_usb_device("", ""));
}

#[test]
fn keywords_are_matched_as_the_text_stands() {
    let words = printer_name_keywords();
    assert!(mentions_keyword("epson thermal", &words));
    assert!(mentions_keyword("xprinter", &words));
    assert!(mentions_keyword("disposable", &words));
    assert!(!mentions_keyword("EPSON THERMAL", &words));
    assert!(!mentions_keyword("", &words));
    assert!(!mentions_keyword("thermal", &vec![]));
}

#[test]
fn printer_interface_is_class_seven() {
    assert!(has_printer_interface(&vec![0x03, 0x07]));
    assert!(has_printer_interface(&vec![0x07]));
    assert!(!has_printer_interface(&vec![0x03, 0x08, 0xff]));
    assert!(!has_printer_interface(&vec![]));
}

#[test]
fn system_device_of_a_known_vendor_is_excluded() {
    let hub = device(0x04b8, 0x0001, &[0x07], Some("Linux Foundation"), Some("Receipt printer"));
    assert!(classify(true, &hub).is_none());
    assert!(classify(false, &hub).is_none());
    assert!(list_known_epos_printers(true, &vec![Some(hub.clone())]).is_empty());
    assert!(list_known_epos_printers(false, &vec![Some(hub)]).is_empty());
}

#[test]
fn without_filter_every_device_that_is_no_system_device_is_reported() {
    let devices = vec![
        Some(device(0x04b8, 0x0e15, &[0x07], Some("EPSON"), Some("TM-T20II"))),
        Some(device(0x1234, 0x00ab, &[0x03], Some("Acme"), Some("Keyboard"))),
        None,
        Some(device(0x1d6b, 0x0002, &[0x09], Some("Linux Foundation"), Some("2.0 root hub"))),
        Some(device(0xffff, 0x0000, &[], None, None)),
    ];
    let found = list_known_epos_printers(false, &devices);
    let rows: Vec<_> = found.iter().map(summary).collect();
    assert_eq!(
        rows,
        vec![
            row("04b8", "0e15", "EPSON", "EPSON", "TM-T20II", "no filter applied"),
            row("1234", "00ab", "Acme", "Unknown", "Keyboard", "no filter applied"),
            row("ffff", "0000", "Unknown", "Unknown", "Unknown", "no filter applied"),
        ]
    );
}

#[test]
fn with_filter_only_known_vendors_are_reported() {
    let devices = vec![
        Some(device(0x1234, 0x0001, &[0x07], Some("Acme"), Some("Thermal Receipt Printer"))),
        Some(device(0x0519, 0x0003, &[], None, None)),
        None,
        Some(device(0x0fe6, 0x811e, &[0x07], Some("Xprinter"), Some("USB Printer P"))),
        Some(device(0x04b8, 0x0202, &[0x07], Some("EPSON"), Some("USB Hub"))),
    ];
    let found = list_known_epos_printers(true, &devices);
    let rows: Vec<_> = found.iter().map(summary).collect();
    assert_eq!(
        rows,
        vec![
            row("0519", "0003", "Unknown", "Star Micronics", "Unknown", "Vendor id"),
            row("0fe6", "811e", "Xprinter", "RuGtek or Xprinter", "USB Printer P", "Vendor id"),
        ]
    );
}

#[test]
fn one_device_at_a_time() {
    let known = device(0x1504, 0x002b, &[], Some("BIXOLON"), None);
    let p = classify(true, &known).unwrap();
    assert_eq!(summary(&p), row("1504", "002b", "BIXOLON", "BIXOLON", "Unknown", "Vendor id"));
    let p = classify(false, &known).unwrap();
    assert_eq!(p.matched_by, "no filter applied");
    let unknown = device(0x1, 0x2, &[0x07], Some("Thermal"), Some("POS printer"));
    assert!(classify(true, &unknown).is_none());
    assert!(classify(false, &unknown).is_some());
}

#[test]
fn without_filter_the_reason_ignores_every_signal() {
    let devices = vec![
        Some(device(0x04b8, 0x0001, &[0x07], Some("EPSON"), Some("Thermal printer"))),
        Some(device(0x04b8, 0x0002, &[], Some("EPSON"), Some("Scanner"))),
        Some(device(0x9999, 0x0003, &[0x07], Some("Acme"), Some("Widget"))),
        Some(device(0x9999, 0x0004, &[], Some("Acme"), Some("POS printer"))),
        Some(device(0x9999, 0x0005, &[], Some("Acme"), Some("Widget"))),
    ];
    let found = list_epos_printers(false, Ok(devices)).unwrap();
    assert_eq!(found.len(), 5);
    for printer in &found {
        assert_eq!(printer.matched_by, "no filter applied");
    }
}

#[test]
fn failure_of_enumeration_is_returned() {
    let failed = list_epos_printers(true, Err(DiscoveryError::Unavailable("no bus".to_string())));
    assert!(matches!(failed, Err(DiscoveryError::Unavailable(reason)) if reason == "no bus"));
    let failed = list_epos_printers(false, Err(DiscoveryError::Enumeration("gone".to_string())));
    assert!(matches!(failed, Err(DiscoveryError::Enumeration(reason)) if reason == "gone"));
    let found = list_epos_printers(
        true,
        Ok(vec![Some(device(0x04b8, 0x0e15, &[0x07], Some("EPSON"), Some("TM-T20II")))]),
    )
    .unwrap();
    assert_eq!(found.len(), 1);
    assert_eq!(found[0].vendor_name, "EPSON");
    assert!(list_epos_printers(true, Ok(vec![])).unwrap().is_empty());
}
