use odoo_printer_manager::printer::img::{nw_print, usb_print, AddressError};
use odoo_printer_manager::printer::print::{
    find_bulk_out, network_next, printer_address, usb_next, Direction, Endpoint, NetworkAction,
    NetworkEvent, NetworkState, TransferType, TransportError, UsbAction, UsbEvent, UsbState,
    UsbTarget, CONNECT_TIMEOUT_SECS, PRINTER_PORT, WRITE_TIMEOUT_SECS,
};

const TARGET: UsbTarget = UsbTarget { vendor_id: 0x04b8, product_id: 0x0e15 };

fn endpoint(address: u8, direction: Direction, transfer_type: TransferType) -> Endpoint {
    Endpoint { address, direction, transfer_type }
}

fn run_usb(events: Vec<UsbEvent>) -> Vec<UsbAction> {
    let mut state = UsbState::Idle;
    let mut actions = Vec::new();
    for event in events {
        let (next, action) = usb_next(TARGET, state, event);
        state = next;
        actions.push(action);
    }
    actions
}

fn run_network(events: Vec<NetworkEvent>) -> Vec<NetworkAction> {
    let mut state = NetworkState::Idle;
    let mut actions = Vec::new();
    for event in events {
        let (next, action) = network_next(state, event);
        state = next;
        actions.push(action);
    }
    actions
}

#[test]
fn usb_request_with_identifiers_in_hexadecimal() {
    let job = usb_print(&[1, 2, 3], "04b8", "0E15").unwrap();
    assert_eq!(job.target, TARGET);
    assert_eq!(job.data, vec![1, 2, 3]);
}

#[test]
fn usb_request_with_bad_identifiers() {
    assert_eq!(usb_print(&[1], "04bg", "0e15").unwrap_err(), AddressError::InvalidVendorId);
    assert_eq!(usb_print(&[1], "", "zz").unwrap_err(), AddressError::InvalidVendorId);
    assert_eq!(usb_print(&[1], "04b8", "10000").unwrap_err(), AddressError::InvalidProductId);
    assert_eq!(usb_print(&[1], "04b8", "").unwrap_err(), AddressError::InvalidProductId);
    assert_eq!(AddressError::InvalidVendorId.message(), "Invalid vendor_id");
    assert_eq!(AddressError::InvalidProductId.message(), "Invalid product_id");
}

#[test]
fn network_request_goes_to_the_raw_port() {
    let job = nw_print(&[9, 8], "192.168.1.50");
    assert_eq!(job.address, "192.168.1.50:9100");
    assert_eq!(job.data, vec![9, 8]);
    assert_eq!(printer_address("printer.local"), "printer.local:9100");
    assert_eq!(PRINTER_PORT, 9100);
}

#[test]
fn first_endpoint_for_bulk_output_is_chosen() {
    let endpoints = vec![
        endpoint(0x81, Direction::In, TransferType::Bulk),
        endpoint(0x02, Direction::Out, TransferType::Interrupt),
        endpoint(0x03, Direction::Out, TransferType::Bulk),
        endpoint(0x04, Direction::Out, TransferType::Bulk),
    ];
    assert_eq!(find_bulk_out(&endpoints), Some(0x03));
    assert_eq!(find_bulk_out(&endpoints[..2].to_vec()), None);
    assert_eq!(find_bulk_out(&vec![]), None);
}

#[test]
fn usb_delivery_that_succeeds() {
    let actions = run_usb(vec![
        UsbEvent::Begin,
        UsbEvent::Done,
        UsbEvent::Done,
        UsbEvent::Failed("not supported".to_string()),
        UsbEvent::Done,
        UsbEvent::Endpoints(vec![
            endpoint(0x81, Direction::In, TransferType::Bulk),
            endpoint(0x01, Direction::Out, TransferType::Bulk),
        ]),
        UsbEvent::Done,
        UsbEvent::Failed("busy".to_string()),
        UsbEvent::Failed("gone".to_string()),
        UsbEvent::Done,
    ]);
    assert_eq!(
        actions,
        vec![
            UsbAction::Initialize,
            UsbAction::Open { target: TARGET },
            UsbAction::DetachKernelDriver,
            UsbAction::Claim { interface: 0 },
            UsbAction::ReadEndpoints,
            UsbAction::Write { endpoint: 0x01, timeout_secs: 5 },
            UsbAction::Release { interface: 0 },
            UsbAction::Reset,
            UsbAction::Return(Ok(())),
            UsbAction::Nothing,
        ]
    );
    assert_eq!(WRITE_TIMEOUT_SECS, 5);
}

#[test]
fn usb_delivery_without_the_subsystem() {
    let actions = run_usb(vec![UsbEvent::Begin, UsbEvent::Failed("no libusb".to_string())]);
    assert_eq!(
        actions[1],
        UsbAction::Return(Err(TransportError::UsbUnavailable("no libusb".to_string())))
    );
}

#[test]
fn usb_delivery_without_the_device() {
    let actions = run_usb(vec![UsbEvent::Begin, UsbEvent::Done, UsbEvent::Missing]);
    assert_eq!(actions[2], UsbAction::Return(Err(TransportError::DeviceNotFound)));
}

#[test]
fn usb_delivery_that_cannot_claim() {
    let actions = run_usb(vec![
        UsbEvent::Begin,
        UsbEvent::Done,
        UsbEvent::Done,
        UsbEvent::Done,
        UsbEvent::Failed("busy".to_string()),
    ]);
    assert_eq!(
        actions[4],
        UsbAction::Return(Err(TransportError::ClaimFailed("busy".to_string())))
    );
}

#[test]
fn usb_delivery_without_endpoint_releases_before_it_returns() {
    let mut actions = run_usb(vec![
        UsbEvent::Begin,
        UsbEvent::Done,
        UsbEvent::Done,
        UsbEvent::Done,
        UsbEvent::Done,
        UsbEvent::Endpoints(vec![endpoint(0x81, Direction::In, TransferType::Bulk)]),
        UsbEvent::Done,
        UsbEvent::Done,
    ]);
    assert_eq!(
        actions.split_off(5),
        vec![
            UsbAction::Release { interface: 0 },
            UsbAction::Reset,
            UsbAction::Return(Err(TransportError::NoWritableEndpoint)),
        ]
    );
}

#[test]
fn usb_delivery_with_unreadable_descriptors_releases_before_it_returns() {
    let mut actions = run_usb(vec![
        UsbEvent::Begin,
        UsbEvent::Done,
        UsbEvent::Done,
        UsbEvent::Done,
        UsbEvent::Done,
        UsbEvent::Failed("io".to_string()),
        UsbEvent::Done,
        UsbEvent::Done,
    ]);
    assert_eq!(
        actions.split_off(5),
        vec![
            UsbAction::Release { interface: 0 },
            UsbAction::Reset,
            UsbAction::Return(Err(TransportError::DescriptorUnreadable("io".to_string()))),
        ]
    );
}

#[test]
fn usb_delivery_whose_write_fails_releases_before_it_returns() {
    let mut actions = run_usb(vec![
        UsbEvent::Begin,
        UsbEvent::Done,
        UsbEvent::Done,
        UsbEvent::Done,
        UsbEvent::Done,
        UsbEvent::Endpoints(vec![endpoint(0x02, Direction::Out, TransferType::Bulk)]),
        UsbEvent::Failed("timeout".to_string()),
        UsbEvent::Done,
        UsbEvent::Done,
    ]);
    assert_eq!(
        actions.split_off(6),
        vec![
            UsbAction::Release { interface: 0 },
            UsbAction::Reset,
            UsbAction::Return(Err(TransportError::WriteFailed("timeout".to_string()))),
        ]
    );
}

#[test]
fn network_delivery_that_succeeds() {
    let actions = run_network(vec![
        NetworkEvent::Begin,
        NetworkEvent::Done,
        NetworkEvent::Done,
        NetworkEvent::Done,
    ]);
    assert_eq!(
        actions,
        vec![
            NetworkAction::Connect { port: 9100, timeout_secs: 10 },
            NetworkAction::Send,
            NetworkAction::Return(Ok(())),
            NetworkAction::Nothing,
        ]
    );
    assert_eq!(CONNECT_TIMEOUT_SECS, 10);
}

#[test]
fn network_delivery_that_cannot_connect() {
    let actions =
        run_network(vec![NetworkEvent::Begin, NetworkEvent::Failed("refused".to_string())]);
    assert_eq!(
        actions[1],
        NetworkAction::Return(Err(TransportError::ConnectFailed("refused".to_string())))
    );
}

#[test]
fn network_delivery_whose_write_fails() {
    let actions = run_network(vec![
        NetworkEvent::Begin,
        NetworkEvent::Done,
        NetworkEvent::Failed("reset by peer".to_string()),
    ]);
    assert_eq!(
        actions[2],
        NetworkAction::Return(Err(TransportError::WriteFailed("reset by peer".to_string())))
    );
}

#[test]
fn delivery_errors_in_words() {
    assert_eq!(TransportError::DeviceNotFound.message(), "USB printer not found");
    assert_eq!(TransportError::NoWritableEndpoint.message(), "No BULK OUT endpoint found");
    assert_eq!(TransportError::UsbUnavailable("no libusb".to_string()).message(), "no libusb");
    assert_eq!(TransportError::ClaimFailed("busy".to_string()).message(), "busy");
    assert_eq!(TransportError::DescriptorUnreadable("io".to_string()).message(), "io");
    assert_eq!(TransportError::WriteFailed("timeout".to_string()).message(), "timeout");
    assert_eq!(TransportError::ConnectFailed("refused".to_string()).message(), "refused");
}
