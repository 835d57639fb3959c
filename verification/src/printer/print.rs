//! Delivery of a command buffer to a printer, over USB or over the network.
//!
//! Talking to the device is the caller's part. What is decided here is the
//! order of the steps, what follows from the outcome of each, and with
//! which error a delivery ends. A delivery is a session: the caller starts
//! in the initial state, performs the action it is given, reports what
//! happened, and goes on until the action is to return.
//!
//! Two deliveries to one printer are not serialised: each session stands
//! for itself, and their writes may interleave at the device.

use vstd::prelude::*;
use vstd::string::StringExecFns;

verus! {

/// The TCP port on which network printers take raw data.
pub const PRINTER_PORT: u16 = 9100;

/// How long a connection attempt may take, in seconds.
pub const CONNECT_TIMEOUT_SECS: u64 = 10;

/// How long the bulk write may take, in seconds.
pub const WRITE_TIMEOUT_SECS: u64 = 5;

/// The interface that receipt printers take data on.
pub const PRINTER_INTERFACE: u8 = 0;

/// Why a delivery failed.
#[derive(Debug, Clone, PartialEq, Eq)]
pub enum TransportError {
    /// The USB subsystem could not be initialised.
    UsbUnavailable(String),
    /// No attached device has the vendor and product identifiers.
    DeviceNotFound,
    /// The interface could not be claimed.
    ClaimFailed(String),
    /// The descriptors of the device could not be read.
    DescriptorUnreadable(String),
    /// The device has no endpoint for bulk output.
    NoWritableEndpoint,
    /// The buffer was not written in full.
    WriteFailed(String),
    /// No connection to the printer could be made.
    ConnectFailed(String),
}

/// A delivery error in words: what is missing, or the reason that the
/// device layer or the system gave.
pub open spec fn transport_message(error: TransportError) -> Seq<char> {
    match error {
        TransportError::UsbUnavailable(reason) => reason@,
        TransportError::DeviceNotFound => "USB printer not found"@,
        TransportError::ClaimFailed(reason) => reason@,
        TransportError::DescriptorUnreadable(reason) => reason@,
        TransportError::NoWritableEndpoint => "No BULK OUT endpoint found"@,
        TransportError::WriteFailed(reason) => reason@,
        TransportError::ConnectFailed(reason) => reason@,
    }
}

impl TransportError {
    /// The error in words.
    pub fn message(&self) -> (text: String)
        ensures
            text@ == transport_message(*self),
    {
        match self {
            TransportError::UsbUnavailable(reason) => reason.clone(),
            TransportError::DeviceNotFound => String::from_str("USB printer not found"),
            TransportError::ClaimFailed(reason) => reason.clone(),
            TransportError::DescriptorUnreadable(reason) => reason.clone(),
            TransportError::NoWritableEndpoint => String::from_str("No BULK OUT endpoint found"),
            TransportError::WriteFailed(reason) => reason.clone(),
            TransportError::ConnectFailed(reason) => reason.clone(),
        }
    }
}

/// The direction of an endpoint, seen from the host.
#[derive(Debug, Clone, Copy, PartialEq, Eq, Structural)]
pub enum Direction {
    In,
    Out,
}

/// The transfer type of an endpoint.
#[derive(Debug, Clone, Copy, PartialEq, Eq, Structural)]
pub enum TransferType {
    Control,
    Isochronous,
    Bulk,
    Interrupt,
}

/// An endpoint as its descriptor shows it.
#[derive(Debug, Clone, Copy, PartialEq, Eq, Structural)]
pub struct Endpoint {
    pub address: u8,
    pub direction: Direction,
    pub transfer_type: TransferType,
}

/// The device that a USB delivery is for.
#[derive(Debug, Clone, Copy, PartialEq, Eq, Structural)]
pub struct UsbTarget {
    pub vendor_id: u16,
    pub product_id: u16,
}

/// Where a USB delivery stands.
#[derive(Debug, PartialEq, Eq)]
pub enum UsbState {
    /// Nothing has been done.
    Idle,
    /// The USB subsystem is being initialised.
    Starting,
    /// The device is being opened.
    Opening,
    /// The kernel driver is being detached.
    Detaching,
    /// The interface is being claimed.
    Claiming,
    /// The interface is claimed; the endpoints are being read.
    Reading,
    /// The interface is claimed; the buffer is being written.
    Writing,
    /// The interface is being released; the outcome is settled.
    Releasing(Result<(), TransportError>),
    /// The device is being reset; the outcome is settled.
    Resetting(Result<(), TransportError>),
    /// The delivery is over.
    Finished,
}

/// What the caller is to do next in a USB delivery.
#[derive(Debug, PartialEq, Eq)]
pub enum UsbAction {
    /// Initialise the USB subsystem.
    Initialize,
    /// Open the first device with these identifiers.
    Open { target: UsbTarget },
    /// Ask for the kernel driver to be detached; failure does not matter.
    DetachKernelDriver,
    /// Claim the interface.
    Claim { interface: u8 },
    /// Read the endpoints of every configuration, interface and setting, in that order.
    ReadEndpoints,
    /// Write the whole buffer to the endpoint.
    Write { endpoint: u8, timeout_secs: u64 },
    /// Release the interface; failure does not matter.
    Release { interface: u8 },
    /// Reset the device; failure does not matter.
    Reset,
    /// Return the outcome to whoever asked for the delivery.
    Return(Result<(), TransportError>),
    /// The delivery is over: nothing is left to do.
    Nothing,
}

/// What happened when the caller performed an action.
#[derive(Debug, Clone, PartialEq, Eq)]
pub enum UsbEvent {
    /// The delivery is asked for.
    Begin,
    /// The action succeeded.
    Done,
    /// There is no such device.
    Missing,
    /// The action failed, with the reason the device layer gave.
    Failed(String),
    /// The endpoints were read.
    Endpoints(Vec<Endpoint>),
}

/// Whether an endpoint takes bulk output.
pub open spec fn is_bulk_out(endpoint: Endpoint) -> bool {
    endpoint.direction == Direction::Out && endpoint.transfer_type == TransferType::Bulk
}

/// The address of the first endpoint that takes bulk output.
pub open spec fn first_bulk_out(endpoints: Seq<Endpoint>) -> Option<u8>
    decreases endpoints.len(),
{
    if endpoints.len() == 0 {
        None
    } else if is_bulk_out(endpoints[0]) {
        Some(endpoints[0].address)
    } else {
        first_bulk_out(endpoints.skip(1))
    }
}

/// Whether the delivery holds the interface and has yet to release it.
pub open spec fn holds_interface(state: UsbState) -> bool {
    state is Reading || state is Writing
}

/// The next state and the action to perform, given what happened.
///
/// A failure before the interface is claimed ends the delivery at once.
/// After that every path leads through release and reset, whose own
/// failures are ignored, and only then to the outcome.
pub open spec fn usb_transition(target: UsbTarget, state: UsbState, event: UsbEvent) -> (
    UsbState,
    UsbAction,
) {
    match state {
        UsbState::Idle => (UsbState::Starting, UsbAction::Initialize),
        UsbState::Starting => match event {
            UsbEvent::Failed(reason) => finished(Err(TransportError::UsbUnavailable(reason))),
            _ => (UsbState::Opening, UsbAction::Open { target }),
        },
        UsbState::Opening => match event {
            UsbEvent::Done => (UsbState::Detaching, UsbAction::DetachKernelDriver),
            _ => finished(Err(TransportError::DeviceNotFound)),
        },
        UsbState::Detaching => (
            UsbState::Claiming,
            UsbAction::Claim { interface: PRINTER_INTERFACE },
        ),
        UsbState::Claiming => match event {
            UsbEvent::Failed(reason) => finished(Err(TransportError::ClaimFailed(reason))),
            _ => (UsbState::Reading, UsbAction::ReadEndpoints),
        },
        UsbState::Reading => match event {
            UsbEvent::Endpoints(list) => match first_bulk_out(list@) {
                Some(endpoint) => (
                    UsbState::Writing,
                    UsbAction::Write { endpoint, timeout_secs: WRITE_TIMEOUT_SECS },
                ),
                None => releasing(Err(TransportError::NoWritableEndpoint)),
            },
            UsbEvent::Failed(reason) => releasing(
                Err(TransportError::DescriptorUnreadable(reason)),
            ),
            _ => releasing(Err(TransportError::NoWritableEndpoint)),
        },
        UsbState::Writing => match event {
            UsbEvent::Failed(reason) => releasing(Err(TransportError::WriteFailed(reason))),
            _ => releasing(Ok(())),
        },
        UsbState::Releasing(outcome) => (UsbState::Resetting(outcome), UsbAction::Reset),
        UsbState::Resetting(outcome) => finished(outcome),
        UsbState::Finished => (UsbState::Finished, UsbAction::Nothing),
    }
}

/// The end of a delivery with the given outcome.
pub open spec fn finished(outcome: Result<(), TransportError>) -> (UsbState, UsbAction) {
    (UsbState::Finished, UsbAction::Return(outcome))
}

/// The way out of a delivery that holds the interface.
pub open spec fn releasing(outcome: Result<(), TransportError>) -> (UsbState, UsbAction) {
    (UsbState::Releasing(outcome), UsbAction::Release { interface: PRINTER_INTERFACE })
}

/// How many steps a USB delivery is from its end, at most.
pub open spec fn steps_left(state: UsbState) -> nat {
    match state {
        UsbState::Idle => 9,
        UsbState::Starting => 8,
        UsbState::Opening => 7,
        UsbState::Detaching => 6,
        UsbState::Claiming => 5,
        UsbState::Reading => 4,
        UsbState::Writing => 3,
        UsbState::Releasing(_) => 2,
        UsbState::Resetting(_) => 1,
        UsbState::Finished => 0,
    }
}

/// The state of a USB delivery after the given events.
pub open spec fn usb_session(target: UsbTarget, state: UsbState, events: Seq<UsbEvent>) -> UsbState
    decreases events.len(),
{
    if events.len() == 0 {
        state
    } else {
        usb_session(target, usb_transition(target, state, events[0]).0, events.skip(1))
    }
}

/// A delivery that holds the interface goes on to write, or releases the
/// interface: when no endpoint takes the data, when the descriptors cannot
/// be read, and after the write, whether it failed or not.
pub proof fn lemma_interface_is_released(target: UsbTarget, state: UsbState, event: UsbEvent)
    requires
        holds_interface(state),
    ensures
        usb_transition(target, state, event).0 is Writing || usb_transition(target, state, event).0
            is Releasing,
        usb_transition(target, state, event).0 is Writing ==> state is Reading
            && usb_transition(target, state, event).1 is Write,
        usb_transition(target, state, event).0 is Releasing ==> usb_transition(
            target,
            state,
            event,
        ).1 == (UsbAction::Release { interface: PRINTER_INTERFACE }),
{
}

/// Once the interface is being released, the device is reset, and only
/// then is the outcome returned, as it was settled before. What release
/// and reset report makes no difference.
pub proof fn lemma_reset_then_return(
    target: UsbTarget,
    outcome: Result<(), TransportError>,
    released: UsbEvent,
    reset: UsbEvent,
)
    ensures
        usb_transition(target, UsbState::Releasing(outcome), released) == (
            UsbState::Resetting(outcome),
            UsbAction::Reset,
        ),
        usb_transition(target, UsbState::Resetting(outcome), reset) == (
            UsbState::Finished,
            UsbAction::Return(outcome),
        ),
{
}

/// No outcome is returned while the interface is held or being released.
pub proof fn lemma_no_return_with_interface(target: UsbTarget, state: UsbState, event: UsbEvent)
    requires
        usb_transition(target, state, event).1 is Return,
    ensures
        !holds_interface(state),
        state !is Releasing,
{
}

/// No step is tried twice: every event brings a delivery nearer to its
/// end, and a delivery that is over stays so.
pub proof fn lemma_usb_step_advances(target: UsbTarget, state: UsbState, event: UsbEvent)
    ensures
        state !is Finished ==> steps_left(usb_transition(target, state, event).0) < steps_left(
            state,
        ),
        state is Finished ==> usb_transition(target, state, event) == (
            UsbState::Finished,
            UsbAction::Nothing,
        ),
{
}

/// A USB delivery is over after nine events at most.
pub proof fn lemma_usb_session_ends(target: UsbTarget, state: UsbState, events: Seq<UsbEvent>)
    requires
        events.len() >= steps_left(state),
    ensures
        usb_session(target, state, events) is Finished,
    decreases events.len(),
{
    if events.len() > 0 {
        lemma_usb_step_advances(target, state, events[0]);
        lemma_usb_session_ends(target, usb_transition(target, state, events[0]).0, events.skip(1));
    }
}

/// The outcome of a USB delivery names the step that failed: the
/// subsystem, the device, the claim, the descriptors, the endpoint or the
/// write.
pub proof fn lemma_usb_outcomes(target: UsbTarget, event: UsbEvent)
    ensures
        event matches UsbEvent::Failed(reason) ==> usb_transition(
            target,
            UsbState::Starting,
            event,
        ).1 == UsbAction::Return(Err(TransportError::UsbUnavailable(reason))),
        event !is Done ==> usb_transition(target, UsbState::Opening, event).1 == UsbAction::Return(
            Err(TransportError::DeviceNotFound),
        ),
        event matches UsbEvent::Failed(reason) ==> usb_transition(
            target,
            UsbState::Claiming,
            event,
        ).1 == UsbAction::Return(Err(TransportError::ClaimFailed(reason))),
        event matches UsbEvent::Endpoints(list) ==> (first_bulk_out(list@) is None ==> usb_transition(
            target,
            UsbState::Reading,
            event,
        ).0 == UsbState::Releasing(Err(TransportError::NoWritableEndpoint))),
        event matches UsbEvent::Failed(reason) ==> usb_transition(
            target,
            UsbState::Writing,
            event,
        ).0 == UsbState::Releasing(Err(TransportError::WriteFailed(reason))),
        event !is Failed ==> usb_transition(target, UsbState::Writing, event).0
            == UsbState::Releasing(Ok(())),
{
}

/// The endpoint chosen takes bulk output, and none before it does.
pub proof fn lemma_first_bulk_out(endpoints: Seq<Endpoint>)
    ensures
        first_bulk_out(endpoints) is Some <==> exists|i: int|
            0 <= i < endpoints.len() && is_bulk_out(#[trigger] endpoints[i]),
        first_bulk_out(endpoints) matches Some(address) ==> exists|i: int|
            0 <= i < endpoints.len() && is_bulk_out(#[trigger] endpoints[i]) && endpoints[i].address
                == address && forall|j: int| 0 <= j < i ==> !is_bulk_out(#[trigger] endpoints[j]),
    decreases endpoints.len(),
{
    if endpoints.len() > 0 {
        if is_bulk_out(endpoints[0]) {
        } else {
            let rest = endpoints.skip(1);
            lemma_first_bulk_out(rest);
            if exists|i: int| 0 <= i < endpoints.len() && is_bulk_out(#[trigger] endpoints[i]) {
                let i = choose|i: int|
                    0 <= i < endpoints.len() && is_bulk_out(#[trigger] endpoints[i]);
                assert(is_bulk_out(rest[i - 1]));
            }
            if first_bulk_out(rest) is Some {
                let i = choose|i: int|
                    0 <= i < rest.len() && is_bulk_out(#[trigger] rest[i]) && rest[i].address
                        == first_bulk_out(rest)->0 && forall|j: int|
                        0 <= j < i ==> !is_bulk_out(#[trigger] rest[j]);
                assert(is_bulk_out(endpoints[i + 1]));
                assert forall|j: int| 0 <= j < i + 1 implies !is_bulk_out(
                    #[trigger] endpoints[j],
                ) by {
                    if j > 0 {
                        assert(!is_bulk_out(rest[j - 1]));
                    }
                }
            }
        }
    }
}

/// Finds the first endpoint that takes bulk output.
pub fn find_bulk_out(endpoints: &Vec<Endpoint>) -> (address: Option<u8>)
    ensures
        address == first_bulk_out(endpoints@),
{
    let mut i: usize = 0;
    assert(endpoints@.skip(0) == endpoints@);
    while i < endpoints.len()
        invariant
            i <= endpoints.len(),
            first_bulk_out(endpoints@) == first_bulk_out(endpoints@.skip(i as int)),
        decreases endpoints.len() - i,
    {
        let endpoint = endpoints[i];
        assert(endpoints@.skip(i as int)[0] == endpoint);
        if endpoint.direction == Direction::Out && endpoint.transfer_type == TransferType::Bulk {
            return Some(endpoint.address);
        }
        assert(endpoints@.skip(i as int).skip(1) == endpoints@.skip(i + 1));
        i += 1;
    }
    None
}

/// Ends a USB delivery.
fn finish_usb(outcome: Result<(), TransportError>) -> (next: (UsbState, UsbAction))
    ensures
        next == finished(outcome),
{
    (UsbState::Finished, UsbAction::Return(outcome))
}

/// Takes the way out of a USB delivery that holds the interface.
fn release_usb(outcome: Result<(), TransportError>) -> (next: (UsbState, UsbAction))
    ensures
        next == releasing(outcome),
{
    (UsbState::Releasing(outcome), UsbAction::Release { interface: PRINTER_INTERFACE })
}

/// Decides the next step of a USB delivery to `target`.
pub fn usb_next(target: UsbTarget, state: UsbState, event: UsbEvent) -> (next: (
    UsbState,
    UsbAction,
))
    ensures
        next == usb_transition(target, state, event),
{
    match state {
        UsbState::Idle => (UsbState::Starting, UsbAction::Initialize),
        UsbState::Starting => match event {
            UsbEvent::Failed(reason) => finish_usb(Err(TransportError::UsbUnavailable(reason))),
            _ => (UsbState::Opening, UsbAction::Open { target }),
        },
        UsbState::Opening => match event {
            UsbEvent::Done => (UsbState::Detaching, UsbAction::DetachKernelDriver),
            _ => finish_usb(Err(TransportError::DeviceNotFound)),
        },
        UsbState::Detaching => (
            UsbState::Claiming,
            UsbAction::Claim { interface: PRINTER_INTERFACE },
        ),
        UsbState::Claiming => match event {
            UsbEvent::Failed(reason) => finish_usb(Err(TransportError::ClaimFailed(reason))),
            _ => (UsbState::Reading, UsbAction::ReadEndpoints),
        },
        UsbState::Reading => match event {
            UsbEvent::Endpoints(list) => match find_bulk_out(&list) {
                Some(endpoint) => (
                    UsbState::Writing,
                    UsbAction::Write { endpoint, timeout_secs: WRITE_TIMEOUT_SECS },
                ),
                None => release_usb(Err(TransportError::NoWritableEndpoint)),
            },
            UsbEvent::Failed(reason) => release_usb(
                Err(TransportError::DescriptorUnreadable(reason)),
            ),
            _ => release_usb(Err(TransportError::NoWritableEndpoint)),
        },
        UsbState::Writing => match event {
            UsbEvent::Failed(reason) => release_usb(Err(TransportError::WriteFailed(reason))),
            _ => release_usb(Ok(())),
        },
        UsbState::Releasing(outcome) => (UsbState::Resetting(outcome), UsbAction::Reset),
        UsbState::Resetting(outcome) => finish_usb(outcome),
        UsbState::Finished => (UsbState::Finished, UsbAction::Nothing),
    }
}

/// Where a network delivery stands.
#[derive(Debug, PartialEq, Eq)]
pub enum NetworkState {
    /// Nothing has been done.
    Idle,
    /// The connection is being made.
    Connecting,
    /// The buffer is being written.
    Sending,
    /// The delivery is over.
    Finished,
}

/// What the caller is to do next in a network delivery.
#[derive(Debug, PartialEq, Eq)]
pub enum NetworkAction {
    /// Connect to the printer over TCP on this port, within the time given.
    Connect { port: u16, timeout_secs: u64 },
    /// Write the whole buffer; no answer is awaited.
    Send,
    /// Return the outcome; the connection ends with the delivery.
    Return(Result<(), TransportError>),
    /// The delivery is over: nothing is left to do.
    Nothing,
}

/// What happened when the caller performed an action.
#[derive(Debug, Clone, PartialEq, Eq)]
pub enum NetworkEvent {
    /// The delivery is asked for.
    Begin,
    /// The action succeeded.
    Done,
    /// The action failed, with the reason the system gave.
    Failed(String),
}

/// The address of the printer at `host`: the host, a colon, the printer port.
pub open spec fn address_of(host: Seq<char>) -> Seq<char> {
    host + ":9100"@
}

/// The end of a network delivery with the given outcome.
pub open spec fn network_finished(outcome: Result<(), TransportError>) -> (
    NetworkState,
    NetworkAction,
) {
    (NetworkState::Finished, NetworkAction::Return(outcome))
}

/// The next state and the action to perform in a network delivery.
pub open spec fn network_transition(state: NetworkState, event: NetworkEvent) -> (
    NetworkState,
    NetworkAction,
) {
    match state {
        NetworkState::Idle => (
            NetworkState::Connecting,
            NetworkAction::Connect { port: PRINTER_PORT, timeout_secs: CONNECT_TIMEOUT_SECS },
        ),
        NetworkState::Connecting => match event {
            NetworkEvent::Failed(reason) => network_finished(
                Err(TransportError::ConnectFailed(reason)),
            ),
            _ => (NetworkState::Sending, NetworkAction::Send),
        },
        NetworkState::Sending => match event {
            NetworkEvent::Failed(reason) => network_finished(
                Err(TransportError::WriteFailed(reason)),
            ),
            _ => network_finished(Ok(())),
        },
        NetworkState::Finished => (NetworkState::Finished, NetworkAction::Nothing),
    }
}

/// Writes the address of the printer at `host`.
pub fn printer_address(host: &str) -> (address: String)
    ensures
        address@ == address_of(host@),
{
    let mut address = String::from_str(host);
    address.append(":9100");
    address
}

/// Ends a network delivery.
fn finish_network(outcome: Result<(), TransportError>) -> (next: (NetworkState, NetworkAction))
    ensures
        next == network_finished(outcome),
{
    (NetworkState::Finished, NetworkAction::Return(outcome))
}

/// Decides the next step of a network delivery.
pub fn network_next(state: NetworkState, event: NetworkEvent) -> (next: (
    NetworkState,
    NetworkAction,
))
    ensures
        next == network_transition(state, event),
{
    match state {
        NetworkState::Idle => (
            NetworkState::Connecting,
            NetworkAction::Connect { port: PRINTER_PORT, timeout_secs: CONNECT_TIMEOUT_SECS },
        ),
        NetworkState::Connecting => match event {
            NetworkEvent::Failed(reason) => finish_network(
                Err(TransportError::ConnectFailed(reason)),
            ),
            _ => (NetworkState::Sending, NetworkAction::Send),
        },
        NetworkState::Sending => match event {
            NetworkEvent::Failed(reason) => finish_network(
                Err(TransportError::WriteFailed(reason)),
            ),
            _ => finish_network(Ok(())),
        },
        NetworkState::Finished => (NetworkState::Finished, NetworkAction::Nothing),
    }
}

} // verus!
