//! Decisions of a device passed through from the host: control requests
//! (USB 2.0 9.3, 9.4), the control endpoint's stages, data endpoints, and
//! the state of a transfer submitted to the host's USB stack. The calls
//! into that stack are the caller's part.
use crate::xhci_transfer::{
    TransferDirection, TransferStatus, UsbRequestSetup, XhciTransferState, XhciTransferType,
};
use crate::scatter_gather_buffer::ScatterGatherBuffer;
use vstd::prelude::*;

verus! {

/// Direction of a control request's data stage.
#[derive(Debug, Copy, Clone, PartialEq, Eq, Structural)]
pub enum ControlRequestDataPhaseTransferDirection {
    HostToDevice,
    DeviceToHost,
}

/// Type of a control request.
#[derive(Debug, Copy, Clone, PartialEq, Eq, Structural)]
pub enum ControlRequestType {
    Standard,
    Class,
    Vendor,
}

/// Recipient of a control request.
#[derive(Debug, Copy, Clone, PartialEq, Eq, Structural)]
pub enum ControlRequestRecipient {
    Device,
    Interface,
    Endpoint,
    Other,
    Invalid,
}

/// Standard control requests (USB 2.0 table 9-4).
#[derive(Debug, Copy, Clone, PartialEq, Eq, Structural)]
pub enum StandardControlRequest {
    GetStatus,
    ClearFeature,
    SetFeature,
    SetAddress,
    GetDescriptor,
    SetDescriptor,
    GetConfiguration,
    SetConfiguration,
    GetInterface,
    SetInterface,
    SynchFrame,
}

/// Type bits 5-6 of bmRequestType: 0 standard, 1 class, 2 vendor, 3
/// reserved.
pub open spec fn request_type_of(setup: UsbRequestSetup) -> Option<ControlRequestType> {
    let t = (setup.request_type >> 5u8) & 3u8;
    if t == 0 {
        Some(ControlRequestType::Standard)
    } else if t == 1 {
        Some(ControlRequestType::Class)
    } else if t == 2 {
        Some(ControlRequestType::Vendor)
    } else {
        None
    }
}

/// Recipient bits 0-4 of bmRequestType.
pub open spec fn recipient_of(setup: UsbRequestSetup) -> ControlRequestRecipient {
    let r = setup.request_type & 0x1fu8;
    if r == 0 {
        ControlRequestRecipient::Device
    } else if r == 1 {
        ControlRequestRecipient::Interface
    } else if r == 2 {
        ControlRequestRecipient::Endpoint
    } else if r == 3 {
        ControlRequestRecipient::Other
    } else {
        ControlRequestRecipient::Invalid
    }
}

/// The standard request a standard-type setup packet makes.
pub open spec fn standard_request_of(setup: UsbRequestSetup) -> Option<StandardControlRequest> {
    if request_type_of(setup) != Some(ControlRequestType::Standard) {
        None
    } else if setup.request == 0x00 {
        Some(StandardControlRequest::GetStatus)
    } else if setup.request == 0x01 {
        Some(StandardControlRequest::ClearFeature)
    } else if setup.request == 0x03 {
        Some(StandardControlRequest::SetFeature)
    } else if setup.request == 0x05 {
        Some(StandardControlRequest::SetAddress)
    } else if setup.request == 0x06 {
        Some(StandardControlRequest::GetDescriptor)
    } else if setup.request == 0x07 {
        Some(StandardControlRequest::SetDescriptor)
    } else if setup.request == 0x08 {
        Some(StandardControlRequest::GetConfiguration)
    } else if setup.request == 0x09 {
        Some(StandardControlRequest::SetConfiguration)
    } else if setup.request == 0x0a {
        Some(StandardControlRequest::GetInterface)
    } else if setup.request == 0x0b {
        Some(StandardControlRequest::SetInterface)
    } else if setup.request == 0x0c {
        Some(StandardControlRequest::SynchFrame)
    } else {
        None
    }
}

impl UsbRequestSetup {
    /// Direction bit 7 of bmRequestType.
    pub fn get_direction(&self) -> (r: ControlRequestDataPhaseTransferDirection)
        ensures
            r == if self.request_type >= 0x80 {
                ControlRequestDataPhaseTransferDirection::DeviceToHost
            } else {
                ControlRequestDataPhaseTransferDirection::HostToDevice
            },
    {
        if self.request_type >= 0x80 {
            ControlRequestDataPhaseTransferDirection::DeviceToHost
        } else {
            ControlRequestDataPhaseTransferDirection::HostToDevice
        }
    }

    /// The request's type, `None` for the reserved type.
    pub fn get_type(&self) -> (r: Option<ControlRequestType>)
        ensures
            r == request_type_of(*self),
    {
        let t = (self.request_type >> 5u8) & 3u8;
        if t == 0 {
            Some(ControlRequestType::Standard)
        } else if t == 1 {
            Some(ControlRequestType::Class)
        } else if t == 2 {
            Some(ControlRequestType::Vendor)
        } else {
            None
        }
    }

    /// The request's recipient.
    pub fn get_recipient(&self) -> (r: ControlRequestRecipient)
        ensures
            r == recipient_of(*self),
    {
        let r = self.request_type & 0x1fu8;
        if r == 0 {
            ControlRequestRecipient::Device
        } else if r == 1 {
            ControlRequestRecipient::Interface
        } else if r == 2 {
            ControlRequestRecipient::Endpoint
        } else if r == 3 {
            ControlRequestRecipient::Other
        } else {
            ControlRequestRecipient::Invalid
        }
    }

    /// The standard request, for standard-type requests.
    pub fn get_standard_request(&self) -> (r: Option<StandardControlRequest>)
        ensures
            r == standard_request_of(*self),
    {
        if self.get_type() != Some(ControlRequestType::Standard) {
            return None;
        }
        match self.request {
            0x00 => Some(StandardControlRequest::GetStatus),
            0x01 => Some(StandardControlRequest::ClearFeature),
            0x03 => Some(StandardControlRequest::SetFeature),
            0x05 => Some(StandardControlRequest::SetAddress),
            0x06 => Some(StandardControlRequest::GetDescriptor),
            0x07 => Some(StandardControlRequest::SetDescriptor),
            0x08 => Some(StandardControlRequest::GetConfiguration),
            0x09 => Some(StandardControlRequest::SetConfiguration),
            0x0a => Some(StandardControlRequest::GetInterface),
            0x0b => Some(StandardControlRequest::SetInterface),
            0x0c => Some(StandardControlRequest::SynchFrame),
            _ => None,
        }
    }
}

/// Stage the control endpoint expects next.
#[derive(Debug, Copy, Clone, PartialEq, Eq, Structural)]
pub enum ControlEndpointState {
    SetupStage,
    DataStage,
    StatusStage,
}

/// Host-to-device control requests the device carries out itself rather
/// than as control transfers.
#[derive(Debug, Copy, Clone, PartialEq, Eq, Structural)]
pub enum HostToDeviceControlRequest {
    SetAddress,
    SetConfig,
    SetInterface,
    ClearFeature,
    /// Any other request, passed on as a control transfer.
    Other,
}

/// Which request a host-to-device setup packet makes: set address and set
/// configuration to the device, set interface to an interface, clear
/// feature to an endpoint; anything else is passed on.
pub open spec fn classify_request(setup: UsbRequestSetup) -> HostToDeviceControlRequest {
    let standard = request_type_of(setup) == Some(ControlRequestType::Standard);
    let rec = recipient_of(setup);
    let req = standard_request_of(setup);
    if standard && rec == ControlRequestRecipient::Device && req == Some(StandardControlRequest::SetAddress) {
        HostToDeviceControlRequest::SetAddress
    } else if standard && rec == ControlRequestRecipient::Device && req == Some(StandardControlRequest::SetConfiguration) {
        HostToDeviceControlRequest::SetConfig
    } else if standard && rec == ControlRequestRecipient::Interface && req == Some(StandardControlRequest::SetInterface) {
        HostToDeviceControlRequest::SetInterface
    } else if standard && rec == ControlRequestRecipient::Endpoint && req == Some(StandardControlRequest::ClearFeature) {
        HostToDeviceControlRequest::ClearFeature
    } else {
        HostToDeviceControlRequest::Other
    }
}

impl HostToDeviceControlRequest {
    /// Classifies a setup packet whose type is not the reserved one.
    pub fn analyze_request_setup(request_setup: &UsbRequestSetup) -> (r: HostToDeviceControlRequest)
        requires
            request_type_of(*request_setup) is Some,
        ensures
            r == classify_request(*request_setup),
    {
        let standard = request_setup.get_type() == Some(ControlRequestType::Standard);
        let recipient = request_setup.get_recipient();
        let request = request_setup.get_standard_request();
        if standard && recipient == ControlRequestRecipient::Device && request == Some(
            StandardControlRequest::SetAddress,
        ) {
            return HostToDeviceControlRequest::SetAddress;
        }
        if standard && recipient == ControlRequestRecipient::Device && request == Some(
            StandardControlRequest::SetConfiguration,
        ) {
            return HostToDeviceControlRequest::SetConfig;
        }
        if standard && recipient == ControlRequestRecipient::Interface && request == Some(
            StandardControlRequest::SetInterface,
        ) {
            return HostToDeviceControlRequest::SetInterface;
        }
        if standard && recipient == ControlRequestRecipient::Endpoint && request == Some(
            StandardControlRequest::ClearFeature,
        ) {
            return HostToDeviceControlRequest::ClearFeature;
        }
        HostToDeviceControlRequest::Other
    }
}

/// What the device does with a control-endpoint stage.
#[derive(Debug, PartialEq)]
pub enum ControlAction {
    /// The stage came out of order: it is dropped.
    Ignore,
    /// The stage is done at once.
    Complete,
    /// Pass the request on as a control transfer to the device, with the
    /// data stage's buffer, if there was one, as its data; the transfer
    /// completes when it does.
    Submit(UsbRequestSetup, ControlRequestDataPhaseTransferDirection, Option<ScatterGatherBuffer>),
    /// Set the device's address.
    SetAddress(u32),
    /// Select configuration `config`.
    SetConfig(u8),
    /// Select alternate setting `alt_setting` of interface `interface`.
    SetInterface(u16, u16),
    /// Clear a feature of endpoint `endpoint`; `halt` when it is the halt
    /// feature.
    ClearFeature(u8, bool),
}

/// The control endpoint: which stage comes next, and the request and data
/// buffer of the transfer under way.
pub struct ControlEndpoint {
    state: ControlEndpointState,
    setup: UsbRequestSetup,
    buffer: Option<ScatterGatherBuffer>,
}

/// The action a status stage calls for, given the request and the data
/// stage's buffer.
pub open spec fn status_action(setup: UsbRequestSetup, buffer: Option<ScatterGatherBuffer>) -> ControlAction {
    if setup.request_type < 0x80 {
        match classify_request(setup) {
            HostToDeviceControlRequest::Other => ControlAction::Submit(
                setup,
                ControlRequestDataPhaseTransferDirection::HostToDevice,
                buffer,
            ),
            HostToDeviceControlRequest::SetAddress => ControlAction::SetAddress(setup.value as u32),
            HostToDeviceControlRequest::SetConfig => ControlAction::SetConfig((setup.value & 0xff) as u8),
            HostToDeviceControlRequest::SetInterface => ControlAction::SetInterface(setup.index, setup.value),
            HostToDeviceControlRequest::ClearFeature => ControlAction::ClearFeature(setup.index as u8, setup.value == 0),
        }
    } else {
        ControlAction::Submit(setup, ControlRequestDataPhaseTransferDirection::DeviceToHost, buffer)
    }
}

impl ControlEndpoint {
    pub closed spec fn state(self) -> ControlEndpointState {
        self.state
    }

    pub closed spec fn setup(self) -> UsbRequestSetup {
        self.setup
    }

    /// The data stage's buffer, until the status stage takes it.
    pub closed spec fn buffer(self) -> Option<ScatterGatherBuffer> {
        self.buffer
    }

    /// A control endpoint waiting for a setup stage.
    pub fn new() -> (r: ControlEndpoint)
        ensures
            r.state() == ControlEndpointState::SetupStage,
            r.setup() == (UsbRequestSetup { request_type: 0, request: 0, value: 0, index: 0, length: 0 }),
            r.buffer() is None,
    {
        ControlEndpoint {
            state: ControlEndpointState::SetupStage,
            setup: UsbRequestSetup::new(0, 0, 0, 0, 0),
            buffer: None,
        }
    }

    /// Takes the next stage of a control transfer: a setup stage records
    /// the request, a data stage the buffer, and a status stage carries the
    /// request out and waits for a new setup stage. A stage out of order is
    /// ignored.
    pub fn handle_control_transfer(&mut self, transfer_type: XhciTransferType) -> (r: ControlAction)
        requires
            transfer_type is SetupStage || transfer_type is DataStage || transfer_type is StatusStage,
            transfer_type is StatusStage && old(self).state() != ControlEndpointState::SetupStage
                && old(self).setup().request_type < 0x80 ==> request_type_of(old(self).setup()) is Some,
        ensures
            match transfer_type {
                XhciTransferType::SetupStage(setup) => if old(self).state() != ControlEndpointState::SetupStage {
                    r == ControlAction::Ignore && *final(self) == *old(self)
                } else {
                    &&& r == ControlAction::Complete
                    &&& final(self).setup() == setup
                    &&& final(self).state() == ControlEndpointState::DataStage
                    &&& final(self).buffer() == old(self).buffer()
                },
                XhciTransferType::DataStage(buffer) => if old(self).state() != ControlEndpointState::DataStage {
                    r == ControlAction::Ignore && *final(self) == *old(self)
                } else {
                    &&& r == ControlAction::Complete
                    &&& final(self).setup() == old(self).setup()
                    &&& final(self).state() == ControlEndpointState::StatusStage
                    &&& final(self).buffer() == Some(buffer)
                },
                _ => if old(self).state() == ControlEndpointState::SetupStage {
                    r == ControlAction::Ignore && *final(self) == *old(self)
                } else {
                    &&& r == status_action(old(self).setup(), old(self).buffer())
                    &&& final(self).setup() == old(self).setup()
                    &&& final(self).state() == ControlEndpointState::SetupStage
                    &&& final(self).buffer() is None
                },
            },
    {
        match transfer_type {
            XhciTransferType::SetupStage(setup) => {
                if self.state != ControlEndpointState::SetupStage {
                    return ControlAction::Ignore;
                }
                self.setup = setup;
                self.state = ControlEndpointState::DataStage;
                ControlAction::Complete
            },
            XhciTransferType::DataStage(buffer) => {
                if self.state != ControlEndpointState::DataStage {
                    return ControlAction::Ignore;
                }
                self.buffer = Some(buffer);
                self.state = ControlEndpointState::StatusStage;
                ControlAction::Complete
            },
            _ => {
                if self.state == ControlEndpointState::SetupStage {
                    return ControlAction::Ignore;
                }
                let buffer = self.buffer.take();
                let setup = self.setup;
                let action = match setup.get_direction() {
                    ControlRequestDataPhaseTransferDirection::HostToDevice => {
                        match HostToDeviceControlRequest::analyze_request_setup(&setup) {
                            HostToDeviceControlRequest::Other => ControlAction::Submit(
                                setup,
                                ControlRequestDataPhaseTransferDirection::HostToDevice,
                                buffer,
                            ),
                            HostToDeviceControlRequest::SetAddress => ControlAction::SetAddress(setup.value as u32),
                            HostToDeviceControlRequest::SetConfig => ControlAction::SetConfig((setup.value & 0xff) as u8),
                            HostToDeviceControlRequest::SetInterface => ControlAction::SetInterface(setup.index, setup.value),
                            HostToDeviceControlRequest::ClearFeature => ControlAction::ClearFeature(setup.index as u8, setup.value == 0),
                        }
                    },
                    ControlRequestDataPhaseTransferDirection::DeviceToHost => ControlAction::Submit(
                        setup,
                        ControlRequestDataPhaseTransferDirection::DeviceToHost,
                        buffer,
                    ),
                };
                self.state = ControlEndpointState::SetupStage;
                action
            },
        }
    }
}

/// Direction of a data endpoint.
#[derive(Debug, Copy, Clone, PartialEq, Eq, Structural)]
pub enum EndpointDirection {
    HostToDevice,
    DeviceToHost,
}

/// Type of an endpoint.
#[derive(Debug, Copy, Clone, PartialEq, Eq, Structural)]
pub enum EndpointType {
    Control,
    Isochronous,
    Bulk,
    Interrupt,
}

/// How a data endpoint carries out a transfer.
#[derive(Debug, Copy, Clone, PartialEq, Eq, Structural)]
pub enum EndpointTransferKind {
    Bulk,
    Interrupt,
}

/// An isochronous, bulk or interrupt endpoint of a passed-through device.
pub struct UsbEndpoint {
    endpoint_number: u8,
    direction: EndpointDirection,
    ty: EndpointType,
}

impl UsbEndpoint {
    pub closed spec fn endpoint_number(self) -> u8 {
        self.endpoint_number
    }

    pub closed spec fn direction(self) -> EndpointDirection {
        self.direction
    }

    pub closed spec fn ty(self) -> EndpointType {
        self.ty
    }

    /// An endpoint; never a control endpoint.
    pub fn new(endpoint_number: u8, direction: EndpointDirection, ty: EndpointType) -> (r: UsbEndpoint)
        requires
            ty != EndpointType::Control,
        ensures
            r.endpoint_number() == endpoint_number,
            r.direction() == direction,
            r.ty() == ty,
    {
        UsbEndpoint { endpoint_number, direction, ty }
    }

    /// The endpoint address: its number, with bit 7 set for device-to-host
    /// endpoints.
    pub fn ep_addr(&self) -> (r: u8)
        ensures
            r == self.endpoint_number() | (if self.direction() == EndpointDirection::DeviceToHost { 0x80u8 } else { 0u8 }),
    {
        let dir: u8 = match self.direction {
            EndpointDirection::HostToDevice => 0,
            EndpointDirection::DeviceToHost => 0x80,
        };
        self.endpoint_number | dir
    }

    /// Whether this endpoint is endpoint `endpoint_number` in direction
    /// `dir`.
    pub fn match_ep(&self, endpoint_number: u8, dir: TransferDirection) -> (r: bool)
        ensures
            r == endpoint_matches(*self, endpoint_number, dir),
    {
        let self_dir = match self.direction {
            EndpointDirection::HostToDevice => TransferDirection::Out,
            EndpointDirection::DeviceToHost => TransferDirection::In,
        };
        self.endpoint_number == endpoint_number && self_dir == dir
    }

    /// How a transfer of this kind goes to the device: normal transfers on
    /// bulk and interrupt endpoints; anything else fails.
    pub fn transfer_kind(&self, transfer_type: &XhciTransferType) -> (r: Option<EndpointTransferKind>)
        ensures
            r == if transfer_type is Normal {
                match self.ty() {
                    EndpointType::Bulk => Some(EndpointTransferKind::Bulk),
                    EndpointType::Interrupt => Some(EndpointTransferKind::Interrupt),
                    _ => None::<EndpointTransferKind>,
                }
            } else {
                None::<EndpointTransferKind>
            },
    {
        match transfer_type {
            XhciTransferType::Normal(_) => match self.ty {
                EndpointType::Bulk => Some(EndpointTransferKind::Bulk),
                EndpointType::Interrupt => Some(EndpointTransferKind::Interrupt),
                _ => None,
            },
            _ => None,
        }
    }
}

/// Whether `e` is endpoint `endpoint_number` in direction `dir`.
pub open spec fn endpoint_matches(e: UsbEndpoint, endpoint_number: u8, dir: TransferDirection) -> bool {
    e.endpoint_number() == endpoint_number && match e.direction() {
        EndpointDirection::HostToDevice => dir == TransferDirection::Out,
        EndpointDirection::DeviceToHost => dir == TransferDirection::In,
    }
}

/// The endpoint type bits 0-1 of an endpoint descriptor's attributes stand
/// for.
pub open spec fn endpoint_type_of(attributes: u8) -> EndpointType {
    let t = attributes & 3u8;
    if t == 0 {
        EndpointType::Control
    } else if t == 1 {
        EndpointType::Isochronous
    } else if t == 2 {
        EndpointType::Bulk
    } else {
        EndpointType::Interrupt
    }
}

/// The endpoint an endpoint descriptor (address, attributes) describes:
/// number in bits 0-3 of the address, direction in bit 7; endpoint 0 is
/// the control endpoint and makes none.
pub open spec fn descriptor_endpoint(address: u8, attributes: u8) -> Option<(u8, EndpointDirection, EndpointType)> {
    let number = address & 0x0fu8;
    if number == 0 {
        None
    } else {
        Some((
            number,
            if address & 0x80u8 != 0 {
                EndpointDirection::DeviceToHost
            } else {
                EndpointDirection::HostToDevice
            },
            endpoint_type_of(attributes),
        ))
    }
}

/// The endpoints the descriptors describe, in order.
pub open spec fn endpoints_of(descriptors: Seq<(u8, u8)>) -> Seq<(u8, EndpointDirection, EndpointType)>
    decreases descriptors.len(),
{
    if descriptors.len() == 0 {
        Seq::empty()
    } else {
        let rest = endpoints_of(descriptors.drop_last());
        match descriptor_endpoint(descriptors.last().0, descriptors.last().1) {
            Some(e) => rest.push(e),
            None => rest,
        }
    }
}

/// What an endpoint is: number, direction and type.
pub open spec fn endpoint_view(e: UsbEndpoint) -> (u8, EndpointDirection, EndpointType) {
    (e.endpoint_number(), e.direction(), e.ty())
}

/// Makes the data endpoints of the claimed interfaces from their endpoint
/// descriptors (address, attributes), in order; endpoint 0 is skipped. A
/// data endpoint may not be of the control type.
pub fn create_endpoints(descriptors: &Vec<(u8, u8)>) -> (r: Vec<UsbEndpoint>)
    requires
        forall|i: int|
            0 <= i < descriptors@.len() ==> (#[trigger] descriptors@[i]).0 & 0x0fu8 == 0 || endpoint_type_of(descriptors@[i].1)
                != EndpointType::Control,
    ensures
        r@.map_values(|e: UsbEndpoint| endpoint_view(e)) == endpoints_of(descriptors@),
{
    let mut out: Vec<UsbEndpoint> = Vec::new();
    let mut i: usize = 0;
    while i < descriptors.len()
        invariant
            i <= descriptors@.len(),
            forall|k: int|
                0 <= k < descriptors@.len() ==> (#[trigger] descriptors@[k]).0 & 0x0fu8 == 0 || endpoint_type_of(descriptors@[k].1)
                    != EndpointType::Control,
            out@.map_values(|e: UsbEndpoint| endpoint_view(e)) == endpoints_of(descriptors@.subrange(0, i as int)),
        decreases descriptors@.len() - i,
    {
        let (address, attributes) = descriptors[i];
        let ghost prefix = descriptors@.subrange(0, i as int + 1);
        proof {
            assert(prefix.drop_last() =~= descriptors@.subrange(0, i as int));
            assert(prefix.last() == descriptors@[i as int]);
        }
        let number = address & 0x0fu8;
        if number != 0 {
            let direction = if address & 0x80u8 != 0 {
                EndpointDirection::DeviceToHost
            } else {
                EndpointDirection::HostToDevice
            };
            let t = attributes & 3u8;
            let ty = if t == 0 {
                EndpointType::Control
            } else if t == 1 {
                EndpointType::Isochronous
            } else if t == 2 {
                EndpointType::Bulk
            } else {
                EndpointType::Interrupt
            };
            let ghost before = out@;
            out.push(UsbEndpoint::new(number, direction, ty));
            proof {
                assert(out@.map_values(|e: UsbEndpoint| endpoint_view(e)) =~= before.map_values(
                    |e: UsbEndpoint| endpoint_view(e),
                ).push((number, direction, ty)));
            }
        }
        i = i + 1;
    }
    proof {
        assert(descriptors@.subrange(0, descriptors@.len() as int) =~= descriptors@);
    }
    out
}

/// The first endpoint that is endpoint `endpoint_number` in direction
/// `dir`, if any.
pub fn find_endpoint(endpoints: &Vec<UsbEndpoint>, endpoint_number: u8, dir: TransferDirection) -> (r: Option<usize>)
    ensures
        match r {
            Some(i) => i < endpoints@.len() && endpoint_matches(endpoints@[i as int], endpoint_number, dir)
                && forall|j: int| 0 <= j < i ==> !endpoint_matches(#[trigger] endpoints@[j], endpoint_number, dir),
            None => forall|j: int| 0 <= j < endpoints@.len() ==> !endpoint_matches(#[trigger] endpoints@[j], endpoint_number, dir),
        },
{
    let mut i: usize = 0;
    while i < endpoints.len()
        invariant
            i <= endpoints@.len(),
            forall|j: int| 0 <= j < i ==> !endpoint_matches(#[trigger] endpoints@[j], endpoint_number, dir),
        decreases endpoints@.len() - i,
    {
        if endpoints[i].match_ep(endpoint_number, dir) {
            return Some(i);
        }
        i = i + 1;
    }
    None
}

/// Bytes an in transfer reports: what the device sent, or less when fewer
/// bytes fit in the guest's buffers.
pub fn in_transfer_length(actual_length: usize, copied_length: usize) -> (r: usize)
    ensures
        r == if actual_length < copied_length { actual_length } else { copied_length },
{
    if actual_length < copied_length {
        actual_length
    } else {
        copied_length
    }
}

/// The state of a submitted transfer once the host's USB stack is done
/// with it: cancelled if the stack says so or a cancellation was under
/// way, completed otherwise. A transfer found in any other state is
/// considered completed too, so that the guest is not left waiting.
pub fn update_state(state: &mut XhciTransferState, status: TransferStatus)
    ensures
        *final(state) == if status == TransferStatus::Cancelled || *old(state) == XhciTransferState::Cancelling {
            XhciTransferState::Cancelled
        } else {
            XhciTransferState::Completed
        },
{
    if status == TransferStatus::Cancelled {
        *state = XhciTransferState::Cancelled;
        return;
    }
    match *state {
        XhciTransferState::Cancelling => {
            *state = XhciTransferState::Cancelled;
        },
        _ => {
            *state = XhciTransferState::Completed;
        },
    }
}

/// What completing a transfer the host's stack finished reports: a
/// cancelled transfer reports cancellation and no bytes, a completed one
/// the stack's status and `length`.
pub fn completion_of(state: XhciTransferState, status: TransferStatus, length: u32) -> (r: (TransferStatus, u32))
    requires
        state == XhciTransferState::Cancelled || state == XhciTransferState::Completed,
    ensures
        r == if state == XhciTransferState::Cancelled {
            (TransferStatus::Cancelled, 0u32)
        } else {
            (status, length)
        },
{
    if state == XhciTransferState::Cancelled {
        (TransferStatus::Cancelled, 0)
    } else {
        (status, length)
    }
}

/// Whether a transfer is to be submitted to the host's stack: a created
/// transfer becomes submitted; one cancelled before submission completes
/// as cancelled at once (`false`).
pub fn submit_transfer(state: &mut XhciTransferState) -> (r: bool)
    requires
        *old(state) == XhciTransferState::Created || *old(state) == XhciTransferState::Cancelled,
    ensures
        r == (*old(state) == XhciTransferState::Created),
        *final(state) == if r { XhciTransferState::Submitted } else { XhciTransferState::Cancelled },
{
    match *state {
        XhciTransferState::Created => {
            *state = XhciTransferState::Submitted;
            true
        },
        _ => false,
    }
}

} // verus!
