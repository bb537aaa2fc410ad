use lib::host_device::{
    completion_of, create_endpoints, find_endpoint, in_transfer_length, submit_transfer, update_state, ControlAction, ControlEndpoint,
    ControlRequestDataPhaseTransferDirection, ControlRequestRecipient, ControlRequestType,
    EndpointDirection, EndpointTransferKind, EndpointType, HostToDeviceControlRequest,
    StandardControlRequest, UsbEndpoint,
};
use lib::scatter_gather_buffer::ScatterGatherBuffer;
use lib::xhci_abi::{AddressedTrb, NormalTrb, PrimitiveEnum, TransferDescriptor, TrbType};
use lib::xhci_transfer::{TransferDirection, TransferStatus, UsbRequestSetup, XhciTransferState, XhciTransferType};

#[test]
fn request_setup_fields() {
    // Device-to-host, standard, device: GET_DESCRIPTOR.
    let s = UsbRequestSetup::new(0x80, 0x06, 0x0100, 0, 18);
    assert_eq!(s.get_direction(), ControlRequestDataPhaseTransferDirection::DeviceToHost);
    assert_eq!(s.get_type(), Some(ControlRequestType::Standard));
    assert_eq!(s.get_recipient(), ControlRequestRecipient::Device);
    assert_eq!(s.get_standard_request(), Some(StandardControlRequest::GetDescriptor));
    // Host-to-device, class, interface.
    let s = UsbRequestSetup::new(0x21, 0x09, 0, 1, 8);
    assert_eq!(s.get_direction(), ControlRequestDataPhaseTransferDirection::HostToDevice);
    assert_eq!(s.get_type(), Some(ControlRequestType::Class));
    assert_eq!(s.get_recipient(), ControlRequestRecipient::Interface);
    assert_eq!(s.get_standard_request(), None);
    // Reserved type and recipient.
    let s = UsbRequestSetup::new(0x7f, 0x00, 0, 0, 0);
    assert_eq!(s.get_type(), None);
    assert_eq!(s.get_recipient(), ControlRequestRecipient::Invalid);
    // An unknown standard request.
    let s = UsbRequestSetup::new(0x00, 0x02, 0, 0, 0);
    assert_eq!(s.get_standard_request(), None);
}

#[test]
fn analyze_host_to_device_requests() {
    let set_address = UsbRequestSetup::new(0x00, 0x05, 3, 0, 0);
    assert_eq!(HostToDeviceControlRequest::analyze_request_setup(&set_address), HostToDeviceControlRequest::SetAddress);
    let set_config = UsbRequestSetup::new(0x00, 0x09, 1, 0, 0);
    assert_eq!(HostToDeviceControlRequest::analyze_request_setup(&set_config), HostToDeviceControlRequest::SetConfig);
    let set_interface = UsbRequestSetup::new(0x01, 0x0b, 2, 1, 0);
    assert_eq!(HostToDeviceControlRequest::analyze_request_setup(&set_interface), HostToDeviceControlRequest::SetInterface);
    let clear_feature = UsbRequestSetup::new(0x02, 0x01, 0, 0x81, 0);
    assert_eq!(HostToDeviceControlRequest::analyze_request_setup(&clear_feature), HostToDeviceControlRequest::ClearFeature);
    // Set address to an interface is passed on.
    let other = UsbRequestSetup::new(0x01, 0x05, 3, 0, 0);
    assert_eq!(HostToDeviceControlRequest::analyze_request_setup(&other), HostToDeviceControlRequest::Other);
    // A vendor request is passed on.
    let vendor = UsbRequestSetup::new(0x40, 0x05, 3, 0, 0);
    assert_eq!(HostToDeviceControlRequest::analyze_request_setup(&vendor), HostToDeviceControlRequest::Other);
}

#[test]
fn control_endpoint_stages() {
    let mut ep = ControlEndpoint::new();
    // Out of order stages are dropped.
    assert_eq!(ep.handle_control_transfer(XhciTransferType::StatusStage), ControlAction::Ignore);
    let setup = UsbRequestSetup::new(0x00, 0x05, 7, 0, 0);
    assert_eq!(ep.handle_control_transfer(XhciTransferType::SetupStage(setup)), ControlAction::Complete);
    // A second setup stage before the status stage is dropped.
    assert_eq!(ep.handle_control_transfer(XhciTransferType::SetupStage(setup)), ControlAction::Ignore);
    assert_eq!(ep.handle_control_transfer(XhciTransferType::StatusStage), ControlAction::SetAddress(7));
    // Back to the setup stage.
    assert_eq!(ep.handle_control_transfer(XhciTransferType::StatusStage), ControlAction::Ignore);

    let setup = UsbRequestSetup::new(0x00, 0x09, 0x0102, 0, 0);
    assert_eq!(ep.handle_control_transfer(XhciTransferType::SetupStage(setup)), ControlAction::Complete);
    assert_eq!(ep.handle_control_transfer(XhciTransferType::StatusStage), ControlAction::SetConfig(2));

    let setup = UsbRequestSetup::new(0x01, 0x0b, 4, 1, 0);
    ep.handle_control_transfer(XhciTransferType::SetupStage(setup));
    assert_eq!(ep.handle_control_transfer(XhciTransferType::StatusStage), ControlAction::SetInterface(1, 4));

    let setup = UsbRequestSetup::new(0x02, 0x01, 0, 0x81, 0);
    ep.handle_control_transfer(XhciTransferType::SetupStage(setup));
    assert_eq!(ep.handle_control_transfer(XhciTransferType::StatusStage), ControlAction::ClearFeature(0x81, true));

    let setup = UsbRequestSetup::new(0x80, 0x06, 0x0100, 0, 18);
    ep.handle_control_transfer(XhciTransferType::SetupStage(setup));
    assert_eq!(
        ep.handle_control_transfer(XhciTransferType::StatusStage),
        ControlAction::Submit(setup, ControlRequestDataPhaseTransferDirection::DeviceToHost, None)
    );

    let setup = UsbRequestSetup::new(0x21, 0x09, 0, 1, 8);
    ep.handle_control_transfer(XhciTransferType::SetupStage(setup));
    assert_eq!(
        ep.handle_control_transfer(XhciTransferType::StatusStage),
        ControlAction::Submit(setup, ControlRequestDataPhaseTransferDirection::HostToDevice, None)
    );
}

#[test]
fn data_endpoints() {
    let ep = UsbEndpoint::new(2, EndpointDirection::DeviceToHost, EndpointType::Bulk);
    assert_eq!(ep.ep_addr(), 0x82);
    assert!(ep.match_ep(2, TransferDirection::In));
    assert!(!ep.match_ep(2, TransferDirection::Out));
    assert!(!ep.match_ep(3, TransferDirection::In));
    assert_eq!(ep.transfer_kind(&XhciTransferType::StatusStage), None);
    assert_eq!(ep.transfer_kind(&XhciTransferType::Noop), None);

    let ep = UsbEndpoint::new(1, EndpointDirection::HostToDevice, EndpointType::Interrupt);
    assert_eq!(ep.ep_addr(), 0x01);
    assert!(ep.match_ep(1, TransferDirection::Out));

    let ep = UsbEndpoint::new(1, EndpointDirection::HostToDevice, EndpointType::Isochronous);
    assert_eq!(ep.transfer_kind(&XhciTransferType::Noop), None);
    let _ = EndpointTransferKind::Bulk;
}

#[test]
fn transfer_state_machine() {
    assert_eq!(in_transfer_length(10, 4), 4);
    assert_eq!(in_transfer_length(3, 4), 3);

    let mut s = XhciTransferState::Created;
    assert!(submit_transfer(&mut s));
    assert_eq!(s, XhciTransferState::Submitted);
    update_state(&mut s, TransferStatus::Completed);
    assert_eq!(s, XhciTransferState::Completed);
    assert_eq!(completion_of(s, TransferStatus::Stall, 12), (TransferStatus::Stall, 12));

    let mut s = XhciTransferState::Cancelled;
    assert!(!submit_transfer(&mut s));
    assert_eq!(s, XhciTransferState::Cancelled);
    assert_eq!(completion_of(s, TransferStatus::Completed, 12), (TransferStatus::Cancelled, 0));

    let mut s = XhciTransferState::Submitted;
    assert!(s.try_cancel());
    assert_eq!(s, XhciTransferState::Cancelling);
    assert!(!s.try_cancel());
    update_state(&mut s, TransferStatus::Completed);
    assert_eq!(s, XhciTransferState::Cancelled);

    let mut s = XhciTransferState::Submitted;
    update_state(&mut s, TransferStatus::Cancelled);
    assert_eq!(s, XhciTransferState::Cancelled);

    let mut s = XhciTransferState::Created;
    assert!(!s.try_cancel());
    assert_eq!(s, XhciTransferState::Cancelled);

    // A transfer found in an unexpected state is considered completed.
    let mut s = XhciTransferState::Created;
    update_state(&mut s, TransferStatus::Completed);
    assert_eq!(s, XhciTransferState::Completed);
}

#[test]
fn endpoints_from_descriptors() {
    // Endpoint 0 is skipped; 0x81 is bulk in, 0x02 interrupt out, 0x83
    // isochronous in.
    let descriptors = vec![(0x00u8, 0x00u8), (0x81, 0x02), (0x02, 0x03), (0x83, 0x01)];
    let eps = create_endpoints(&descriptors);
    assert_eq!(eps.len(), 3);
    assert_eq!(eps[0].ep_addr(), 0x81);
    assert_eq!(eps[1].ep_addr(), 0x02);
    assert_eq!(eps[2].ep_addr(), 0x83);
    assert!(eps[0].match_ep(1, TransferDirection::In));
    assert!(eps[1].match_ep(2, TransferDirection::Out));
    assert_eq!(find_endpoint(&eps, 2, TransferDirection::Out), Some(1));
    assert_eq!(find_endpoint(&eps, 3, TransferDirection::In), Some(2));
    assert_eq!(find_endpoint(&eps, 3, TransferDirection::Out), None);
    assert_eq!(find_endpoint(&eps, 4, TransferDirection::In), None);
}

#[test]
fn control_data_stage_buffer_is_submitted() {
    let make_buffer = || {
        let mut trb = NormalTrb::new();
        trb.set_trb_type(TrbType::DataStage.to());
        trb.set_data_buffer(0x100);
        trb.set_trb_transfer_length(8);
        let mut td = TransferDescriptor::new();
        td.push(AddressedTrb { trb, gpa: 0x40 });
        ScatterGatherBuffer::new(td)
    };
    let mut ep = ControlEndpoint::new();
    let setup = UsbRequestSetup::new(0x21, 0x09, 0, 1, 8);
    assert_eq!(ep.handle_control_transfer(XhciTransferType::SetupStage(setup)), ControlAction::Complete);
    assert_eq!(ep.handle_control_transfer(XhciTransferType::DataStage(make_buffer())), ControlAction::Complete);
    assert_eq!(
        ep.handle_control_transfer(XhciTransferType::StatusStage),
        ControlAction::Submit(setup, ControlRequestDataPhaseTransferDirection::HostToDevice, Some(make_buffer()))
    );
    // The buffer went with the request: the next request has none.
    ep.handle_control_transfer(XhciTransferType::SetupStage(setup));
    assert_eq!(
        ep.handle_control_transfer(XhciTransferType::StatusStage),
        ControlAction::Submit(setup, ControlRequestDataPhaseTransferDirection::HostToDevice, None)
    );
}
