use chat_tunnel::error::AdapterError;
use chat_tunnel::pump::frame_for_device;
use chat_tunnel::pump::packet_of_frame;
use chat_tunnel::pump::step;
use chat_tunnel::pump::DeviceFraming;
use chat_tunnel::pump::PumpAction;
use chat_tunnel::pump::PumpError;
use chat_tunnel::pump::PumpEvent;
use chat_tunnel::pump::PumpWarning;

#[test]
fn a_raw_device_takes_the_packet_as_it_is() {
    assert_eq!(frame_for_device(DeviceFraming::Raw, vec![1, 2, 3]), Some(vec![1, 2, 3]));
    assert_eq!(packet_of_frame(DeviceFraming::Raw, &[1, 2, 3]), Some(vec![1, 2, 3]));
    assert_eq!(packet_of_frame(DeviceFraming::Raw, &[]), Some(vec![]));
}

#[test]
fn the_address_family_header_is_added_and_removed() {
    assert_eq!(
        frame_for_device(DeviceFraming::AddressFamily, vec![0x45, 9, 8]),
        Some(vec![0, 0, 0, 2, 0x45, 9, 8])
    );
    assert_eq!(packet_of_frame(DeviceFraming::AddressFamily, &[0, 0, 0, 2, 0x45, 9, 8]), Some(vec![0x45, 9, 8]));
    assert_eq!(packet_of_frame(DeviceFraming::AddressFamily, &[0, 0, 0, 30, 0x60]), Some(vec![0x60]));
    assert_eq!(packet_of_frame(DeviceFraming::AddressFamily, &[0, 0, 0, 2]), Some(vec![]));
    assert_eq!(packet_of_frame(DeviceFraming::AddressFamily, &[0, 0, 0]), None);
}

#[test]
fn a_frame_beyond_the_devices_buffers_is_not_built() {
    assert_eq!(frame_for_device(DeviceFraming::Raw, vec![1; 2500]), Some(vec![1; 2500]));
    assert_eq!(frame_for_device(DeviceFraming::Raw, vec![1; 2501]), None);
    assert!(frame_for_device(DeviceFraming::AddressFamily, vec![1; 2496]).is_some());
    assert_eq!(frame_for_device(DeviceFraming::AddressFamily, vec![1; 2497]), None);
}

#[test]
fn a_packet_from_the_adapter_goes_to_the_device() {
    assert_eq!(
        step(DeviceFraming::AddressFamily, PumpEvent::AdapterRead(Ok(vec![5, 6]))),
        PumpAction::WriteDevice(vec![0, 0, 0, 2, 5, 6])
    );
    assert_eq!(
        step(DeviceFraming::Raw, PumpEvent::AdapterRead(Ok(vec![5, 6]))),
        PumpAction::WriteDevice(vec![5, 6])
    );
}

#[test]
fn a_frame_from_the_device_goes_to_the_adapter() {
    assert_eq!(
        step(DeviceFraming::AddressFamily, PumpEvent::DeviceRead(Some(vec![0, 0, 0, 2, 5, 6]))),
        PumpAction::WriteAdapter(vec![5, 6])
    );
    assert_eq!(
        step(DeviceFraming::Raw, PumpEvent::DeviceRead(Some(vec![0, 0, 0, 2, 5, 6]))),
        PumpAction::WriteAdapter(vec![0, 0, 0, 2, 5, 6])
    );
}

#[test]
fn a_failed_device_write_is_reported_and_the_loop_goes_on() {
    assert_eq!(step(DeviceFraming::Raw, PumpEvent::DeviceWrite(false)), PumpAction::Warn(PumpWarning::DeviceWrite));
    assert_eq!(step(DeviceFraming::Raw, PumpEvent::DeviceWrite(true)), PumpAction::Continue);
    assert_eq!(
        step(DeviceFraming::Raw, PumpEvent::AdapterRead(Ok(vec![0; 3000]))),
        PumpAction::Warn(PumpWarning::OversizedPacket)
    );
}

#[test]
fn a_failed_adapter_ends_the_pump() {
    assert_eq!(
        step(DeviceFraming::Raw, PumpEvent::AdapterRead(Err(AdapterError::EmptyPacket))),
        PumpAction::Stop(PumpError::AdapterRead(AdapterError::EmptyPacket))
    );
    assert_eq!(
        step(DeviceFraming::Raw, PumpEvent::AdapterWrite(Err(AdapterError::PacketTooLarge))),
        PumpAction::Stop(PumpError::AdapterWrite(AdapterError::PacketTooLarge))
    );
    assert_eq!(
        step(DeviceFraming::Raw, PumpEvent::AdapterWrite(Err(AdapterError::Transport))),
        PumpAction::Stop(PumpError::AdapterWrite(AdapterError::Transport))
    );
    assert_eq!(step(DeviceFraming::Raw, PumpEvent::AdapterWrite(Ok(()))), PumpAction::Continue);
}

#[test]
fn a_failed_device_read_ends_the_pump() {
    assert_eq!(step(DeviceFraming::Raw, PumpEvent::DeviceRead(None)), PumpAction::Stop(PumpError::DeviceRead));
    assert_eq!(
        step(DeviceFraming::AddressFamily, PumpEvent::DeviceRead(Some(vec![0, 0]))),
        PumpAction::Stop(PumpError::DeviceRead)
    );
}

#[test]
fn the_header_names_the_address_family_of_ip_version_4() {
    assert_eq!(chat_tunnel::pump::header_bytes(DeviceFraming::AddressFamily), vec![0, 0, 0, 2]);
    assert_eq!(chat_tunnel::pump::header_bytes(DeviceFraming::Raw), Vec::<u8>::new());
    assert_eq!(chat_tunnel::pump::header_len(DeviceFraming::AddressFamily), 4);
    assert_eq!(chat_tunnel::pump::header_len(DeviceFraming::Raw), 0);
}
