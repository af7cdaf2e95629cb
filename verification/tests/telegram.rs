use chat_tunnel::codec::encode;
use chat_tunnel::codec::TextCodec;
use chat_tunnel::error::AdapterError;
use chat_tunnel::error::SlotError;
use chat_tunnel::sequence::append_sequence;
use chat_tunnel::telegram::BotAdapter;
use chat_tunnel::telegram::Polled;
use chat_tunnel::telegram::Slot;
use chat_tunnel::telegram::SlotPortion;
use chat_tunnel::telegram::SlotWrite;

fn slot_text(payload: &[u8], sequence: u32) -> String {
    base85::encode(&append_sequence(payload, sequence))
}

#[test]
fn a_new_adapter_has_read_nothing_and_writes_from_zero() {
    let adapter = BotAdapter::new(-1001, -1002);
    assert_eq!(adapter.read_group(), -1001);
    assert_eq!(adapter.write_group(), -1002);
    assert_eq!(adapter.read_sequence(), None);
    assert_eq!(adapter.write_sequence(), 0);
}

#[test]
fn ten_bytes_make_one_write_of_the_primary_slot() {
    let mut adapter = BotAdapter::new(1, 2);
    let packet = [10u8, 11, 12, 13, 14, 15, 16, 17, 18, 19];
    let writes = adapter.write_packet(&packet).unwrap();
    let mut unit = packet.to_vec();
    unit.extend_from_slice(&0u32.to_be_bytes());
    assert_eq!(writes, vec![SlotWrite { slot: Slot::Primary, text: base85::encode(&unit) }]);
    assert_eq!(adapter.write_sequence(), 1);
}

#[test]
fn the_first_unit_reads_back_as_the_packet_that_was_written() {
    let mut writer = BotAdapter::new(1, 2);
    let packet = [10u8, 11, 12, 13, 14, 15, 16, 17, 18, 19];
    let writes = writer.write_packet(&packet).unwrap();
    assert_eq!(writes.len(), 1);
    assert_eq!(writes[0].slot, Slot::Primary);
    let mut reader = BotAdapter::new(2, 1);
    assert_eq!(reader.read_packet(Some(&writes[0].text)), Ok(Polled::Packet(packet.to_vec())));
    assert_eq!(reader.read_sequence(), Some(0));
    assert_eq!(reader.read_packet(Some(&writes[0].text)), Ok(Polled::NothingNew));
    assert_eq!(reader.read_sequence(), Some(0));
}

#[test]
fn every_unit_of_a_run_of_writes_reads_back_in_turn() {
    let mut writer = BotAdapter::new(1, 2);
    let mut reader = BotAdapter::new(2, 1);
    for round in 0u32..20 {
        let packet = vec![round as u8 + 1; 1 + round as usize * 10];
        let writes = writer.write_packet(&packet).unwrap();
        assert_eq!(writes.len(), 1);
        assert_eq!(reader.read_packet(Some(&writes[0].text)), Ok(Polled::Packet(packet)));
        assert_eq!(reader.read_sequence(), Some(round));
    }
}

#[test]
fn a_poll_returns_only_a_larger_sequence_number() {
    let mut adapter = BotAdapter::new(1, 1);
    assert_eq!(adapter.read_packet(Some(&slot_text(&[1, 2], 5))), Ok(Polled::Packet(vec![1, 2])));
    assert_eq!(adapter.read_sequence(), Some(5));
    assert_eq!(adapter.read_packet(Some(&slot_text(&[3, 4], 5))), Ok(Polled::NothingNew));
    assert_eq!(adapter.read_packet(Some(&slot_text(&[3, 4], 4))), Ok(Polled::NothingNew));
    assert_eq!(adapter.read_sequence(), Some(5));
    assert_eq!(adapter.read_packet(Some(&slot_text(&[3, 4], 6))), Ok(Polled::Packet(vec![3, 4])));
    assert_eq!(adapter.read_sequence(), Some(6));
    assert_eq!(
        adapter.read_packet(Some(&slot_text(&[9], u32::MAX))),
        Ok(Polled::Packet(vec![9]))
    );
    assert_eq!(adapter.read_sequence(), Some(u32::MAX));
    assert_eq!(adapter.read_packet(Some(&slot_text(&[9], 0))), Ok(Polled::NothingNew));
}

#[test]
fn the_sequence_number_never_reaches_the_packet() {
    let mut adapter = BotAdapter::new(1, 1);
    let payload = vec![0xaau8; 200];
    let polled = adapter.read_packet(Some(&slot_text(&payload, 0x0102_0304)));
    assert_eq!(polled, Ok(Polled::Packet(payload)));
    assert_eq!(adapter.read_sequence(), Some(0x0102_0304));
}

#[test]
fn an_absent_slot_is_a_decode_error() {
    let mut adapter = BotAdapter::new(1, 1);
    assert_eq!(adapter.read_packet(None), Err(AdapterError::Decode(SlotError::Absent)));
    assert_eq!(adapter.read_sequence(), None);
}

#[test]
fn an_undecodable_slot_is_a_decode_error() {
    let mut adapter = BotAdapter::new(1, 1);
    assert_eq!(
        adapter.read_packet(Some("my group chat")),
        Err(AdapterError::Decode(SlotError::Undecodable))
    );
    assert_eq!(adapter.read_packet(Some("V")), Err(AdapterError::Decode(SlotError::Undecodable)));
}

#[test]
fn a_slot_too_short_for_a_sequence_number_is_a_decode_error() {
    let mut adapter = BotAdapter::new(1, 1);
    assert_eq!(adapter.read_packet(Some("")), Err(AdapterError::Decode(SlotError::MissingSequence)));
    assert_eq!(
        adapter.read_packet(Some(&base85::encode(&[1, 2, 3]))),
        Err(AdapterError::Decode(SlotError::MissingSequence))
    );
}

#[test]
fn a_new_unit_without_packet_bytes_is_refused() {
    let mut adapter = BotAdapter::new(1, 1);
    assert_eq!(adapter.read_packet(Some(&slot_text(&[], 3))), Err(AdapterError::EmptyPacket));
    assert_eq!(adapter.read_sequence(), None);
    assert_eq!(adapter.read_packet(Some(&slot_text(&[1], 3))), Ok(Polled::Packet(vec![1])));
    assert_eq!(adapter.read_packet(Some(&slot_text(&[], 3))), Ok(Polled::NothingNew));
    assert_eq!(adapter.read_packet(Some(&slot_text(&[], 4))), Err(AdapterError::EmptyPacket));
    assert_eq!(adapter.read_sequence(), Some(3));
}

#[test]
fn a_unit_of_exactly_the_primary_capacity_writes_the_primary_slot_only() {
    let mut adapter = BotAdapter::new(1, 2);
    let packet = vec![7u8; 200];
    let writes = adapter.write_packet(&packet).unwrap();
    assert_eq!(writes.len(), 1);
    assert_eq!(writes[0].slot, Slot::Primary);
    assert_eq!(writes[0].text, base85::encode(&append_sequence(&packet, 0)));
    assert_eq!(writes[0].text.len(), 255);
}

#[test]
fn one_byte_more_writes_the_secondary_slot_first() {
    let mut adapter = BotAdapter::new(1, 2);
    let packet = vec![7u8; 201];
    let writes = adapter.write_packet(&packet).unwrap();
    let unit = append_sequence(&packet, 0);
    assert_eq!(
        writes,
        vec![
            SlotWrite { slot: Slot::Secondary, text: base85::encode(&unit[204..]) },
            SlotWrite { slot: Slot::Primary, text: base85::encode(&unit[..204]) },
        ]
    );
}

#[test]
fn both_slots_full_is_still_written() {
    let mut adapter = BotAdapter::new(1, 2);
    let packet = vec![1u8; 404];
    let writes = adapter.write_packet(&packet).unwrap();
    let unit = append_sequence(&packet, 0);
    assert_eq!(writes.len(), 2);
    assert_eq!(writes[0], SlotWrite { slot: Slot::Secondary, text: base85::encode(&unit[204..408]) });
    assert_eq!(writes[1], SlotWrite { slot: Slot::Primary, text: base85::encode(&unit[..204]) });
}

#[test]
fn a_unit_beyond_both_slots_is_refused_without_any_write() {
    let mut adapter = BotAdapter::new(1, 2);
    assert_eq!(adapter.write_packet(&vec![1u8; 405]), Err(AdapterError::PacketTooLarge));
    assert_eq!(adapter.write_packet(&vec![1u8; 2500]), Err(AdapterError::PacketTooLarge));
}

#[test]
fn consecutive_writes_embed_consecutive_sequence_numbers() {
    let mut adapter = BotAdapter::new(1, 2);
    for expected in 0u32..50 {
        let packet = [expected as u8, 1, 2];
        let writes = adapter.write_packet(&packet).unwrap();
        assert_eq!(writes.len(), 1);
        assert_eq!(writes[0].text, base85::encode(&append_sequence(&packet, expected)));
        assert_eq!(adapter.write_sequence(), expected + 1);
    }
}

#[test]
fn a_refused_write_still_moves_the_counter_on() {
    let mut adapter = BotAdapter::new(1, 2);
    adapter.write_packet(&[1]).unwrap();
    assert_eq!(adapter.write_packet(&vec![0u8; 1000]), Err(AdapterError::PacketTooLarge));
    assert_eq!(adapter.write_sequence(), 2);
    let writes = adapter.write_packet(&[3]).unwrap();
    assert_eq!(writes[0].text, base85::encode(&append_sequence(&[3], 2)));
}

#[test]
fn other_capacities_move_the_split() {
    let mut adapter = BotAdapter::new(1, 2).with_capacities(8, 4);
    let writes = adapter.write_packet(&[1, 2, 3, 4]).unwrap();
    assert_eq!(writes, vec![SlotWrite { slot: Slot::Primary, text: base85::encode(&[1, 2, 3, 4, 0, 0, 0, 0]) }]);
    let writes = adapter.write_packet(&[1, 2, 3, 4, 5]).unwrap();
    assert_eq!(
        writes,
        vec![
            SlotWrite { slot: Slot::Secondary, text: base85::encode(&[1]) },
            SlotWrite { slot: Slot::Primary, text: base85::encode(&[1, 2, 3, 4, 5, 0, 0, 0]) },
        ]
    );
    assert_eq!(adapter.write_packet(&[0; 9]), Err(AdapterError::PacketTooLarge));
}

#[test]
fn the_polled_channel_takes_another_codec() {
    let mut writer = BotAdapter::new(1, 2).with_codec(TextCodec::Radix116);
    let writes = writer.write_packet(&[5, 6, 7]).unwrap();
    assert_eq!(writes[0].text, encode(TextCodec::Radix116, &[5, 6, 7, 0, 0, 0, 0]));
    let mut reader = BotAdapter::new(2, 1).with_codec(TextCodec::Radix116);
    assert_eq!(reader.read_packet(Some(&writes[0].text)), Ok(Polled::Packet(vec![5, 6, 7])));
}

#[test]
fn a_decoded_unit_is_taken_by_its_sequence_number() {
    let mut adapter = BotAdapter::new(1, 1);
    assert_eq!(adapter.take_unit(vec![1, 2, 3, 0, 0, 0, 5]), Ok(Polled::Packet(vec![1, 2, 3])));
    assert_eq!(adapter.read_sequence(), Some(5));
    assert_eq!(adapter.take_unit(vec![9, 0, 0, 0, 5]), Ok(Polled::NothingNew));
    assert_eq!(adapter.take_unit(vec![9, 0, 0, 0, 4]), Ok(Polled::NothingNew));
    assert_eq!(adapter.take_unit(vec![9, 0, 0, 1, 0]), Ok(Polled::Packet(vec![9])));
    assert_eq!(adapter.read_sequence(), Some(256));
    assert_eq!(adapter.take_unit(vec![0, 0, 2]), Err(AdapterError::Decode(SlotError::MissingSequence)));
    assert_eq!(adapter.take_unit(vec![0, 0, 2, 0]), Err(AdapterError::EmptyPacket));
    assert_eq!(adapter.read_sequence(), Some(256));
}

#[test]
fn a_unit_is_laid_out_over_the_slots() {
    let mut adapter = BotAdapter::new(1, 2).with_capacities(6, 3);
    assert_eq!(
        adapter.frame_packet(&[1, 2]),
        Ok(vec![SlotPortion { slot: Slot::Primary, bytes: vec![1, 2, 0, 0, 0, 0] }])
    );
    assert_eq!(
        adapter.frame_packet(&[1, 2, 3, 4]),
        Ok(vec![
            SlotPortion { slot: Slot::Secondary, bytes: vec![0, 1] },
            SlotPortion { slot: Slot::Primary, bytes: vec![1, 2, 3, 4, 0, 0] },
        ])
    );
    assert_eq!(
        adapter.frame_packet(&[1, 2, 3, 4, 5]),
        Ok(vec![
            SlotPortion { slot: Slot::Secondary, bytes: vec![0, 0, 2] },
            SlotPortion { slot: Slot::Primary, bytes: vec![1, 2, 3, 4, 5, 0] },
        ])
    );
    assert_eq!(adapter.frame_packet(&[1, 2, 3, 4, 5, 6]), Err(AdapterError::PacketTooLarge));
    assert_eq!(adapter.write_sequence(), 4);
}

#[test]
fn nothing_is_new_after_the_largest_sequence_number() {
    let mut reader = BotAdapter::new(1, 2);
    assert_eq!(reader.take_unit(vec![1, 255, 255, 255, 255]), Ok(Polled::Packet(vec![1])));
    assert_eq!(reader.take_unit(vec![1, 0, 0, 0, 0]), Ok(Polled::NothingNew));
    assert_eq!(reader.take_unit(vec![1, 255, 255, 255, 255]), Ok(Polled::NothingNew));
}
