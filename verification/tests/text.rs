use chat_tunnel::telegram::BotAdapter;
use chat_tunnel::telegram::Slot;
use chat_tunnel::telegram::SlotWrite;
use chat_tunnel::text::decimal;

#[test]
fn numbers_are_written_in_decimal() {
    assert_eq!(decimal(0), "0");
    assert_eq!(decimal(7), "7");
    assert_eq!(decimal(10), "10");
    assert_eq!(decimal(1000), "1000");
    assert_eq!(decimal(4_294_967_295), "4294967295");
    for number in [9u32, 99, 100, 101, 65_535, 1_000_000_007, 2_147_483_648] {
        assert_eq!(decimal(number), number.to_string());
    }
}

#[test]
fn the_nudge_is_the_last_sequence_number_for_the_secondary_slot() {
    let mut adapter = BotAdapter::new(1, 2);
    assert_eq!(adapter.nudge(), None);
    let unit = base85::encode(&[1, 2, 3, 0, 0, 1, 44]);
    adapter.read_packet(Some(&unit)).unwrap();
    assert_eq!(adapter.nudge(), Some(SlotWrite { slot: Slot::Secondary, text: "300".to_string() }));
}
