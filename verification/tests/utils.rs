use antelope_rs::utils::{
    block_seconds, block_slot, low_32_bits, str_to_time_point, str_to_timestamp,
    time_point_to_str, timestamp_to_str, try_decode_string_bytes, try_str_to_timestamp,
};

#[test]
fn str_to_timestamp_of_a_date() {
    assert_eq!(str_to_timestamp("1970-01-01T00:00:00"), 0);
    assert_eq!(str_to_timestamp("2020-01-01T00:00:00"), 1_577_836_800);
    assert_eq!(str_to_timestamp("2106-02-07T06:28:15"), u32::MAX);
}

#[test]
fn str_to_timestamp_keeps_the_low_32_bits() {
    assert_eq!(str_to_timestamp("2106-02-07T06:28:16"), 0);
    assert_eq!(str_to_timestamp("1969-12-31T23:59:59"), u32::MAX);
    assert_eq!(low_32_bits(-1), u32::MAX);
    assert_eq!(low_32_bits(-0x1_0000_0000), 0);
    assert_eq!(low_32_bits(0x1_0000_0005), 5);
    assert_eq!(low_32_bits(i64::MIN), 0);
    assert_eq!(low_32_bits(i64::MAX), u32::MAX);
}

#[test]
fn try_str_to_timestamp_refuses_other_text() {
    assert_eq!(try_str_to_timestamp("2020-01-01T00:00:00"), Some(1_577_836_800));
    assert_eq!(try_str_to_timestamp("2020-01-01"), None);
    assert_eq!(try_str_to_timestamp("2020-13-01T00:00:00"), None);
    assert_eq!(try_str_to_timestamp(""), None);
}

#[test]
fn time_point_text() {
    assert_eq!(str_to_time_point("1970-01-01T00:00:01.5"), Some(1_500_000));
    assert_eq!(str_to_time_point("1969-12-31T23:59:59"), None);
    assert_eq!(str_to_time_point("later"), None);
    assert_eq!(time_point_to_str(1_500_000), Some("1970-01-01T00:00:01.500".to_string()));
    assert_eq!(time_point_to_str(u64::MAX), None);
}

#[test]
fn timestamp_text() {
    assert_eq!(timestamp_to_str(0), Some("1970-01-01T00:00:00".to_string()));
    assert_eq!(timestamp_to_str(u32::MAX), Some("2106-02-07T06:28:15".to_string()));
}

#[test]
fn block_slots() {
    assert_eq!(block_slot(946_684_800), Some(0));
    assert_eq!(block_slot(946_684_801), Some(2));
    assert_eq!(block_slot(946_684_799), None);
    assert_eq!(block_slot(946_684_800 + 2_147_483_647), Some(4_294_967_294));
    assert_eq!(block_slot(946_684_800 + 2_147_483_648), None);
    assert_eq!(block_seconds(0), 946_684_800);
    assert_eq!(block_seconds(3), 946_684_801);
    assert_eq!(block_seconds(u32::MAX), 946_684_800 + 2_147_483_647);
}

#[test]
fn decode_string_bytes_prefers_base64() {
    assert_eq!(try_decode_string_bytes("aGVsbG8=", None), Some(b"hello".to_vec()));
    assert_eq!(try_decode_string_bytes("0a0b", None), Some(vec![0xd1, 0xad, 0x1b]));
    assert_eq!(try_decode_string_bytes("0a0b0", None), None);
    assert_eq!(try_decode_string_bytes("0a", None), Some(vec![0x0a]));
    assert_eq!(try_decode_string_bytes("zz", None), None);
    assert_eq!(try_decode_string_bytes("", None), Some(vec![]));
}

#[test]
fn decode_string_bytes_zero_stands_for_the_default() {
    assert_eq!(try_decode_string_bytes("0", Some(4)), Some(vec![0, 0, 0, 0]));
    assert_eq!(try_decode_string_bytes("0", Some(0)), Some(vec![]));
    assert_eq!(try_decode_string_bytes("0", None), None);
    assert_eq!(try_decode_string_bytes("00", Some(4)), Some(vec![0]));
}
