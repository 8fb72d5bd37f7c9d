use ffiw::FfiError;
use ffiw::Registry;

const U8: usize = 1;
const U16: usize = 2;
const U32: usize = 3;
const U64: usize = 4;
const I16: usize = 6;
const I32: usize = 7;
const I64: usize = 8;

#[test]
fn call_with_no_target_fails_fast() {
    let r = Registry::new();
    assert!(matches!(r.begin_call(), Err(FfiError::NoTarget)));
}

#[test]
fn write_and_read_with_no_target_fail_fast() {
    let mut r = Registry::new();
    assert_eq!(r.write_u32(5), Err(FfiError::NoTarget));
    assert_eq!(r.read_u32(), Err(FfiError::NoTarget));
    assert_eq!(r.complete_call(&vec![0u8; 4]), Err(FfiError::NoTarget));
}

#[test]
fn set_target_requires_a_registered_name() {
    let mut r = Registry::new();
    assert_eq!(r.set_target(&String::from("nope")), Err(FfiError::UnknownFunction));
}

#[test]
fn scalar_round_trip_through_identity_callee() {
    let mut r = Registry::new();
    r.add_function(String::from("id"), &vec![U32], U32, 0x1000).unwrap();
    r.set_target(&String::from("id")).unwrap();
    r.write_u32(0xDEAD_BEEF).unwrap();
    let plan = r.begin_call().unwrap();
    assert_eq!(plan.arg_bytes.len(), 8); // one u32 slot, padded to 8
    assert_eq!(plan.ret_size, 4);
    // An identity-like callee copies its argument bytes to its return value.
    let ret_bytes: Vec<u8> = plan.arg_bytes[..plan.ret_size].to_vec();
    r.complete_call(&ret_bytes).unwrap();
    assert_eq!(r.read_u32().unwrap(), 0xDEAD_BEEF);
}

#[test]
fn struct_round_trip_through_identity_callee() {
    let mut r = Registry::new();
    let pair = r.add_struct(&vec![U32, U16], vec![0, 4], 8, 4).unwrap();
    r.add_function(String::from("idp"), &vec![pair], pair, 0x1000).unwrap();
    r.set_target(&String::from("idp")).unwrap();
    r.write_u32(123_456_789).unwrap();
    r.write_u16(54_321).unwrap();
    let plan = r.begin_call().unwrap();
    assert_eq!(plan.ret_size, 8);
    let ret_bytes: Vec<u8> = plan.arg_bytes[..8].to_vec();
    r.complete_call(&ret_bytes).unwrap();
    assert_eq!(r.read_u32().unwrap(), 123_456_789);
    assert_eq!(r.read_u16().unwrap(), 54_321);
}

#[test]
fn signed_round_trip_through_identity_callee() {
    let mut r = Registry::new();
    let trio = r.add_struct(&vec![I32, I64, I16], vec![0, 8, 16], 24, 8).unwrap();
    r.add_function(String::from("ids"), &vec![trio], trio, 0x1000).unwrap();
    r.set_target(&String::from("ids")).unwrap();
    r.write_i32(-123_456).unwrap();
    r.write_i64(-9_876_543_210).unwrap();
    r.write_i16(-42).unwrap();
    let plan = r.begin_call().unwrap();
    let ret_bytes: Vec<u8> = plan.arg_bytes[..24].to_vec();
    r.complete_call(&ret_bytes).unwrap();
    assert_eq!(r.read_i32().unwrap(), -123_456);
    assert_eq!(r.read_i64().unwrap(), -9_876_543_210);
    assert_eq!(r.read_i16().unwrap(), -42);
}

#[test]
fn unsigned_extremes_round_trip() {
    let mut r = Registry::new();
    let quad = r.add_struct(&vec![U8, U16, U32, U64], vec![0, 2, 4, 8], 16, 8).unwrap();
    r.add_function(String::from("idq"), &vec![quad], quad, 0x1000).unwrap();
    r.set_target(&String::from("idq")).unwrap();
    r.write_u8(u8::MAX).unwrap();
    r.write_u16(u16::MAX).unwrap();
    r.write_u32(u32::MAX).unwrap();
    r.write_u64(u64::MAX).unwrap();
    let plan = r.begin_call().unwrap();
    let ret_bytes: Vec<u8> = plan.arg_bytes[..16].to_vec();
    r.complete_call(&ret_bytes).unwrap();
    assert_eq!(r.read_u8().unwrap(), u8::MAX);
    assert_eq!(r.read_u16().unwrap(), u16::MAX);
    assert_eq!(r.read_u32().unwrap(), u32::MAX);
    assert_eq!(r.read_u64().unwrap(), u64::MAX);
}

#[test]
fn argument_slots_are_padded_to_eight_bytes() {
    let mut r = Registry::new();
    let wide = r.add_struct(&vec![U32, U32, U32], vec![0, 4, 8], 12, 4).unwrap();
    r.add_function(String::from("g"), &vec![U8, wide, U16], VOID_RET, 0x1000).unwrap();
    r.set_target(&String::from("g")).unwrap();
    let plan = r.begin_call().unwrap();
    // 1 -> 8, 12 -> 16, 2 -> 8: the buffer is the sum of padded slots.
    assert_eq!(plan.arg_bytes.len(), 8 + 16 + 8);
    assert_eq!(plan.arg_locations, vec![0, 8, 24]);
    // Slots do not overlap: each base plus its size stays within the next.
    assert!(0 + 1 <= 8);
    assert!(8 + 12 <= 24);
    assert!(24 + 2 <= plan.arg_bytes.len());
}

const VOID_RET: usize = 0;

#[test]
fn write_past_the_location_list_fails_fast() {
    let mut r = Registry::new();
    r.add_function(String::from("one"), &vec![U32], U32, 0x1000).unwrap();
    r.set_target(&String::from("one")).unwrap();
    r.write_u32(1).unwrap();
    assert_eq!(r.write_u32(2), Err(FfiError::WriteCursorOverflow));
}

#[test]
fn read_past_the_location_list_fails_fast() {
    let mut r = Registry::new();
    r.add_function(String::from("one"), &vec![U32], U32, 0x1000).unwrap();
    r.set_target(&String::from("one")).unwrap();
    r.complete_call(&vec![1, 0, 0, 0]).unwrap();
    assert_eq!(r.read_u32().unwrap(), 1);
    assert_eq!(r.read_u32(), Err(FfiError::ReadCursorOverflow));
}

#[test]
fn wide_read_past_the_slot_fails_fast() {
    let mut r = Registry::new();
    r.add_function(String::from("small"), &vec![U16], U16, 0x1000).unwrap();
    r.set_target(&String::from("small")).unwrap();
    r.complete_call(&vec![7, 0]).unwrap();
    // The return buffer is two bytes; an eight-byte read cannot fit.
    assert_eq!(r.read_u64(), Err(FfiError::SlotOutOfBounds));
    // The failed read did not advance the cursor.
    assert_eq!(r.read_u16().unwrap(), 7);
}

#[test]
fn return_bytes_must_match_the_return_size() {
    let mut r = Registry::new();
    r.add_function(String::from("one"), &vec![U32], U32, 0x1000).unwrap();
    r.set_target(&String::from("one")).unwrap();
    assert_eq!(r.complete_call(&vec![0u8; 3]), Err(FfiError::ReturnSizeMismatch));
}

#[test]
fn completing_a_call_rewinds_the_read_cursor() {
    let mut r = Registry::new();
    r.add_function(String::from("one"), &vec![U32], U32, 0x1000).unwrap();
    r.set_target(&String::from("one")).unwrap();
    r.complete_call(&vec![9, 0, 0, 0]).unwrap();
    assert_eq!(r.read_u32().unwrap(), 9);
    // A fresh set of return bytes rewinds reading to the first leaf.
    r.complete_call(&vec![11, 0, 0, 0]).unwrap();
    assert_eq!(r.read_u32().unwrap(), 11);
}

#[test]
fn selecting_a_new_target_resets_the_session() {
    let mut r = Registry::new();
    r.add_function(String::from("a"), &vec![U32], U32, 0x1000).unwrap();
    r.add_function(String::from("b"), &vec![U16], U16, 0x2000).unwrap();
    r.set_target(&String::from("a")).unwrap();
    r.write_u32(5).unwrap();
    r.set_target(&String::from("b")).unwrap();
    // The replacement target starts with fresh cursors and a zeroed buffer.
    let plan = r.begin_call().unwrap();
    assert_eq!(plan.addr, 0x2000);
    assert_eq!(plan.arg_bytes, vec![0u8; 8]);
    r.write_u16(3).unwrap();
    assert_eq!(r.write_u16(4), Err(FfiError::WriteCursorOverflow));
}

#[test]
fn oversized_argument_buffer_is_detected() {
    let mut r = Registry::new();
    // An empty struct may claim any size; one spanning the whole address
    // space cannot be given a padded argument slot.
    let huge = r.add_struct(&vec![], vec![], usize::MAX, 1).unwrap();
    r.add_function(String::from("big"), &vec![huge], U32, 0x1000).unwrap();
    assert_eq!(r.set_target(&String::from("big")), Err(FfiError::SizeOverflow));
    // The failed selection left no target behind.
    assert!(!r.has_target());
}

#[test]
fn wide_write_past_the_slot_fails_fast() {
    let mut r = Registry::new();
    // A 16-byte struct whose last leaf starts at byte 14: an eight-byte
    // write there would run past the argument buffer.
    let s = r.add_struct(&vec![U16, U16], vec![0, 14], 16, 2).unwrap();
    r.add_function(String::from("tail"), &vec![s], U16, 0x1000).unwrap();
    r.set_target(&String::from("tail")).unwrap();
    r.write_u16(1).unwrap();
    assert_eq!(r.write_u64(2), Err(FfiError::SlotOutOfBounds));
    // The failed write did not advance the cursor.
    r.write_u16(2).unwrap();
}

#[test]
fn has_target_reports_the_session_state() {
    let mut r = Registry::new();
    assert!(!r.has_target());
    r.add_function(String::from("a"), &vec![], U32, 0x1000).unwrap();
    r.set_target(&String::from("a")).unwrap();
    assert!(r.has_target());
}
