use ffiw::FfiError;
use ffiw::Registry;

const VOID: usize = 0;
const U8: usize = 1;
const U64: usize = 4;
const I16: usize = 6;
const I32: usize = 7;
const F64: usize = 10;
const PTR: usize = 11;

#[test]
fn fresh_registry_seeds_the_twelve_scalar_codes() {
    let r = Registry::new();
    assert_eq!(r.type_count(), 12);
    assert_eq!(r.struct_count(), 0);
    assert_eq!(r.size_of_code(VOID), Some(1));
    assert_eq!(r.size_of_code(U8), Some(1));
    assert_eq!(r.size_of_code(U64), Some(8));
    assert_eq!(r.size_of_code(I16), Some(2));
    assert_eq!(r.size_of_code(I32), Some(4));
    assert_eq!(r.size_of_code(F64), Some(8));
    assert_eq!(r.size_of_code(PTR), Some(8));
    assert_eq!(r.size_of_code(12), None);
}

#[test]
fn building_the_same_shape_twice_gives_distinct_codes() {
    let mut r = Registry::new();
    let c1 = r.add_struct(&vec![I32, I16], vec![0, 4], 8, 4).unwrap();
    let c2 = r.add_struct(&vec![I32, I16], vec![0, 4], 8, 4).unwrap();
    assert_ne!(c1, c2);
    assert_eq!(c1, 12);
    assert_eq!(c2, 13);
    assert_eq!(r.struct_count(), 2);
    assert_eq!(r.type_count(), 14);
}

#[test]
fn concrete_scenario_i32_i16_pairs() {
    let mut r = Registry::new();
    // Build [i32, i16, i32, i16] with the layout the native primitive
    // reports; here the packed-natural illustration [0, 4, 6, 10], size 12.
    let sizes = [4usize, 2, 4, 2];
    let code = r.add_struct(&vec![I32, I16, I32, I16], vec![0, 4, 6, 10], 12, 4).unwrap();
    let offs = r.struct_immediate_offsets(code).unwrap();
    assert_eq!(offs.len(), 4);
    // Internal consistency rather than a platform-specific size: offsets
    // strictly increasing, each field contained in the aggregate.
    for i in 0..offs.len() {
        if i + 1 < offs.len() {
            assert!(offs[i] < offs[i + 1]);
        }
        assert!(offs[i] + sizes[i] <= 12);
    }
    assert_eq!(r.size_of_code(code), Some(12));
}

#[test]
fn build_struct_rejects_unregistered_code() {
    let mut r = Registry::new();
    assert_eq!(
        r.add_struct(&vec![I32, 99], vec![0, 4], 8, 4),
        Err(FfiError::UnknownTypeCode)
    );
    // The failed build registered nothing.
    assert_eq!(r.type_count(), 12);
    assert_eq!(r.struct_count(), 0);
}

#[test]
fn build_struct_rejects_wrong_offset_count() {
    let mut r = Registry::new();
    assert_eq!(
        r.add_struct(&vec![I32, I16], vec![0], 8, 4),
        Err(FfiError::LayoutArityMismatch)
    );
}

#[test]
fn build_struct_rejects_field_beyond_size() {
    let mut r = Registry::new();
    // The second field would end at byte 10 of an 8-byte aggregate.
    assert_eq!(
        r.add_struct(&vec![I32, I32], vec![0, 6], 8, 4),
        Err(FfiError::LayoutInconsistent)
    );
}

#[test]
fn register_function_rejects_unknown_codes() {
    let mut r = Registry::new();
    assert_eq!(
        r.add_function(String::from("f"), &vec![77], I32, 0x1000),
        Err(FfiError::UnknownTypeCode)
    );
    assert_eq!(
        r.add_function(String::from("f"), &vec![I32], 77, 0x1000),
        Err(FfiError::UnknownTypeCode)
    );
}

#[test]
fn last_registration_of_a_name_wins() {
    let mut r = Registry::new();
    r.add_function(String::from("f"), &vec![I32], I32, 0x1000).unwrap();
    r.add_function(String::from("f"), &vec![I32], U64, 0x2000).unwrap();
    r.set_target(&String::from("f")).unwrap();
    let plan = r.begin_call().unwrap();
    // The second registration's return type (u64) and address are in force.
    assert_eq!(plan.ret_size, 8);
    assert_eq!(plan.addr, 0x2000);
}
