use ffiw::FfiError;
use ffiw::Registry;

const U16: usize = 2;
const U32: usize = 3;
const I16: usize = 6;
const I32: usize = 7;

#[test]
fn flatten_scalars_only_returns_immediate_offsets() {
    let mut r = Registry::new();
    let code = r.add_struct(&vec![U32, I16, I32], vec![0, 4, 6], 12, 4).unwrap();
    let flat = r.flatten_offsets(code).unwrap().unwrap();
    assert_eq!(flat, vec![0, 4, 6]);
}

#[test]
fn flatten_nested_struct_translates_child_offsets() {
    let mut r = Registry::new();
    // Inner { C: i16, D: i32 } at natural layout: C at 0, D at 4, size 8.
    let inner = r.add_struct(&vec![I16, I32], vec![0, 4], 8, 4).unwrap();
    // Outer { A: i32, B: Inner, E: i16 }: A at 0, B at 4, E at 12, size 16.
    let outer = r.add_struct(&vec![I32, inner, I16], vec![0, 4, 12], 16, 4).unwrap();
    let flat = r.flatten_offsets(outer).unwrap().unwrap();
    // Depth-first leaves [A, B.C, B.D, E]; B.C and B.D are B's offset plus
    // Inner's immediate offsets.
    assert_eq!(flat, vec![0, 4 + 0, 4 + 4, 12]);
}

#[test]
fn flatten_doubly_nested_struct() {
    let mut r = Registry::new();
    let inner = r.add_struct(&vec![U16, U16], vec![0, 2], 4, 2).unwrap();
    let middle = r.add_struct(&vec![inner, U32], vec![0, 4], 8, 4).unwrap();
    let outer = r.add_struct(&vec![U32, middle], vec![0, 4], 12, 4).unwrap();
    let flat = r.flatten_offsets(outer).unwrap().unwrap();
    // middle flattens to [0, 2, 4]; translated by 4 inside outer.
    assert_eq!(flat, vec![0, 4, 6, 8]);
}

#[test]
fn flatten_scalar_code_is_none() {
    let r = Registry::new();
    assert!(r.flatten_offsets(I32).unwrap().is_none());
}

#[test]
fn flatten_empty_struct_is_empty() {
    let mut r = Registry::new();
    let code = r.add_struct(&vec![], vec![], 0, 1).unwrap();
    let flat = r.flatten_offsets(code).unwrap().unwrap();
    assert!(flat.is_empty());
}

#[test]
fn flatten_struct_with_empty_child_skips_it() {
    let mut r = Registry::new();
    let empty = r.add_struct(&vec![], vec![], 0, 1).unwrap();
    let outer = r.add_struct(&vec![U32, empty, U16], vec![0, 4, 4], 8, 4).unwrap();
    let flat = r.flatten_offsets(outer).unwrap().unwrap();
    // The empty child has no leaves, so it contributes no entry.
    assert_eq!(flat, vec![0, 4]);
}

#[test]
fn flatten_unknown_code_is_an_error() {
    let r = Registry::new();
    assert_eq!(r.flatten_offsets(99), Err(FfiError::UnknownTypeCode));
}
