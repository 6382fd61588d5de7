use cauldron::offset::Offset;

#[allow(dead_code)]
struct Padded {
    a: u8,
    b: u16,
}

#[allow(dead_code)]
enum Mixed {
    A,
    B(u8),
    C(u16),
}

#[test]
fn macros_size_zero() {
    assert_eq!(core::mem::size_of::<()>(), 0x0);
}

#[test]
fn macros_size_bool() {
    assert_eq!(core::mem::size_of::<bool>(), 0x1);
}

#[test]
fn macros_size_array() {
    assert_eq!(core::mem::size_of::<[u8; 5]>(), 0x5);
}

#[test]
fn macros_size_struct() {
    assert_eq!(core::mem::size_of::<Padded>(), 0x4);
}

#[test]
fn macros_size_enum() {
    assert_eq!(core::mem::size_of::<Mixed>(), 0x4);
}

#[test]
fn macros_offset() {
    let first = 0usize;
    let align = core::mem::align_of::<u16>();
    let second = (first + core::mem::size_of::<u8>() + align - 1) / align * align;
    assert_eq!(first, 0x0);
    assert_eq!(second, 0x2);
}

#[test]
fn offset_is_one_machine_word() {
    assert_eq!(core::mem::size_of::<Offset>(), core::mem::size_of::<usize>());
}
