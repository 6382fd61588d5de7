use cauldron::offset::{get_module, Offset};
use cauldron::pattern::PatternSearchError;

fn image_with_size(size: u32, nt_at: u32, len: usize) -> Vec<u8> {
    let mut image = vec![0u8; len];
    image[0x3c..0x40].copy_from_slice(&nt_at.to_le_bytes());
    let field = nt_at as usize + 0x50;
    if field + 4 <= len {
        image[field..field + 4].copy_from_slice(&size.to_le_bytes());
    }
    image
}

#[test]
fn adjusts_forward_and_backward() {
    let offset = Offset::new(0x1000);
    assert_eq!(offset.as_adjusted(0x10).as_ptr(), 0x1010);
    assert_eq!(offset.as_nadjusted(0x10).as_ptr(), 0x0ff0);
    assert_eq!(offset.as_adjusted(0).as_ptr(), 0x1000);
    assert_eq!(offset.as_nadjusted(0x1000).as_ptr(), 0);
    assert_eq!(offset, Offset::new(0x1000));
}

#[test]
fn module_offset_subtracts_the_base() {
    assert_eq!(Offset::new(0x14000_1234).as_offset(0x14000_0000), 0x1234);
    assert_eq!(Offset::new(0x5000).as_offset(0x5000), 0);
}

#[test]
fn resolves_forward_relative_target() {
    // call at 0x1002, five bytes long, displacement +0x20
    let memory = [0x90u8, 0x90, 0xe8, 0x20, 0x00, 0x00, 0x00, 0x90];
    let target = Offset::new(0x1002).as_relative(0x1000, &memory, 5);
    assert_eq!(target.as_ptr(), 0x1002 + 5 + 0x20);
}

#[test]
fn resolves_backward_relative_target() {
    // displacement -0x10 = f0 ff ff ff
    let memory = [0xe8u8, 0xf0, 0xff, 0xff, 0xff];
    let target = Offset::new(0x2000).as_relative(0x2000, &memory, 5);
    assert_eq!(target.as_ptr(), 0x2000 + 5 - 0x10);
}

#[test]
fn resolves_relative_target_of_longer_instruction() {
    // mov rax, [rip + 0x01020304]: seven bytes
    let memory = [0x48u8, 0x8b, 0x05, 0x04, 0x03, 0x02, 0x01];
    let target = Offset::new(0x4000).as_relative(0x4000, &memory, 7);
    assert_eq!(target.as_ptr(), 0x4000 + 7 + 0x0102_0304);
}

#[test]
fn signature_gives_address_of_first_match() {
    let memory = [0x00u8, 0x48, 0x8b, 0x05, 0x48, 0x8b, 0x00];
    let found = Offset::from_signature(0x7000, 0x7005, &memory, "48 8B").unwrap();
    assert_eq!(found.as_ptr(), 0x7001);
    assert_eq!(
        Offset::from_signature(0x7000, 0x7005, &memory, "48 8B 06").unwrap_err(),
        PatternSearchError::NotFound
    );
    assert_eq!(
        Offset::from_signature(0x7000, 0x7005, &memory, "4").unwrap_err(),
        PatternSearchError::Parse
    );
}

#[test]
fn locates_module_from_headers() {
    let image = image_with_size(0x0012_3000, 0x80, 0x200);
    assert_eq!(get_module(0x1_4000_0000, &image), Ok((0x1_4000_0000, 0x1_4012_3000)));
}

#[test]
fn null_base_is_out_of_range() {
    let image = image_with_size(0x1000, 0x80, 0x200);
    assert_eq!(get_module(0, &image), Err(PatternSearchError::OutOfRange));
}

#[test]
fn unreadable_headers_are_out_of_range() {
    assert_eq!(get_module(0x1000, &[0u8; 0x3f]), Err(PatternSearchError::OutOfRange));
    let beyond = image_with_size(0x1000, 0x1c0, 0x200);
    assert_eq!(get_module(0x1000, &beyond), Err(PatternSearchError::OutOfRange));
    let negative = image_with_size(0x1000, 0xffff_fff0, 0x200);
    assert_eq!(get_module(0x1000, &negative), Err(PatternSearchError::OutOfRange));
    let exact = image_with_size(0x1000, 0x1ac, 0x200);
    assert_eq!(get_module(0x1000, &exact), Ok((0x1000, 0x2000)));
}

#[test]
fn end_beyond_the_address_space_is_out_of_range() {
    let image = image_with_size(0x20, 0x80, 0x200);
    assert_eq!(get_module(usize::MAX - 0x10, &image), Err(PatternSearchError::OutOfRange));
    assert_eq!(get_module(usize::MAX - 0x20, &image), Ok((usize::MAX - 0x20, usize::MAX)));
}

#[test]
fn relative_target_is_refused_outside_the_memory() {
    let memory = [0xe8u8, 0x20, 0x00, 0x00, 0x00];
    let at = Offset::new(0x1000);
    assert_eq!(at.checked_relative(0x1000, &memory, 5), Some(Offset::new(0x1025)));
    assert_eq!(at.checked_relative(0x1000, &memory, 6), None);
    assert_eq!(at.checked_relative(0x1000, &memory, 3), None);
    assert_eq!(at.checked_relative(0x1001, &memory, 4), None);
    assert_eq!(at.checked_relative(0x0fff, &memory, 5), None);
    assert_eq!(at.checked_relative(0x0fff, &memory, 4), Some(Offset::new(0x1024)));
    assert_eq!(
        Offset::new(0x0ffc).checked_relative(0x1000, &memory, 8),
        Some(Offset::new(0x1004 + 0x20e8))
    );
    assert_eq!(at.checked_relative(usize::MAX - 2, &memory, 5), None);
}

#[test]
fn relative_target_has_to_be_an_address() {
    // displacement -0x10 from the end of an instruction at address 4
    let back = [0xe8u8, 0xf0, 0xff, 0xff, 0xff];
    assert_eq!(Offset::new(4).checked_relative(4, &back, 5), None);
    assert_eq!(Offset::new(11).checked_relative(11, &back, 5), Some(Offset::new(0)));
    let forward = [0xe8u8, 0xff, 0xff, 0xff, 0x7f];
    let high = usize::MAX - 0x7fff_ffff - 5;
    assert_eq!(
        Offset::new(high).checked_relative(high, &forward, 5),
        Some(Offset::new(usize::MAX))
    );
    assert_eq!(Offset::new(high + 1).checked_relative(high + 1, &forward, 5), None);
}
