use lib::gpu_buffer::{read_copy_size, sg_copy_sizes, Flags, Format};

#[test]
fn format_debug() {
    let f = Format::new(b'X', b'R', b'2', b'4');
    let buf = f.to_debug_string();
    assert_eq!(buf, "fourcc(XR24)");

    let f = Format::new(0, 1, 2, 16);
    let buf = f.to_debug_string();
    assert_eq!(buf, "fourcc(0x00010210)");
}

#[test]
fn format_bytes_and_conversions() {
    let f = Format::new(b'X', b'R', b'2', b'4');
    assert_eq!(f.to_bytes(), [b'X', b'R', b'2', b'4']);
    let raw: u32 = f.into();
    assert_eq!(raw, 0x3432_5258);
    assert!(Format::from(raw) == f);
}

#[test]
fn flags_set_and_clear() {
    let f = Flags::empty().use_scanout(true).use_linear(true);
    assert!(f == Flags::new(1 | 16));
    let f = f.use_scanout(false);
    assert!(f == Flags::new(16));
    let f = Flags::empty().use_cursor(true).use_rendering(true).use_texturing(true);
    assert!(f == Flags::new(2 | 4 | 32));
    assert!(f.use_cursor64(false) == Flags::new(4 | 32));
}

#[test]
fn scatter_gather_copy_plan() {
    assert_eq!(sg_copy_sizes(2, 4, &vec![3, 3, 3, 3]), vec![3, 3, 2]);
    assert_eq!(sg_copy_sizes(1, 4, &vec![10]), vec![4]);
    assert_eq!(sg_copy_sizes(0, 4, &vec![10]), Vec::<u64>::new());
}

#[test]
fn read_copies_rows_that_fit() {
    assert_eq!(read_copy_size(3, 16, 48), Some(48));
    assert_eq!(read_copy_size(3, 16, 100), Some(48));
    assert_eq!(read_copy_size(3, 16, 47), None);
    assert_eq!(read_copy_size(0, 16, 0), Some(0));
}
