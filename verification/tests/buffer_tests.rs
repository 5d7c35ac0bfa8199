use jitbuf::buffer::ByteBuffer;
use jitbuf::buffer::PAGE_SIZE;

#[test]
fn new_buffer_is_empty_writable_and_zeroed() {
    let b = ByteBuffer::new();
    assert_eq!(b.len(), 0);
    assert!(b.is_writable());
    for i in 0..PAGE_SIZE {
        assert_eq!(b.get(i), 0);
    }
}

#[test]
fn appends_within_capacity_all_succeed() {
    let mut b = ByteBuffer::new();
    assert!(b.push_u8(0x01));
    assert_eq!(b.len(), 1);
    assert!(b.load(vec![0x02, 0x03, 0x04]));
    assert_eq!(b.len(), 4);
    assert!(b.load(vec![0x90; PAGE_SIZE - 1 - 4]));
    assert_eq!(b.len(), PAGE_SIZE - 1);
    assert_eq!(b.get(0), 0x01);
    assert_eq!(b.get(1), 0x02);
    assert_eq!(b.get(2), 0x03);
    assert_eq!(b.get(3), 0x04);
    assert_eq!(b.get(4), 0x90);
    assert_eq!(b.get(PAGE_SIZE - 2), 0x90);
}

#[test]
fn last_byte_of_the_region_is_never_written() {
    let mut b = ByteBuffer::new();
    // A full-capacity load is rejected outright.
    assert!(!b.load(vec![0x90; PAGE_SIZE]));
    assert_eq!(b.len(), 0);
    // Capacity minus one is the largest accepted load.
    assert!(b.load(vec![0x90; PAGE_SIZE - 1]));
    assert_eq!(b.len(), PAGE_SIZE - 1);
    // Nothing more fits, not even a single byte.
    assert!(!b.push_u8(0xff));
    assert_eq!(b.len(), PAGE_SIZE - 1);
    assert_eq!(b.get(PAGE_SIZE - 1), 0);
}

#[test]
fn rejected_append_leaves_length_and_content_unchanged() {
    let mut b = ByteBuffer::new();
    assert!(b.load(vec![0xaa; PAGE_SIZE - 3]));
    // Two more bytes would still fit, four would not: no partial write.
    assert!(!b.load(vec![0x11, 0x22, 0x33, 0x44]));
    assert_eq!(b.len(), PAGE_SIZE - 3);
    assert_eq!(b.get(PAGE_SIZE - 3), 0);
    assert_eq!(b.get(PAGE_SIZE - 2), 0);
    assert_eq!(b.get(0), 0xaa);
    assert_eq!(b.get(PAGE_SIZE - 4), 0xaa);
}

#[test]
fn set_mode_is_idempotent() {
    let mut b = ByteBuffer::new();
    assert!(b.push_u8(0x42));
    b.executable();
    assert!(!b.is_writable());
    b.executable();
    assert!(!b.is_writable());
    assert_eq!(b.get(0), 0x42);
    b.writable();
    assert!(b.is_writable());
    b.writable();
    assert!(b.is_writable());
    assert_eq!(b.get(0), 0x42);
    assert_eq!(b.len(), 1);
}

#[test]
fn push_u8_writes_one_byte() {
    let mut b = ByteBuffer::new();
    assert!(b.push_u8(0xb8));
    assert_eq!(b.len(), 1);
    assert_eq!(b.get(0), 0xb8);
}

#[test]
fn push_u16_orders() {
    let mut b = ByteBuffer::new();
    assert!(b.push_u16_be(0x1234));
    assert!(b.push_u16_le(0x1234));
    assert_eq!(b.len(), 4);
    assert_eq!(b.get(0), 0x12);
    assert_eq!(b.get(1), 0x34);
    assert_eq!(b.get(2), 0x34);
    assert_eq!(b.get(3), 0x12);
}

#[test]
fn push_u32_orders() {
    let mut b = ByteBuffer::new();
    assert!(b.push_u32_le(0x000000ab));
    assert_eq!(b.get(0), 0xab);
    assert_eq!(b.get(1), 0x00);
    assert_eq!(b.get(2), 0x00);
    assert_eq!(b.get(3), 0x00);
    let mut c = ByteBuffer::new();
    assert!(c.push_u32_be(0x000000ab));
    assert_eq!(c.get(0), 0x00);
    assert_eq!(c.get(1), 0x00);
    assert_eq!(c.get(2), 0x00);
    assert_eq!(c.get(3), 0xab);
}

#[test]
fn push_u64_orders() {
    let mut b = ByteBuffer::new();
    assert!(b.push_u64_be(0x0102030405060708));
    assert!(b.push_u64_le(0x0102030405060708));
    assert_eq!(b.len(), 16);
    for i in 0..8 {
        assert_eq!(b.get(i), (i + 1) as u8);
        assert_eq!(b.get(8 + i), (8 - i) as u8);
    }
}

#[test]
fn patching_overwrites_a_single_byte() {
    let mut b = ByteBuffer::new();
    assert!(b.load(vec![0xb8, 0x80, 0x00, 0x00, 0x00, 0xc3]));
    b.writable();
    b.set(1, 0x10);
    assert_eq!(b.get(0), 0xb8);
    assert_eq!(b.get(1), 0x10);
    assert_eq!(b.get(2), 0x00);
    assert_eq!(b.get(5), 0xc3);
    assert_eq!(b.len(), 6);
}

#[test]
fn append_auto_transitions_back_to_writable() {
    let mut b = ByteBuffer::new();
    assert!(b.push_u8(0x01));
    b.executable();
    assert!(!b.is_writable());
    assert!(b.push_u8(0x02));
    assert!(b.is_writable());
    assert_eq!(b.get(0), 0x01);
    assert_eq!(b.get(1), 0x02);
}

#[test]
fn capacity_is_rounded_up_to_the_page_size() {
    // A one-byte request still gets a whole page.
    let mut b = ByteBuffer::alloc_with_size(1);
    assert!(b.load(vec![0x90; PAGE_SIZE - 1]));
    assert!(!b.push_u8(0x90));
    // A request one past a page boundary gets two pages.
    let mut c = ByteBuffer::alloc_with_size(PAGE_SIZE + 1);
    assert!(c.load(vec![0x90; 2 * PAGE_SIZE - 1]));
    assert!(!c.push_u8(0x90));
}

#[test]
fn construct_and_drop_releases_the_region_once() {
    let b = ByteBuffer::new();
    drop(b);
    // A second buffer maps and releases its own region independently.
    let c = ByteBuffer::new();
    assert_eq!(c.len(), 0);
}

#[test]
fn to_callable_exposes_the_written_bytes() {
    let mut b = ByteBuffer::new();
    assert!(b.load(vec![0xb8, 0x80, 0x00, 0x00, 0x00, 0xc3]));
    let m = b.to_callable();
    assert_eq!(m[0], 0xb8);
    assert_eq!(m[1], 0x80);
    assert_eq!(m[5], 0xc3);
    assert!(!b.is_writable());
}
