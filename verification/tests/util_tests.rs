use kfs::gdt::GdtEntry;
use kfs::interrupts::IdtEntry;
use kfs::rng::SimpleRng;
use kfs::util::{bcd_to_binary, format_mem_line, hex32, identical_segments};

#[test]
fn bcd_digits_unpack() {
    assert_eq!(bcd_to_binary(0x00), 0);
    assert_eq!(bcd_to_binary(0x42), 42);
    assert_eq!(bcd_to_binary(0x59), 59);
    assert_eq!(bcd_to_binary(0x99), 99);
}

#[test]
fn hex_rendering_is_zero_padded_lowercase() {
    assert_eq!(hex32(0), b"00000000".to_vec());
    assert_eq!(hex32(0xdeadbeef), b"deadbeef".to_vec());
    assert_eq!(hex32(0x800), b"00000800".to_vec());
    assert_eq!(hex32(u32::MAX), b"ffffffff".to_vec());
}

#[test]
fn mem_line_layout_is_exact() {
    let words = vec![1u32, 2, 3, 4];
    let line = format_mem_line(0x800, &words);
    assert_eq!(
        line,
        b"0x00000800   |   00000001  00000002  00000003  00000004  \n".to_vec()
    );
}

#[test]
fn segment_comparison_ignores_the_first_segment() {
    let a = vec![1i32, 2, 3, 4];
    let b = vec![1i32, 2, 3, 4];
    let c = vec![1i32, 2, 3, 5];
    assert!(!identical_segments(&a, &b, 0));
    assert!(identical_segments(&a, &b, 1));
    assert!(!identical_segments(&a, &c, 1));
}

#[test]
fn rng_follows_the_congruence() {
    let mut rng = SimpleRng::new(1);
    assert_eq!(rng.next_u32(), 1015568748);
    assert_eq!(rng.next_u32(), 1586005467);
    assert_eq!(rng.next_u32(), 2165703038);
}

#[test]
fn rng_same_seed_same_stream() {
    let mut a = SimpleRng::new(777);
    let mut b = SimpleRng::new(777);
    for _ in 0..10 {
        assert_eq!(a.next_u32(), b.next_u32());
    }
}

#[test]
fn gdt_entry_packs_base_and_limit() {
    let e = GdtEntry::new(0x0, 0xFFFFF, 0x9A, 0xCF);
    assert_eq!(e.limit_low, 0xFFFF);
    assert_eq!(e.base_low, 0);
    assert_eq!(e.base_middle, 0);
    assert_eq!(e.access, 0x9A);
    assert_eq!(e.granularity, 0xCF);
    assert_eq!(e.base_high, 0);
    let f = GdtEntry::new(0x12345678, 0xABCDE, 0x92, 0x40);
    assert_eq!(f.limit_low, 0xBCDE);
    assert_eq!(f.base_low, 0x5678);
    assert_eq!(f.base_middle, 0x34);
    assert_eq!(f.granularity, 0x4A);
    assert_eq!(f.base_high, 0x12);
}

#[test]
fn idt_entry_splits_the_handler_address() {
    let e = IdtEntry::new(0x12345678);
    assert_eq!(e.offset_0, 0x5678);
    assert_eq!(e.offset_48, 0x1234);
    assert_eq!(e.segment_selector, 0x08);
    assert_eq!(e.p_dpl_0_gatetype, 0x8e);
    let m = IdtEntry::missing();
    assert_eq!(m.offset_0, 0);
    assert_eq!(m.segment_selector, 0);
    assert_eq!(m.p_dpl_0_gatetype, 0);
}
