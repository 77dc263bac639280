use wit_bindgen_zig::ident::to_zig_ident;
use wit_bindgen_zig::numeric::narrow_signed;
use wit_bindgen_zig::numeric::narrow_unsigned;
use wit_bindgen_zig::numeric::widen_signed;
use wit_bindgen_zig::numeric::widen_unsigned;

#[test]
fn signed_round_trips_through_both_slots() {
    let samples: Vec<(i64, u32)> = vec![
        (0, 8),
        (-1, 8),
        (127, 8),
        (-128, 8),
        (-30000, 16),
        (32767, 16),
        (-2147483648, 32),
        (2147483647, 32),
    ];
    for (v, bits) in samples {
        assert_eq!(narrow_signed(widen_signed(v, bits, 32), bits), v);
        assert_eq!(narrow_signed(widen_signed(v, bits, 64), bits), v);
    }
    assert_eq!(narrow_signed(widen_signed(i64::MIN, 64, 64), 64), i64::MIN);
    assert_eq!(narrow_signed(widen_signed(i64::MAX, 64, 64), 64), i64::MAX);
}

#[test]
fn unsigned_round_trips_through_both_slots() {
    let samples: Vec<(u64, u32)> = vec![
        (0, 8),
        (255, 8),
        (65535, 16),
        (4294967295, 32),
        (240, 8),
        (40000, 16),
    ];
    for (v, bits) in samples {
        assert_eq!(narrow_unsigned(widen_unsigned(v, bits, 32), bits), v);
        assert_eq!(narrow_unsigned(widen_unsigned(v, bits, 64), bits), v);
    }
    assert_eq!(
        narrow_unsigned(widen_unsigned(u64::MAX, 64, 64), 64),
        u64::MAX
    );
}

#[test]
fn sign_extension_fills_the_slot() {
    assert_eq!(widen_signed(-1, 8, 32), 0xffff_ffff);
    assert_eq!(widen_signed(-1, 16, 64), u64::MAX);
    assert_eq!(widen_signed(-2, 8, 32), 0xffff_fffe);
    assert_eq!(widen_signed(5, 8, 32), 5);
}

#[test]
fn zero_extension_keeps_the_value() {
    assert_eq!(widen_unsigned(0xff, 8, 32), 0xff);
    assert_eq!(widen_unsigned(0xffff, 16, 64), 0xffff);
}

#[test]
fn narrowing_truncates_to_the_low_bits() {
    assert_eq!(narrow_unsigned(0x1ff, 8), 0xff);
    assert_eq!(narrow_unsigned(0x12345678, 16), 0x5678);
    assert_eq!(narrow_signed(0xffff_ffff, 8), -1);
    assert_eq!(narrow_signed(0x80, 8), -128);
    assert_eq!(narrow_signed(0x7f, 8), 127);
}

#[test]
fn identifier_conversion_is_not_the_identity() {
    assert_eq!(to_zig_ident("FooBar"), "foo_bar");
    assert_eq!(to_zig_ident("hello-world"), "hello_world");
    assert_eq!(to_zig_ident("test"), "test_");
    assert_eq!(to_zig_ident("already_snake"), "already_snake");
}
