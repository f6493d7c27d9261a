use snel::nulls_bitmap::NullsBitmap;

#[test]
fn test_nulls_bitmap() {
    let mut bitmap = NullsBitmap::new();
    assert_eq!(bitmap.len(), 0);

    bitmap.append_null();
    bitmap.append_null();
    bitmap.append_not_null();
    bitmap.append_null();

    {
        let bits = bitmap.get_raw_bits();
        assert_eq!(bitmap.len(), 4);
        assert_eq!(bits.len(), 1);
        assert_eq!(*bits.get(0).unwrap(), 0b00000100);
    }

    bitmap.append_null();
    bitmap.append_not_null();
    bitmap.append_null();
    bitmap.append_not_null();

    bitmap.append_not_null();

    {
        let bits = bitmap.get_raw_bits();
        assert_eq!(bitmap.len(), 9);
        assert_eq!(bits.len(), 2);
        assert_eq!(*bits.get(0).unwrap(), 0b10100100);
        assert_eq!(*bits.get(1).unwrap(), 0b00000001);
    }

    bitmap.reset();
    assert_eq!(bitmap.len(), 0);
}

#[test]
fn bitmap_exact_layout_of_nine_flags() {
    let mut bitmap = NullsBitmap::new();
    for has_value in [false, false, true, false, false, true, false, true, true] {
        bitmap.append(has_value);
    }
    assert_eq!(bitmap.len(), 9);
    assert_eq!(bitmap.get_raw_bits(), &[0b10100100u8, 0b00000001u8][..]);
}

#[test]
fn bitmap_flags_match_appends() {
    let flags: Vec<bool> = (0..37).map(|i| i % 3 == 0 || i % 5 == 1).collect();
    let mut bitmap = NullsBitmap::new();
    for f in &flags {
        bitmap.append(*f);
    }
    assert_eq!(bitmap.len(), flags.len());
    assert_eq!(bitmap.get_raw_bits().len(), (flags.len() + 7) / 8);
    for (i, f) in flags.iter().enumerate() {
        let set = bitmap.get_raw_bits()[i / 8] & (1u8 << (i % 8)) != 0;
        assert_eq!(set, *f);
    }
}

#[test]
fn bitmap_reset_empties_everything() {
    let mut bitmap = NullsBitmap::new();
    for _ in 0..12 {
        bitmap.append_not_null();
    }
    bitmap.reset();
    assert_eq!(bitmap.len(), 0);
    assert!(bitmap.get_raw_bits().is_empty());
    bitmap.append_not_null();
    assert_eq!(bitmap.get_raw_bits(), &[1u8][..]);
}
