//! Bit-window helpers shared across the patchers.

use sstools::mask_shift_get;
use sstools::mask_shift_set;
use sstools::MaskSet;
use sstools::MaskSetable;
use sstools::MaskShift;

/// The windowed setter and getter agree on their window.
#[test]
fn mask_shift_window() {
    let ms = MaskShift {
        mask: 0xFF,
        shift: 8,
    };
    let v = ms.mask_shift_set(0x1234_5678, 0xAB);
    assert_eq!(v, 0x1234_AB78);
    assert_eq!(ms.mask_shift_get(v), 0xAB);
}

/// Without a window the free functions pass the whole value through.
#[test]
fn optional_window() {
    assert_eq!(mask_shift_set(None, 5, 9), 9);
    assert_eq!(mask_shift_get(None, 5), 5);
    let ms = MaskShift { mask: 0xF, shift: 4 };
    assert_eq!(mask_shift_set(Some(ms), 0, 0x3), 0x30);
    assert_eq!(mask_shift_get(Some(ms), 0x30), 0x3);
}

/// Partial assignment through a mask works at every width.
#[test]
fn mask_set_widths() {
    let patch = MaskSet {
        mask: 0x0F,
        set: 0x05,
    };
    let mut a: u8 = 0xF0;
    a.apply(patch);
    assert_eq!(a, 0xF5);
    let mut b: u16 = 0xFFFF;
    b.apply(patch);
    assert_eq!(b, 0xFFF5);
    let mut c: u32 = 0;
    c.apply(patch);
    assert_eq!(c, 0x05);
}
