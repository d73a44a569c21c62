use coop_kernel::utils::{align_down, align_up};

#[test]
fn align_up_exact_values() {
    assert_eq!(align_up(0, 8), 0);
    assert_eq!(align_up(1, 8), 8);
    assert_eq!(align_up(7, 8), 8);
    assert_eq!(align_up(8, 8), 8);
    assert_eq!(align_up(9, 8), 16);
    assert_eq!(align_up(100, 1), 100);
    assert_eq!(align_up(0x3F_FFFF, 0x40_0000), 0x40_0000);
    assert_eq!(align_up(0x40_0001, 0x40_0000), 0x80_0000);
}

#[test]
fn align_down_exact_values() {
    assert_eq!(align_down(0, 8), 0);
    assert_eq!(align_down(7, 8), 0);
    assert_eq!(align_down(8, 8), 8);
    assert_eq!(align_down(15, 8), 8);
    assert_eq!(align_down(100, 1), 100);
    assert_eq!(align_down(0x7F_FFFF, 0x40_0000), 0x40_0000);
    assert_eq!(align_down(0x80_0000, 0x40_0000), 0x80_0000);
}
