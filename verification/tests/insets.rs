use guillotine::{Insets, Size};

#[test]
fn css_shorthands_expand_in_trbl_order() {
    assert_eq!(Insets::from(10), Insets::new(10, 10, 10, 10));
    assert_eq!(Insets::from((4, 8)), Insets::new(4, 8, 4, 8));
    assert_eq!(Insets::from((4, 8, 12)), Insets::new(4, 8, 12, 8));
    assert_eq!(Insets::from((4, 8, 12, 16)), Insets::new(4, 8, 12, 16));
}

#[test]
fn typed_unsigned_inputs_are_supported() {
    assert_eq!(Insets::from(3_u32), Insets::uniform(3));
    assert_eq!(Insets::from((1_usize, 2, 3)), Insets::new(1, 2, 3, 2));
}

#[test]
fn usize_conversion_saturates() {
    assert_eq!(Insets::from(usize::MAX), Insets::uniform(u32::MAX));
}

#[test]
fn inset_arithmetic_saturates() {
    let insets = Insets::new(u32::MAX, u32::MAX, 3, 4);

    assert_eq!(insets.horizontal(), u32::MAX);
    assert_eq!(insets.vertical(), u32::MAX);
    assert_eq!(
        insets.saturating_add(Insets::new(1, 2, u32::MAX, u32::MAX)),
        Insets::new(u32::MAX, u32::MAX, u32::MAX, u32::MAX),
    );
}

#[test]
fn inset_totals_add_opposite_edges() {
    let insets = Insets::new(1, 2, 3, 4);
    assert_eq!(insets.horizontal(), 6);
    assert_eq!(insets.vertical(), 4);
    assert_eq!(insets.total_size(), Size::new(6, 4));
    assert_eq!(Insets::default(), Insets::zero());
    assert_eq!(Insets::uniform(5), Insets::new(5, 5, 5, 5));
}

#[test]
fn inset_addition_is_edgewise() {
    assert_eq!(
        Insets::new(1, 2, 3, 4).saturating_add(Insets::new(10, 20, 30, 40)),
        Insets::new(11, 22, 33, 44),
    );
}

#[test]
fn signed_shorthands_expand_like_unsigned_ones() {
    assert_eq!(Insets::from((1, 2)), Insets::new(1, 2, 1, 2));
    assert_eq!(Insets::from((1_u32, 2, 3, 4)), Insets::from((1, 2, 3, 4)));
    assert_eq!(Insets::from(Insets::new(5, 6, 7, 8)), Insets::new(5, 6, 7, 8));
    assert_eq!(Insets::from((7_usize, usize::MAX)), Insets::new(7, u32::MAX, 7, u32::MAX));
}
