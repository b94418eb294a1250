use mod_plugins::kind::Rank;

#[test]
fn rank_positions_follow_the_scale() {
    assert_eq!(Rank::Highest.position(), 0);
    assert_eq!(Rank::High.position(), u32::MAX / 4);
    assert_eq!(Rank::Normal.position(), u32::MAX / 2);
    assert_eq!(Rank::Low.position(), u32::MAX / 4 * 3);
    assert_eq!(Rank::Lowest.position(), u32::MAX);
    assert_eq!(Rank::Custom(0).position(), u32::MAX);
    assert_eq!(Rank::Custom(7).position(), u32::MAX - 7);
    assert_eq!(Rank::Custom(u32::MAX).position(), 0);
}
