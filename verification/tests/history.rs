use bletchmame::history::advance_position;

#[test]
pub fn advance_position_cases() {
    assert_eq!(None, advance_position(0, 3, 1));
    assert_eq!(Some(1), advance_position(0, 3, -1));
    assert_eq!(Some(0), advance_position(1, 3, 1));
    assert_eq!(Some(2), advance_position(1, 3, -1));
    assert_eq!(Some(1), advance_position(2, 3, 1));
    assert_eq!(None, advance_position(2, 3, -1));
}

#[test]
fn advance_position_back_and_forth() {
    for length in 1..6usize {
        for position in 0..length {
            for delta in -3..=3isize {
                if let Some(p) = advance_position(position, length, delta) {
                    assert_eq!(Some(position), advance_position(p, length, -delta));
                }
            }
        }
    }
}
