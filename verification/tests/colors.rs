use blokus::color::Color;
use blokus::direction::Direction;

#[test]
fn color_cycle() {
    let colors = [Color::BLUE, Color::YELLOW, Color::RED, Color::GREEN];
    for c in colors.iter() {
        assert_eq!(c.next().previous(), *c);
        assert_eq!(c.next().next().next().next(), *c);
    }
    assert_eq!(Color::GREEN.next(), Color::BLUE);
    assert_eq!(Color::BLUE.previous(), Color::GREEN);
    assert_eq!(Color::BLUE.team_i16(), -1);
    assert_eq!(Color::YELLOW.team_i16(), 1);
    assert_eq!(Color::RED.to_string(), "RED (Team ONE)");
    assert_eq!(Color::GREEN.to_string(), "GREEN (Team TWO)");
}

#[test]
fn direction_turns() {
    for n in 0..4u16 {
        let d = Direction::from_u16(n);
        assert_eq!(d.clockwise().anticlockwise(), d);
        assert_eq!(d.clockwise().clockwise(), d.mirror());
        assert_eq!(d.mirror().mirror(), d);
    }
    assert_eq!(Direction::LEFT.clockwise(), Direction::UP);
    assert_eq!(Direction::DOWN.clockwise(), Direction::LEFT);
    assert_eq!(Direction::from_u16(2).to_string(), "RIGHT");
}
