use vstd::prelude::*;
use vstd::string::*;

verus! {

/// The four colors in the order in which they move. Blue and red form team one, yellow and
/// green team two.
#[derive(Copy, Clone, Debug, PartialEq, Eq, Structural)]
pub enum Color {
    BLUE,
    YELLOW,
    RED,
    GREEN,
}

/// The color with number `i % 4`.
pub open spec fn color_spec(i: int) -> Color {
    let k = i % 4;
    if k == 0 {
        Color::BLUE
    } else if k == 1 {
        Color::YELLOW
    } else if k == 2 {
        Color::RED
    } else {
        Color::GREEN
    }
}

impl Color {
    /// The number of the color: blue 0, yellow 1, red 2, green 3.
    pub open spec fn index_spec(self) -> int {
        match self {
            Color::BLUE => 0,
            Color::YELLOW => 1,
            Color::RED => 2,
            Color::GREEN => 3,
        }
    }

    /// The color that moves after this one.
    pub open spec fn next_spec(self) -> Color {
        color_spec(self.index_spec() + 1)
    }

    /// The color that moves before this one.
    pub open spec fn previous_spec(self) -> Color {
        color_spec(self.index_spec() + 3)
    }

    /// The name of the color and its team.
    pub open spec fn name_spec(self) -> Seq<char> {
        match self {
            Color::BLUE => "BLUE (Team ONE)"@,
            Color::YELLOW => "YELLOW (Team TWO)"@,
            Color::RED => "RED (Team ONE)"@,
            Color::GREEN => "GREEN (Team TWO)"@,
        }
    }

    /// The color that moves after this one.
    pub fn next(self) -> (r: Color)
        ensures
            r == self.next_spec(),
    {
        match self {
            Color::BLUE => Color::YELLOW,
            Color::YELLOW => Color::RED,
            Color::RED => Color::GREEN,
            Color::GREEN => Color::BLUE,
        }
    }

    /// The color that moves before this one.
    pub fn previous(self) -> (r: Color)
        ensures
            r == self.previous_spec(),
    {
        match self {
            Color::BLUE => Color::GREEN,
            Color::GREEN => Color::RED,
            Color::RED => Color::YELLOW,
            Color::YELLOW => Color::BLUE,
        }
    }

    /// -1 for team one (blue, red), +1 for team two (yellow, green).
    pub fn team_i16(&self) -> (r: i16)
        ensures
            r == if self.index_spec() % 2 == 0 { -1int } else { 1int },
    {
        let bit: i16 = match self {
            Color::BLUE => 0,
            Color::YELLOW => 1,
            Color::RED => 0,
            Color::GREEN => 1,
        };
        proof {
            assert((bit << 1i16) == 2 * bit) by (bit_vector)
                requires 0 <= bit <= 1;
        }
        (bit << 1) - 1
    }

    /// The name of the color and its team.
    pub fn to_string(&self) -> (r: String)
        ensures
            r@ == self.name_spec(),
    {
        match self {
            Color::BLUE => String::from_str("BLUE (Team ONE)"),
            Color::YELLOW => String::from_str("YELLOW (Team TWO)"),
            Color::RED => String::from_str("RED (Team ONE)"),
            Color::GREEN => String::from_str("GREEN (Team TWO)"),
        }
    }
}

/// Every color has its number, and the number gives the color back.
pub proof fn lemma_color_index(c: Color)
    ensures
        0 <= c.index_spec() < 4,
        color_spec(c.index_spec()) == c,
{
}

/// `previous` takes back `next` and the other way round, and four steps lead back to the same
/// color.
pub proof fn lemma_color_cycle(c: Color)
    ensures
        c.next_spec().previous_spec() == c,
        c.previous_spec().next_spec() == c,
        c.next_spec().next_spec().next_spec().next_spec() == c,
{
}

/// The two colors of a team alternate with those of the other team.
pub proof fn lemma_team_alternates(c: Color)
    ensures
        (c.next_spec().index_spec() % 2 == 0) != (c.index_spec() % 2 == 0),
{
}

} // verus!
