use vstd::prelude::*;
use vstd::string::*;

verus! {

/// The four directions, clockwise from the left.
#[derive(Copy, Clone, Debug, PartialEq, Eq, Structural)]
pub enum Direction {
    LEFT,
    UP,
    RIGHT,
    DOWN,
}

/// The direction with number `i % 4`.
pub open spec fn direction_spec(i: int) -> Direction {
    let k = i % 4;
    if k == 0 {
        Direction::LEFT
    } else if k == 1 {
        Direction::UP
    } else if k == 2 {
        Direction::RIGHT
    } else {
        Direction::DOWN
    }
}

impl Direction {
    /// The number of the direction: left 0, up 1, right 2, down 3.
    pub open spec fn index_spec(self) -> int {
        match self {
            Direction::LEFT => 0,
            Direction::UP => 1,
            Direction::RIGHT => 2,
            Direction::DOWN => 3,
        }
    }

    /// The direction a quarter turn clockwise.
    pub open spec fn clockwise_spec(self) -> Direction {
        direction_spec(self.index_spec() + 1)
    }

    /// The direction a quarter turn anticlockwise.
    pub open spec fn anticlockwise_spec(self) -> Direction {
        direction_spec(self.index_spec() + 3)
    }

    /// The opposite direction.
    pub open spec fn mirror_spec(self) -> Direction {
        direction_spec(self.index_spec() + 2)
    }

    pub open spec fn name_spec(self) -> Seq<char> {
        match self {
            Direction::LEFT => "LEFT"@,
            Direction::UP => "UP"@,
            Direction::RIGHT => "RIGHT"@,
            Direction::DOWN => "DOWN"@,
        }
    }

    /// The name of the direction.
    pub fn to_string(&self) -> (r: String)
        ensures
            r@ == self.name_spec(),
    {
        match self {
            Direction::LEFT => String::from_str("LEFT"),
            Direction::UP => String::from_str("UP"),
            Direction::RIGHT => String::from_str("RIGHT"),
            Direction::DOWN => String::from_str("DOWN"),
        }
    }

    /// The direction with number `n`.
    pub fn from_u16(n: u16) -> (r: Direction)
        requires
            n < 4,
        ensures
            r == direction_spec(n as int),
            r.index_spec() == n,
    {
        if n == 0 {
            Direction::LEFT
        } else if n == 1 {
            Direction::UP
        } else if n == 2 {
            Direction::RIGHT
        } else {
            Direction::DOWN
        }
    }

    /// The direction a quarter turn clockwise.
    pub fn clockwise(&self) -> (r: Direction)
        ensures
            r == self.clockwise_spec(),
    {
        match self {
            Direction::LEFT => Direction::UP,
            Direction::UP => Direction::RIGHT,
            Direction::RIGHT => Direction::DOWN,
            Direction::DOWN => Direction::LEFT,
        }
    }

    /// The direction a quarter turn anticlockwise.
    pub fn anticlockwise(&self) -> (r: Direction)
        ensures
            r == self.anticlockwise_spec(),
    {
        match self {
            Direction::LEFT => Direction::DOWN,
            Direction::UP => Direction::LEFT,
            Direction::RIGHT => Direction::UP,
            Direction::DOWN => Direction::RIGHT,
        }
    }

    /// The opposite direction.
    pub fn mirror(&self) -> (r: Direction)
        ensures
            r == self.mirror_spec(),
    {
        match self {
            Direction::LEFT => Direction::RIGHT,
            Direction::RIGHT => Direction::LEFT,
            Direction::UP => Direction::DOWN,
            Direction::DOWN => Direction::UP,
        }
    }
}

/// A quarter turn one way undoes a quarter turn the other way, two quarter turns are the
/// mirror, the mirror undoes itself, and four quarter turns lead back.
pub proof fn lemma_direction_turns(d: Direction)
    ensures
        d.clockwise_spec().anticlockwise_spec() == d,
        d.anticlockwise_spec().clockwise_spec() == d,
        d.clockwise_spec().clockwise_spec() == d.mirror_spec(),
        d.mirror_spec().mirror_spec() == d,
        d.clockwise_spec().clockwise_spec().clockwise_spec().clockwise_spec() == d,
{
}

/// Every number below 4 names a direction whose number it is.
pub proof fn lemma_direction_index(d: Direction)
    ensures
        0 <= d.index_spec() < 4,
        direction_spec(d.index_spec()) == d,
{
}

} // verus!
