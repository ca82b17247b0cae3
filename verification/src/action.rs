use vstd::prelude::*;

verus! {

/// A move: either a skip, or a piece shape (low 7 bits) placed with its top left field at a
/// destination (high 9 bits). The color is given by the ply of the game state.
#[derive(Copy, Clone, Debug, PartialEq, Eq, Structural)]
pub struct Action(pub u16);

/// The number that encodes a skip.
pub const SKIP_CODE: u16 = 65535;

/// The code of the action that places `shape` at `destination`: `destination` shifted above
/// the 7 shape bits, or-ed with `shape` (bits shifted past 16 are lost).
pub open spec fn set_code(destination: u16, shape: u16) -> u16 {
    ((destination << 7u16) | shape) as u16
}

proof fn lemma_code_bits(destination: u16, shape: u16, code: u16)
    by (bit_vector)
    ensures
        destination < 512 && shape < 128 ==> ((destination << 7u16) | shape) == destination * 128
            + shape,
        code & 127u16 == code % 128,
        code >> 7u16 == code / 128,
{
}

impl Action {
    /// The destination field of a set action.
    pub open spec fn destination_spec(self) -> int {
        self.0 as int / 128
    }

    /// The shape of a set action.
    pub open spec fn shape_spec(self) -> int {
        self.0 as int % 128
    }

    pub open spec fn is_skip_spec(self) -> bool {
        self.0 == SKIP_CODE
    }

    /// The skip action.
    pub fn skip() -> (r: Action)
        ensures
            r.0 == SKIP_CODE,
    {
        Action(SKIP_CODE)
    }

    /// The action that places `shape` with its top left field at `destination`.
    pub fn set(destination: u16, shape: u16) -> (r: Action)
        ensures
            r.0 == set_code(destination, shape),
            destination < 512 && shape < 128 ==> r.0 == destination * 128 + shape,
            destination < 512 && shape < 128 ==> r.destination_spec() == destination
                && r.shape_spec() == shape,
    {
        proof {
            lemma_code_bits(destination, shape, 0);
        }
        Action((destination << 7) | shape)
    }

    /// The shape of a set action.
    pub fn get_shape(self) -> (r: u16)
        ensures
            r == self.shape_spec(),
    {
        proof {
            lemma_code_bits(0, 0, self.0);
        }
        self.0 & 0b1111111
    }

    /// The destination of a set action.
    pub fn get_destination(self) -> (r: u16)
        ensures
            r == self.destination_spec(),
            r < 512,
    {
        proof {
            lemma_code_bits(0, 0, self.0);
        }
        self.0 >> 7
    }

    pub fn is_skip(self) -> (r: bool)
        ensures
            r == self.is_skip_spec(),
    {
        self.0 == SKIP_CODE
    }

    pub fn is_set(self) -> (r: bool)
        ensures
            r == !self.is_skip_spec(),
    {
        self.0 != SKIP_CODE
    }
}

/// An action is determined by its destination and shape: placing the shape of an action at its
/// destination gives the action back, and a set action gives back the destination and shape it
/// was made from.
pub proof fn lemma_action_roundtrip(a: Action, destination: u16, shape: u16)
    ensures
        a.0 == a.destination_spec() * 128 + a.shape_spec(),
        0 <= a.destination_spec() < 512,
        0 <= a.shape_spec() < 128,
        destination < 512 && shape < 128 ==> set_code(destination, shape) / 128 == destination
            && set_code(destination, shape) % 128 == shape,
{
    lemma_code_bits(destination, shape, a.0);
}

} // verus!
