use vstd::prelude::*;
use crate::action::Action;
use crate::actionlist::ActionList;
use crate::bitboard::{Bitboard, is_valid_field};
use crate::shapes::shape_destination;
use crate::piece_type::shape_type_spec;


verus! {

/// `d` is a destination of shape `shape` given the legal fields `l` and the placement fields `p`.
pub open spec fn bb_destination(shape: usize, l: Bitboard, p: Bitboard, d: int) -> bool {
    shape_destination(shape, |i: int| l.has(i), |i: int| p.has(i), d)
}

/// The helper boards of move generation, computed from the legal fields `s[9]` (a subset of the
/// board) and the placement fields `s[12]`: each of the others marks the fields from which a
/// short line or square of legal fields starts.
#[verifier::opaque]
pub open spec fn shortcuts_ok(s: [Bitboard; 13]) -> bool {
    let l = s[9];
    &&& forall|i: int| #[trigger] l.has(i) ==> is_valid_field(i)
    &&& forall|i: int| #[trigger] s[0].has(i) == (l.has(i) && l.has(i + 1))
    &&& forall|i: int| #[trigger] s[1].has(i) == (l.has(i) && l.has(i - 1))
    &&& forall|i: int| #[trigger] s[2].has(i) == (l.has(i) && l.has(i + 21))
    &&& forall|i: int| #[trigger] s[3].has(i) == (l.has(i) && l.has(i - 21))
    &&& forall|i: int| #[trigger] s[4].has(i) == (l.has(i) && l.has(i + 1) && l.has(i + 2))
    &&& forall|i: int| #[trigger] s[5].has(i) == (l.has(i) && l.has(i - 1) && l.has(i - 2))
    &&& forall|i: int| #[trigger] s[6].has(i) == (l.has(i) && l.has(i + 21) && l.has(i + 42))
    &&& forall|i: int| #[trigger] s[7].has(i) == (l.has(i) && l.has(i - 21) && l.has(i - 42))
    &&& forall|i: int|
        #[trigger] s[8].has(i) == (l.has(i) && l.has(i + 1) && l.has(i + 2) && l.has(i + 3))
    &&& forall|i: int|
        #[trigger] s[10].has(i) == (l.has(i) && l.has(i + 21) && l.has(i + 42) && l.has(i + 63))
    &&& forall|i: int|
        #[trigger] s[11].has(i) == (l.has(i) && l.has(i + 1) && l.has(i + 21) && l.has(i + 22))
}

/// `after` is `before` followed by exactly the moves of the shapes in `shapes`, given the legal
/// fields `l` and the placement fields `p`, each once.
#[verifier::opaque]
pub open spec fn moves_added(
    before: Seq<Action>,
    after: Seq<Action>,
    shapes: Seq<usize>,
    l: Bitboard,
    p: Bitboard,
) -> bool {
    &&& after.len() >= before.len()
    &&& after.subrange(0, before.len() as int) == before
    &&& forall|k: int|
        before.len() <= k < after.len() ==> shapes.contains(#[trigger] after[k].shape_spec() as usize)
            && bb_destination(after[k].shape_spec() as usize, l, p, after[k].destination_spec(),
        )
    &&& forall|j: int, d: int|
        0 <= j < shapes.len() && #[trigger] bb_destination(shapes[j], l, p, d) ==> exists|k: int|
            before.len() <= k < after.len() && #[trigger] after[k].destination_spec() == d
                && after[k].shape_spec() == shapes[j]
    &&& forall|k1: int, k2: int|
        before.len() <= k1 < k2 < after.len() ==> #[trigger] after[k1] != #[trigger] after[k2]
}

/// Moves added in two steps, for shapes that differ between the steps, are moves added once.
pub proof fn lemma_moves_concat(
    a: Seq<Action>,
    b: Seq<Action>,
    c: Seq<Action>,
    s1: Seq<usize>,
    s2: Seq<usize>,
    l: Bitboard,
    p: Bitboard,
)
    requires
        moves_added(a, b, s1, l, p),
        moves_added(b, c, s2, l, p),
        forall|x: usize| s1.contains(x) ==> !s2.contains(x),
    ensures
        moves_added(a, c, s1 + s2, l, p),
{
    reveal(moves_added);
    assert forall|k: int| 0 <= k < b.len() implies c[k] == b[k] by {
        assert(c.subrange(0, b.len() as int)[k] == c[k]);
    }
    assert(c.subrange(0, a.len() as int) =~= a) by {
        assert forall|k: int| 0 <= k < a.len() implies c[k] == a[k] by {
            assert(b.subrange(0, a.len() as int)[k] == b[k]);
        }
    }
    let s = s1 + s2;
    assert forall|k: int|
        a.len() <= k < c.len() implies s.contains(#[trigger] c[k].shape_spec() as usize)
            && bb_destination(c[k].shape_spec() as usize, l, p, c[k].destination_spec(),
        ) by {
        if k < b.len() {
            assert(c[k] == b[k]);
            assert(s1.contains(b[k].shape_spec() as usize));
            let j = choose|j: int| 0 <= j < s1.len() && s1[j] == b[k].shape_spec() as usize;
            assert(s[j] == s1[j]);
        } else {
            assert(s2.contains(c[k].shape_spec() as usize));
            let j = choose|j: int| 0 <= j < s2.len() && s2[j] == c[k].shape_spec() as usize;
            assert(s[s1.len() + j] == s2[j]);
        }
    }
    assert forall|j: int, d: int|
        0 <= j < s.len() && #[trigger] bb_destination(s[j], l, p, d) implies exists|k: int|
        a.len() <= k < c.len() && #[trigger] c[k].destination_spec() == d && c[k].shape_spec()
            == s[j] by {
        if j < s1.len() {
            assert(s[j] == s1[j]);
            assert(bb_destination(s1[j], l, p, d));
            let k = choose|k: int|
                a.len() <= k < b.len() && #[trigger] b[k].destination_spec() == d && b[k].shape_spec()
                    == s1[j];
            assert(c[k] == b[k]);
        } else {
            let j2 = j - s1.len();
            assert(s[j] == s2[j2]);
            assert(bb_destination(s2[j2], l, p, d));
            let k = choose|k: int|
                b.len() <= k < c.len() && #[trigger] c[k].destination_spec() == d && c[k].shape_spec()
                    == s2[j2];
        }
    }
    assert forall|k1: int, k2: int|
        a.len() <= k1 < k2 < c.len() implies #[trigger] c[k1] != #[trigger] c[k2] by {
        if k2 < b.len() {
            assert(c[k1] == b[k1] && c[k2] == b[k2]);
        } else if k1 >= b.len() {
        } else {
            assert(c[k1] == b[k1]);
            assert(s1.contains(b[k1].shape_spec() as usize));
            assert(s2.contains(c[k2].shape_spec() as usize));
        }
    }
}

/// Adds the moves of `shape` at the destinations in `destinations`.
pub fn append_shape(
    al: &mut ActionList,
    destinations: Bitboard,
    shape: usize,
    Ghost(l): Ghost<Bitboard>,
    Ghost(p): Ghost<Bitboard>,
)
    requires
        shape < 91,
        forall|d: int|
            #[trigger] destinations.has(d) == bb_destination(shape, l, p, d),
    ensures
        moves_added(old(al)@, final(al)@, seq![shape], l, p),
{
    proof {
        reveal(moves_added);
    }
    let ghost before = al@;
    al.append(destinations, shape as u16);
    let ghost after = al@;
    proof {
        let s = seq![shape];
        assert forall|k: int|
            before.len() <= k < after.len() implies s.contains(#[trigger] after[k].shape_spec() as usize)
                && bb_destination(after[k].shape_spec() as usize, l, p, after[k].destination_spec(),
            ) by {
            assert(after[k].shape_spec() == shape);
            assert(destinations.has(after[k].destination_spec()));
            assert(s[0] == shape);
        }
        assert forall|j: int, d: int|
            0 <= j < s.len() && #[trigger] bb_destination(s[j], l, p, d) implies exists|k: int|
            before.len() <= k < after.len() && #[trigger] after[k].destination_spec() == d
                && after[k].shape_spec() == s[j] by {
            assert(destinations.has(d));
            let k = choose|k: int|
                before.len() <= k < after.len() && #[trigger] after[k].destination_spec() == d;
            assert(after[k].shape_spec() == shape);
        }
        assert forall|k1: int, k2: int|
            before.len() <= k1 < k2 < after.len() implies #[trigger] after[k1] != #[trigger] after[k2] by {
            assert(after[k1].destination_spec() != after[k2].destination_spec());
        }
    }
}

/// Adds the moves of the shapes 1, 2 of one piece type.
pub fn domino(s: [Bitboard; 13], al: &mut ActionList)
    requires
        shortcuts_ok(s),
    ensures
        moves_added(old(al)@, final(al)@, seq![1usize, 2usize], s[9], s[12]),
{
    proof {
        reveal(shortcuts_ok);
    }
    let ghost l = s[9];
    let ghost pp = s[12];
    let ghost a0 = al@;
    let s0 = s[0];
    let s1 = s[1];
    let s2 = s[2];
    let s3 = s[3];
    let s4 = s[4];
    let s5 = s[5];
    let s6 = s[6];
    let s7 = s[7];
    let s8 = s[8];
    let s9 = s[9];
    let s10 = s[10];
    let s11 = s[11];
    let p = s[12];
    let b0 = s0.and(p.or(p.shr(1)));
    append_shape(al, b0, 1, Ghost(l), Ghost(pp));
    let ghost a1 = al@;
    let b1 = s2.and(p.or(p.shr(21)));
    append_shape(al, b1, 2, Ghost(l), Ghost(pp));
    let ghost a2 = al@;
    proof {
        lemma_moves_concat(a0, a1, a2, seq![1usize], seq![2usize], l, pp);
        assert(seq![1usize] + seq![2usize] =~= seq![1usize, 2usize]);
    }
}

/// Adds the moves of the shapes 3, 4 of one piece type.
pub fn i_tromino(s: [Bitboard; 13], al: &mut ActionList)
    requires
        shortcuts_ok(s),
    ensures
        moves_added(old(al)@, final(al)@, seq![3usize, 4usize], s[9], s[12]),
{
    proof {
        reveal(shortcuts_ok);
    }
    let ghost l = s[9];
    let ghost pp = s[12];
    let ghost a0 = al@;
    let s0 = s[0];
    let s1 = s[1];
    let s2 = s[2];
    let s3 = s[3];
    let s4 = s[4];
    let s5 = s[5];
    let s6 = s[6];
    let s7 = s[7];
    let s8 = s[8];
    let s9 = s[9];
    let s10 = s[10];
    let s11 = s[11];
    let p = s[12];
    let b0 = s4.and(p.or(p.shr(2)));
    append_shape(al, b0, 3, Ghost(l), Ghost(pp));
    let ghost a1 = al@;
    let b1 = s6.and(p.or(p.shr(42)));
    append_shape(al, b1, 4, Ghost(l), Ghost(pp));
    let ghost a2 = al@;
    proof {
        lemma_moves_concat(a0, a1, a2, seq![3usize], seq![4usize], l, pp);
        assert(seq![3usize] + seq![4usize] =~= seq![3usize, 4usize]);
    }
}

/// Adds the moves of the shapes 11, 12, 13, 14 of one piece type.
pub fn l_tromino(s: [Bitboard; 13], al: &mut ActionList)
    requires
        shortcuts_ok(s),
    ensures
        moves_added(old(al)@, final(al)@, seq![11usize, 12usize, 13usize, 14usize], s[9], s[12]),
{
    proof {
        reveal(shortcuts_ok);
    }
    let ghost l = s[9];
    let ghost pp = s[12];
    let ghost a0 = al@;
    let s0 = s[0];
    let s1 = s[1];
    let s2 = s[2];
    let s3 = s[3];
    let s4 = s[4];
    let s5 = s[5];
    let s6 = s[6];
    let s7 = s[7];
    let s8 = s[8];
    let s9 = s[9];
    let s10 = s[10];
    let s11 = s[11];
    let p = s[12];
    let b0 = s3.and(s0).shr(21).and(p.or(p.shr(21)).or(p.shr(22)));
    append_shape(al, b0, 11, Ghost(l), Ghost(pp));
    let ghost a1 = al@;
    let b1 = s2.and(s0).and(p.or(p.shr(1)).or(p.shr(21)));
    append_shape(al, b1, 12, Ghost(l), Ghost(pp));
    let ghost a2 = al@;
    let b2 = s2.shr(1).and(s0).and(p.or(p.shr(1)).or(p.shr(22)));
    append_shape(al, b2, 13, Ghost(l), Ghost(pp));
    let ghost a3 = al@;
    let b3 = s2.shr(1).and(s0.shr(21)).and(p.shr(1).or(p.shr(21)).or(p.shr(22)));
    append_shape(al, b3, 14, Ghost(l), Ghost(pp));
    let ghost a4 = al@;
    proof {
        lemma_moves_concat(a0, a1, a2, seq![11usize], seq![12usize], l, pp);
        assert(seq![11usize] + seq![12usize] =~= seq![11usize, 12usize]);
        lemma_moves_concat(a0, a2, a3, seq![11usize, 12usize], seq![13usize], l, pp);
        assert(seq![11usize, 12usize] + seq![13usize] =~= seq![11usize, 12usize, 13usize]);
        lemma_moves_concat(a0, a3, a4, seq![11usize, 12usize, 13usize], seq![14usize], l, pp);
        assert(seq![11usize, 12usize, 13usize] + seq![14usize] =~= seq![11usize, 12usize, 13usize, 14usize]);
    }
}

/// Adds the moves of the shapes 5, 6 of one piece type.
pub fn i_tetromino(s: [Bitboard; 13], al: &mut ActionList)
    requires
        shortcuts_ok(s),
    ensures
        moves_added(old(al)@, final(al)@, seq![5usize, 6usize], s[9], s[12]),
{
    proof {
        reveal(shortcuts_ok);
    }
    let ghost l = s[9];
    let ghost pp = s[12];
    let ghost a0 = al@;
    let s0 = s[0];
    let s1 = s[1];
    let s2 = s[2];
    let s3 = s[3];
    let s4 = s[4];
    let s5 = s[5];
    let s6 = s[6];
    let s7 = s[7];
    let s8 = s[8];
    let s9 = s[9];
    let s10 = s[10];
    let s11 = s[11];
    let p = s[12];
    let b0 = s8.and(p.or(p.shr(3)));
    append_shape(al, b0, 5, Ghost(l), Ghost(pp));
    let ghost a1 = al@;
    let b1 = s10.and(p.or(p.shr(63)));
    append_shape(al, b1, 6, Ghost(l), Ghost(pp));
    let ghost a2 = al@;
    proof {
        lemma_moves_concat(a0, a1, a2, seq![5usize], seq![6usize], l, pp);
        assert(seq![5usize] + seq![6usize] =~= seq![5usize, 6usize]);
    }
}

/// Adds the moves of the shapes 15, 16, 17, 18, 19, 20, 21, 22 of one piece type.
pub fn l_tetromino(s: [Bitboard; 13], al: &mut ActionList)
    requires
        shortcuts_ok(s),
    ensures
        moves_added(old(al)@, final(al)@, seq![15usize, 16usize, 17usize, 18usize, 19usize, 20usize, 21usize, 22usize], s[9], s[12]),
{
    proof {
        reveal(shortcuts_ok);
    }
    let ghost l = s[9];
    let ghost pp = s[12];
    let ghost a0 = al@;
    let s0 = s[0];
    let s1 = s[1];
    let s2 = s[2];
    let s3 = s[3];
    let s4 = s[4];
    let s5 = s[5];
    let s6 = s[6];
    let s7 = s[7];
    let s8 = s[8];
    let s9 = s[9];
    let s10 = s[10];
    let s11 = s[11];
    let p = s[12];
    let b0 = s6.and(s0).and(p.or(p.shr(1)).or(p.shr(42)));
    append_shape(al, b0, 15, Ghost(l), Ghost(pp));
    let ghost a1 = al@;
    let b1 = s0.and(s6.shr(1)).and(p.or(p.shr(1)).or(p.shr(43)));
    append_shape(al, b1, 16, Ghost(l), Ghost(pp));
    let ghost a2 = al@;
    let b2 = s6.and(s0.shr(41)).and(p.or(p.shr(41)).or(p.shr(42))).shr(1);
    append_shape(al, b2, 17, Ghost(l), Ghost(pp));
    let ghost a3 = al@;
    let b3 = s6.and(s0.shr(42)).and(p.or(p.shr(42)).or(p.shr(43)));
    append_shape(al, b3, 18, Ghost(l), Ghost(pp));
    let ghost a4 = al@;
    let b4 = s9.and(s4.shr(21)).and(p.or(p.shr(21)).or(p.shr(23)));
    append_shape(al, b4, 19, Ghost(l), Ghost(pp));
    let ghost a5 = al@;
    let b5 = s4.and(s9.shr(21)).and(p.or(p.shr(2)).or(p.shr(21)));
    append_shape(al, b5, 20, Ghost(l), Ghost(pp));
    let ghost a6 = al@;
    let b6 = s4.and(s9.shr(23)).and(p.or(p.shr(2)).or(p.shr(23)));
    append_shape(al, b6, 21, Ghost(l), Ghost(pp));
    let ghost a7 = al@;
    let b7 = s3.and(s5).shr(23).and(p.shr(2).or(p.shr(21)).or(p.shr(23)));
    append_shape(al, b7, 22, Ghost(l), Ghost(pp));
    let ghost a8 = al@;
    proof {
        lemma_moves_concat(a0, a1, a2, seq![15usize], seq![16usize], l, pp);
        assert(seq![15usize] + seq![16usize] =~= seq![15usize, 16usize]);
        lemma_moves_concat(a0, a2, a3, seq![15usize, 16usize], seq![17usize], l, pp);
        assert(seq![15usize, 16usize] + seq![17usize] =~= seq![15usize, 16usize, 17usize]);
        lemma_moves_concat(a0, a3, a4, seq![15usize, 16usize, 17usize], seq![18usize], l, pp);
        assert(seq![15usize, 16usize, 17usize] + seq![18usize] =~= seq![15usize, 16usize, 17usize, 18usize]);
        lemma_moves_concat(a0, a4, a5, seq![15usize, 16usize, 17usize, 18usize], seq![19usize], l, pp);
        assert(seq![15usize, 16usize, 17usize, 18usize] + seq![19usize] =~= seq![15usize, 16usize, 17usize, 18usize, 19usize]);
        lemma_moves_concat(a0, a5, a6, seq![15usize, 16usize, 17usize, 18usize, 19usize], seq![20usize], l, pp);
        assert(seq![15usize, 16usize, 17usize, 18usize, 19usize] + seq![20usize] =~= seq![15usize, 16usize, 17usize, 18usize, 19usize, 20usize]);
        lemma_moves_concat(a0, a6, a7, seq![15usize, 16usize, 17usize, 18usize, 19usize, 20usize], seq![21usize], l, pp);
        assert(seq![15usize, 16usize, 17usize, 18usize, 19usize, 20usize] + seq![21usize] =~= seq![15usize, 16usize, 17usize, 18usize, 19usize, 20usize, 21usize]);
        lemma_moves_concat(a0, a7, a8, seq![15usize, 16usize, 17usize, 18usize, 19usize, 20usize, 21usize], seq![22usize], l, pp);
        assert(seq![15usize, 16usize, 17usize, 18usize, 19usize, 20usize, 21usize] + seq![22usize] =~= seq![15usize, 16usize, 17usize, 18usize, 19usize, 20usize, 21usize, 22usize]);
    }
}

/// Adds the moves of the shapes 35, 36, 37, 38 of one piece type.
pub fn t_tetromino(s: [Bitboard; 13], al: &mut ActionList)
    requires
        shortcuts_ok(s),
    ensures
        moves_added(old(al)@, final(al)@, seq![35usize, 36usize, 37usize, 38usize], s[9], s[12]),
{
    proof {
        reveal(shortcuts_ok);
    }
    let ghost l = s[9];
    let ghost pp = s[12];
    let ghost a0 = al@;
    let s0 = s[0];
    let s1 = s[1];
    let s2 = s[2];
    let s3 = s[3];
    let s4 = s[4];
    let s5 = s[5];
    let s6 = s[6];
    let s7 = s[7];
    let s8 = s[8];
    let s9 = s[9];
    let s10 = s[10];
    let s11 = s[11];
    let p = s[12];
    let b0 = s4.and(s9.shr(22)).and(p.or(p.shr(2)).or(p.shr(22)));
    append_shape(al, b0, 35, Ghost(l), Ghost(pp));
    let ghost a1 = al@;
    let b1 = s3.and(s0).and(s1).shr(22).and(p.shr(1).or(p.shr(21)).or(p.shr(23)));
    append_shape(al, b1, 36, Ghost(l), Ghost(pp));
    let ghost a2 = al@;
    let b2 = s6.and(s9.shr(22)).and(p.or(p.shr(22)).or(p.shr(42)));
    append_shape(al, b2, 37, Ghost(l), Ghost(pp));
    let ghost a3 = al@;
    let b3 = s3.and(s2).and(s1).shr(22).and(p.shr(1).or(p.shr(21)).or(p.shr(43)));
    append_shape(al, b3, 38, Ghost(l), Ghost(pp));
    let ghost a4 = al@;
    proof {
        lemma_moves_concat(a0, a1, a2, seq![35usize], seq![36usize], l, pp);
        assert(seq![35usize] + seq![36usize] =~= seq![35usize, 36usize]);
        lemma_moves_concat(a0, a2, a3, seq![35usize, 36usize], seq![37usize], l, pp);
        assert(seq![35usize, 36usize] + seq![37usize] =~= seq![35usize, 36usize, 37usize]);
        lemma_moves_concat(a0, a3, a4, seq![35usize, 36usize, 37usize], seq![38usize], l, pp);
        assert(seq![35usize, 36usize, 37usize] + seq![38usize] =~= seq![35usize, 36usize, 37usize, 38usize]);
    }
}

/// Adds the moves of the shapes 9 of one piece type.
pub fn o_tetromino(s: [Bitboard; 13], al: &mut ActionList)
    requires
        shortcuts_ok(s),
    ensures
        moves_added(old(al)@, final(al)@, seq![9usize], s[9], s[12]),
{
    proof {
        reveal(shortcuts_ok);
    }
    let ghost l = s[9];
    let ghost pp = s[12];
    let ghost a0 = al@;
    let s0 = s[0];
    let s1 = s[1];
    let s2 = s[2];
    let s3 = s[3];
    let s4 = s[4];
    let s5 = s[5];
    let s6 = s[6];
    let s7 = s[7];
    let s8 = s[8];
    let s9 = s[9];
    let s10 = s[10];
    let s11 = s[11];
    let p = s[12];
    let b0 = s11.and(p.or(p.shr(1)).or(p.shr(21)).or(p.shr(22)));
    append_shape(al, b0, 9, Ghost(l), Ghost(pp));
    let ghost a1 = al@;
}

/// Adds the moves of the shapes 39, 40, 41, 42 of one piece type.
pub fn z_tetromino(s: [Bitboard; 13], al: &mut ActionList)
    requires
        shortcuts_ok(s),
    ensures
        moves_added(old(al)@, final(al)@, seq![39usize, 40usize, 41usize, 42usize], s[9], s[12]),
{
    proof {
        reveal(shortcuts_ok);
    }
    let ghost l = s[9];
    let ghost pp = s[12];
    let ghost a0 = al@;
    let s0 = s[0];
    let s1 = s[1];
    let s2 = s[2];
    let s3 = s[3];
    let s4 = s[4];
    let s5 = s[5];
    let s6 = s[6];
    let s7 = s[7];
    let s8 = s[8];
    let s9 = s[9];
    let s10 = s[10];
    let s11 = s[11];
    let p = s[12];
    let b0 = s0.and(s0.shr(20)).and(p.or(p.shr(1)).or(p.shr(20)).or(p.shr(21))).shr(1);
    append_shape(al, b0, 39, Ghost(l), Ghost(pp));
    let ghost a1 = al@;
    let b1 = s0.and(s0.shr(22)).and(p.or(p.shr(1)).or(p.shr(22)).or(p.shr(23)));
    append_shape(al, b1, 40, Ghost(l), Ghost(pp));
    let ghost a2 = al@;
    let b2 = s2.and(s2.shr(20)).and(p.or(p.shr(20)).or(p.shr(21)).or(p.shr(41))).shr(1);
    append_shape(al, b2, 41, Ghost(l), Ghost(pp));
    let ghost a3 = al@;
    let b3 = s2.and(s2.shr(22)).and(p.or(p.shr(21)).or(p.shr(22)).or(p.shr(43)));
    append_shape(al, b3, 42, Ghost(l), Ghost(pp));
    let ghost a4 = al@;
    proof {
        lemma_moves_concat(a0, a1, a2, seq![39usize], seq![40usize], l, pp);
        assert(seq![39usize] + seq![40usize] =~= seq![39usize, 40usize]);
        lemma_moves_concat(a0, a2, a3, seq![39usize, 40usize], seq![41usize], l, pp);
        assert(seq![39usize, 40usize] + seq![41usize] =~= seq![39usize, 40usize, 41usize]);
        lemma_moves_concat(a0, a3, a4, seq![39usize, 40usize, 41usize], seq![42usize], l, pp);
        assert(seq![39usize, 40usize, 41usize] + seq![42usize] =~= seq![39usize, 40usize, 41usize, 42usize]);
    }
}

/// Adds the moves of the shapes 51, 52, 53, 54, 55, 56, 57, 58 of one piece type.
pub fn f_pentomino(s: [Bitboard; 13], al: &mut ActionList)
    requires
        shortcuts_ok(s),
    ensures
        moves_added(old(al)@, final(al)@, seq![51usize, 52usize, 53usize, 54usize, 55usize, 56usize, 57usize, 58usize], s[9], s[12]),
{
    proof {
        reveal(shortcuts_ok);
    }
    let ghost l = s[9];
    let ghost pp = s[12];
    let ghost a0 = al@;
    let s0 = s[0];
    let s1 = s[1];
    let s2 = s[2];
    let s3 = s[3];
    let s4 = s[4];
    let s5 = s[5];
    let s6 = s[6];
    let s7 = s[7];
    let s8 = s[8];
    let s9 = s[9];
    let s10 = s[10];
    let s11 = s[11];
    let p = s[12];
    let b0 = s7.and(s1).shr(43).and(s9.shr(23)).and(p.shr(1).or(p.shr(23)).or(p.shr(42)).or(p.shr(43)));
    append_shape(al, b0, 51, Ghost(l), Ghost(pp));
    let ghost a1 = al@;
    let b1 = s9.shr(21).and(s7.and(s0).shr(43)).and(p.shr(1).or(p.shr(21)).or(p.shr(43)).or(p.shr(44)));
    append_shape(al, b1, 52, Ghost(l), Ghost(pp));
    let ghost a2 = al@;
    let b2 = s6.and(s0).and(s9.shr(20)).and(p.or(p.shr(1)).or(p.shr(20)).or(p.shr(42))).shr(1);
    append_shape(al, b2, 53, Ghost(l), Ghost(pp));
    let ghost a3 = al@;
    let b3 = s6.and(s1).shr(1).and(s9.shr(23)).and(p.or(p.shr(1)).or(p.shr(23)).or(p.shr(43)));
    append_shape(al, b3, 54, Ghost(l), Ghost(pp));
    let ghost a4 = al@;
    let b4 = s5.and(s3).shr(23).and(s9.shr(43)).and(p.shr(2).or(p.shr(21)).or(p.shr(23)).or(p.shr(43)));
    append_shape(al, b4, 55, Ghost(l), Ghost(pp));
    let ghost a5 = al@;
    let b5 = s4.and(s3).shr(21).and(s9.shr(43)).and(p.or(p.shr(21)).or(p.shr(23)).or(p.shr(43)));
    append_shape(al, b5, 56, Ghost(l), Ghost(pp));
    let ghost a6 = al@;
    let b6 = s9.and(s5.and(s2).shr(22)).and(p.or(p.shr(20)).or(p.shr(22)).or(p.shr(43))).shr(1);
    append_shape(al, b6, 57, Ghost(l), Ghost(pp));
    let ghost a7 = al@;
    let b7 = s9.and(s4.and(s2).shr(20)).and(p.or(p.shr(20)).or(p.shr(22)).or(p.shr(41))).shr(1);
    append_shape(al, b7, 58, Ghost(l), Ghost(pp));
    let ghost a8 = al@;
    proof {
        lemma_moves_concat(a0, a1, a2, seq![51usize], seq![52usize], l, pp);
        assert(seq![51usize] + seq![52usize] =~= seq![51usize, 52usize]);
        lemma_moves_concat(a0, a2, a3, seq![51usize, 52usize], seq![53usize], l, pp);
        assert(seq![51usize, 52usize] + seq![53usize] =~= seq![51usize, 52usize, 53usize]);
        lemma_moves_concat(a0, a3, a4, seq![51usize, 52usize, 53usize], seq![54usize], l, pp);
        assert(seq![51usize, 52usize, 53usize] + seq![54usize] =~= seq![51usize, 52usize, 53usize, 54usize]);
        lemma_moves_concat(a0, a4, a5, seq![51usize, 52usize, 53usize, 54usize], seq![55usize], l, pp);
        assert(seq![51usize, 52usize, 53usize, 54usize] + seq![55usize] =~= seq![51usize, 52usize, 53usize, 54usize, 55usize]);
        lemma_moves_concat(a0, a5, a6, seq![51usize, 52usize, 53usize, 54usize, 55usize], seq![56usize], l, pp);
        assert(seq![51usize, 52usize, 53usize, 54usize, 55usize] + seq![56usize] =~= seq![51usize, 52usize, 53usize, 54usize, 55usize, 56usize]);
        lemma_moves_concat(a0, a6, a7, seq![51usize, 52usize, 53usize, 54usize, 55usize, 56usize], seq![57usize], l, pp);
        assert(seq![51usize, 52usize, 53usize, 54usize, 55usize, 56usize] + seq![57usize] =~= seq![51usize, 52usize, 53usize, 54usize, 55usize, 56usize, 57usize]);
        lemma_moves_concat(a0, a7, a8, seq![51usize, 52usize, 53usize, 54usize, 55usize, 56usize, 57usize], seq![58usize], l, pp);
        assert(seq![51usize, 52usize, 53usize, 54usize, 55usize, 56usize, 57usize] + seq![58usize] =~= seq![51usize, 52usize, 53usize, 54usize, 55usize, 56usize, 57usize, 58usize]);
    }
}

/// Adds the moves of the shapes 7, 8 of one piece type.
pub fn i_pentomino(s: [Bitboard; 13], al: &mut ActionList)
    requires
        shortcuts_ok(s),
    ensures
        moves_added(old(al)@, final(al)@, seq![7usize, 8usize], s[9], s[12]),
{
    proof {
        reveal(shortcuts_ok);
    }
    let ghost l = s[9];
    let ghost pp = s[12];
    let ghost a0 = al@;
    let s0 = s[0];
    let s1 = s[1];
    let s2 = s[2];
    let s3 = s[3];
    let s4 = s[4];
    let s5 = s[5];
    let s6 = s[6];
    let s7 = s[7];
    let s8 = s[8];
    let s9 = s[9];
    let s10 = s[10];
    let s11 = s[11];
    let p = s[12];
    let b0 = s8.and(s9.shr(4)).and(p.or(p.shr(4)));
    append_shape(al, b0, 7, Ghost(l), Ghost(pp));
    let ghost a1 = al@;
    let b1 = s10.and(s9.shr(84)).and(p.or(p.shr(84)));
    append_shape(al, b1, 8, Ghost(l), Ghost(pp));
    let ghost a2 = al@;
    proof {
        lemma_moves_concat(a0, a1, a2, seq![7usize], seq![8usize], l, pp);
        assert(seq![7usize] + seq![8usize] =~= seq![7usize, 8usize]);
    }
}

/// Adds the moves of the shapes 23, 24, 25, 26, 27, 28, 29, 30 of one piece type.
pub fn l_pentomino(s: [Bitboard; 13], al: &mut ActionList)
    requires
        shortcuts_ok(s),
    ensures
        moves_added(old(al)@, final(al)@, seq![23usize, 24usize, 25usize, 26usize, 27usize, 28usize, 29usize, 30usize], s[9], s[12]),
{
    proof {
        reveal(shortcuts_ok);
    }
    let ghost l = s[9];
    let ghost pp = s[12];
    let ghost a0 = al@;
    let s0 = s[0];
    let s1 = s[1];
    let s2 = s[2];
    let s3 = s[3];
    let s4 = s[4];
    let s5 = s[5];
    let s6 = s[6];
    let s7 = s[7];
    let s8 = s[8];
    let s9 = s[9];
    let s10 = s[10];
    let s11 = s[11];
    let p = s[12];
    let b0 = s8.and(s9.shr(24)).and(p.or(p.shr(3)).or(p.shr(24)));
    append_shape(al, b0, 23, Ghost(l), Ghost(pp));
    let ghost a1 = al@;
    let b1 = s8.and(s2).and(p.or(p.shr(3)).or(p.shr(21)));
    append_shape(al, b1, 24, Ghost(l), Ghost(pp));
    let ghost a2 = al@;
    let b2 = s9.and(s8.shr(21)).and(p.or(p.shr(21)).or(p.shr(24)));
    append_shape(al, b2, 25, Ghost(l), Ghost(pp));
    let ghost a3 = al@;
    let b3 = s8.shl(3).and(s3).shr(24).and(p.shr(3).or(p.shr(21)).or(p.shr(24)));
    append_shape(al, b3, 26, Ghost(l), Ghost(pp));
    let ghost a4 = al@;
    let b4 = s0.and(s10).and(p.or(p.shr(1)).or(p.shr(63)));
    append_shape(al, b4, 27, Ghost(l), Ghost(pp));
    let ghost a5 = al@;
    let b5 = s10.and(s9.shr(64)).and(p.or(p.shr(63)).or(p.shr(64)));
    append_shape(al, b5, 28, Ghost(l), Ghost(pp));
    let ghost a6 = al@;
    let b6 = s0.and(s10.shr(1)).and(p.or(p.shr(1)).or(p.shr(64)));
    append_shape(al, b6, 29, Ghost(l), Ghost(pp));
    let ghost a7 = al@;
    let b7 = s10.shr(1).and(s1.shr(64)).and(p.shr(1).or(p.shr(63)).or(p.shr(64)));
    append_shape(al, b7, 30, Ghost(l), Ghost(pp));
    let ghost a8 = al@;
    proof {
        lemma_moves_concat(a0, a1, a2, seq![23usize], seq![24usize], l, pp);
        assert(seq![23usize] + seq![24usize] =~= seq![23usize, 24usize]);
        lemma_moves_concat(a0, a2, a3, seq![23usize, 24usize], seq![25usize], l, pp);
        assert(seq![23usize, 24usize] + seq![25usize] =~= seq![23usize, 24usize, 25usize]);
        lemma_moves_concat(a0, a3, a4, seq![23usize, 24usize, 25usize], seq![26usize], l, pp);
        assert(seq![23usize, 24usize, 25usize] + seq![26usize] =~= seq![23usize, 24usize, 25usize, 26usize]);
        lemma_moves_concat(a0, a4, a5, seq![23usize, 24usize, 25usize, 26usize], seq![27usize], l, pp);
        assert(seq![23usize, 24usize, 25usize, 26usize] + seq![27usize] =~= seq![23usize, 24usize, 25usize, 26usize, 27usize]);
        lemma_moves_concat(a0, a5, a6, seq![23usize, 24usize, 25usize, 26usize, 27usize], seq![28usize], l, pp);
        assert(seq![23usize, 24usize, 25usize, 26usize, 27usize] + seq![28usize] =~= seq![23usize, 24usize, 25usize, 26usize, 27usize, 28usize]);
        lemma_moves_concat(a0, a6, a7, seq![23usize, 24usize, 25usize, 26usize, 27usize, 28usize], seq![29usize], l, pp);
        assert(seq![23usize, 24usize, 25usize, 26usize, 27usize, 28usize] + seq![29usize] =~= seq![23usize, 24usize, 25usize, 26usize, 27usize, 28usize, 29usize]);
        lemma_moves_concat(a0, a7, a8, seq![23usize, 24usize, 25usize, 26usize, 27usize, 28usize, 29usize], seq![30usize], l, pp);
        assert(seq![23usize, 24usize, 25usize, 26usize, 27usize, 28usize, 29usize] + seq![30usize] =~= seq![23usize, 24usize, 25usize, 26usize, 27usize, 28usize, 29usize, 30usize]);
    }
}

/// Adds the moves of the shapes 63, 64, 65, 66, 67, 68, 69, 70 of one piece type.
pub fn n_pentomino(s: [Bitboard; 13], al: &mut ActionList)
    requires
        shortcuts_ok(s),
    ensures
        moves_added(old(al)@, final(al)@, seq![63usize, 64usize, 65usize, 66usize, 67usize, 68usize, 69usize, 70usize], s[9], s[12]),
{
    proof {
        reveal(shortcuts_ok);
    }
    let ghost l = s[9];
    let ghost pp = s[12];
    let ghost a0 = al@;
    let s0 = s[0];
    let s1 = s[1];
    let s2 = s[2];
    let s3 = s[3];
    let s4 = s[4];
    let s5 = s[5];
    let s6 = s[6];
    let s7 = s[7];
    let s8 = s[8];
    let s9 = s[9];
    let s10 = s[10];
    let s11 = s[11];
    let p = s[12];
    let b0 = s6.and(s2.shr(41)).and(p.or(p.shr(41)).or(p.shr(42)).or(p.shr(62))).shr(1);
    append_shape(al, b0, 63, Ghost(l), Ghost(pp));
    let ghost a1 = al@;
    let b1 = s6.and(s2.shr(43)).and(p.or(p.shr(42)).or(p.shr(43)).or(p.shr(64)));
    append_shape(al, b1, 64, Ghost(l), Ghost(pp));
    let ghost a2 = al@;
    let b2 = s2.and(s6.shr(20)).and(p.or(p.shr(20)).or(p.shr(21)).or(p.shr(62))).shr(1);
    append_shape(al, b2, 65, Ghost(l), Ghost(pp));
    let ghost a3 = al@;
    let b3 = s2.and(s6.shr(22)).and(p.or(p.shr(21)).or(p.shr(22)).or(p.shr(64)));
    append_shape(al, b3, 66, Ghost(l), Ghost(pp));
    let ghost a4 = al@;
    let b4 = s0.and(s4.shr(19)).and(p.or(p.shr(1)).or(p.shr(19)).or(p.shr(21))).shr(2);
    append_shape(al, b4, 67, Ghost(l), Ghost(pp));
    let ghost a5 = al@;
    let b5 = s4.and(s0.shr(23)).and(p.or(p.shr(2)).or(p.shr(23)).or(p.shr(24)));
    append_shape(al, b5, 68, Ghost(l), Ghost(pp));
    let ghost a6 = al@;
    let b6 = s0.and(s4.shr(22)).and(p.or(p.shr(1)).or(p.shr(22)).or(p.shr(24)));
    append_shape(al, b6, 69, Ghost(l), Ghost(pp));
    let ghost a7 = al@;
    let b7 = s4.and(s0.shr(20)).and(p.or(p.shr(2)).or(p.shr(20)).or(p.shr(21))).shr(1);
    append_shape(al, b7, 70, Ghost(l), Ghost(pp));
    let ghost a8 = al@;
    proof {
        lemma_moves_concat(a0, a1, a2, seq![63usize], seq![64usize], l, pp);
        assert(seq![63usize] + seq![64usize] =~= seq![63usize, 64usize]);
        lemma_moves_concat(a0, a2, a3, seq![63usize, 64usize], seq![65usize], l, pp);
        assert(seq![63usize, 64usize] + seq![65usize] =~= seq![63usize, 64usize, 65usize]);
        lemma_moves_concat(a0, a3, a4, seq![63usize, 64usize, 65usize], seq![66usize], l, pp);
        assert(seq![63usize, 64usize, 65usize] + seq![66usize] =~= seq![63usize, 64usize, 65usize, 66usize]);
        lemma_moves_concat(a0, a4, a5, seq![63usize, 64usize, 65usize, 66usize], seq![67usize], l, pp);
        assert(seq![63usize, 64usize, 65usize, 66usize] + seq![67usize] =~= seq![63usize, 64usize, 65usize, 66usize, 67usize]);
        lemma_moves_concat(a0, a5, a6, seq![63usize, 64usize, 65usize, 66usize, 67usize], seq![68usize], l, pp);
        assert(seq![63usize, 64usize, 65usize, 66usize, 67usize] + seq![68usize] =~= seq![63usize, 64usize, 65usize, 66usize, 67usize, 68usize]);
        lemma_moves_concat(a0, a6, a7, seq![63usize, 64usize, 65usize, 66usize, 67usize, 68usize], seq![69usize], l, pp);
        assert(seq![63usize, 64usize, 65usize, 66usize, 67usize, 68usize] + seq![69usize] =~= seq![63usize, 64usize, 65usize, 66usize, 67usize, 68usize, 69usize]);
        lemma_moves_concat(a0, a7, a8, seq![63usize, 64usize, 65usize, 66usize, 67usize, 68usize, 69usize], seq![70usize], l, pp);
        assert(seq![63usize, 64usize, 65usize, 66usize, 67usize, 68usize, 69usize] + seq![70usize] =~= seq![63usize, 64usize, 65usize, 66usize, 67usize, 68usize, 69usize, 70usize]);
    }
}

/// Adds the moves of the shapes 75, 76, 77, 78, 79, 80, 81, 82 of one piece type.
pub fn p_pentomino(s: [Bitboard; 13], al: &mut ActionList)
    requires
        shortcuts_ok(s),
    ensures
        moves_added(old(al)@, final(al)@, seq![75usize, 76usize, 77usize, 78usize, 79usize, 80usize, 81usize, 82usize], s[9], s[12]),
{
    proof {
        reveal(shortcuts_ok);
    }
    let ghost l = s[9];
    let ghost pp = s[12];
    let ghost a0 = al@;
    let s0 = s[0];
    let s1 = s[1];
    let s2 = s[2];
    let s3 = s[3];
    let s4 = s[4];
    let s5 = s[5];
    let s6 = s[6];
    let s7 = s[7];
    let s8 = s[8];
    let s9 = s[9];
    let s10 = s[10];
    let s11 = s[11];
    let p = s[12];
    let b0 = s11.and(s9.shr(42)).and(p.or(p.shr(1)).or(p.shr(22)).or(p.shr(42)));
    append_shape(al, b0, 75, Ghost(l), Ghost(pp));
    let ghost a1 = al@;
    let b1 = s11.and(s9.shr(43)).and(p.or(p.shr(1)).or(p.shr(21)).or(p.shr(43)));
    append_shape(al, b1, 76, Ghost(l), Ghost(pp));
    let ghost a2 = al@;
    let b2 = s11.and(s9.shr(23)).and(p.or(p.shr(1)).or(p.shr(21)).or(p.shr(23)));
    append_shape(al, b2, 77, Ghost(l), Ghost(pp));
    let ghost a3 = al@;
    let b3 = s11.and(s9.shr(2)).and(p.or(p.shr(2)).or(p.shr(21)).or(p.shr(22)));
    append_shape(al, b3, 78, Ghost(l), Ghost(pp));
    let ghost a4 = al@;
    let b4 = s11.shr(1).and(s9).and(p.or(p.shr(2)).or(p.shr(22)).or(p.shr(23)));
    append_shape(al, b4, 79, Ghost(l), Ghost(pp));
    let ghost a5 = al@;
    let b5 = s11.and(s9.shr(20)).and(p.or(p.shr(1)).or(p.shr(20)).or(p.shr(22))).shr(1);
    append_shape(al, b5, 80, Ghost(l), Ghost(pp));
    let ghost a6 = al@;
    let b6 = s9.and(s11.shr(20)).and(p.or(p.shr(20)).or(p.shr(41)).or(p.shr(42))).shr(1);
    append_shape(al, b6, 81, Ghost(l), Ghost(pp));
    let ghost a7 = al@;
    let b7 = s9.and(s11.shr(21)).and(p.or(p.shr(22)).or(p.shr(42)).or(p.shr(43)));
    append_shape(al, b7, 82, Ghost(l), Ghost(pp));
    let ghost a8 = al@;
    proof {
        lemma_moves_concat(a0, a1, a2, seq![75usize], seq![76usize], l, pp);
        assert(seq![75usize] + seq![76usize] =~= seq![75usize, 76usize]);
        lemma_moves_concat(a0, a2, a3, seq![75usize, 76usize], seq![77usize], l, pp);
        assert(seq![75usize, 76usize] + seq![77usize] =~= seq![75usize, 76usize, 77usize]);
        lemma_moves_concat(a0, a3, a4, seq![75usize, 76usize, 77usize], seq![78usize], l, pp);
        assert(seq![75usize, 76usize, 77usize] + seq![78usize] =~= seq![75usize, 76usize, 77usize, 78usize]);
        lemma_moves_concat(a0, a4, a5, seq![75usize, 76usize, 77usize, 78usize], seq![79usize], l, pp);
        assert(seq![75usize, 76usize, 77usize, 78usize] + seq![79usize] =~= seq![75usize, 76usize, 77usize, 78usize, 79usize]);
        lemma_moves_concat(a0, a5, a6, seq![75usize, 76usize, 77usize, 78usize, 79usize], seq![80usize], l, pp);
        assert(seq![75usize, 76usize, 77usize, 78usize, 79usize] + seq![80usize] =~= seq![75usize, 76usize, 77usize, 78usize, 79usize, 80usize]);
        lemma_moves_concat(a0, a6, a7, seq![75usize, 76usize, 77usize, 78usize, 79usize, 80usize], seq![81usize], l, pp);
        assert(seq![75usize, 76usize, 77usize, 78usize, 79usize, 80usize] + seq![81usize] =~= seq![75usize, 76usize, 77usize, 78usize, 79usize, 80usize, 81usize]);
        lemma_moves_concat(a0, a7, a8, seq![75usize, 76usize, 77usize, 78usize, 79usize, 80usize, 81usize], seq![82usize], l, pp);
        assert(seq![75usize, 76usize, 77usize, 78usize, 79usize, 80usize, 81usize] + seq![82usize] =~= seq![75usize, 76usize, 77usize, 78usize, 79usize, 80usize, 81usize, 82usize]);
    }
}

/// Adds the moves of the shapes 31, 32, 33, 34 of one piece type.
pub fn t_pentomino(s: [Bitboard; 13], al: &mut ActionList)
    requires
        shortcuts_ok(s),
    ensures
        moves_added(old(al)@, final(al)@, seq![31usize, 32usize, 33usize, 34usize], s[9], s[12]),
{
    proof {
        reveal(shortcuts_ok);
    }
    let ghost l = s[9];
    let ghost pp = s[12];
    let ghost a0 = al@;
    let s0 = s[0];
    let s1 = s[1];
    let s2 = s[2];
    let s3 = s[3];
    let s4 = s[4];
    let s5 = s[5];
    let s6 = s[6];
    let s7 = s[7];
    let s8 = s[8];
    let s9 = s[9];
    let s10 = s[10];
    let s11 = s[11];
    let p = s[12];
    let b0 = s4.and(s6.shr(1)).and(p.or(p.shr(2)).or(p.shr(43)));
    append_shape(al, b0, 31, Ghost(l), Ghost(pp));
    let ghost a1 = al@;
    let b1 = s1.and(s0).and(s7).shr(43).and(p.shr(1).or(p.shr(42)).or(p.shr(44)));
    append_shape(al, b1, 32, Ghost(l), Ghost(pp));
    let ghost a2 = al@;
    let b2 = s6.and(s4.shr(21)).and(p.or(p.shr(23)).or(p.shr(42)));
    append_shape(al, b2, 33, Ghost(l), Ghost(pp));
    let ghost a3 = al@;
    let b3 = s5.and(s3).and(s2).shr(23).and(p.shr(2).or(p.shr(21)).or(p.shr(44)));
    append_shape(al, b3, 34, Ghost(l), Ghost(pp));
    let ghost a4 = al@;
    proof {
        lemma_moves_concat(a0, a1, a2, seq![31usize], seq![32usize], l, pp);
        assert(seq![31usize] + seq![32usize] =~= seq![31usize, 32usize]);
        lemma_moves_concat(a0, a2, a3, seq![31usize, 32usize], seq![33usize], l, pp);
        assert(seq![31usize, 32usize] + seq![33usize] =~= seq![31usize, 32usize, 33usize]);
        lemma_moves_concat(a0, a3, a4, seq![31usize, 32usize, 33usize], seq![34usize], l, pp);
        assert(seq![31usize, 32usize, 33usize] + seq![34usize] =~= seq![31usize, 32usize, 33usize, 34usize]);
    }
}

/// Adds the moves of the shapes 47, 48, 49, 50 of one piece type.
pub fn u_pentomino(s: [Bitboard; 13], al: &mut ActionList)
    requires
        shortcuts_ok(s),
    ensures
        moves_added(old(al)@, final(al)@, seq![47usize, 48usize, 49usize, 50usize], s[9], s[12]),
{
    proof {
        reveal(shortcuts_ok);
    }
    let ghost l = s[9];
    let ghost pp = s[12];
    let ghost a0 = al@;
    let s0 = s[0];
    let s1 = s[1];
    let s2 = s[2];
    let s3 = s[3];
    let s4 = s[4];
    let s5 = s[5];
    let s6 = s[6];
    let s7 = s[7];
    let s8 = s[8];
    let s9 = s[9];
    let s10 = s[10];
    let s11 = s[11];
    let p = s[12];
    let b0 = s4.and(s2).and(s9.shr(23)).and(p.or(p.shr(2)).or(p.shr(21)).or(p.shr(23)));
    append_shape(al, b0, 47, Ghost(l), Ghost(pp));
    let ghost a1 = al@;
    let b1 = s9.and(s5.and(s3).shr(23)).and(p.or(p.shr(2)).or(p.shr(21)).or(p.shr(23)));
    append_shape(al, b1, 48, Ghost(l), Ghost(pp));
    let ghost a2 = al@;
    let b2 = s6.and(s0).and(s9.shr(43)).and(p.or(p.shr(1)).or(p.shr(42)).or(p.shr(43)));
    append_shape(al, b2, 49, Ghost(l), Ghost(pp));
    let ghost a3 = al@;
    let b3 = s0.and(s1.and(s7).shr(43)).and(p.or(p.shr(1)).or(p.shr(42)).or(p.shr(43)));
    append_shape(al, b3, 50, Ghost(l), Ghost(pp));
    let ghost a4 = al@;
    proof {
        lemma_moves_concat(a0, a1, a2, seq![47usize], seq![48usize], l, pp);
        assert(seq![47usize] + seq![48usize] =~= seq![47usize, 48usize]);
        lemma_moves_concat(a0, a2, a3, seq![47usize, 48usize], seq![49usize], l, pp);
        assert(seq![47usize, 48usize] + seq![49usize] =~= seq![47usize, 48usize, 49usize]);
        lemma_moves_concat(a0, a3, a4, seq![47usize, 48usize, 49usize], seq![50usize], l, pp);
        assert(seq![47usize, 48usize, 49usize] + seq![50usize] =~= seq![47usize, 48usize, 49usize, 50usize]);
    }
}

/// Adds the moves of the shapes 71, 72, 73, 74 of one piece type.
pub fn v_pentomino(s: [Bitboard; 13], al: &mut ActionList)
    requires
        shortcuts_ok(s),
    ensures
        moves_added(old(al)@, final(al)@, seq![71usize, 72usize, 73usize, 74usize], s[9], s[12]),
{
    proof {
        reveal(shortcuts_ok);
    }
    let ghost l = s[9];
    let ghost pp = s[12];
    let ghost a0 = al@;
    let s0 = s[0];
    let s1 = s[1];
    let s2 = s[2];
    let s3 = s[3];
    let s4 = s[4];
    let s5 = s[5];
    let s6 = s[6];
    let s7 = s[7];
    let s8 = s[8];
    let s9 = s[9];
    let s10 = s[10];
    let s11 = s[11];
    let p = s[12];
    let b0 = s4.and(s6).and(p.or(p.shr(2)).or(p.shr(42)));
    append_shape(al, b0, 71, Ghost(l), Ghost(pp));
    let ghost a1 = al@;
    let b1 = s7.and(s5).shr(44).and(p.shr(2).or(p.shr(42)).or(p.shr(44)));
    append_shape(al, b1, 72, Ghost(l), Ghost(pp));
    let ghost a2 = al@;
    let b2 = s4.and(s6.shr(2)).and(p.or(p.shr(2)).or(p.shr(44)));
    append_shape(al, b2, 73, Ghost(l), Ghost(pp));
    let ghost a3 = al@;
    let b3 = s6.and(s4.shr(42)).and(p.or(p.shr(42)).or(p.shr(44)));
    append_shape(al, b3, 74, Ghost(l), Ghost(pp));
    let ghost a4 = al@;
    proof {
        lemma_moves_concat(a0, a1, a2, seq![71usize], seq![72usize], l, pp);
        assert(seq![71usize] + seq![72usize] =~= seq![71usize, 72usize]);
        lemma_moves_concat(a0, a2, a3, seq![71usize, 72usize], seq![73usize], l, pp);
        assert(seq![71usize, 72usize] + seq![73usize] =~= seq![71usize, 72usize, 73usize]);
        lemma_moves_concat(a0, a3, a4, seq![71usize, 72usize, 73usize], seq![74usize], l, pp);
        assert(seq![71usize, 72usize, 73usize] + seq![74usize] =~= seq![71usize, 72usize, 73usize, 74usize]);
    }
}

/// Adds the moves of the shapes 59, 60, 61, 62 of one piece type.
pub fn w_pentomino(s: [Bitboard; 13], al: &mut ActionList)
    requires
        shortcuts_ok(s),
    ensures
        moves_added(old(al)@, final(al)@, seq![59usize, 60usize, 61usize, 62usize], s[9], s[12]),
{
    proof {
        reveal(shortcuts_ok);
    }
    let ghost l = s[9];
    let ghost pp = s[12];
    let ghost a0 = al@;
    let s0 = s[0];
    let s1 = s[1];
    let s2 = s[2];
    let s3 = s[3];
    let s4 = s[4];
    let s5 = s[5];
    let s6 = s[6];
    let s7 = s[7];
    let s8 = s[8];
    let s9 = s[9];
    let s10 = s[10];
    let s11 = s[11];
    let p = s[12];
    let b0 = s2.and(s3.and(s0).shr(43)).and(p.or(p.shr(21)).or(p.shr(22)).or(p.shr(43)).or(p.shr(44)));
    append_shape(al, b0, 59, Ghost(l), Ghost(pp));
    let ghost a1 = al@;
    let b1 = s3.and(s1).shr(23).and(s0.shr(42)).and(p.shr(2).or(p.shr(22)).or(p.shr(23)).or(p.shr(42)).or(p.shr(43)));
    append_shape(al, b1, 60, Ghost(l), Ghost(pp));
    let ghost a2 = al@;
    let b2 = s0.and(s2.and(s1).shr(23)).and(p.or(p.shr(1)).or(p.shr(22)).or(p.shr(23)).or(p.shr(44)));
    append_shape(al, b2, 61, Ghost(l), Ghost(pp));
    let ghost a3 = al@;
    let b3 = s0.and(s0.and(s2).shr(20)).and(p.or(p.shr(1)).or(p.shr(20)).or(p.shr(21)).or(p.shr(41))).shr(1);
    append_shape(al, b3, 62, Ghost(l), Ghost(pp));
    let ghost a4 = al@;
    proof {
        lemma_moves_concat(a0, a1, a2, seq![59usize], seq![60usize], l, pp);
        assert(seq![59usize] + seq![60usize] =~= seq![59usize, 60usize]);
        lemma_moves_concat(a0, a2, a3, seq![59usize, 60usize], seq![61usize], l, pp);
        assert(seq![59usize, 60usize] + seq![61usize] =~= seq![59usize, 60usize, 61usize]);
        lemma_moves_concat(a0, a3, a4, seq![59usize, 60usize, 61usize], seq![62usize], l, pp);
        assert(seq![59usize, 60usize, 61usize] + seq![62usize] =~= seq![59usize, 60usize, 61usize, 62usize]);
    }
}

/// Adds the moves of the shapes 10 of one piece type.
pub fn x_pentomino(s: [Bitboard; 13], al: &mut ActionList)
    requires
        shortcuts_ok(s),
    ensures
        moves_added(old(al)@, final(al)@, seq![10usize], s[9], s[12]),
{
    proof {
        reveal(shortcuts_ok);
    }
    let ghost l = s[9];
    let ghost pp = s[12];
    let ghost a0 = al@;
    let s0 = s[0];
    let s1 = s[1];
    let s2 = s[2];
    let s3 = s[3];
    let s4 = s[4];
    let s5 = s[5];
    let s6 = s[6];
    let s7 = s[7];
    let s8 = s[8];
    let s9 = s[9];
    let s10 = s[10];
    let s11 = s[11];
    let p = s[12];
    let b0 = s4.shr(20).and(s6).and(p.or(p.shr(20)).or(p.shr(22)).or(p.shr(42))).shr(1);
    append_shape(al, b0, 10, Ghost(l), Ghost(pp));
    let ghost a1 = al@;
}

/// Adds the moves of the shapes 83, 84, 85, 86, 87, 88, 89, 90 of one piece type.
pub fn y_pentomino(s: [Bitboard; 13], al: &mut ActionList)
    requires
        shortcuts_ok(s),
    ensures
        moves_added(old(al)@, final(al)@, seq![83usize, 84usize, 85usize, 86usize, 87usize, 88usize, 89usize, 90usize], s[9], s[12]),
{
    proof {
        reveal(shortcuts_ok);
    }
    let ghost l = s[9];
    let ghost pp = s[12];
    let ghost a0 = al@;
    let s0 = s[0];
    let s1 = s[1];
    let s2 = s[2];
    let s3 = s[3];
    let s4 = s[4];
    let s5 = s[5];
    let s6 = s[6];
    let s7 = s[7];
    let s8 = s[8];
    let s9 = s[9];
    let s10 = s[10];
    let s11 = s[11];
    let p = s[12];
    let b0 = s10.and(s9.shr(22)).and(p.or(p.shr(22)).or(p.shr(63)));
    append_shape(al, b0, 83, Ghost(l), Ghost(pp));
    let ghost a1 = al@;
    let b1 = s10.and(s9.shr(43)).and(p.or(p.shr(43)).or(p.shr(63)));
    append_shape(al, b1, 84, Ghost(l), Ghost(pp));
    let ghost a2 = al@;
    let b2 = s10.and(s9.shr(41)).and(p.or(p.shr(41)).or(p.shr(63))).shr(1);
    append_shape(al, b2, 85, Ghost(l), Ghost(pp));
    let ghost a3 = al@;
    let b3 = s10.and(s9.shr(20)).and(p.or(p.shr(20)).or(p.shr(63))).shr(1);
    append_shape(al, b3, 86, Ghost(l), Ghost(pp));
    let ghost a4 = al@;
    let b4 = s8.and(s9.shr(23)).and(p.or(p.shr(3)).or(p.shr(23)));
    append_shape(al, b4, 87, Ghost(l), Ghost(pp));
    let ghost a5 = al@;
    let b5 = s8.and(s9.shr(22)).and(p.or(p.shr(3)).or(p.shr(22)));
    append_shape(al, b5, 88, Ghost(l), Ghost(pp));
    let ghost a6 = al@;
    let b6 = s3.and(s0).and(s5).shr(23).and(p.shr(2).or(p.shr(21)).or(p.shr(24)));
    append_shape(al, b6, 89, Ghost(l), Ghost(pp));
    let ghost a7 = al@;
    let b7 = s9.and(s8.shr(20)).and(p.or(p.shr(20)).or(p.shr(23))).shr(1);
    append_shape(al, b7, 90, Ghost(l), Ghost(pp));
    let ghost a8 = al@;
    proof {
        lemma_moves_concat(a0, a1, a2, seq![83usize], seq![84usize], l, pp);
        assert(seq![83usize] + seq![84usize] =~= seq![83usize, 84usize]);
        lemma_moves_concat(a0, a2, a3, seq![83usize, 84usize], seq![85usize], l, pp);
        assert(seq![83usize, 84usize] + seq![85usize] =~= seq![83usize, 84usize, 85usize]);
        lemma_moves_concat(a0, a3, a4, seq![83usize, 84usize, 85usize], seq![86usize], l, pp);
        assert(seq![83usize, 84usize, 85usize] + seq![86usize] =~= seq![83usize, 84usize, 85usize, 86usize]);
        lemma_moves_concat(a0, a4, a5, seq![83usize, 84usize, 85usize, 86usize], seq![87usize], l, pp);
        assert(seq![83usize, 84usize, 85usize, 86usize] + seq![87usize] =~= seq![83usize, 84usize, 85usize, 86usize, 87usize]);
        lemma_moves_concat(a0, a5, a6, seq![83usize, 84usize, 85usize, 86usize, 87usize], seq![88usize], l, pp);
        assert(seq![83usize, 84usize, 85usize, 86usize, 87usize] + seq![88usize] =~= seq![83usize, 84usize, 85usize, 86usize, 87usize, 88usize]);
        lemma_moves_concat(a0, a6, a7, seq![83usize, 84usize, 85usize, 86usize, 87usize, 88usize], seq![89usize], l, pp);
        assert(seq![83usize, 84usize, 85usize, 86usize, 87usize, 88usize] + seq![89usize] =~= seq![83usize, 84usize, 85usize, 86usize, 87usize, 88usize, 89usize]);
        lemma_moves_concat(a0, a7, a8, seq![83usize, 84usize, 85usize, 86usize, 87usize, 88usize, 89usize], seq![90usize], l, pp);
        assert(seq![83usize, 84usize, 85usize, 86usize, 87usize, 88usize, 89usize] + seq![90usize] =~= seq![83usize, 84usize, 85usize, 86usize, 87usize, 88usize, 89usize, 90usize]);
    }
}

/// Adds the moves of the shapes 43, 44, 45, 46 of one piece type.
pub fn z_pentomino(s: [Bitboard; 13], al: &mut ActionList)
    requires
        shortcuts_ok(s),
    ensures
        moves_added(old(al)@, final(al)@, seq![43usize, 44usize, 45usize, 46usize], s[9], s[12]),
{
    proof {
        reveal(shortcuts_ok);
    }
    let ghost l = s[9];
    let ghost pp = s[12];
    let ghost a0 = al@;
    let s0 = s[0];
    let s1 = s[1];
    let s2 = s[2];
    let s3 = s[3];
    let s4 = s[4];
    let s5 = s[5];
    let s6 = s[6];
    let s7 = s[7];
    let s8 = s[8];
    let s9 = s[9];
    let s10 = s[10];
    let s11 = s[11];
    let p = s[12];
    let b0 = s9.and(s5.and(s2).shr(23)).and(p.or(p.shr(21)).or(p.shr(23)).or(p.shr(44)));
    append_shape(al, b0, 43, Ghost(l), Ghost(pp));
    let ghost a1 = al@;
    let b1 = s9.and(s4.and(s2).shr(19)).and(p.or(p.shr(19)).or(p.shr(21)).or(p.shr(40))).shr(2);
    append_shape(al, b1, 44, Ghost(l), Ghost(pp));
    let ghost a2 = al@;
    let b2 = s9.shr(2).and(s7.and(s1).shr(43)).and(p.shr(1).or(p.shr(2)).or(p.shr(42)).or(p.shr(43)));
    append_shape(al, b2, 45, Ghost(l), Ghost(pp));
    let ghost a3 = al@;
    let b3 = s0.and(s0.and(s7).shr(43)).and(p.or(p.shr(1)).or(p.shr(43)).or(p.shr(44)));
    append_shape(al, b3, 46, Ghost(l), Ghost(pp));
    let ghost a4 = al@;
    proof {
        lemma_moves_concat(a0, a1, a2, seq![43usize], seq![44usize], l, pp);
        assert(seq![43usize] + seq![44usize] =~= seq![43usize, 44usize]);
        lemma_moves_concat(a0, a2, a3, seq![43usize, 44usize], seq![45usize], l, pp);
        assert(seq![43usize, 44usize] + seq![45usize] =~= seq![43usize, 44usize, 45usize]);
        lemma_moves_concat(a0, a3, a4, seq![43usize, 44usize, 45usize], seq![46usize], l, pp);
        assert(seq![43usize, 44usize, 45usize] + seq![46usize] =~= seq![43usize, 44usize, 45usize, 46usize]);
    }
}


/// The shapes of piece type `t`, in the order in which move generation adds them.
pub open spec fn gen_shapes(t: int) -> Seq<usize> {
    if t == 0 {
        seq![0usize]
    } else if t == 1 {
        seq![1usize, 2usize]
    } else if t == 2 {
        seq![3usize, 4usize]
    } else if t == 3 {
        seq![11usize, 12usize, 13usize, 14usize]
    } else if t == 4 {
        seq![5usize, 6usize]
    } else if t == 5 {
        seq![15usize, 16usize, 17usize, 18usize, 19usize, 20usize, 21usize, 22usize]
    } else if t == 6 {
        seq![35usize, 36usize, 37usize, 38usize]
    } else if t == 7 {
        seq![9usize]
    } else if t == 8 {
        seq![39usize, 40usize, 41usize, 42usize]
    } else if t == 9 {
        seq![51usize, 52usize, 53usize, 54usize, 55usize, 56usize, 57usize, 58usize]
    } else if t == 10 {
        seq![7usize, 8usize]
    } else if t == 11 {
        seq![23usize, 24usize, 25usize, 26usize, 27usize, 28usize, 29usize, 30usize]
    } else if t == 12 {
        seq![63usize, 64usize, 65usize, 66usize, 67usize, 68usize, 69usize, 70usize]
    } else if t == 13 {
        seq![75usize, 76usize, 77usize, 78usize, 79usize, 80usize, 81usize, 82usize]
    } else if t == 14 {
        seq![31usize, 32usize, 33usize, 34usize]
    } else if t == 15 {
        seq![47usize, 48usize, 49usize, 50usize]
    } else if t == 16 {
        seq![71usize, 72usize, 73usize, 74usize]
    } else if t == 17 {
        seq![59usize, 60usize, 61usize, 62usize]
    } else if t == 18 {
        seq![10usize]
    } else if t == 19 {
        seq![83usize, 84usize, 85usize, 86usize, 87usize, 88usize, 89usize, 90usize]
    } else {
        seq![43usize, 44usize, 45usize, 46usize]
    }
}

/// Every shape of a piece type is among the shapes that move generation adds for it.
pub proof fn lemma_shape_in_gen(x: usize)
    requires
        x < 91,
    ensures
        gen_shapes(shape_type_spec(x).index_spec()).contains(x),
{
    if x == 0 {
        assert(gen_shapes(0)[0] == x);
    }     else if x == 1 {
        assert(gen_shapes(1)[0] == x);
    }     else if x == 2 {
        assert(gen_shapes(1)[1] == x);
    }     else if x == 3 {
        assert(gen_shapes(2)[0] == x);
    }     else if x == 4 {
        assert(gen_shapes(2)[1] == x);
    }     else if x == 5 {
        assert(gen_shapes(4)[0] == x);
    }     else if x == 6 {
        assert(gen_shapes(4)[1] == x);
    }     else if x == 7 {
        assert(gen_shapes(10)[0] == x);
    }     else if x == 8 {
        assert(gen_shapes(10)[1] == x);
    }     else if x == 9 {
        assert(gen_shapes(7)[0] == x);
    }     else if x == 10 {
        assert(gen_shapes(18)[0] == x);
    }     else if x == 11 {
        assert(gen_shapes(3)[0] == x);
    }     else if x == 12 {
        assert(gen_shapes(3)[1] == x);
    }     else if x == 13 {
        assert(gen_shapes(3)[2] == x);
    }     else if x == 14 {
        assert(gen_shapes(3)[3] == x);
    }     else if x == 15 {
        assert(gen_shapes(5)[0] == x);
    }     else if x == 16 {
        assert(gen_shapes(5)[1] == x);
    }     else if x == 17 {
        assert(gen_shapes(5)[2] == x);
    }     else if x == 18 {
        assert(gen_shapes(5)[3] == x);
    }     else if x == 19 {
        assert(gen_shapes(5)[4] == x);
    }     else if x == 20 {
        assert(gen_shapes(5)[5] == x);
    }     else if x == 21 {
        assert(gen_shapes(5)[6] == x);
    }     else if x == 22 {
        assert(gen_shapes(5)[7] == x);
    }     else if x == 23 {
        assert(gen_shapes(11)[0] == x);
    }     else if x == 24 {
        assert(gen_shapes(11)[1] == x);
    }     else if x == 25 {
        assert(gen_shapes(11)[2] == x);
    }     else if x == 26 {
        assert(gen_shapes(11)[3] == x);
    }     else if x == 27 {
        assert(gen_shapes(11)[4] == x);
    }     else if x == 28 {
        assert(gen_shapes(11)[5] == x);
    }     else if x == 29 {
        assert(gen_shapes(11)[6] == x);
    }     else if x == 30 {
        assert(gen_shapes(11)[7] == x);
    }     else if x == 31 {
        assert(gen_shapes(14)[0] == x);
    }     else if x == 32 {
        assert(gen_shapes(14)[1] == x);
    }     else if x == 33 {
        assert(gen_shapes(14)[2] == x);
    }     else if x == 34 {
        assert(gen_shapes(14)[3] == x);
    }     else if x == 35 {
        assert(gen_shapes(6)[0] == x);
    }     else if x == 36 {
        assert(gen_shapes(6)[1] == x);
    }     else if x == 37 {
        assert(gen_shapes(6)[2] == x);
    }     else if x == 38 {
        assert(gen_shapes(6)[3] == x);
    }     else if x == 39 {
        assert(gen_shapes(8)[0] == x);
    }     else if x == 40 {
        assert(gen_shapes(8)[1] == x);
    }     else if x == 41 {
        assert(gen_shapes(8)[2] == x);
    }     else if x == 42 {
        assert(gen_shapes(8)[3] == x);
    }     else if x == 43 {
        assert(gen_shapes(20)[0] == x);
    }     else if x == 44 {
        assert(gen_shapes(20)[1] == x);
    }     else if x == 45 {
        assert(gen_shapes(20)[2] == x);
    }     else if x == 46 {
        assert(gen_shapes(20)[3] == x);
    }     else if x == 47 {
        assert(gen_shapes(15)[0] == x);
    }     else if x == 48 {
        assert(gen_shapes(15)[1] == x);
    }     else if x == 49 {
        assert(gen_shapes(15)[2] == x);
    }     else if x == 50 {
        assert(gen_shapes(15)[3] == x);
    }     else if x == 51 {
        assert(gen_shapes(9)[0] == x);
    }     else if x == 52 {
        assert(gen_shapes(9)[1] == x);
    }     else if x == 53 {
        assert(gen_shapes(9)[2] == x);
    }     else if x == 54 {
        assert(gen_shapes(9)[3] == x);
    }     else if x == 55 {
        assert(gen_shapes(9)[4] == x);
    }     else if x == 56 {
        assert(gen_shapes(9)[5] == x);
    }     else if x == 57 {
        assert(gen_shapes(9)[6] == x);
    }     else if x == 58 {
        assert(gen_shapes(9)[7] == x);
    }     else if x == 59 {
        assert(gen_shapes(17)[0] == x);
    }     else if x == 60 {
        assert(gen_shapes(17)[1] == x);
    }     else if x == 61 {
        assert(gen_shapes(17)[2] == x);
    }     else if x == 62 {
        assert(gen_shapes(17)[3] == x);
    }     else if x == 63 {
        assert(gen_shapes(12)[0] == x);
    }     else if x == 64 {
        assert(gen_shapes(12)[1] == x);
    }     else if x == 65 {
        assert(gen_shapes(12)[2] == x);
    }     else if x == 66 {
        assert(gen_shapes(12)[3] == x);
    }     else if x == 67 {
        assert(gen_shapes(12)[4] == x);
    }     else if x == 68 {
        assert(gen_shapes(12)[5] == x);
    }     else if x == 69 {
        assert(gen_shapes(12)[6] == x);
    }     else if x == 70 {
        assert(gen_shapes(12)[7] == x);
    }     else if x == 71 {
        assert(gen_shapes(16)[0] == x);
    }     else if x == 72 {
        assert(gen_shapes(16)[1] == x);
    }     else if x == 73 {
        assert(gen_shapes(16)[2] == x);
    }     else if x == 74 {
        assert(gen_shapes(16)[3] == x);
    }     else if x == 75 {
        assert(gen_shapes(13)[0] == x);
    }     else if x == 76 {
        assert(gen_shapes(13)[1] == x);
    }     else if x == 77 {
        assert(gen_shapes(13)[2] == x);
    }     else if x == 78 {
        assert(gen_shapes(13)[3] == x);
    }     else if x == 79 {
        assert(gen_shapes(13)[4] == x);
    }     else if x == 80 {
        assert(gen_shapes(13)[5] == x);
    }     else if x == 81 {
        assert(gen_shapes(13)[6] == x);
    }     else if x == 82 {
        assert(gen_shapes(13)[7] == x);
    }     else if x == 83 {
        assert(gen_shapes(19)[0] == x);
    }     else if x == 84 {
        assert(gen_shapes(19)[1] == x);
    }     else if x == 85 {
        assert(gen_shapes(19)[2] == x);
    }     else if x == 86 {
        assert(gen_shapes(19)[3] == x);
    }     else if x == 87 {
        assert(gen_shapes(19)[4] == x);
    }     else if x == 88 {
        assert(gen_shapes(19)[5] == x);
    }     else if x == 89 {
        assert(gen_shapes(19)[6] == x);
    }     else if x == 90 {
        assert(gen_shapes(19)[7] == x);
    }
}

/// The shapes that move generation adds for piece type `t` are of type `t`.
pub proof fn lemma_gen_types(t: int)
    requires
        0 <= t < 21,
    ensures
        forall|j: int|
            0 <= j < gen_shapes(t).len() ==> #[trigger] gen_shapes(t)[j] < 91 && shape_type_spec(
                gen_shapes(t)[j],
            ).index_spec() == t,
{
}

/// Piece type `t` lies in `lo..hi` and is still available to color `c`.
pub open spec fn type_in(pieces: [[bool; 4]; 21], c: int, lo: int, hi: int, t: int) -> bool {
    lo <= t < hi && pieces[t][c]
}

/// `acts` holds exactly the moves, each once, of the shapes whose piece type lies in `lo..hi`
/// and is available to color `c`, given the legal fields `l` and the placement fields `p`.
#[verifier::opaque]
pub open spec fn typed_moves(
    acts: Seq<Action>,
    l: Bitboard,
    p: Bitboard,
    pieces: [[bool; 4]; 21],
    c: int,
    lo: int,
    hi: int,
) -> bool {
    &&& forall|k: int|
        0 <= k < acts.len() ==> #[trigger] acts[k].shape_spec() < 91 && type_in(
            pieces,
            c,
            lo,
            hi,
            shape_type_spec(acts[k].shape_spec() as usize).index_spec(),
        ) && bb_destination(acts[k].shape_spec() as usize, l, p, acts[k].destination_spec())
    &&& forall|x: usize, d: int|
        x < 91 && type_in(pieces, c, lo, hi, shape_type_spec(x).index_spec()) && #[trigger] bb_destination(
            x,
            l,
            p,
            d,
        ) ==> exists|k: int|
            0 <= k < acts.len() && #[trigger] acts[k].destination_spec() == d && acts[k].shape_spec()
                == x
    &&& forall|k1: int, k2: int|
        0 <= k1 < k2 < acts.len() ==> #[trigger] acts[k1] != #[trigger] acts[k2]
}

/// A list without actions holds the moves of an empty range of piece types.
pub proof fn lemma_typed_empty(l: Bitboard, p: Bitboard, pieces: [[bool; 4]; 21], c: int, t: int)
    ensures
        typed_moves(Seq::<Action>::empty(), l, p, pieces, c, t, t),
{
    reveal(typed_moves);
}

/// Adding the moves of one more piece type (or nothing, when the type is not available)
/// widens the range of types that the list holds the moves of.
pub proof fn lemma_typed_step(
    before: Seq<Action>,
    after: Seq<Action>,
    l: Bitboard,
    p: Bitboard,
    pieces: [[bool; 4]; 21],
    c: int,
    lo: int,
    hi: int,
    lo2: int,
    hi2: int,
    t: int,
)
    requires
        typed_moves(before, l, p, pieces, c, lo, hi),
        0 <= t < 21,
        lo <= hi,
        (lo2 == lo && hi2 == hi + 1 && t == hi) || (lo2 == lo - 1 && hi2 == hi && t == lo - 1),
        pieces[t][c] ==> moves_added(before, after, gen_shapes(t), l, p),
        !pieces[t][c] ==> after == before,
    ensures
        typed_moves(after, l, p, pieces, c, lo2, hi2),
{
    reveal(typed_moves);
    reveal(moves_added);
    lemma_gen_types(t);
    if pieces[t][c] {
        let n = before.len();
        assert forall|k: int| 0 <= k < n implies after[k] == before[k] by {
            assert(after.subrange(0, n as int)[k] == after[k]);
        }
        assert forall|k: int|
            0 <= k < after.len() implies #[trigger] after[k].shape_spec() < 91 && type_in(
                pieces,
                c,
                lo2,
                hi2,
                shape_type_spec(after[k].shape_spec() as usize).index_spec(),
            ) && bb_destination(after[k].shape_spec() as usize, l, p, after[k].destination_spec()) by {
            if k < n {
                assert(after[k] == before[k]);
                assert(before[k].shape_spec() < 91);
            } else {
                assert(gen_shapes(t).contains(after[k].shape_spec() as usize));
                let j = choose|j: int| 0 <= j < gen_shapes(t).len() && gen_shapes(t)[j] == after[k].shape_spec() as usize;
                assert(gen_shapes(t)[j] < 91);
            }
        }
        assert forall|x: usize, d: int|
            x < 91 && type_in(pieces, c, lo2, hi2, shape_type_spec(x).index_spec()) && #[trigger] bb_destination(
                x,
                l,
                p,
                d,
            ) implies exists|k: int|
            0 <= k < after.len() && #[trigger] after[k].destination_spec() == d && after[k].shape_spec()
                == x by {
            if shape_type_spec(x).index_spec() == t {
                lemma_shape_in_gen(x);
                let j = choose|j: int| 0 <= j < gen_shapes(t).len() && gen_shapes(t)[j] == x;
                assert(bb_destination(gen_shapes(t)[j], l, p, d));
                let k = choose|k: int|
                    n <= k < after.len() && #[trigger] after[k].destination_spec() == d
                        && after[k].shape_spec() == gen_shapes(t)[j];
            } else {
                assert(type_in(pieces, c, lo, hi, shape_type_spec(x).index_spec()));
                let k = choose|k: int|
                    0 <= k < before.len() && #[trigger] before[k].destination_spec() == d
                        && before[k].shape_spec() == x;
                assert(after[k] == before[k]);
            }
        }
        assert forall|k1: int, k2: int|
            0 <= k1 < k2 < after.len() implies #[trigger] after[k1] != #[trigger] after[k2] by {
            if k2 < n {
                assert(after[k1] == before[k1] && after[k2] == before[k2]);
            } else if k1 >= n {
            } else {
                assert(after[k1] == before[k1]);
                assert(before[k1].shape_spec() < 91);
                assert(gen_shapes(t).contains(after[k2].shape_spec() as usize));
                let j = choose|j: int| 0 <= j < gen_shapes(t).len() && gen_shapes(t)[j] == after[k2].shape_spec() as usize;
                assert(gen_shapes(t)[j] < 91);
            }
        }
    } else {
        assert forall|k: int|
            0 <= k < after.len() implies #[trigger] after[k].shape_spec() < 91 && type_in(
                pieces,
                c,
                lo2,
                hi2,
                shape_type_spec(after[k].shape_spec() as usize).index_spec(),
            ) && bb_destination(after[k].shape_spec() as usize, l, p, after[k].destination_spec()) by {
            assert(before[k].shape_spec() < 91);
        }
    }
}

} // verus!
