use vstd::prelude::*;
use crate::bits::u128_bit;
use crate::bitboard::piece_shape_spec;
use crate::shapes::shape_fits;

verus! {

proof fn lemma_shape_words_0()
    by (bit_vector)
    ensures
        forall|j: u128| j < 128 ==> (((1u128 >> j) & 1u128 == 1u128) <==> (j == 0u128)),
        forall|j: u128| j < 128 ==> (((3u128 >> j) & 1u128 == 1u128) <==> (j == 0u128 || j == 1u128)),
        forall|j: u128| j < 128 ==> (((2097153u128 >> j) & 1u128 == 1u128) <==> (j == 0u128 || j == 21u128)),
        forall|j: u128| j < 128 ==> (((7u128 >> j) & 1u128 == 1u128) <==> (j == 0u128 || j == 1u128 || j == 2u128)),
        forall|j: u128| j < 128 ==> (((4398048608257u128 >> j) & 1u128 == 1u128) <==> (j == 0u128 || j == 21u128 || j == 42u128)),
        forall|j: u128| j < 128 ==> (((15u128 >> j) & 1u128 == 1u128) <==> (j == 0u128 || j == 1u128 || j == 2u128 || j == 3u128)),
        forall|j: u128| j < 128 ==> (((9223376434903384065u128 >> j) & 1u128 == 1u128) <==> (j == 0u128 || j == 21u128 || j == 42u128 || j == 63u128)),
        forall|j: u128| j < 128 ==> (((31u128 >> j) & 1u128 == 1u128) <==> (j == 0u128 || j == 1u128 || j == 2u128 || j == 3u128 || j == 4u128)),
        forall|j: u128| j < 128 ==> (((19342822337210501698682881u128 >> j) & 1u128 == 1u128) <==> (j == 0u128 || j == 21u128 || j == 42u128 || j == 63u128 || j == 84u128)),
        forall|j: u128| j < 128 ==> (((6291459u128 >> j) & 1u128 == 1u128) <==> (j == 0u128 || j == 1u128 || j == 21u128 || j == 22u128)),
        forall|j: u128| j < 128 ==> (((8796107702274u128 >> j) & 1u128 == 1u128) <==> (j == 1u128 || j == 21u128 || j == 22u128 || j == 23u128 || j == 43u128)),
        forall|j: u128| j < 128 ==> (((6291457u128 >> j) & 1u128 == 1u128) <==> (j == 0u128 || j == 21u128 || j == 22u128)),
        forall|j: u128| j < 128 ==> (((2097155u128 >> j) & 1u128 == 1u128) <==> (j == 0u128 || j == 1u128 || j == 21u128)),
        forall|j: u128| j < 128 ==> (((4194307u128 >> j) & 1u128 == 1u128) <==> (j == 0u128 || j == 1u128 || j == 22u128)),
        forall|j: u128| j < 128 ==> (((6291458u128 >> j) & 1u128 == 1u128) <==> (j == 1u128 || j == 21u128 || j == 22u128)),
        forall|j: u128| j < 128 ==> (((4398048608259u128 >> j) & 1u128 == 1u128) <==> (j == 0u128 || j == 1u128 || j == 21u128 || j == 42u128)),
        forall|j: u128| j < 128 ==> (((8796097216515u128 >> j) & 1u128 == 1u128) <==> (j == 0u128 || j == 1u128 || j == 22u128 || j == 43u128)),
        forall|j: u128| j < 128 ==> (((13194143727618u128 >> j) & 1u128 == 1u128) <==> (j == 1u128 || j == 22u128 || j == 42u128 || j == 43u128)),
        forall|j: u128| j < 128 ==> (((13194141630465u128 >> j) & 1u128 == 1u128) <==> (j == 0u128 || j == 21u128 || j == 42u128 || j == 43u128)),
        forall|j: u128| j < 128 ==> (((14680065u128 >> j) & 1u128 == 1u128) <==> (j == 0u128 || j == 21u128 || j == 22u128 || j == 23u128)),
        forall|j: u128| j < 128 ==> (((2097159u128 >> j) & 1u128 == 1u128) <==> (j == 0u128 || j == 1u128 || j == 2u128 || j == 21u128)),
        forall|j: u128| j < 128 ==> (((8388615u128 >> j) & 1u128 == 1u128) <==> (j == 0u128 || j == 1u128 || j == 2u128 || j == 23u128)),
        forall|j: u128| j < 128 ==> (((14680068u128 >> j) & 1u128 == 1u128) <==> (j == 2u128 || j == 21u128 || j == 22u128 || j == 23u128)),
{
}

proof fn lemma_shape_words_1()
    by (bit_vector)
    ensures
        forall|j: u128| j < 128 ==> (((16777231u128 >> j) & 1u128 == 1u128) <==> (j == 0u128 || j == 1u128 || j == 2u128 || j == 3u128 || j == 24u128)),
        forall|j: u128| j < 128 ==> (((2097167u128 >> j) & 1u128 == 1u128) <==> (j == 0u128 || j == 1u128 || j == 2u128 || j == 3u128 || j == 21u128)),
        forall|j: u128| j < 128 ==> (((31457281u128 >> j) & 1u128 == 1u128) <==> (j == 0u128 || j == 21u128 || j == 22u128 || j == 23u128 || j == 24u128)),
        forall|j: u128| j < 128 ==> (((31457288u128 >> j) & 1u128 == 1u128) <==> (j == 3u128 || j == 21u128 || j == 22u128 || j == 23u128 || j == 24u128)),
        forall|j: u128| j < 128 ==> (((9223376434903384067u128 >> j) & 1u128 == 1u128) <==> (j == 0u128 || j == 1u128 || j == 21u128 || j == 42u128 || j == 63u128)),
        forall|j: u128| j < 128 ==> (((27670120508612935681u128 >> j) & 1u128 == 1u128) <==> (j == 0u128 || j == 21u128 || j == 42u128 || j == 63u128 || j == 64u128)),
        forall|j: u128| j < 128 ==> (((18446752869806768131u128 >> j) & 1u128 == 1u128) <==> (j == 0u128 || j == 1u128 || j == 22u128 || j == 43u128 || j == 64u128)),
        forall|j: u128| j < 128 ==> (((27670124906661543938u128 >> j) & 1u128 == 1u128) <==> (j == 1u128 || j == 22u128 || j == 43u128 || j == 63u128 || j == 64u128)),
        forall|j: u128| j < 128 ==> (((8796097216519u128 >> j) & 1u128 == 1u128) <==> (j == 0u128 || j == 1u128 || j == 2u128 || j == 22u128 || j == 43u128)),
        forall|j: u128| j < 128 ==> (((30786329772034u128 >> j) & 1u128 == 1u128) <==> (j == 1u128 || j == 22u128 || j == 42u128 || j == 43u128 || j == 44u128)),
        forall|j: u128| j < 128 ==> (((4398061191169u128 >> j) & 1u128 == 1u128) <==> (j == 0u128 || j == 21u128 || j == 22u128 || j == 23u128 || j == 42u128)),
        forall|j: u128| j < 128 ==> (((17592200724484u128 >> j) & 1u128 == 1u128) <==> (j == 2u128 || j == 21u128 || j == 22u128 || j == 23u128 || j == 44u128)),
        forall|j: u128| j < 128 ==> (((4194311u128 >> j) & 1u128 == 1u128) <==> (j == 0u128 || j == 1u128 || j == 2u128 || j == 22u128)),
        forall|j: u128| j < 128 ==> (((14680066u128 >> j) & 1u128 == 1u128) <==> (j == 1u128 || j == 21u128 || j == 22u128 || j == 23u128)),
        forall|j: u128| j < 128 ==> (((4398052802561u128 >> j) & 1u128 == 1u128) <==> (j == 0u128 || j == 21u128 || j == 22u128 || j == 42u128)),
        forall|j: u128| j < 128 ==> (((8796099313666u128 >> j) & 1u128 == 1u128) <==> (j == 1u128 || j == 21u128 || j == 22u128 || j == 43u128)),
        forall|j: u128| j < 128 ==> (((6291462u128 >> j) & 1u128 == 1u128) <==> (j == 1u128 || j == 2u128 || j == 21u128 || j == 22u128)),
        forall|j: u128| j < 128 ==> (((12582915u128 >> j) & 1u128 == 1u128) <==> (j == 0u128 || j == 1u128 || j == 22u128 || j == 23u128)),
        forall|j: u128| j < 128 ==> (((4398052802562u128 >> j) & 1u128 == 1u128) <==> (j == 1u128 || j == 21u128 || j == 22u128 || j == 42u128)),
        forall|j: u128| j < 128 ==> (((8796099313665u128 >> j) & 1u128 == 1u128) <==> (j == 0u128 || j == 21u128 || j == 22u128 || j == 43u128)),
        forall|j: u128| j < 128 ==> (((17592200724481u128 >> j) & 1u128 == 1u128) <==> (j == 0u128 || j == 21u128 || j == 22u128 || j == 23u128 || j == 44u128)),
        forall|j: u128| j < 128 ==> (((4398061191172u128 >> j) & 1u128 == 1u128) <==> (j == 2u128 || j == 21u128 || j == 22u128 || j == 23u128 || j == 42u128)),
        forall|j: u128| j < 128 ==> (((13194143727622u128 >> j) & 1u128 == 1u128) <==> (j == 1u128 || j == 2u128 || j == 22u128 || j == 42u128 || j == 43u128)),
{
}

proof fn lemma_shape_words_2()
    by (bit_vector)
    ensures
        forall|j: u128| j < 128 ==> (((26388283260931u128 >> j) & 1u128 == 1u128) <==> (j == 0u128 || j == 1u128 || j == 22u128 || j == 43u128 || j == 44u128)),
        forall|j: u128| j < 128 ==> (((10485767u128 >> j) & 1u128 == 1u128) <==> (j == 0u128 || j == 1u128 || j == 2u128 || j == 21u128 || j == 23u128)),
        forall|j: u128| j < 128 ==> (((14680069u128 >> j) & 1u128 == 1u128) <==> (j == 0u128 || j == 2u128 || j == 21u128 || j == 22u128 || j == 23u128)),
        forall|j: u128| j < 128 ==> (((13194141630467u128 >> j) & 1u128 == 1u128) <==> (j == 0u128 || j == 1u128 || j == 21u128 || j == 42u128 || j == 43u128)),
        forall|j: u128| j < 128 ==> (((13194143727619u128 >> j) & 1u128 == 1u128) <==> (j == 0u128 || j == 1u128 || j == 22u128 || j == 42u128 || j == 43u128)),
        forall|j: u128| j < 128 ==> (((13194152116226u128 >> j) & 1u128 == 1u128) <==> (j == 1u128 || j == 22u128 || j == 23u128 || j == 42u128 || j == 43u128)),
        forall|j: u128| j < 128 ==> (((26388285358082u128 >> j) & 1u128 == 1u128) <==> (j == 1u128 || j == 21u128 || j == 22u128 || j == 43u128 || j == 44u128)),
        forall|j: u128| j < 128 ==> (((8796099313670u128 >> j) & 1u128 == 1u128) <==> (j == 1u128 || j == 2u128 || j == 21u128 || j == 22u128 || j == 43u128)),
        forall|j: u128| j < 128 ==> (((8796105605123u128 >> j) & 1u128 == 1u128) <==> (j == 0u128 || j == 1u128 || j == 22u128 || j == 23u128 || j == 43u128)),
        forall|j: u128| j < 128 ==> (((8796107702276u128 >> j) & 1u128 == 1u128) <==> (j == 2u128 || j == 21u128 || j == 22u128 || j == 23u128 || j == 43u128)),
        forall|j: u128| j < 128 ==> (((8796107702273u128 >> j) & 1u128 == 1u128) <==> (j == 0u128 || j == 21u128 || j == 22u128 || j == 23u128 || j == 43u128)),
        forall|j: u128| j < 128 ==> (((17592200724482u128 >> j) & 1u128 == 1u128) <==> (j == 1u128 || j == 21u128 || j == 22u128 || j == 23u128 || j == 44u128)),
        forall|j: u128| j < 128 ==> (((4398061191170u128 >> j) & 1u128 == 1u128) <==> (j == 1u128 || j == 21u128 || j == 22u128 || j == 23u128 || j == 42u128)),
        forall|j: u128| j < 128 ==> (((26388285358081u128 >> j) & 1u128 == 1u128) <==> (j == 0u128 || j == 21u128 || j == 22u128 || j == 43u128 || j == 44u128)),
        forall|j: u128| j < 128 ==> (((13194152116228u128 >> j) & 1u128 == 1u128) <==> (j == 2u128 || j == 22u128 || j == 23u128 || j == 42u128 || j == 43u128)),
        forall|j: u128| j < 128 ==> (((17592198627331u128 >> j) & 1u128 == 1u128) <==> (j == 0u128 || j == 1u128 || j == 22u128 || j == 23u128 || j == 44u128)),
        forall|j: u128| j < 128 ==> (((4398052802566u128 >> j) & 1u128 == 1u128) <==> (j == 1u128 || j == 2u128 || j == 21u128 || j == 22u128 || j == 42u128)),
        forall|j: u128| j < 128 ==> (((9223385230998503426u128 >> j) & 1u128 == 1u128) <==> (j == 1u128 || j == 22u128 || j == 42u128 || j == 43u128 || j == 63u128)),
        forall|j: u128| j < 128 ==> (((18446757267851182081u128 >> j) & 1u128 == 1u128) <==> (j == 0u128 || j == 21u128 || j == 42u128 || j == 43u128 || j == 64u128)),
        forall|j: u128| j < 128 ==> (((9223376434907578370u128 >> j) & 1u128 == 1u128) <==> (j == 1u128 || j == 21u128 || j == 22u128 || j == 42u128 || j == 63u128)),
        forall|j: u128| j < 128 ==> (((18446752869808865281u128 >> j) & 1u128 == 1u128) <==> (j == 0u128 || j == 21u128 || j == 22u128 || j == 43u128 || j == 64u128)),
        forall|j: u128| j < 128 ==> (((14680076u128 >> j) & 1u128 == 1u128) <==> (j == 2u128 || j == 3u128 || j == 21u128 || j == 22u128 || j == 23u128)),
        forall|j: u128| j < 128 ==> (((25165831u128 >> j) & 1u128 == 1u128) <==> (j == 0u128 || j == 1u128 || j == 2u128 || j == 23u128 || j == 24u128)),
{
}

proof fn lemma_shape_words_3()
    by (bit_vector)
    ensures
        forall|j: u128| j < 128 ==> (((29360131u128 >> j) & 1u128 == 1u128) <==> (j == 0u128 || j == 1u128 || j == 22u128 || j == 23u128 || j == 24u128)),
        forall|j: u128| j < 128 ==> (((6291470u128 >> j) & 1u128 == 1u128) <==> (j == 1u128 || j == 2u128 || j == 3u128 || j == 21u128 || j == 22u128)),
        forall|j: u128| j < 128 ==> (((4398048608263u128 >> j) & 1u128 == 1u128) <==> (j == 0u128 || j == 1u128 || j == 2u128 || j == 21u128 || j == 42u128)),
        forall|j: u128| j < 128 ==> (((30786333966340u128 >> j) & 1u128 == 1u128) <==> (j == 2u128 || j == 23u128 || j == 42u128 || j == 43u128 || j == 44u128)),
        forall|j: u128| j < 128 ==> (((17592194433031u128 >> j) & 1u128 == 1u128) <==> (j == 0u128 || j == 1u128 || j == 2u128 || j == 23u128 || j == 44u128)),
        forall|j: u128| j < 128 ==> (((30786327674881u128 >> j) & 1u128 == 1u128) <==> (j == 0u128 || j == 21u128 || j == 42u128 || j == 43u128 || j == 44u128)),
        forall|j: u128| j < 128 ==> (((4398052802563u128 >> j) & 1u128 == 1u128) <==> (j == 0u128 || j == 1u128 || j == 21u128 || j == 22u128 || j == 42u128)),
        forall|j: u128| j < 128 ==> (((8796099313667u128 >> j) & 1u128 == 1u128) <==> (j == 0u128 || j == 1u128 || j == 21u128 || j == 22u128 || j == 43u128)),
        forall|j: u128| j < 128 ==> (((14680067u128 >> j) & 1u128 == 1u128) <==> (j == 0u128 || j == 1u128 || j == 21u128 || j == 22u128 || j == 23u128)),
        forall|j: u128| j < 128 ==> (((6291463u128 >> j) & 1u128 == 1u128) <==> (j == 0u128 || j == 1u128 || j == 2u128 || j == 21u128 || j == 22u128)),
        forall|j: u128| j < 128 ==> (((12582919u128 >> j) & 1u128 == 1u128) <==> (j == 0u128 || j == 1u128 || j == 2u128 || j == 22u128 || j == 23u128)),
        forall|j: u128| j < 128 ==> (((14680070u128 >> j) & 1u128 == 1u128) <==> (j == 1u128 || j == 2u128 || j == 21u128 || j == 22u128 || j == 23u128)),
        forall|j: u128| j < 128 ==> (((13194145824770u128 >> j) & 1u128 == 1u128) <==> (j == 1u128 || j == 21u128 || j == 22u128 || j == 42u128 || j == 43u128)),
        forall|j: u128| j < 128 ==> (((13194145824769u128 >> j) & 1u128 == 1u128) <==> (j == 0u128 || j == 21u128 || j == 22u128 || j == 42u128 || j == 43u128)),
        forall|j: u128| j < 128 ==> (((9223376434907578369u128 >> j) & 1u128 == 1u128) <==> (j == 0u128 || j == 21u128 || j == 22u128 || j == 42u128 || j == 63u128)),
        forall|j: u128| j < 128 ==> (((9223385230996406273u128 >> j) & 1u128 == 1u128) <==> (j == 0u128 || j == 21u128 || j == 42u128 || j == 43u128 || j == 63u128)),
        forall|j: u128| j < 128 ==> (((18446757267853279234u128 >> j) & 1u128 == 1u128) <==> (j == 1u128 || j == 22u128 || j == 42u128 || j == 43u128 || j == 64u128)),
        forall|j: u128| j < 128 ==> (((18446752869808865282u128 >> j) & 1u128 == 1u128) <==> (j == 1u128 || j == 21u128 || j == 22u128 || j == 43u128 || j == 64u128)),
        forall|j: u128| j < 128 ==> (((8388623u128 >> j) & 1u128 == 1u128) <==> (j == 0u128 || j == 1u128 || j == 2u128 || j == 3u128 || j == 23u128)),
        forall|j: u128| j < 128 ==> (((4194319u128 >> j) & 1u128 == 1u128) <==> (j == 0u128 || j == 1u128 || j == 2u128 || j == 3u128 || j == 22u128)),
        forall|j: u128| j < 128 ==> (((31457284u128 >> j) & 1u128 == 1u128) <==> (j == 2u128 || j == 21u128 || j == 22u128 || j == 23u128 || j == 24u128)),
        forall|j: u128| j < 128 ==> (((31457282u128 >> j) & 1u128 == 1u128) <==> (j == 1u128 || j == 21u128 || j == 22u128 || j == 23u128 || j == 24u128)),
{
}

proof fn lemma_piece_fields_0(s: usize, l: spec_fn(int) -> bool, d: int)
    requires
        0 <= s < 23,
    ensures
        shape_fits(s, l, d) == (forall|j: int| #[trigger] u128_bit(piece_shape_spec(s), j) ==> l(d + j)),
{
    lemma_shape_words_0();
    if s == 0 {
        assert(piece_shape_spec(s) == piece_shape_spec(0usize));
        assert(u128_bit(piece_shape_spec(s), 0));
    } else if s == 1 {
        assert(piece_shape_spec(s) == piece_shape_spec(1usize));
        assert(u128_bit(piece_shape_spec(s), 0)); assert(u128_bit(piece_shape_spec(s), 1));
    } else if s == 2 {
        assert(piece_shape_spec(s) == piece_shape_spec(2usize));
        assert(u128_bit(piece_shape_spec(s), 0)); assert(u128_bit(piece_shape_spec(s), 21));
    } else if s == 3 {
        assert(piece_shape_spec(s) == piece_shape_spec(3usize));
        assert(u128_bit(piece_shape_spec(s), 0)); assert(u128_bit(piece_shape_spec(s), 1)); assert(u128_bit(piece_shape_spec(s), 2));
    } else if s == 4 {
        assert(piece_shape_spec(s) == piece_shape_spec(4usize));
        assert(u128_bit(piece_shape_spec(s), 0)); assert(u128_bit(piece_shape_spec(s), 21)); assert(u128_bit(piece_shape_spec(s), 42));
    } else if s == 5 {
        assert(piece_shape_spec(s) == piece_shape_spec(5usize));
        assert(u128_bit(piece_shape_spec(s), 0)); assert(u128_bit(piece_shape_spec(s), 1)); assert(u128_bit(piece_shape_spec(s), 2)); assert(u128_bit(piece_shape_spec(s), 3));
    } else if s == 6 {
        assert(piece_shape_spec(s) == piece_shape_spec(6usize));
        assert(u128_bit(piece_shape_spec(s), 0)); assert(u128_bit(piece_shape_spec(s), 21)); assert(u128_bit(piece_shape_spec(s), 42)); assert(u128_bit(piece_shape_spec(s), 63));
    } else if s == 7 {
        assert(piece_shape_spec(s) == piece_shape_spec(7usize));
        assert(u128_bit(piece_shape_spec(s), 0)); assert(u128_bit(piece_shape_spec(s), 1)); assert(u128_bit(piece_shape_spec(s), 2)); assert(u128_bit(piece_shape_spec(s), 3)); assert(u128_bit(piece_shape_spec(s), 4));
    } else if s == 8 {
        assert(piece_shape_spec(s) == piece_shape_spec(8usize));
        assert(u128_bit(piece_shape_spec(s), 0)); assert(u128_bit(piece_shape_spec(s), 21)); assert(u128_bit(piece_shape_spec(s), 42)); assert(u128_bit(piece_shape_spec(s), 63)); assert(u128_bit(piece_shape_spec(s), 84));
    } else if s == 9 {
        assert(piece_shape_spec(s) == piece_shape_spec(9usize));
        assert(u128_bit(piece_shape_spec(s), 0)); assert(u128_bit(piece_shape_spec(s), 1)); assert(u128_bit(piece_shape_spec(s), 21)); assert(u128_bit(piece_shape_spec(s), 22));
    } else if s == 10 {
        assert(piece_shape_spec(s) == piece_shape_spec(10usize));
        assert(u128_bit(piece_shape_spec(s), 1)); assert(u128_bit(piece_shape_spec(s), 21)); assert(u128_bit(piece_shape_spec(s), 22)); assert(u128_bit(piece_shape_spec(s), 23)); assert(u128_bit(piece_shape_spec(s), 43));
    } else if s == 11 {
        assert(piece_shape_spec(s) == piece_shape_spec(11usize));
        assert(u128_bit(piece_shape_spec(s), 0)); assert(u128_bit(piece_shape_spec(s), 21)); assert(u128_bit(piece_shape_spec(s), 22));
    } else if s == 12 {
        assert(piece_shape_spec(s) == piece_shape_spec(12usize));
        assert(u128_bit(piece_shape_spec(s), 0)); assert(u128_bit(piece_shape_spec(s), 1)); assert(u128_bit(piece_shape_spec(s), 21));
    } else if s == 13 {
        assert(piece_shape_spec(s) == piece_shape_spec(13usize));
        assert(u128_bit(piece_shape_spec(s), 0)); assert(u128_bit(piece_shape_spec(s), 1)); assert(u128_bit(piece_shape_spec(s), 22));
    } else if s == 14 {
        assert(piece_shape_spec(s) == piece_shape_spec(14usize));
        assert(u128_bit(piece_shape_spec(s), 1)); assert(u128_bit(piece_shape_spec(s), 21)); assert(u128_bit(piece_shape_spec(s), 22));
    } else if s == 15 {
        assert(piece_shape_spec(s) == piece_shape_spec(15usize));
        assert(u128_bit(piece_shape_spec(s), 0)); assert(u128_bit(piece_shape_spec(s), 1)); assert(u128_bit(piece_shape_spec(s), 21)); assert(u128_bit(piece_shape_spec(s), 42));
    } else if s == 16 {
        assert(piece_shape_spec(s) == piece_shape_spec(16usize));
        assert(u128_bit(piece_shape_spec(s), 0)); assert(u128_bit(piece_shape_spec(s), 1)); assert(u128_bit(piece_shape_spec(s), 22)); assert(u128_bit(piece_shape_spec(s), 43));
    } else if s == 17 {
        assert(piece_shape_spec(s) == piece_shape_spec(17usize));
        assert(u128_bit(piece_shape_spec(s), 1)); assert(u128_bit(piece_shape_spec(s), 22)); assert(u128_bit(piece_shape_spec(s), 42)); assert(u128_bit(piece_shape_spec(s), 43));
    } else if s == 18 {
        assert(piece_shape_spec(s) == piece_shape_spec(18usize));
        assert(u128_bit(piece_shape_spec(s), 0)); assert(u128_bit(piece_shape_spec(s), 21)); assert(u128_bit(piece_shape_spec(s), 42)); assert(u128_bit(piece_shape_spec(s), 43));
    } else if s == 19 {
        assert(piece_shape_spec(s) == piece_shape_spec(19usize));
        assert(u128_bit(piece_shape_spec(s), 0)); assert(u128_bit(piece_shape_spec(s), 21)); assert(u128_bit(piece_shape_spec(s), 22)); assert(u128_bit(piece_shape_spec(s), 23));
    } else if s == 20 {
        assert(piece_shape_spec(s) == piece_shape_spec(20usize));
        assert(u128_bit(piece_shape_spec(s), 0)); assert(u128_bit(piece_shape_spec(s), 1)); assert(u128_bit(piece_shape_spec(s), 2)); assert(u128_bit(piece_shape_spec(s), 21));
    } else if s == 21 {
        assert(piece_shape_spec(s) == piece_shape_spec(21usize));
        assert(u128_bit(piece_shape_spec(s), 0)); assert(u128_bit(piece_shape_spec(s), 1)); assert(u128_bit(piece_shape_spec(s), 2)); assert(u128_bit(piece_shape_spec(s), 23));
    } else if s == 22 {
        assert(piece_shape_spec(s) == piece_shape_spec(22usize));
        assert(u128_bit(piece_shape_spec(s), 2)); assert(u128_bit(piece_shape_spec(s), 21)); assert(u128_bit(piece_shape_spec(s), 22)); assert(u128_bit(piece_shape_spec(s), 23));
    }
}

proof fn lemma_piece_fields_1(s: usize, l: spec_fn(int) -> bool, d: int)
    requires
        23 <= s < 46,
    ensures
        shape_fits(s, l, d) == (forall|j: int| #[trigger] u128_bit(piece_shape_spec(s), j) ==> l(d + j)),
{
    lemma_shape_words_1();
    if s == 23 {
        assert(piece_shape_spec(s) == piece_shape_spec(23usize));
        assert(u128_bit(piece_shape_spec(s), 0)); assert(u128_bit(piece_shape_spec(s), 1)); assert(u128_bit(piece_shape_spec(s), 2)); assert(u128_bit(piece_shape_spec(s), 3)); assert(u128_bit(piece_shape_spec(s), 24));
    } else if s == 24 {
        assert(piece_shape_spec(s) == piece_shape_spec(24usize));
        assert(u128_bit(piece_shape_spec(s), 0)); assert(u128_bit(piece_shape_spec(s), 1)); assert(u128_bit(piece_shape_spec(s), 2)); assert(u128_bit(piece_shape_spec(s), 3)); assert(u128_bit(piece_shape_spec(s), 21));
    } else if s == 25 {
        assert(piece_shape_spec(s) == piece_shape_spec(25usize));
        assert(u128_bit(piece_shape_spec(s), 0)); assert(u128_bit(piece_shape_spec(s), 21)); assert(u128_bit(piece_shape_spec(s), 22)); assert(u128_bit(piece_shape_spec(s), 23)); assert(u128_bit(piece_shape_spec(s), 24));
    } else if s == 26 {
        assert(piece_shape_spec(s) == piece_shape_spec(26usize));
        assert(u128_bit(piece_shape_spec(s), 3)); assert(u128_bit(piece_shape_spec(s), 21)); assert(u128_bit(piece_shape_spec(s), 22)); assert(u128_bit(piece_shape_spec(s), 23)); assert(u128_bit(piece_shape_spec(s), 24));
    } else if s == 27 {
        assert(piece_shape_spec(s) == piece_shape_spec(27usize));
        assert(u128_bit(piece_shape_spec(s), 0)); assert(u128_bit(piece_shape_spec(s), 1)); assert(u128_bit(piece_shape_spec(s), 21)); assert(u128_bit(piece_shape_spec(s), 42)); assert(u128_bit(piece_shape_spec(s), 63));
    } else if s == 28 {
        assert(piece_shape_spec(s) == piece_shape_spec(28usize));
        assert(u128_bit(piece_shape_spec(s), 0)); assert(u128_bit(piece_shape_spec(s), 21)); assert(u128_bit(piece_shape_spec(s), 42)); assert(u128_bit(piece_shape_spec(s), 63)); assert(u128_bit(piece_shape_spec(s), 64));
    } else if s == 29 {
        assert(piece_shape_spec(s) == piece_shape_spec(29usize));
        assert(u128_bit(piece_shape_spec(s), 0)); assert(u128_bit(piece_shape_spec(s), 1)); assert(u128_bit(piece_shape_spec(s), 22)); assert(u128_bit(piece_shape_spec(s), 43)); assert(u128_bit(piece_shape_spec(s), 64));
    } else if s == 30 {
        assert(piece_shape_spec(s) == piece_shape_spec(30usize));
        assert(u128_bit(piece_shape_spec(s), 1)); assert(u128_bit(piece_shape_spec(s), 22)); assert(u128_bit(piece_shape_spec(s), 43)); assert(u128_bit(piece_shape_spec(s), 63)); assert(u128_bit(piece_shape_spec(s), 64));
    } else if s == 31 {
        assert(piece_shape_spec(s) == piece_shape_spec(31usize));
        assert(u128_bit(piece_shape_spec(s), 0)); assert(u128_bit(piece_shape_spec(s), 1)); assert(u128_bit(piece_shape_spec(s), 2)); assert(u128_bit(piece_shape_spec(s), 22)); assert(u128_bit(piece_shape_spec(s), 43));
    } else if s == 32 {
        assert(piece_shape_spec(s) == piece_shape_spec(32usize));
        assert(u128_bit(piece_shape_spec(s), 1)); assert(u128_bit(piece_shape_spec(s), 22)); assert(u128_bit(piece_shape_spec(s), 42)); assert(u128_bit(piece_shape_spec(s), 43)); assert(u128_bit(piece_shape_spec(s), 44));
    } else if s == 33 {
        assert(piece_shape_spec(s) == piece_shape_spec(33usize));
        assert(u128_bit(piece_shape_spec(s), 0)); assert(u128_bit(piece_shape_spec(s), 21)); assert(u128_bit(piece_shape_spec(s), 22)); assert(u128_bit(piece_shape_spec(s), 23)); assert(u128_bit(piece_shape_spec(s), 42));
    } else if s == 34 {
        assert(piece_shape_spec(s) == piece_shape_spec(34usize));
        assert(u128_bit(piece_shape_spec(s), 2)); assert(u128_bit(piece_shape_spec(s), 21)); assert(u128_bit(piece_shape_spec(s), 22)); assert(u128_bit(piece_shape_spec(s), 23)); assert(u128_bit(piece_shape_spec(s), 44));
    } else if s == 35 {
        assert(piece_shape_spec(s) == piece_shape_spec(35usize));
        assert(u128_bit(piece_shape_spec(s), 0)); assert(u128_bit(piece_shape_spec(s), 1)); assert(u128_bit(piece_shape_spec(s), 2)); assert(u128_bit(piece_shape_spec(s), 22));
    } else if s == 36 {
        assert(piece_shape_spec(s) == piece_shape_spec(36usize));
        assert(u128_bit(piece_shape_spec(s), 1)); assert(u128_bit(piece_shape_spec(s), 21)); assert(u128_bit(piece_shape_spec(s), 22)); assert(u128_bit(piece_shape_spec(s), 23));
    } else if s == 37 {
        assert(piece_shape_spec(s) == piece_shape_spec(37usize));
        assert(u128_bit(piece_shape_spec(s), 0)); assert(u128_bit(piece_shape_spec(s), 21)); assert(u128_bit(piece_shape_spec(s), 22)); assert(u128_bit(piece_shape_spec(s), 42));
    } else if s == 38 {
        assert(piece_shape_spec(s) == piece_shape_spec(38usize));
        assert(u128_bit(piece_shape_spec(s), 1)); assert(u128_bit(piece_shape_spec(s), 21)); assert(u128_bit(piece_shape_spec(s), 22)); assert(u128_bit(piece_shape_spec(s), 43));
    } else if s == 39 {
        assert(piece_shape_spec(s) == piece_shape_spec(39usize));
        assert(u128_bit(piece_shape_spec(s), 1)); assert(u128_bit(piece_shape_spec(s), 2)); assert(u128_bit(piece_shape_spec(s), 21)); assert(u128_bit(piece_shape_spec(s), 22));
    } else if s == 40 {
        assert(piece_shape_spec(s) == piece_shape_spec(40usize));
        assert(u128_bit(piece_shape_spec(s), 0)); assert(u128_bit(piece_shape_spec(s), 1)); assert(u128_bit(piece_shape_spec(s), 22)); assert(u128_bit(piece_shape_spec(s), 23));
    } else if s == 41 {
        assert(piece_shape_spec(s) == piece_shape_spec(41usize));
        assert(u128_bit(piece_shape_spec(s), 1)); assert(u128_bit(piece_shape_spec(s), 21)); assert(u128_bit(piece_shape_spec(s), 22)); assert(u128_bit(piece_shape_spec(s), 42));
    } else if s == 42 {
        assert(piece_shape_spec(s) == piece_shape_spec(42usize));
        assert(u128_bit(piece_shape_spec(s), 0)); assert(u128_bit(piece_shape_spec(s), 21)); assert(u128_bit(piece_shape_spec(s), 22)); assert(u128_bit(piece_shape_spec(s), 43));
    } else if s == 43 {
        assert(piece_shape_spec(s) == piece_shape_spec(43usize));
        assert(u128_bit(piece_shape_spec(s), 0)); assert(u128_bit(piece_shape_spec(s), 21)); assert(u128_bit(piece_shape_spec(s), 22)); assert(u128_bit(piece_shape_spec(s), 23)); assert(u128_bit(piece_shape_spec(s), 44));
    } else if s == 44 {
        assert(piece_shape_spec(s) == piece_shape_spec(44usize));
        assert(u128_bit(piece_shape_spec(s), 2)); assert(u128_bit(piece_shape_spec(s), 21)); assert(u128_bit(piece_shape_spec(s), 22)); assert(u128_bit(piece_shape_spec(s), 23)); assert(u128_bit(piece_shape_spec(s), 42));
    } else if s == 45 {
        assert(piece_shape_spec(s) == piece_shape_spec(45usize));
        assert(u128_bit(piece_shape_spec(s), 1)); assert(u128_bit(piece_shape_spec(s), 2)); assert(u128_bit(piece_shape_spec(s), 22)); assert(u128_bit(piece_shape_spec(s), 42)); assert(u128_bit(piece_shape_spec(s), 43));
    }
}

proof fn lemma_piece_fields_2(s: usize, l: spec_fn(int) -> bool, d: int)
    requires
        46 <= s < 69,
    ensures
        shape_fits(s, l, d) == (forall|j: int| #[trigger] u128_bit(piece_shape_spec(s), j) ==> l(d + j)),
{
    lemma_shape_words_2();
    if s == 46 {
        assert(piece_shape_spec(s) == piece_shape_spec(46usize));
        assert(u128_bit(piece_shape_spec(s), 0)); assert(u128_bit(piece_shape_spec(s), 1)); assert(u128_bit(piece_shape_spec(s), 22)); assert(u128_bit(piece_shape_spec(s), 43)); assert(u128_bit(piece_shape_spec(s), 44));
    } else if s == 47 {
        assert(piece_shape_spec(s) == piece_shape_spec(47usize));
        assert(u128_bit(piece_shape_spec(s), 0)); assert(u128_bit(piece_shape_spec(s), 1)); assert(u128_bit(piece_shape_spec(s), 2)); assert(u128_bit(piece_shape_spec(s), 21)); assert(u128_bit(piece_shape_spec(s), 23));
    } else if s == 48 {
        assert(piece_shape_spec(s) == piece_shape_spec(48usize));
        assert(u128_bit(piece_shape_spec(s), 0)); assert(u128_bit(piece_shape_spec(s), 2)); assert(u128_bit(piece_shape_spec(s), 21)); assert(u128_bit(piece_shape_spec(s), 22)); assert(u128_bit(piece_shape_spec(s), 23));
    } else if s == 49 {
        assert(piece_shape_spec(s) == piece_shape_spec(49usize));
        assert(u128_bit(piece_shape_spec(s), 0)); assert(u128_bit(piece_shape_spec(s), 1)); assert(u128_bit(piece_shape_spec(s), 21)); assert(u128_bit(piece_shape_spec(s), 42)); assert(u128_bit(piece_shape_spec(s), 43));
    } else if s == 50 {
        assert(piece_shape_spec(s) == piece_shape_spec(50usize));
        assert(u128_bit(piece_shape_spec(s), 0)); assert(u128_bit(piece_shape_spec(s), 1)); assert(u128_bit(piece_shape_spec(s), 22)); assert(u128_bit(piece_shape_spec(s), 42)); assert(u128_bit(piece_shape_spec(s), 43));
    } else if s == 51 {
        assert(piece_shape_spec(s) == piece_shape_spec(51usize));
        assert(u128_bit(piece_shape_spec(s), 1)); assert(u128_bit(piece_shape_spec(s), 22)); assert(u128_bit(piece_shape_spec(s), 23)); assert(u128_bit(piece_shape_spec(s), 42)); assert(u128_bit(piece_shape_spec(s), 43));
    } else if s == 52 {
        assert(piece_shape_spec(s) == piece_shape_spec(52usize));
        assert(u128_bit(piece_shape_spec(s), 1)); assert(u128_bit(piece_shape_spec(s), 21)); assert(u128_bit(piece_shape_spec(s), 22)); assert(u128_bit(piece_shape_spec(s), 43)); assert(u128_bit(piece_shape_spec(s), 44));
    } else if s == 53 {
        assert(piece_shape_spec(s) == piece_shape_spec(53usize));
        assert(u128_bit(piece_shape_spec(s), 1)); assert(u128_bit(piece_shape_spec(s), 2)); assert(u128_bit(piece_shape_spec(s), 21)); assert(u128_bit(piece_shape_spec(s), 22)); assert(u128_bit(piece_shape_spec(s), 43));
    } else if s == 54 {
        assert(piece_shape_spec(s) == piece_shape_spec(54usize));
        assert(u128_bit(piece_shape_spec(s), 0)); assert(u128_bit(piece_shape_spec(s), 1)); assert(u128_bit(piece_shape_spec(s), 22)); assert(u128_bit(piece_shape_spec(s), 23)); assert(u128_bit(piece_shape_spec(s), 43));
    } else if s == 55 {
        assert(piece_shape_spec(s) == piece_shape_spec(55usize));
        assert(u128_bit(piece_shape_spec(s), 2)); assert(u128_bit(piece_shape_spec(s), 21)); assert(u128_bit(piece_shape_spec(s), 22)); assert(u128_bit(piece_shape_spec(s), 23)); assert(u128_bit(piece_shape_spec(s), 43));
    } else if s == 56 {
        assert(piece_shape_spec(s) == piece_shape_spec(56usize));
        assert(u128_bit(piece_shape_spec(s), 0)); assert(u128_bit(piece_shape_spec(s), 21)); assert(u128_bit(piece_shape_spec(s), 22)); assert(u128_bit(piece_shape_spec(s), 23)); assert(u128_bit(piece_shape_spec(s), 43));
    } else if s == 57 {
        assert(piece_shape_spec(s) == piece_shape_spec(57usize));
        assert(u128_bit(piece_shape_spec(s), 1)); assert(u128_bit(piece_shape_spec(s), 21)); assert(u128_bit(piece_shape_spec(s), 22)); assert(u128_bit(piece_shape_spec(s), 23)); assert(u128_bit(piece_shape_spec(s), 44));
    } else if s == 58 {
        assert(piece_shape_spec(s) == piece_shape_spec(58usize));
        assert(u128_bit(piece_shape_spec(s), 1)); assert(u128_bit(piece_shape_spec(s), 21)); assert(u128_bit(piece_shape_spec(s), 22)); assert(u128_bit(piece_shape_spec(s), 23)); assert(u128_bit(piece_shape_spec(s), 42));
    } else if s == 59 {
        assert(piece_shape_spec(s) == piece_shape_spec(59usize));
        assert(u128_bit(piece_shape_spec(s), 0)); assert(u128_bit(piece_shape_spec(s), 21)); assert(u128_bit(piece_shape_spec(s), 22)); assert(u128_bit(piece_shape_spec(s), 43)); assert(u128_bit(piece_shape_spec(s), 44));
    } else if s == 60 {
        assert(piece_shape_spec(s) == piece_shape_spec(60usize));
        assert(u128_bit(piece_shape_spec(s), 2)); assert(u128_bit(piece_shape_spec(s), 22)); assert(u128_bit(piece_shape_spec(s), 23)); assert(u128_bit(piece_shape_spec(s), 42)); assert(u128_bit(piece_shape_spec(s), 43));
    } else if s == 61 {
        assert(piece_shape_spec(s) == piece_shape_spec(61usize));
        assert(u128_bit(piece_shape_spec(s), 0)); assert(u128_bit(piece_shape_spec(s), 1)); assert(u128_bit(piece_shape_spec(s), 22)); assert(u128_bit(piece_shape_spec(s), 23)); assert(u128_bit(piece_shape_spec(s), 44));
    } else if s == 62 {
        assert(piece_shape_spec(s) == piece_shape_spec(62usize));
        assert(u128_bit(piece_shape_spec(s), 1)); assert(u128_bit(piece_shape_spec(s), 2)); assert(u128_bit(piece_shape_spec(s), 21)); assert(u128_bit(piece_shape_spec(s), 22)); assert(u128_bit(piece_shape_spec(s), 42));
    } else if s == 63 {
        assert(piece_shape_spec(s) == piece_shape_spec(63usize));
        assert(u128_bit(piece_shape_spec(s), 1)); assert(u128_bit(piece_shape_spec(s), 22)); assert(u128_bit(piece_shape_spec(s), 42)); assert(u128_bit(piece_shape_spec(s), 43)); assert(u128_bit(piece_shape_spec(s), 63));
    } else if s == 64 {
        assert(piece_shape_spec(s) == piece_shape_spec(64usize));
        assert(u128_bit(piece_shape_spec(s), 0)); assert(u128_bit(piece_shape_spec(s), 21)); assert(u128_bit(piece_shape_spec(s), 42)); assert(u128_bit(piece_shape_spec(s), 43)); assert(u128_bit(piece_shape_spec(s), 64));
    } else if s == 65 {
        assert(piece_shape_spec(s) == piece_shape_spec(65usize));
        assert(u128_bit(piece_shape_spec(s), 1)); assert(u128_bit(piece_shape_spec(s), 21)); assert(u128_bit(piece_shape_spec(s), 22)); assert(u128_bit(piece_shape_spec(s), 42)); assert(u128_bit(piece_shape_spec(s), 63));
    } else if s == 66 {
        assert(piece_shape_spec(s) == piece_shape_spec(66usize));
        assert(u128_bit(piece_shape_spec(s), 0)); assert(u128_bit(piece_shape_spec(s), 21)); assert(u128_bit(piece_shape_spec(s), 22)); assert(u128_bit(piece_shape_spec(s), 43)); assert(u128_bit(piece_shape_spec(s), 64));
    } else if s == 67 {
        assert(piece_shape_spec(s) == piece_shape_spec(67usize));
        assert(u128_bit(piece_shape_spec(s), 2)); assert(u128_bit(piece_shape_spec(s), 3)); assert(u128_bit(piece_shape_spec(s), 21)); assert(u128_bit(piece_shape_spec(s), 22)); assert(u128_bit(piece_shape_spec(s), 23));
    } else if s == 68 {
        assert(piece_shape_spec(s) == piece_shape_spec(68usize));
        assert(u128_bit(piece_shape_spec(s), 0)); assert(u128_bit(piece_shape_spec(s), 1)); assert(u128_bit(piece_shape_spec(s), 2)); assert(u128_bit(piece_shape_spec(s), 23)); assert(u128_bit(piece_shape_spec(s), 24));
    }
}

proof fn lemma_piece_fields_3(s: usize, l: spec_fn(int) -> bool, d: int)
    requires
        69 <= s < 91,
    ensures
        shape_fits(s, l, d) == (forall|j: int| #[trigger] u128_bit(piece_shape_spec(s), j) ==> l(d + j)),
{
    lemma_shape_words_3();
    if s == 69 {
        assert(piece_shape_spec(s) == piece_shape_spec(69usize));
        assert(u128_bit(piece_shape_spec(s), 0)); assert(u128_bit(piece_shape_spec(s), 1)); assert(u128_bit(piece_shape_spec(s), 22)); assert(u128_bit(piece_shape_spec(s), 23)); assert(u128_bit(piece_shape_spec(s), 24));
    } else if s == 70 {
        assert(piece_shape_spec(s) == piece_shape_spec(70usize));
        assert(u128_bit(piece_shape_spec(s), 1)); assert(u128_bit(piece_shape_spec(s), 2)); assert(u128_bit(piece_shape_spec(s), 3)); assert(u128_bit(piece_shape_spec(s), 21)); assert(u128_bit(piece_shape_spec(s), 22));
    } else if s == 71 {
        assert(piece_shape_spec(s) == piece_shape_spec(71usize));
        assert(u128_bit(piece_shape_spec(s), 0)); assert(u128_bit(piece_shape_spec(s), 1)); assert(u128_bit(piece_shape_spec(s), 2)); assert(u128_bit(piece_shape_spec(s), 21)); assert(u128_bit(piece_shape_spec(s), 42));
    } else if s == 72 {
        assert(piece_shape_spec(s) == piece_shape_spec(72usize));
        assert(u128_bit(piece_shape_spec(s), 2)); assert(u128_bit(piece_shape_spec(s), 23)); assert(u128_bit(piece_shape_spec(s), 42)); assert(u128_bit(piece_shape_spec(s), 43)); assert(u128_bit(piece_shape_spec(s), 44));
    } else if s == 73 {
        assert(piece_shape_spec(s) == piece_shape_spec(73usize));
        assert(u128_bit(piece_shape_spec(s), 0)); assert(u128_bit(piece_shape_spec(s), 1)); assert(u128_bit(piece_shape_spec(s), 2)); assert(u128_bit(piece_shape_spec(s), 23)); assert(u128_bit(piece_shape_spec(s), 44));
    } else if s == 74 {
        assert(piece_shape_spec(s) == piece_shape_spec(74usize));
        assert(u128_bit(piece_shape_spec(s), 0)); assert(u128_bit(piece_shape_spec(s), 21)); assert(u128_bit(piece_shape_spec(s), 42)); assert(u128_bit(piece_shape_spec(s), 43)); assert(u128_bit(piece_shape_spec(s), 44));
    } else if s == 75 {
        assert(piece_shape_spec(s) == piece_shape_spec(75usize));
        assert(u128_bit(piece_shape_spec(s), 0)); assert(u128_bit(piece_shape_spec(s), 1)); assert(u128_bit(piece_shape_spec(s), 21)); assert(u128_bit(piece_shape_spec(s), 22)); assert(u128_bit(piece_shape_spec(s), 42));
    } else if s == 76 {
        assert(piece_shape_spec(s) == piece_shape_spec(76usize));
        assert(u128_bit(piece_shape_spec(s), 0)); assert(u128_bit(piece_shape_spec(s), 1)); assert(u128_bit(piece_shape_spec(s), 21)); assert(u128_bit(piece_shape_spec(s), 22)); assert(u128_bit(piece_shape_spec(s), 43));
    } else if s == 77 {
        assert(piece_shape_spec(s) == piece_shape_spec(77usize));
        assert(u128_bit(piece_shape_spec(s), 0)); assert(u128_bit(piece_shape_spec(s), 1)); assert(u128_bit(piece_shape_spec(s), 21)); assert(u128_bit(piece_shape_spec(s), 22)); assert(u128_bit(piece_shape_spec(s), 23));
    } else if s == 78 {
        assert(piece_shape_spec(s) == piece_shape_spec(78usize));
        assert(u128_bit(piece_shape_spec(s), 0)); assert(u128_bit(piece_shape_spec(s), 1)); assert(u128_bit(piece_shape_spec(s), 2)); assert(u128_bit(piece_shape_spec(s), 21)); assert(u128_bit(piece_shape_spec(s), 22));
    } else if s == 79 {
        assert(piece_shape_spec(s) == piece_shape_spec(79usize));
        assert(u128_bit(piece_shape_spec(s), 0)); assert(u128_bit(piece_shape_spec(s), 1)); assert(u128_bit(piece_shape_spec(s), 2)); assert(u128_bit(piece_shape_spec(s), 22)); assert(u128_bit(piece_shape_spec(s), 23));
    } else if s == 80 {
        assert(piece_shape_spec(s) == piece_shape_spec(80usize));
        assert(u128_bit(piece_shape_spec(s), 1)); assert(u128_bit(piece_shape_spec(s), 2)); assert(u128_bit(piece_shape_spec(s), 21)); assert(u128_bit(piece_shape_spec(s), 22)); assert(u128_bit(piece_shape_spec(s), 23));
    } else if s == 81 {
        assert(piece_shape_spec(s) == piece_shape_spec(81usize));
        assert(u128_bit(piece_shape_spec(s), 1)); assert(u128_bit(piece_shape_spec(s), 21)); assert(u128_bit(piece_shape_spec(s), 22)); assert(u128_bit(piece_shape_spec(s), 42)); assert(u128_bit(piece_shape_spec(s), 43));
    } else if s == 82 {
        assert(piece_shape_spec(s) == piece_shape_spec(82usize));
        assert(u128_bit(piece_shape_spec(s), 0)); assert(u128_bit(piece_shape_spec(s), 21)); assert(u128_bit(piece_shape_spec(s), 22)); assert(u128_bit(piece_shape_spec(s), 42)); assert(u128_bit(piece_shape_spec(s), 43));
    } else if s == 83 {
        assert(piece_shape_spec(s) == piece_shape_spec(83usize));
        assert(u128_bit(piece_shape_spec(s), 0)); assert(u128_bit(piece_shape_spec(s), 21)); assert(u128_bit(piece_shape_spec(s), 22)); assert(u128_bit(piece_shape_spec(s), 42)); assert(u128_bit(piece_shape_spec(s), 63));
    } else if s == 84 {
        assert(piece_shape_spec(s) == piece_shape_spec(84usize));
        assert(u128_bit(piece_shape_spec(s), 0)); assert(u128_bit(piece_shape_spec(s), 21)); assert(u128_bit(piece_shape_spec(s), 42)); assert(u128_bit(piece_shape_spec(s), 43)); assert(u128_bit(piece_shape_spec(s), 63));
    } else if s == 85 {
        assert(piece_shape_spec(s) == piece_shape_spec(85usize));
        assert(u128_bit(piece_shape_spec(s), 1)); assert(u128_bit(piece_shape_spec(s), 22)); assert(u128_bit(piece_shape_spec(s), 42)); assert(u128_bit(piece_shape_spec(s), 43)); assert(u128_bit(piece_shape_spec(s), 64));
    } else if s == 86 {
        assert(piece_shape_spec(s) == piece_shape_spec(86usize));
        assert(u128_bit(piece_shape_spec(s), 1)); assert(u128_bit(piece_shape_spec(s), 21)); assert(u128_bit(piece_shape_spec(s), 22)); assert(u128_bit(piece_shape_spec(s), 43)); assert(u128_bit(piece_shape_spec(s), 64));
    } else if s == 87 {
        assert(piece_shape_spec(s) == piece_shape_spec(87usize));
        assert(u128_bit(piece_shape_spec(s), 0)); assert(u128_bit(piece_shape_spec(s), 1)); assert(u128_bit(piece_shape_spec(s), 2)); assert(u128_bit(piece_shape_spec(s), 3)); assert(u128_bit(piece_shape_spec(s), 23));
    } else if s == 88 {
        assert(piece_shape_spec(s) == piece_shape_spec(88usize));
        assert(u128_bit(piece_shape_spec(s), 0)); assert(u128_bit(piece_shape_spec(s), 1)); assert(u128_bit(piece_shape_spec(s), 2)); assert(u128_bit(piece_shape_spec(s), 3)); assert(u128_bit(piece_shape_spec(s), 22));
    } else if s == 89 {
        assert(piece_shape_spec(s) == piece_shape_spec(89usize));
        assert(u128_bit(piece_shape_spec(s), 2)); assert(u128_bit(piece_shape_spec(s), 21)); assert(u128_bit(piece_shape_spec(s), 22)); assert(u128_bit(piece_shape_spec(s), 23)); assert(u128_bit(piece_shape_spec(s), 24));
    } else if s == 90 {
        assert(piece_shape_spec(s) == piece_shape_spec(90usize));
        assert(u128_bit(piece_shape_spec(s), 1)); assert(u128_bit(piece_shape_spec(s), 21)); assert(u128_bit(piece_shape_spec(s), 22)); assert(u128_bit(piece_shape_spec(s), 23)); assert(u128_bit(piece_shape_spec(s), 24));
    }
}

/// The fields that a shape covers, as offsets from its top left field, are the set bits of
/// its shape word.
pub proof fn lemma_piece_fields(s: usize, l: spec_fn(int) -> bool, d: int)
    requires
        s < 91,
    ensures
        shape_fits(s, l, d) == (forall|j: int| #[trigger] u128_bit(piece_shape_spec(s), j) ==> l(d + j)),
{
    if s < 23 {
        lemma_piece_fields_0(s, l, d);
    } else if s < 46 {
        lemma_piece_fields_1(s, l, d);
    } else if s < 69 {
        lemma_piece_fields_2(s, l, d);
    } else if s < 91 {
        lemma_piece_fields_3(s, l, d);
    }
}

} // verus!
