use vstd::prelude::*;

verus! {

/// The finalizer of the SplitMix64 generator: a bijection of 64-bit words that spreads every
/// bit over the whole word.
pub open spec fn mix_spec(z: u64) -> u64 {
    let a = (z ^ (z >> 30u64)).wrapping_mul(0xbf58476d1ce4e5b9u64);
    let b = (a ^ (a >> 27u64)).wrapping_mul(0x94d049bb133111ebu64);
    b ^ (b >> 31u64)
}

pub fn mix(z: u64) -> (r: u64)
    ensures
        r == mix_spec(z),
{
    let a = (z ^ (z >> 30u64)).wrapping_mul(0xbf58476d1ce4e5b9u64);
    let b = (a ^ (a >> 27u64)).wrapping_mul(0x94d049bb133111ebu64);
    b ^ (b >> 31u64)
}

/// The key of entry `index` of key table `table`: the table number and the index, mixed.
pub open spec fn key_spec(table: u64, index: u64) -> u64 {
    mix_spec((table << 32u64) ^ index ^ 0x9E3779B97F4A7C15u64)
}

pub fn key(table: u64, index: u64) -> (r: u64)
    ensures
        r == key_spec(table, index),
{
    mix((table << 32u64) ^ index ^ 0x9E3779B97F4A7C15u64)
}

/// The hash key of a ply.
pub open spec fn ply_hash_spec(ply: u8) -> u64 {
    key_spec(1, ply as u64)
}

/// The hash key of a shape placed by a color.
pub open spec fn shape_hash_spec(shape: u16, color: u8) -> u64 {
    key_spec(2, ((shape as u64) * 4 + color as u64) as u64)
}

/// The hash key of a destination of a piece placed by a color.
pub open spec fn destination_hash_spec(destination: u16, color: u8) -> u64 {
    key_spec(3, ((destination as u64) * 4 + color as u64) as u64)
}

pub fn ply_hash(ply: u8) -> (r: u64)
    ensures
        r == ply_hash_spec(ply),
{
    key(1, ply as u64)
}

pub fn shape_hash(shape: u16, color: u8) -> (r: u64)
    requires
        color < 4,
    ensures
        r == shape_hash_spec(shape, color),
{
    key(2, (shape as u64) * 4 + color as u64)
}

pub fn destination_hash(destination: u16, color: u8) -> (r: u64)
    requires
        color < 4,
    ensures
        r == destination_hash_spec(destination, color),
{
    key(3, (destination as u64) * 4 + color as u64)
}

} // verus!
