pub mod bits;
pub mod bitboard;
pub mod rng;
pub mod piece_type;
pub mod action;
pub mod actionlist;
pub mod shapes;
pub mod movegen;
pub mod hashing;
pub mod gamestate;
pub mod text;
pub mod fen;
pub mod pieces;
pub mod integrity;
pub mod orientation;
pub mod notation;
pub mod color;
pub mod direction;
pub mod geometry;
pub mod shape_bits;
pub mod counting;
pub mod sanity;
pub mod evaluation;
pub mod rotation;
pub mod cache;
pub mod clock;
pub mod search;
pub mod playout;
pub mod heuristics;
pub mod dataset;
pub mod xml_node;
pub mod player;
pub mod perft;
pub mod referee;
pub mod xml_round;
pub mod features;
pub mod shape_laws;
pub mod server_pieces;
pub mod decomposition;
