# blokus

A Blokus engine for the two-team game of the Software-Challenge 2021, written in Verus:
bitboards, move generation, game state, notation, a principal variation search with its
tables, the heuristics and random playouts of a Monte Carlo tree search, and the messages of
the game server. Every function of the library carries a contract that Verus proves, but for
the few wrappers around calls into std and `rand`, whose contracts are trusted.

## Layout

- `src/` is the verified library.
  - `bits`, `bitboard`, `geometry`, `counting`: 512-bit boards of a 21x20 field layout and
    their operations, reflections and rotations, and field counts.
  - `piece_type`, `shapes`, `shape_bits`, `orientation`, `action`, `actionlist`, `movegen`:
    the 21 piece types, their 91 shapes, moves and the move generator.
  - `gamestate`, `hashing`, `sanity`, `integrity`, `pieces`, `shape_laws`, `decomposition`:
    making and taking back moves, the position hash, validity checks, the recognition of pieces
    on a board, and the laws that tie them together.
  - `fen`, `text`, `notation`, `color`, `direction`: text forms of positions and moves.
  - `evaluation`, `cache`, `search`, `clock`: the static evaluation, the transposition table
    and the principal variation search.
  - `heuristics`, `features`, `playout`, `rng`, `player`: the integer parts of the Monte
    Carlo tree search, random moves, and the `Player` interface.
  - `rotation`, `dataset`: normalised positions and the table of best moves with its file
    format.
  - `xml_node`, `xml_round`: the messages of the game server.
  - `perft`, `referee`: counting move sequences, and the steps of a game between two programs.
- `tests/` holds the tests.
- `app/` is the program around the library: the client for the game server, the float-valued
  search and networks, the test server, the performance test and the file handling.
