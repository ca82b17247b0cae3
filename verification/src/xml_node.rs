use vstd::prelude::*;
use vstd::string::*;
use crate::action::Action;
use crate::bitboard::Bitboard;
use crate::gamestate::GameState;
use crate::geometry::{board_of, lemma_board_of};
use crate::piece_type::PieceType;
use crate::pieces::action_of_board;
use crate::sanity::{next_state, lemma_next_state, lemma_xor_bits};
use crate::text::{chars_of, parse_u128, parse_u128_spec};

verus! {

broadcast use vstd::array::group_array_axioms;

/// Whether two texts are equal, character by character.
pub fn text_equals(a: &str, b: &str) -> (r: bool)
    ensures
        r == (a@ == b@),
{
    let x = chars_of(a);
    let y = chars_of(b);
    if x.len() != y.len() {
        return false;
    }
    let mut i: usize = 0;
    while i < x.len()
        invariant
            x@ == a@,
            y@ == b@,
            x@.len() == y@.len(),
            i <= x@.len(),
            forall|k: int| 0 <= k < i ==> x@[k] == y@[k],
        decreases x@.len() - i,
    {
        if x[i] != y[i] {
            return false;
        }
        i = i + 1;
    }
    proof {
        assert(x@ =~= y@);
    }
    true
}

/// A node of an XML message: its name, its text, its attributes in document order and its
/// child nodes.
pub struct XmlNode {
    pub name: String,
    pub data: String,
    pub attribs: Vec<(String, String)>,
    pub childs: Vec<XmlNode>,
}

/// The value of the first attribute from index `i` on whose name is `name`.
pub open spec fn find_attribute(attrs: Seq<(String, String)>, name: Seq<char>, i: int) -> Option<
    Seq<char>,
>
    decreases attrs.len() - i,
{
    if i < 0 || i >= attrs.len() {
        None
    } else if attrs[i].0@ == name {
        Some(attrs[i].1@)
    } else {
        find_attribute(attrs, name, i + 1)
    }
}

/// The index of the first child from index `i` on whose name is `name`, or the number of
/// children.
pub open spec fn find_child(children: Seq<XmlNode>, name: Seq<char>, i: int) -> int
    decreases children.len() - i,
{
    if i < 0 || i >= children.len() {
        children.len() as int
    } else if children[i].name@ == name {
        i
    } else {
        find_child(children, name, i + 1)
    }
}

impl XmlNode {
    /// The attributes as name and value, in document order.
    pub open spec fn attributes(&self) -> Seq<(String, String)> {
        self.attribs@
    }

    /// The child nodes, in document order.
    pub open spec fn children(&self) -> Seq<XmlNode> {
        self.childs@
    }

    /// The value of the first attribute called `name`.
    pub open spec fn attribute(&self, name: Seq<char>) -> Option<Seq<char>> {
        find_attribute(self.attributes(), name, 0)
    }

    /// The first child called `name`, if any.
    pub open spec fn child(&self, name: Seq<char>) -> Option<XmlNode> {
        let k = find_child(self.children(), name, 0);
        if k < self.children().len() {
            Some(self.children()[k])
        } else {
            None
        }
    }

    /// A node without name, text, attributes or children.
    pub fn new() -> (r: XmlNode)
        ensures
            r.name@ == Seq::<char>::empty(),
            r.data@ == Seq::<char>::empty(),
            r.attributes() == Seq::<(String, String)>::empty(),
            r.children() == Seq::<XmlNode>::empty(),
    {
        XmlNode { name: String::new(), data: String::new(), attribs: Vec::new(), childs: Vec::new() }
    }

    /// The child nodes.
    pub fn get_children(&self) -> (r: &Vec<XmlNode>)
        ensures
            r@ == self.children(),
    {
        &self.childs
    }

    /// The first child called `name`, if any.
    pub fn get_child(&self, name: &str) -> (r: Option<&XmlNode>)
        ensures
            r matches Some(c) ==> self.child(name@) == Some(*c),
            r is None ==> self.child(name@) is None,
    {
        let mut i: usize = 0;
        while i < self.childs.len()
            invariant
                i <= self.childs@.len(),
                find_child(self.childs@, name@, 0) == find_child(self.childs@, name@, i as int),
            decreases self.childs@.len() - i,
        {
            if text_equals(self.childs[i].name.as_str(), name) {
                return Some(&self.childs[i]);
            }
            i = i + 1;
        }
        None
    }

    /// The value of the first attribute called `name`, if any.
    pub fn get_attribute(&self, name: &str) -> (r: Option<&String>)
        ensures
            r matches Some(v) ==> self.attribute(name@) == Some(v@),
            r is None ==> self.attribute(name@) is None,
    {
        let mut i: usize = 0;
        while i < self.attribs.len()
            invariant
                i <= self.attribs@.len(),
                find_attribute(self.attribs@, name@, 0) == find_attribute(self.attribs@, name@, i as int),
            decreases self.attribs@.len() - i,
        {
            if text_equals(self.attribs[i].0.as_str(), name) {
                return Some(&self.attribs[i].1);
            }
            i = i + 1;
        }
        None
    }

    /// The team of a welcome message: 0 when its `color` attribute is `one`, 1 when it is
    /// `two`.
    pub fn as_welcome_message(&self) -> (r: usize)
        requires
            self.attribute("color"@) == Some("one"@) || self.attribute("color"@) == Some("two"@),
        ensures
            r == (if self.attribute("color"@) == Some("one"@) { 0usize } else { 1usize }),
    {
        let value = self.get_attribute("color");
        match value {
            Some(v) => {
                if text_equals(v.as_str(), "one") {
                    0
                } else {
                    proof {
                        reveal_strlit("one");
                        reveal_strlit("two");
                        assert(v@ != "one"@);
                    }
                    1
                }
            },
            None => 0,
        }
    }

    /// The room of a joined message: its `roomId` attribute.
    pub fn as_room(&self) -> (r: String)
        requires
            self.attribute("roomId"@) is Some,
        ensures
            r@ == self.attribute("roomId"@)->0,
    {
        let value = self.get_attribute("roomId");
        match value {
            Some(v) => v.clone(),
            None => String::new(),
        }
    }
}

/// What a message of the game server asks of the client.
#[derive(Clone, Copy, Debug, PartialEq, Eq)]
pub enum MessageKind {
    /// A `data` message of class `memento`: the new state of the game.
    Memento,
    /// A `data` message of class `welcomeMessage`.
    Welcome,
    /// A `data` message that asks for a move.
    MoveRequest,
    /// A `data` message of class `result`: the game is over.
    Result,
    /// A `data` message of another class.
    OtherData,
    /// A `joined` message: the room the client has joined.
    Joined,
    /// The server closes the connection.
    Closed,
    /// Any other message.
    Ignored,
}

/// The kind of a server message, by its name and, for `data`, its `class` attribute.
pub open spec fn message_kind_spec(node: XmlNode) -> MessageKind {
    if node.name@ == "data"@ {
        let class = match node.attribute("class"@) {
            Some(c) => c,
            None => Seq::<char>::empty(),
        };
        if class == "memento"@ {
            MessageKind::Memento
        } else if class == "welcomeMessage"@ {
            MessageKind::Welcome
        } else if class == "sc.framework.plugins.protocol.MoveRequest"@ {
            MessageKind::MoveRequest
        } else if class == "result"@ {
            MessageKind::Result
        } else {
            MessageKind::OtherData
        }
    } else if node.name@ == "joined"@ {
        MessageKind::Joined
    } else if node.name@ == "sc.protocol.responses.CloseConnection"@ {
        MessageKind::Closed
    } else {
        MessageKind::Ignored
    }
}

impl XmlNode {
    /// The kind of the message (see `message_kind_spec`).
    pub fn message_kind(&self) -> (r: MessageKind)
        ensures
            r == message_kind_spec(*self),
    {
        if text_equals(self.name.as_str(), "data") {
            let class = match self.get_attribute("class") {
                Some(c) => c.as_str(),
                None => "",
            };
            proof {
                reveal_strlit("");
                assert(class@ == match self.attribute("class"@) {
                    Some(c) => c,
                    None => Seq::<char>::empty(),
                });
            }
            if text_equals(class, "memento") {
                MessageKind::Memento
            } else if text_equals(class, "welcomeMessage") {
                MessageKind::Welcome
            } else if text_equals(class, "sc.framework.plugins.protocol.MoveRequest") {
                MessageKind::MoveRequest
            } else if text_equals(class, "result") {
                MessageKind::Result
            } else {
                MessageKind::OtherData
            }
        } else if text_equals(self.name.as_str(), "joined") {
            MessageKind::Joined
        } else if text_equals(self.name.as_str(), "sc.protocol.responses.CloseConnection") {
            MessageKind::Closed
        } else {
            MessageKind::Ignored
        }
    }
}

/// `XmlNode` under its upper-case name.
pub type XMLNode = XmlNode;

/// The piece type of a start piece name of the game server.
pub open spec fn start_piece_of_name(name: Seq<char>) -> Option<PieceType> {
    if name == "PENTO_L"@ {
        Some(PieceType::LPentomino)
    } else if name == "PENTO_T"@ {
        Some(PieceType::TPentomino)
    } else if name == "PENTO_V"@ {
        Some(PieceType::VPentomino)
    } else if name == "PENTO_S"@ {
        Some(PieceType::NPentomino)
    } else if name == "PENTO_Z"@ {
        Some(PieceType::ZPentomino)
    } else if name == "PENTO_I"@ {
        Some(PieceType::IPentomino)
    } else if name == "PENTO_P"@ {
        Some(PieceType::PPentomino)
    } else if name == "PENTO_W"@ {
        Some(PieceType::WPentomino)
    } else if name == "PENTO_U"@ {
        Some(PieceType::UPentomino)
    } else if name == "PENTO_R"@ {
        Some(PieceType::FPentomino)
    } else if name == "PENTO_Y"@ {
        Some(PieceType::YPentomino)
    } else {
        None
    }
}

/// A start piece name read from the game server is the name under which the piece type is
/// written back: each of the eleven start pieces is read from its own name, and a name that
/// is read as a piece type is that piece type's name and names one of the start pieces.
pub proof fn lemma_start_piece_names(i: int, name: Seq<char>)
    requires
        0 <= i < 11,
    ensures
        start_piece_of_name(crate::piece_type::start_piece_type_spec(i).xml_name_spec())
            == Some(crate::piece_type::start_piece_type_spec(i)),
        start_piece_of_name(name) is Some ==> name == start_piece_of_name(name)->0.xml_name_spec(),
        start_piece_of_name(name) is Some ==> exists|k: int|
            0 <= k < 11 && #[trigger] crate::piece_type::start_piece_type_spec(k) == start_piece_of_name(name)->0,
{
    // each start piece, by its number, for the solver to find the number of a piece read
    assert(crate::piece_type::start_piece_type_spec(0) == PieceType::FPentomino);
    assert(crate::piece_type::start_piece_type_spec(1) == PieceType::IPentomino);
    assert(crate::piece_type::start_piece_type_spec(2) == PieceType::LPentomino);
    assert(crate::piece_type::start_piece_type_spec(3) == PieceType::NPentomino);
    assert(crate::piece_type::start_piece_type_spec(4) == PieceType::PPentomino);
    assert(crate::piece_type::start_piece_type_spec(5) == PieceType::TPentomino);
    assert(crate::piece_type::start_piece_type_spec(6) == PieceType::UPentomino);
    assert(crate::piece_type::start_piece_type_spec(7) == PieceType::VPentomino);
    assert(crate::piece_type::start_piece_type_spec(8) == PieceType::WPentomino);
    assert(crate::piece_type::start_piece_type_spec(9) == PieceType::YPentomino);
    assert(crate::piece_type::start_piece_type_spec(10) == PieceType::ZPentomino);
    reveal_strlit("PENTO_L");
    reveal_strlit("PENTO_T");
    reveal_strlit("PENTO_V");
    reveal_strlit("PENTO_S");
    reveal_strlit("PENTO_Z");
    reveal_strlit("PENTO_I");
    reveal_strlit("PENTO_P");
    reveal_strlit("PENTO_W");
    reveal_strlit("PENTO_U");
    reveal_strlit("PENTO_R");
    reveal_strlit("PENTO_Y");
    assert("PENTO_L"@[6] == 'L' && "PENTO_T"@[6] == 'T' && "PENTO_V"@[6] == 'V');
    assert("PENTO_S"@[6] == 'S' && "PENTO_Z"@[6] == 'Z' && "PENTO_I"@[6] == 'I');
    assert("PENTO_P"@[6] == 'P' && "PENTO_W"@[6] == 'W' && "PENTO_U"@[6] == 'U');
    assert("PENTO_R"@[6] == 'R' && "PENTO_Y"@[6] == 'Y');
}

/// The board of a field's content: blue 0, yellow 1, red 2, anything else 3.
pub open spec fn content_board(content: Seq<char>) -> int {
    if content == "BLUE"@ {
        0
    } else if content == "YELLOW"@ {
        1
    } else if content == "RED"@ {
        2
    } else {
        3
    }
}

/// The number in an attribute, as `u16::from_str` and `u8::from_str` read it.
pub open spec fn attribute_number(node: XmlNode, name: Seq<char>) -> int {
    parse_u128_spec(node.attribute(name)->0)->0 as int
}

/// The attribute holds a number below `bound`.
pub open spec fn has_number(node: XmlNode, name: Seq<char>, bound: int) -> bool {
    &&& node.attribute(name) is Some
    &&& parse_u128_spec(node.attribute(name)->0) is Some
    &&& attribute_number(node, name) < bound
}

/// The field a board field node describes: `x + 21 * y`.
pub open spec fn field_of(f: XmlNode) -> int {
    attribute_number(f, "x"@) + 21 * attribute_number(f, "y"@)
}

/// A board field node is complete: numbers `x` and `y` that name a bit of the board, and a
/// content.
pub open spec fn field_ok(f: XmlNode) -> bool {
    &&& has_number(f, "x"@, 65536)
    &&& has_number(f, "y"@, 65536)
    &&& field_of(f) < 512
    &&& f.attribute("content"@) is Some
}

/// The board of color `k` that the first `n` field nodes describe: each field node toggles its
/// field on the board of its content.
pub open spec fn fields_board(fields: Seq<XmlNode>, k: int, n: nat) -> Bitboard
    decreases n,
{
    if n == 0 {
        Bitboard(0, 0, 0, 0)
    } else {
        let b = fields_board(fields, k, (n - 1) as nat);
        let f = fields[n - 1];
        if content_board(f.attribute("content"@)->0) == k {
            b.xor_spec(board_of(|i: int| i == field_of(f)))
        } else {
            b
        }
    }
}

/// The position after `n` moves that each place the difference between the target boards and
/// the board of the color to move.
pub open spec fn replay(s: GameState, target: [Bitboard; 4], n: nat) -> GameState
    decreases n,
{
    if n == 0 {
        s
    } else {
        let c = (s.ply % 4) as int;
        let a = action_of_board(
            crate::geometry::board_of(|i: int| target[c].has(i) && !s.board[c].has(i)),
        );
        replay(next_state(s, a), target, (n - 1) as nat)
    }
}

/// The state node describes a later position of the game, or the start of one: a `turn`
/// number, with a known `startPiece` at turn 0; otherwise a `board` child whose children are
/// complete field nodes, at a turn after the position's ply.
pub open spec fn state_update_ok(node: XmlNode, s: GameState) -> bool {
    &&& has_number(node, "turn"@, 256)
    &&& attribute_number(node, "turn"@) == 0 ==> node.attribute("startPiece"@) is Some
        && start_piece_of_name(node.attribute("startPiece"@)->0) is Some
    &&& attribute_number(node, "turn"@) != 0 && attribute_number(node, "turn"@) != s.ply ==> {
        &&& node.child("board"@) is Some
        &&& s.ply < attribute_number(node, "turn"@)
        &&& forall|k: int|
            0 <= k < node.child("board"@)->0.children().len() ==> field_ok(
                #[trigger] node.child("board"@)->0.children()[k],
            )
    }
}

/// The boards a state node describes.
pub open spec fn target_boards(node: XmlNode) -> [Bitboard; 4] {
    let fields = node.child("board"@)->0.children();
    [
        fields_board(fields, 0, fields.len()),
        fields_board(fields, 1, fields.len()),
        fields_board(fields, 2, fields.len()),
        fields_board(fields, 3, fields.len()),
    ]
}

/// The position a state node leads to: at turn 0 the start piece type is set; at the
/// position's own ply nothing changes; otherwise the moves that lead from the position to the
/// node's boards are made, one per ply, until its turn.
pub open spec fn updated_state(node: XmlNode, s: GameState) -> GameState {
    let turn = attribute_number(node, "turn"@);
    if turn == 0 {
        GameState {
            start_piece_type: start_piece_of_name(node.attribute("startPiece"@)->0)->0,
            ..s
        }
    } else if turn == s.ply {
        s
    } else {
        replay(s, target_boards(node), (turn - s.ply) as nat)
    }
}

/// The number in a text, which must hold one.
pub(crate) fn parse_number(text: &String) -> (r: u128)
    requires
        parse_u128_spec(text@) is Some,
    ensures
        r == parse_u128_spec(text@)->0,
{
    let chars = chars_of(text.as_str());
    parse_u128(&chars).unwrap()
}

/// The value of attribute `name`, which the node has.
pub(crate) fn attribute_of<'a>(node: &'a XmlNode, name: &str) -> (r: &'a String)
    requires
        node.attribute(name@) is Some,
    ensures
        r@ == node.attribute(name@)->0,
{
    match node.get_attribute(name) {
        Some(v) => v,
        None => {
            proof {
                assert(false);
            }
            &node.name
        },
    }
}

/// The piece type of a start piece name, which is one of the known names.
pub(crate) fn start_piece_from_name(name: &String) -> (r: PieceType)
    requires
        start_piece_of_name(name@) is Some,
    ensures
        r == start_piece_of_name(name@)->0,
{
    let n = name.as_str();
    if text_equals(n, "PENTO_L") {
        PieceType::LPentomino
    } else if text_equals(n, "PENTO_T") {
        PieceType::TPentomino
    } else if text_equals(n, "PENTO_V") {
        PieceType::VPentomino
    } else if text_equals(n, "PENTO_S") {
        PieceType::NPentomino
    } else if text_equals(n, "PENTO_Z") {
        PieceType::ZPentomino
    } else if text_equals(n, "PENTO_I") {
        PieceType::IPentomino
    } else if text_equals(n, "PENTO_P") {
        PieceType::PPentomino
    } else if text_equals(n, "PENTO_W") {
        PieceType::WPentomino
    } else if text_equals(n, "PENTO_U") {
        PieceType::UPentomino
    } else if text_equals(n, "PENTO_R") {
        PieceType::FPentomino
    } else {
        PieceType::YPentomino
    }
}

/// The boards the field nodes describe (see `fields_board`).
pub(crate) fn read_boards(fields: &Vec<XmlNode>) -> (r: [Bitboard; 4])
    requires
        forall|k: int| 0 <= k < fields@.len() ==> field_ok(#[trigger] fields@[k]),
    ensures
        r[0] == fields_board(fields@, 0, fields@.len()),
        r[1] == fields_board(fields@, 1, fields@.len()),
        r[2] == fields_board(fields@, 2, fields@.len()),
        r[3] == fields_board(fields@, 3, fields@.len()),
{
    let e = Bitboard::empty();
    let mut new_board: [Bitboard; 4] = [e, e, e, e];
    let mut i: usize = 0;
    while i < fields.len()
        invariant
            i <= fields@.len(),
            forall|k: int| 0 <= k < fields@.len() ==> field_ok(#[trigger] fields@[k]),
            forall|k: int| 0 <= k < 4 ==> #[trigger] new_board[k] == fields_board(fields@, k, i as nat),
        decreases fields@.len() - i,
    {
        let field = &fields[i];
        proof {
            assert(field_ok(fields@[i as int]));
        }
        let x = parse_number(attribute_of(field, "x")) as u16;
        let y = parse_number(attribute_of(field, "y")) as u16;
        let content = attribute_of(field, "content").as_str();
        let board_index: usize = if text_equals(content, "BLUE") {
            0
        } else if text_equals(content, "YELLOW") {
            1
        } else if text_equals(content, "RED") {
            2
        } else {
            3
        };
        let to = x + y * 21;
        let ghost before = new_board;
        let mut b = new_board[board_index];
        b.flip_bit(to);
        new_board[board_index] = b;
        proof {
            let f = |j: int| j == to as int;
            lemma_board_of(f);
            lemma_xor_bits(before[board_index as int], board_of(f));
            assert forall|j: int| #[trigger] b.has(j) == before[board_index as int].xor_spec(board_of(f)).has(j) by {
            }
            crate::bitboard::lemma_has_ext(b, before[board_index as int].xor_spec(board_of(f)));
            assert(to as int == field_of(fields@[i as int]));
            assert((|j: int| j == field_of(fields@[i as int])) =~= f);
        }
        i = i + 1;
    }
    new_board
}

impl XmlNode {
    /// Brings the position up to the state this node describes (see `updated_state`).
    pub fn update_state(&self, state: &mut GameState)
        requires
            state_update_ok(*self, *old(state)),
        ensures
            *final(state) == updated_state(*self, *old(state)),
    {
        let new_ply = parse_number(attribute_of(self, "turn")) as u8;
        if new_ply == 0 {
            state.start_piece_type = start_piece_from_name(attribute_of(self, "startPiece"));
            return;
        }
        if state.ply == new_ply {
            return;
        }
        let board_node = match self.get_child("board") {
            Some(b) => b,
            None => {
                proof {
                    assert(false);
                }
                return;
            },
        };
        let new_board = read_boards(board_node.get_children());
        let ghost target = target_boards(*self);
        let ghost total = (new_ply - old(state).ply) as nat;
        proof {
            assert(new_board =~= target);
        }
        loop
            invariant_except_break
                state.ply < new_ply,
            invariant
                state.ply <= new_ply,
                new_board == target,
                replay(*state, target, (new_ply - state.ply) as nat) == replay(*old(state), target, total),
            ensures
                state.ply == new_ply,
                replay(*state, target, 0) == replay(*old(state), target, total),
            decreases new_ply - state.ply,
        {
            let color = state.get_current_color();
            let last_board = state.board[color];
            let changed_fields = new_board[color].and(last_board.not());
            let action = Action::from_bitboard(changed_fields);
            let ghost before = *state;
            proof {
                crate::pieces::lemma_action_of_board_shape(changed_fields);
                let f = |i: int| target[color as int].has(i) && !before.board[color as int].has(i);
                lemma_board_of(f);
                assert forall|i: int| #[trigger] changed_fields.has(i) == board_of(f).has(i) by {
                }
                crate::bitboard::lemma_has_ext(changed_fields, board_of(f));
            }
            state.do_action(action);
            proof {
                lemma_next_state(before, *state, action);
            }
            if state.ply == new_ply {
                break;
            }
        }
    }

    /// Brings the position up to the memento's state, its `state` child.
    pub fn as_memento(&self, state: &mut GameState)
        requires
            self.child("state"@) is Some,
            state_update_ok(self.child("state"@)->0, *old(state)),
        ensures
            *final(state) == updated_state(self.child("state"@)->0, *old(state)),
    {
        match self.get_child("state") {
            Some(child) => child.update_state(state),
            None => {
                proof {
                    assert(false);
                }
            },
        }
    }
}


/// Whether attribute `name` holds a number below `bound` (see `has_number`).
fn number_below(node: &XmlNode, name: &str, bound: u128) -> (r: bool)
    ensures
        r == has_number(*node, name@, bound as int),
{
    match node.get_attribute(name) {
        Some(v) => {
            let chars = chars_of(v.as_str());
            match parse_u128(&chars) {
                Some(x) => x < bound,
                None => false,
            }
        },
        None => false,
    }
}

/// Whether `name` is a start piece name of the game server.
fn known_start_piece(name: &String) -> (r: bool)
    ensures
        r == start_piece_of_name(name@) is Some,
{
    let n = name.as_str();
    text_equals(n, "PENTO_L") || text_equals(n, "PENTO_T") || text_equals(n, "PENTO_V")
        || text_equals(n, "PENTO_S") || text_equals(n, "PENTO_Z") || text_equals(n, "PENTO_I")
        || text_equals(n, "PENTO_P") || text_equals(n, "PENTO_W") || text_equals(n, "PENTO_U")
        || text_equals(n, "PENTO_R") || text_equals(n, "PENTO_Y")
}

/// Whether the field node is complete (see `field_ok`).
fn field_complete(f: &XmlNode) -> (r: bool)
    ensures
        r == field_ok(*f),
{
    if !number_below(f, "x", 65536) || !number_below(f, "y", 65536) {
        return false;
    }
    let x = parse_number(attribute_of(f, "x"));
    let y = parse_number(attribute_of(f, "y"));
    x + 21 * y < 512 && f.get_attribute("content").is_some()
}

impl XmlNode {
    /// Whether the state node can bring the position up to date (see `state_update_ok`).
    pub fn can_update_state(&self, state: &GameState) -> (r: bool)
        ensures
            r == state_update_ok(*self, *state),
    {
        if !number_below(self, "turn", 256) {
            return false;
        }
        let turn = parse_number(attribute_of(self, "turn"));
        if turn == 0 {
            return match self.get_attribute("startPiece") {
                Some(name) => known_start_piece(name),
                None => false,
            };
        }
        if turn == state.ply as u128 {
            return true;
        }
        if (state.ply as u128) >= turn {
            return false;
        }
        match self.get_child("board") {
            Some(board) => {
                let fields = board.get_children();
                let mut k: usize = 0;
                while k < fields.len()
                    invariant
                        k <= fields@.len(),
                        fields@ == board.children(),
                        self.child("board"@) == Some(*board),
                        has_number(*self, "turn"@, 256),
                        attribute_number(*self, "turn"@) != 0,
                        attribute_number(*self, "turn"@) != state.ply,
                        state.ply < attribute_number(*self, "turn"@),
                        forall|j: int| 0 <= j < k ==> field_ok(#[trigger] fields@[j]),
                    decreases fields@.len() - k,
                {
                    if !field_complete(&fields[k]) {
                        proof {
                            assert(self.child("board"@)->0.children()[k as int] == fields@[k as int]);
                        }
                        return false;
                    }
                    k = k + 1;
                }
                true
            },
            None => false,
        }
    }

    /// Whether the memento can bring the position up to date: it has a `state` child that can
    /// (see `can_update_state`).
    pub fn can_read_memento(&self, state: &GameState) -> (r: bool)
        ensures
            r == (self.child("state"@) is Some && state_update_ok(self.child("state"@)->0, *state)),
    {
        match self.get_child("state") {
            Some(child) => child.can_update_state(state),
            None => false,
        }
    }
}

} // verus!
