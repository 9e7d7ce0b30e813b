//! The boundary to the rule engine (the `chess` crate).
//!
//! The engine treats a position as an opaque value of the rule engine and
//! reasons about it through `board_rep`, an abstract snapshot of everything
//! the position determines. Every question the search asks of the rule
//! engine — the legal moves, the position after a move, the zobrist hash,
//! the status — is a pure function of the position, so each answer is named
//! as a function of that snapshot, and the wrappers below promise no more
//! than that the rule engine answers consistently.

use vstd::prelude::*;

verus! {

/// A move as plain values: source square, destination square and promotion.
/// Squares are numbered 0 (a1) to 63 (h8), file varying fastest; `promo` is
/// 0 for none, 1 knight, 2 bishop, 3 rook, 4 queen.
#[derive(Clone, Copy, PartialEq, Eq, Structural, Debug, Hash)]
pub struct Mv {
    pub from: u8,
    pub to: u8,
    pub promo: u8,
}

impl Mv {
    /// The triple a move denotes; the shape the rule-engine names speak of.
    pub open spec fn repr(self) -> (u8, u8, u8) {
        (self.from, self.to, self.promo)
    }

    /// Both squares on the board and the promotion in range.
    pub open spec fn wf(self) -> bool {
        self.from < 64 && self.to < 64 && self.promo <= 4
    }
}

impl Default for Mv {
    /// The sentinel move: squares zero, no promotion.
    fn default() -> (r: Self)
        ensures
            r == (Mv { from: 0u8, to: 0u8, promo: 0u8 }),
    {
        Mv { from: 0, to: 0, promo: 0 }
    }
}

#[verifier::external_type_specification]
#[verifier::external_body]
pub struct ExBoard(chess::Board);

/// The position has moves left to play.
pub const STATUS_ONGOING: u8 = 0;

/// The side to move is checkmated.
pub const STATUS_CHECKMATE: u8 = 1;

/// The side to move has no move but is not in check.
pub const STATUS_STALEMATE: u8 = 2;

/// Everything a position of the rule engine determines, as an abstract
/// snapshot. The engine never looks inside it; it only carries it from one
/// rule-engine answer to the next.
pub uninterp spec fn board_rep(b: chess::Board) -> Seq<u64>;

/// What chess::Board::get_hash returns on a position with this snapshot.
pub uninterp spec fn rep_hash(s: Seq<u64>) -> u64;

/// What chess::Board::status returns, under the encoding of the STATUS consts.
pub uninterp spec fn rep_status(s: Seq<u64>) -> u8;

/// Whether chess::Board::side_to_move returns White.
pub uninterp spec fn rep_white_to_move(s: Seq<u64>) -> bool;

/// Whether chess::Board::checkers is non-empty: the side to move is in check.
pub uninterp spec fn rep_in_check(s: Seq<u64>) -> bool;

/// The snapshot of what chess::Board::make_move_new returns for this move.
pub uninterp spec fn rep_after(s: Seq<u64>, from: u8, to: u8, promo: u8) -> Seq<u64>;

/// The snapshot of what chess::Board::null_move returns when it returns one.
pub uninterp spec fn rep_after_null(s: Seq<u64>) -> Seq<u64>;

/// What chess::MoveGen::new_legal yields: the legal moves, in the
/// generator's order, as triples.
pub uninterp spec fn rep_legal(s: Seq<u64>) -> Seq<(u8, u8, u8)>;

/// What chess::MoveGen yields under the capture mask: the legal moves onto
/// an opponent piece or the en-passant destination, in the generator's order.
pub uninterp spec fn rep_captures(s: Seq<u64>) -> Seq<(u8, u8, u8)>;

/// What one side's pieces are: pairs of piece index (0 pawn .. 5 king) and
/// square, in the order the rule engine's bitboards yield them.
pub uninterp spec fn rep_pieces(s: Seq<u64>, white: bool) -> Seq<(u8, u8)>;

/// Relies on chess::Board::get_hash: the zobrist hash of the position, a
/// function of the position alone (the tables come from a fixed seed).
#[verifier::external_body]
pub fn board_hash(b: &chess::Board) -> (r: u64)
    ensures
        r == rep_hash(board_rep(*b)),
{
    b.get_hash()
}

/// Relies on chess::Board::status: Ongoing when legal moves exist, else
/// Checkmate when in check and Stalemate otherwise.
#[verifier::external_body]
pub fn board_status(b: &chess::Board) -> (r: u8)
    ensures
        r == rep_status(board_rep(*b)),
        r == STATUS_ONGOING || r == STATUS_CHECKMATE || r == STATUS_STALEMATE,
        (r == STATUS_ONGOING) == (rep_legal(board_rep(*b)).len() > 0),
{
    match b.status() {
        chess::BoardStatus::Ongoing => STATUS_ONGOING,
        chess::BoardStatus::Checkmate => STATUS_CHECKMATE,
        chess::BoardStatus::Stalemate => STATUS_STALEMATE,
    }
}

/// Relies on chess::Board::side_to_move.
#[verifier::external_body]
pub fn board_white_to_move(b: &chess::Board) -> (r: bool)
    ensures
        r == rep_white_to_move(board_rep(*b)),
{
    match b.side_to_move() {
        chess::Color::White => true,
        chess::Color::Black => false,
    }
}

/// Relies on chess::Board::checkers: non-empty exactly when the side to
/// move is in check.
#[verifier::external_body]
pub fn board_in_check(b: &chess::Board) -> (r: bool)
    ensures
        r == rep_in_check(board_rep(*b)),
{
    b.checkers().0 != 0
}

/// Relies on chess::Board::make_move_new, which is defined (and free of
/// panics) on the legal moves of the position.
#[verifier::external_body]
pub fn board_make(b: &chess::Board, m: Mv) -> (r: chess::Board)
    requires
        m.wf(),
        rep_legal(board_rep(*b)).contains(m.repr()),
    ensures
        board_rep(r) == rep_after(board_rep(*b), m.from, m.to, m.promo),
{
    let promo = match m.promo {
        1 => Some(chess::Piece::Knight),
        2 => Some(chess::Piece::Bishop),
        3 => Some(chess::Piece::Rook),
        4 => Some(chess::Piece::Queen),
        _ => None,
    };
    b.make_move_new(chess::ChessMove::new(
        chess::ALL_SQUARES[m.from as usize],
        chess::ALL_SQUARES[m.to as usize],
        promo,
    ))
}

/// Relies on chess::Board::null_move: Some exactly when the side to move is
/// not in check, and then the same position with the side to move swapped.
#[verifier::external_body]
pub fn board_null(b: &chess::Board) -> (r: Option<chess::Board>)
    ensures
        (r is Some) == !rep_in_check(board_rep(*b)),
        r matches Some(nb) ==> board_rep(nb) == rep_after_null(board_rep(*b)),
{
    b.null_move()
}

/// Relies on chess::MoveGen::new_legal: every yielded move is legal, each
/// move's squares index the 64-square board and its promotion is one of the
/// four promotion pieces.
#[verifier::external_body]
pub fn legal_moves(b: &chess::Board) -> (r: Vec<Mv>)
    ensures
        r@.map_values(|m: Mv| m.repr()) == rep_legal(board_rep(*b)),
        forall|i: int| 0 <= i < r@.len() ==> (#[trigger] r@[i]).wf(),
{
    let mut r = Vec::new();
    for m in chess::MoveGen::new_legal(b) {
        let promo = match m.get_promotion() {
            None => 0u8, Some(chess::Piece::Knight) => 1, Some(chess::Piece::Bishop) => 2,
            Some(chess::Piece::Rook) => 3, _ => 4,
        };
        r.push(Mv { from: m.get_source().to_int(), to: m.get_dest().to_int(), promo });
    }
    r
}

/// Relies on chess::MoveGen with the iterator mask set to the opponent's
/// pieces plus the en-passant destination when there is one: every yielded
/// move is one of the position's legal moves.
#[verifier::external_body]
pub fn capture_moves(b: &chess::Board) -> (r: Vec<Mv>)
    ensures
        r@.map_values(|m: Mv| m.repr()) == rep_captures(board_rep(*b)),
        forall|i: int| 0 <= i < r@.len() ==> (#[trigger] r@[i]).wf(),
        forall|i: int|
            0 <= i < r@.len() ==> rep_legal(board_rep(*b)).contains((#[trigger] r@[i]).repr()),
{
    let mut gen = chess::MoveGen::new_legal(b);
    let mut mask = *b.color_combined(!b.side_to_move());
    if let Some(ep) = b.en_passant() { mask |= chess::BitBoard::from_square(ep.uforward(b.side_to_move())); }
    gen.set_iterator_mask(mask);
    let mut r = Vec::new();
    for m in gen {
        let promo = match m.get_promotion() {
            None => 0u8, Some(chess::Piece::Knight) => 1, Some(chess::Piece::Bishop) => 2,
            Some(chess::Piece::Rook) => 3, _ => 4,
        };
        r.push(Mv { from: m.get_source().to_int(), to: m.get_dest().to_int(), promo });
    }
    r
}

/// Relies on chess::Board::color_combined and chess::Board::piece_on: one
/// pair per piece of the side, so at most 64 of them, each with a piece
/// index below 6 and a square below 64.
#[verifier::external_body]
pub fn side_pieces(b: &chess::Board, white: bool) -> (r: Vec<(u8, u8)>)
    ensures
        r@ == rep_pieces(board_rep(*b), white),
        r@.len() <= 64,
        forall|i: int| 0 <= i < r@.len() ==> (#[trigger] r@[i]).0 < 6 && r@[i].1 < 64,
{
    let color = if white { chess::Color::White } else { chess::Color::Black };
    let mut r = Vec::new();
    for sq in *b.color_combined(color) {
        if let Some(p) = b.piece_on(sq) {
            r.push((p.to_index() as u8, sq.to_int()));
        }
    }
    r
}

} // verus!
