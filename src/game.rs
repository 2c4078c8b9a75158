//! Pieces on an 8x8 board, their moves, and selection by clicks.
use crate::graphics::sprites::{Sprite, SpriteSheet};
use vstd::prelude::*;

verus! {

/// Side of a piece.
#[derive(Debug, Copy, Clone, PartialEq, Eq, Structural)]
pub enum Team {
    White,
    Black,
}

/// The board row that is `row` counted from `team`'s own edge.
pub open spec fn row_of(team: Team, row: usize) -> usize
    recommends
        team == Team::Black ==> row <= 7,
{
    match team {
        Team::White => row,
        Team::Black => (7 - row) as usize,
    }
}

impl Team {
    /// A living piece of this team with kind `id`, at column `x` and at row
    /// `y` counted from this team's edge.
    fn piece(self, id: i32, x: usize, y: usize) -> (r: Piece)
        requires
            self == Team::Black ==> y <= 7,
        ensures
            r == (Piece { team: self, id, x, y: row_of(self, y), alive: true }),
    {
        Piece { team: self, id, x, y: self.get_row(y), alive: true }
    }

    /// The board row that is `row` counted from this team's edge.
    fn get_row(self, row: usize) -> (r: usize)
        requires
            self == Team::Black ==> row <= 7,
        ensures
            r == row_of(self, row),
    {
        match self {
            Team::White => row,
            Team::Black => 7 - row,
        }
    }
}

/// How a move treats the piece on its target square.
#[derive(Debug, Copy, Clone, PartialEq, Eq, Structural)]
pub enum MoveType {
    /// The target square must be empty.
    MoveOnly,
    /// The target square must hold an opponent's piece.
    CaptureOnly,
    /// The target square may be empty or hold an opponent's piece.
    MoveAndCapture,
}

/// A move that a piece could make, yet to be checked against the board.
#[derive(Debug, Copy, Clone, PartialEq, Eq, Structural)]
pub struct MoveAttempt {
    pub source_x: usize,
    pub source_y: usize,
    pub target_x: i32,
    pub target_y: i32,
    pub move_type: MoveType,
}

/// A move that a piece can make.
#[derive(Debug, Copy, Clone, PartialEq, Eq, Structural)]
pub struct Move {
    pub source_x: usize,
    pub source_y: usize,
    pub target_x: usize,
    pub target_y: usize,
}

impl Move {
    /// The square the move ends on.
    pub fn target_pos(&self) -> (r: (usize, usize))
        ensures
            r == (self.target_x, self.target_y),
    {
        (self.target_x, self.target_y)
    }
}

/// A chess piece. Its kind `id` is its column in the pieces' sprite sheet:
/// 0 pawn, 1 knight, 2 bishop, 3 rook, 4 queen, 5 king.
#[derive(Debug, Copy, Clone, PartialEq, Eq, Structural)]
pub struct Piece {
    pub team: Team,
    pub id: i32,
    pub x: usize,
    pub y: usize,
    pub alive: bool,
}

/// The attempt to move `p` by `(dx, dy)`.
pub open spec fn attempt_of(p: Piece, dx: int, dy: int, move_type: MoveType) -> MoveAttempt {
    MoveAttempt {
        source_x: p.x,
        source_y: p.y,
        target_x: (p.x + dx) as i32,
        target_y: (p.y + dy) as i32,
        move_type,
    }
}

/// Forward direction of a team, in rows.
pub open spec fn forward(team: Team) -> int {
    match team {
        Team::White => 1,
        Team::Black => -1,
    }
}

/// The moves a piece tries, before they are checked against the board.
/// A pawn tries one square forward, two from its starting row, and the
/// two capture attempts, whose column offsets are `x + 1` and `x - 1`;
/// other pieces try nothing.
pub open spec fn attempts(p: Piece) -> Seq<MoveAttempt> {
    if p.id == 0 {
        let dir = forward(p.team);
        let one = seq![attempt_of(p, 0, dir, MoveType::MoveOnly)];
        let two = if p.y == row_of(p.team, 1) {
            one.push(attempt_of(p, 0, 2 * dir, MoveType::MoveOnly))
        } else {
            one
        };
        two.push(attempt_of(p, p.x + 1, dir, MoveType::CaptureOnly)).push(
            attempt_of(p, p.x - 1, dir, MoveType::CaptureOnly),
        )
    } else {
        Seq::empty()
    }
}

/// Index of the first living piece of `s` on square `(x, y)`.
pub open spec fn piece_at(s: Seq<Piece>, x: usize, y: usize) -> Option<int>
    decreases s.len(),
{
    if s.len() == 0 {
        None
    } else {
        match piece_at(s.drop_last(), x, y) {
            Some(i) => Some(i),
            None => if s.last().alive && s.last().x == x && s.last().y == y {
                Some(s.len() - 1)
            } else {
                None
            },
        }
    }
}

/// What checking attempt `a` of piece `p` against `pieces` gives: the move
/// when its target is on the board and the target square suits its type.
pub open spec fn checked(pieces: Seq<Piece>, p: Piece, a: MoveAttempt) -> Option<Move> {
    if a.target_x < 0 || a.target_x >= 8 || a.target_y < 0 || a.target_y >= 8 {
        None
    } else {
        let m = Move {
            source_x: a.source_x,
            source_y: a.source_y,
            target_x: a.target_x as usize,
            target_y: a.target_y as usize,
        };
        match piece_at(pieces, a.target_x as usize, a.target_y as usize) {
            Some(i) => if pieces[i].team == p.team || a.move_type == MoveType::MoveOnly {
                None
            } else {
                Some(m)
            },
            None => if a.move_type == MoveType::CaptureOnly {
                None
            } else {
                Some(m)
            },
        }
    }
}

/// The moves among `tries` that pass the check, in order.
pub open spec fn valid_moves(pieces: Seq<Piece>, p: Piece, tries: Seq<MoveAttempt>) -> Seq<Move>
    decreases tries.len(),
{
    if tries.len() == 0 {
        Seq::empty()
    } else {
        let rest = valid_moves(pieces, p, tries.drop_last());
        match checked(pieces, p, tries.last()) {
            Some(m) => rest.push(m),
            None => rest,
        }
    }
}

/// The living pieces of `s`, in order.
pub open spec fn alive_pieces(s: Seq<Piece>) -> Seq<Piece>
    decreases s.len(),
{
    if s.len() == 0 {
        Seq::empty()
    } else if s.last().alive {
        alive_pieces(s.drop_last()).push(s.last())
    } else {
        alive_pieces(s.drop_last())
    }
}

impl Piece {
    /// The sprite of this piece: column `id` of `sheet`, row 0 for white
    /// and row 1 for black.
    pub fn sprite(&self, sheet: &SpriteSheet) -> (r: Sprite)
        ensures
            r.sheet == *sheet,
            r.position == (self.id, if self.team == Team::White { 0i32 } else { 1i32 }),
    {
        let y: i32 = match self.team {
            Team::White => 0,
            Team::Black => 1,
        };
        sheet.sprite(self.id, y)
    }

    /// Column and row of the piece.
    pub fn position(&self) -> (r: (usize, usize))
        ensures
            r == (self.x, self.y),
    {
        (self.x, self.y)
    }

    /// The attempt to move this piece by `(x, y)`.
    fn move_attempt(&self, x: i32, y: i32, move_type: MoveType) -> (r: MoveAttempt)
        requires
            self.x < 8,
            self.y < 8,
            -16 <= x <= 16,
            -16 <= y <= 16,
        ensures
            r == attempt_of(*self, x as int, y as int, move_type),
    {
        MoveAttempt {
            source_x: self.x,
            source_y: self.y,
            target_x: self.x as i32 + x,
            target_y: self.y as i32 + y,
            move_type,
        }
    }

    /// Checks one attempt of this piece against the board.
    fn check_attempt(&self, manager: &PiecesManager, move_attempt: &MoveAttempt) -> (r: Option<
        Move,
    >)
        ensures
            r == checked(manager.spec_pieces(), *self, *move_attempt),
    {
        if move_attempt.target_x < 0 || move_attempt.target_x >= 8 || move_attempt.target_y < 0
            || move_attempt.target_y >= 8 {
            return None;
        }
        let target_x = move_attempt.target_x as usize;
        let target_y = move_attempt.target_y as usize;
        match manager.piece_by_pos(target_x, target_y) {
            Some(other_piece) => {
                if other_piece.team == self.team {
                    return None;
                } else if move_attempt.move_type == MoveType::MoveOnly {
                    return None;
                }
            },
            None => {
                if move_attempt.move_type == MoveType::CaptureOnly {
                    return None;
                }
            },
        }
        Some(
            Move {
                target_x,
                target_y,
                source_x: move_attempt.source_x,
                source_y: move_attempt.source_y,
            },
        )
    }

    /// The moves this piece can make on the board of `manager`.
    fn moves(&self, manager: &PiecesManager) -> (r: Vec<Move>)
        requires
            self.x < 8,
            self.y < 8,
        ensures
            r@ == valid_moves(manager.spec_pieces(), *self, attempts(*self)),
    {
        let mut move_tries: Vec<MoveAttempt> = Vec::new();
        let dir: i32 = match self.team {
            Team::White => 1,
            Team::Black => -1,
        };
        match self.id {
            0 => {
                move_tries.push(self.move_attempt(0, dir, MoveType::MoveOnly));
                if self.y == self.team.get_row(1) {
                    move_tries.push(self.move_attempt(0, 2 * dir, MoveType::MoveOnly));
                }
                move_tries.push(self.move_attempt(self.x as i32 + 1, dir, MoveType::CaptureOnly));
                move_tries.push(self.move_attempt(self.x as i32 - 1, dir, MoveType::CaptureOnly));
            },
            _ => {},
        }
        proof {
            assert(move_tries@ =~= attempts(*self));
        }
        let ghost tries = move_tries@;
        let mut result: Vec<Move> = Vec::new();
        let n = move_tries.len();
        let mut i: usize = 0;
        while i < n
            invariant
                n == tries.len(),
                move_tries@ == tries,
                0 <= i <= n,
                result@ == valid_moves(manager.spec_pieces(), *self, tries.take(i as int)),
            decreases n - i,
        {
            proof {
                assert(tries.take(i as int + 1).drop_last() =~= tries.take(i as int));
            }
            match self.check_attempt(manager, &move_tries[i]) {
                Some(m) => result.push(m),
                None => {},
            }
            i = i + 1;
        }
        proof {
            assert(tries.take(n as int) =~= tries);
        }
        result
    }
}

/// Index of a piece in its manager.
pub type PieceIndex = usize;

/// The pieces of a game, and which one is selected.
pub struct PiecesManager {
    pieces: Vec<Piece>,
    selected_piece_index: Option<PieceIndex>,
}

/// The sixteen pieces a team starts with: pawns on columns 0 to 7, then
/// knights, bishops, rooks, queen and king, in that order.
pub open spec fn team_start(team: Team) -> Seq<Piece> {
    Seq::new(8, |i: int| Piece { team, id: 0, x: i as usize, y: row_of(team, 1), alive: true })
        + seq![
        Piece { team, id: 1, x: 1, y: row_of(team, 0), alive: true },
        Piece { team, id: 1, x: 6, y: row_of(team, 0), alive: true },
        Piece { team, id: 2, x: 2, y: row_of(team, 0), alive: true },
        Piece { team, id: 2, x: 5, y: row_of(team, 0), alive: true },
        Piece { team, id: 3, x: 0, y: row_of(team, 0), alive: true },
        Piece { team, id: 3, x: 7, y: row_of(team, 0), alive: true },
        Piece { team, id: 4, x: 3, y: row_of(team, 0), alive: true },
        Piece { team, id: 5, x: 4, y: row_of(team, 0), alive: true },
    ]
}

/// The moves of the selected piece, if any.
pub open spec fn moves_of_selection(pieces: Seq<Piece>, selected: Option<PieceIndex>) -> Seq<Move> {
    match selected {
        None => Seq::empty(),
        Some(i) => valid_moves(pieces, pieces[i as int], attempts(pieces[i as int])),
    }
}

/// The selection after a click on square `(x, y)`: cleared off the board,
/// kept on a square the selected piece can move to, and otherwise the
/// living piece on the square, if any.
pub open spec fn selection_after_click(
    pieces: Seq<Piece>,
    selected: Option<PieceIndex>,
    x: usize,
    y: usize,
) -> Option<PieceIndex> {
    if x >= 8 || y >= 8 {
        None
    } else if exists|k: int|
        0 <= k < moves_of_selection(pieces, selected).len() && #[trigger] moves_of_selection(
            pieces,
            selected,
        )[k].target_x == x && moves_of_selection(pieces, selected)[k].target_y == y {
        selected
    } else {
        match piece_at(pieces, x, y) {
            Some(i) => Some(i as usize),
            None => None,
        }
    }
}

impl PiecesManager {
    pub closed spec fn spec_pieces(&self) -> Seq<Piece> {
        self.pieces@
    }

    pub closed spec fn spec_selected(&self) -> Option<PieceIndex> {
        self.selected_piece_index
    }

    /// Every piece stands on the board, and the selection names a piece.
    pub open spec fn wf(&self) -> bool {
        &&& forall|i: int|
            0 <= i < self.spec_pieces().len() ==> (#[trigger] self.spec_pieces()[i]).x < 8
                && self.spec_pieces()[i].y < 8
        &&& match self.spec_selected() {
            Some(i) => i < self.spec_pieces().len(),
            None => true,
        }
    }

    fn push_team(pieces: &mut Vec<Piece>, team: Team)
        ensures
            final(pieces)@ == old(pieces)@ + team_start(team),
    {
        let ghost start = pieces@;
        let mut i: usize = 0;
        while i < 8
            invariant
                0 <= i <= 8,
                pieces@ == start + Seq::new(
                    i as nat,
                    |k: int| Piece { team, id: 0, x: k as usize, y: row_of(team, 1), alive: true },
                ),
            decreases 8 - i,
        {
            pieces.push(team.piece(0, i, 1));
            proof {
                assert(pieces@ =~= start + Seq::new(
                    (i + 1) as nat,
                    |k: int| Piece { team, id: 0, x: k as usize, y: row_of(team, 1), alive: true },
                ));
            }
            i = i + 1;
        }
        pieces.push(team.piece(1, 1, 0));
        pieces.push(team.piece(1, 6, 0));
        pieces.push(team.piece(2, 2, 0));
        pieces.push(team.piece(2, 5, 0));
        pieces.push(team.piece(3, 0, 0));
        pieces.push(team.piece(3, 7, 0));
        pieces.push(team.piece(4, 3, 0));
        pieces.push(team.piece(5, 4, 0));
        proof {
            assert(pieces@ =~= start + team_start(team));
        }
    }

    /// A board in the starting position: the white pieces, then the black
    /// ones; nothing is selected.
    pub fn new() -> (r: PiecesManager)
        ensures
            r.wf(),
            r.spec_pieces() == team_start(Team::White) + team_start(Team::Black),
            r.spec_selected() == None::<PieceIndex>,
    {
        let mut pieces: Vec<Piece> = Vec::new();
        Self::push_team(&mut pieces, Team::White);
        Self::push_team(&mut pieces, Team::Black);
        proof {
            assert(pieces@ =~= team_start(Team::White) + team_start(Team::Black));
        }
        let r = PiecesManager { pieces, selected_piece_index: None };
        r
    }

    /// The living pieces, in order.
    pub fn pieces(&self) -> (r: Vec<&Piece>)
        ensures
            r@.map_values(|p: &Piece| *p) == alive_pieces(self.spec_pieces()),
    {
        let ghost s = self.pieces@;
        let mut r: Vec<&Piece> = Vec::new();
        let n = self.pieces.len();
        let mut i: usize = 0;
        while i < n
            invariant
                n == s.len(),
                s == self.pieces@,
                0 <= i <= n,
                r@.map_values(|p: &Piece| *p) == alive_pieces(s.take(i as int)),
            decreases n - i,
        {
            proof {
                assert(s.take(i as int + 1).drop_last() =~= s.take(i as int));
            }
            let piece = &self.pieces[i];
            if piece.alive {
                r.push(piece);
                proof {
                    assert(r@.map_values(|p: &Piece| *p) =~= alive_pieces(s.take(i as int + 1)));
                }
            }
            i = i + 1;
        }
        proof {
            assert(s.take(n as int) =~= s);
        }
        r
    }

    /// The piece at `index`.
    fn piece(&self, index: PieceIndex) -> (r: &Piece)
        requires
            index < self.spec_pieces().len(),
        ensures
            *r == self.spec_pieces()[index as int],
    {
        &self.pieces[index]
    }

    /// The first living piece on square `(x, y)`.
    pub fn piece_by_pos(&self, x: usize, y: usize) -> (r: Option<&Piece>)
        ensures
            match piece_at(self.spec_pieces(), x, y) {
                Some(i) => r is Some && *r.unwrap() == self.spec_pieces()[i],
                None => r is None,
            },
    {
        let found = self.piece_index_by_pos(x, y);
        match found {
            Some(index) => {
                let p = self.piece(index);
                Some(p)
            },
            None => None,
        }
    }

    /// Index of the first living piece on square `(x, y)`.
    fn piece_index_by_pos(&self, x: usize, y: usize) -> (r: Option<PieceIndex>)
        ensures
            match piece_at(self.spec_pieces(), x, y) {
                Some(i) => r is Some && r.unwrap() as int == i && 0 <= i < self.spec_pieces().len(),
                None => r is None,
            },
    {
        let ghost s = self.pieces@;
        let n = self.pieces.len();
        let mut i: usize = 0;
        while i < n
            invariant
                n == s.len(),
                s == self.pieces@,
                0 <= i <= n,
                piece_at(s.take(i as int), x, y) is None,
            decreases n - i,
        {
            proof {
                assert(s.take(i as int + 1).drop_last() =~= s.take(i as int));
            }
            let piece = &self.pieces[i];
            if piece.alive && piece.x == x && piece.y == y {
                proof {
                    lemma_piece_at_prefix(s, x, y, i as int);
                }
                return Some(i);
            }
            i = i + 1;
        }
        proof {
            assert(s.take(n as int) =~= s);
        }
        None
    }

    /// The moves of the selected piece; none when nothing is selected.
    pub fn selected_moves(&self) -> (r: Vec<Move>)
        requires
            self.wf(),
        ensures
            r@ == moves_of_selection(self.spec_pieces(), self.spec_selected()),
    {
        match &self.selected_piece_index {
            None => Vec::new(),
            Some(piece) => self.piece(*piece).moves(self),
        }
    }

    /// Handles a click on square `(x, y)`.
    pub fn on_click(&mut self, x: usize, y: usize)
        requires
            old(self).wf(),
        ensures
            final(self).wf(),
            final(self).spec_pieces() == old(self).spec_pieces(),
            final(self).spec_selected() == selection_after_click(
                old(self).spec_pieces(),
                old(self).spec_selected(),
                x,
                y,
            ),
    {
        if x >= 8 || y >= 8 {
            self.selected_piece_index = None;
        } else {
            let moves = self.selected_moves();
            let ghost ms = moves@;
            let n = moves.len();
            let mut found = false;
            let mut i: usize = 0;
            while i < n && !found
                invariant
                    n == ms.len(),
                    moves@ == ms,
                    0 <= i <= n,
                    found ==> exists|k: int|
                        0 <= k < ms.len() && #[trigger] ms[k].target_x == x && ms[k].target_y == y,
                    !found ==> forall|k: int|
                        0 <= k < i ==> !(#[trigger] ms[k].target_x == x && ms[k].target_y == y),
                decreases n - i + if found { 0int } else { 1int },
            {
                let (tx, ty) = moves[i].target_pos();
                if tx == x && ty == y {
                    found = true;
                } else {
                    i = i + 1;
                }
            }
            if !found {
                self.selected_piece_index = self.piece_index_by_pos(x, y);
            }
        }
    }
}

/// Integer division rounding toward zero, for a positive divisor.
pub open spec fn div_toward_zero(a: int, b: int) -> int {
    if a >= 0 {
        a / b
    } else {
        -((-a) / b)
    }
}

/// The board square under the mouse, for a board of 8x8 unit squares
/// centred in the window with `pixels_per_unit` pixels to a unit. Rows
/// count upward from the bottom of the board; squares off the board come
/// out below 0 or above 7.
pub fn board_tile(mouse_position: (i32, i32), window_size: (u32, u32), pixels_per_unit: i32) -> (r: (
    i64,
    i64,
))
    requires
        pixels_per_unit > 0,
    ensures
        r.0 == div_toward_zero(
            4 * pixels_per_unit + mouse_position.0 - window_size.0 / 2,
            pixels_per_unit as int,
        ),
        r.1 == div_toward_zero(
            4 * pixels_per_unit - mouse_position.1 + window_size.1 / 2,
            pixels_per_unit as int,
        ),
{
    let ppu = pixels_per_unit as i64;
    let dx: i64 = 4 * ppu + mouse_position.0 as i64 - window_size.0 as i64 / 2;
    let dy: i64 = 4 * ppu - mouse_position.1 as i64 + window_size.1 as i64 / 2;
    let tx = if dx >= 0 {
        dx / ppu
    } else {
        -((-dx) / ppu)
    };
    let ty = if dy >= 0 {
        dy / ppu
    } else {
        -((-dy) / ppu)
    };
    (tx, ty)
}

/// When no living piece among the first `i` stands on `(x, y)` and piece
/// `i` does, piece `i` is the first on that square.
proof fn lemma_piece_at_prefix(s: Seq<Piece>, x: usize, y: usize, i: int)
    requires
        0 <= i < s.len(),
        piece_at(s.take(i), x, y) is None,
        s[i].alive && s[i].x == x && s[i].y == y,
    ensures
        piece_at(s, x, y) == Some(i),
    decreases s.len(),
{
    if s.len() == i + 1 {
        assert(s.drop_last() =~= s.take(i));
    } else {
        assert(s.drop_last().take(i) =~= s.take(i));
        lemma_piece_at_prefix(s.drop_last(), x, y, i);
    }
}

} // verus!
