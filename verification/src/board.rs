use vstd::prelude::*;
use vstd::math::max;
use vstd::math::min;
use crate::actor::Action;
use crate::piece::Piece;
use crate::point::Point;
use crate::side::Side;

verus! {

/// One cell of the grid: at most one piece, plus a transient highlight
/// flag that only the interactive display reads.
#[derive(Debug, Clone, Copy)]
pub struct BoardState {
    pub piece: Option<Piece>,
    pub highlighted: bool,
}

/// The playing field: a `width` x `height` grid of cells, stored
/// column-first, so `state[x][y]` is the cell at column `x`, row `y`.
#[derive(Debug)]
pub struct Board {
    pub width: u8,
    pub height: u8,
    pub state: Vec<Vec<BoardState>>,
}

/// The position of `p` among the origins of a legal-move map, if it has
/// one: how an interactive front end validates a selected origin.
pub fn map_find(all_moves: &Vec<(Point, Vec<Point>)>, p: Point) -> (r: Option<usize>)
    ensures
        (r matches Some(i) ==> i < all_moves@.len() && (all_moves@[i as int]).0 == p),
        (r is None ==> forall|i: int| 0 <= i < all_moves@.len() ==> (#[trigger] all_moves@[i]).0
            != p),
{
    let mut i: usize = 0;
    while i < all_moves.len()
        invariant
            i <= all_moves@.len(),
            forall|k: int| 0 <= k < i as int ==> (#[trigger] all_moves@[k]).0 != p,
        decreases all_moves@.len() - i as int,
    {
        if all_moves[i].0 == p {
            return Some(i);
        }
        i += 1;
    }
    None
}

/// Whether `p` is one of the points in `points`: how an interactive front
/// end validates a selected destination.
pub fn contains_point(points: &Vec<Point>, p: Point) -> (r: bool)
    ensures
        r == points@.contains(p),
{
    let mut i: usize = 0;
    while i < points.len()
        invariant
            i <= points@.len(),
            forall|k: int| 0 <= k < i as int ==> points@[k] != p,
        decreases points@.len() - i as int,
    {
        if points[i] == p {
            return true;
        }
        i += 1;
    }
    false
}

impl Clone for Board {
    /// A deep copy of the grid: every simulation owns its own board, so
    /// concurrent play-outs never share state.
    #[verifier::loop_isolation(false)]
    fn clone(&self) -> (res: Board)
        ensures
            res.width == self.width,
            res.height == self.height,
            res.state@.len() == self.state@.len(),
            forall|x: int|
                0 <= x < self.state@.len() ==> (#[trigger] res.state@[x])@ == self.state@[x]@,
            self.wf() ==> res.wf(),
    {
        let mut state: Vec<Vec<BoardState>> = Vec::new();
        let mut x: usize = 0;
        while x < self.state.len()
            invariant
                x <= self.state@.len(),
                state@.len() == x as int,
                forall|i: int|
                    0 <= i < x as int ==> (#[trigger] state@[i])@ == self.state@[i]@,
            decreases self.state@.len() - x as int,
        {
            let mut column: Vec<BoardState> = Vec::new();
            let mut y: usize = 0;
            while y < self.state[x].len()
                invariant
                    x < self.state@.len(),
                    y <= self.state@[x as int]@.len(),
                    column@.len() == y as int,
                    forall|j: int|
                        0 <= j < y as int ==> #[trigger] column@[j] == self.state@[x as int]@[j],
                decreases self.state@[x as int]@.len() - y as int,
            {
                column.push(self.state[x][y]);
                y += 1;
            }
            proof {
                assert(column@ =~= self.state@[x as int]@);
            }
            state.push(column);
            x += 1;
        }
        Board { width: self.width, height: self.height, state }
    }
}

/// The distance between two coordinates.
pub open spec fn diff(a: int, b: int) -> int {
    if a >= b {
        a - b
    } else {
        b - a
    }
}

/// `from` and `to` lie on a common diagonal: the distance between their
/// columns equals the distance between their rows.
pub open spec fn diagonal(from: Point, to: Point) -> bool {
    diff(from.x as int, to.x as int) == diff(from.y as int, to.y as int)
}

/// A crowned piece may move along either diagonal direction; an uncrowned
/// one only toward the far edge of its side (increasing `y` for Red,
/// decreasing `y` for Blue).
pub open spec fn direction_ok(piece: Piece, from: Point, to: Point) -> bool {
    ||| piece.crowned
    ||| (match piece.side {
        Side::Red => from.y <= to.y,
        Side::Blue => from.y >= to.y,
    })
}

/// The piece that the starting layout puts in the cell at column `x`,
/// row `y`: uncrowned Red pieces on the dark squares of the three lowest
/// rows, uncrowned Blue pieces on the dark squares of the three highest
/// rows (Red wins any overlap on boards shorter than six rows), nothing
/// anywhere else. A square is dark when its coordinates share a parity.
pub open spec fn initial_piece(height: u8, x: int, y: int) -> Option<Piece> {
    if x % 2 == y % 2 {
        if y <= 2 {
            Some(Piece { side: Side::Red, crowned: false })
        } else if y >= height - 3 {
            Some(Piece { side: Side::Blue, crowned: false })
        } else {
            None
        }
    } else {
        None
    }
}

/// The capture sweep of `action` examines the cell at (`x`, `y`): the cell
/// lies in the rectangle spanned by the move's two endpoints (at or after
/// the smaller endpoint coordinate and strictly before the larger one, on
/// both axes) and sits at equal distances from the move's origin on both
/// axes.
pub open spec fn in_capture_span(action: Action, x: int, y: int) -> bool {
    let fx = action.from.x as int;
    let fy = action.from.y as int;
    let tx = action.to.x as int;
    let ty = action.to.y as int;
    &&& min(fx, tx) <= x < max(fx, tx)
    &&& min(fy, ty) <= y < max(fy, ty)
    &&& diff(fx, x) == diff(fy, y)
}

/// (`x`, `y`) lies strictly between `a` and `b` on their common diagonal:
/// strictly inside the rectangle the two points span, at equal distances
/// from `a` on both axes.
pub open spec fn strictly_between(a: Point, b: Point, x: int, y: int) -> bool {
    &&& min(a.x as int, b.x as int) < x < max(a.x as int, b.x as int)
    &&& min(a.y as int, b.y as int) < y < max(a.y as int, b.y as int)
    &&& diff(a.x as int, x) == diff(a.y as int, y)
}

/// On a diagonal move, the cells the capture sweep examines, apart from
/// the move's own two endpoints, are exactly the cells strictly between
/// origin and destination on the move's diagonal.
pub proof fn lemma_capture_span_strictly_between(action: Action, x: int, y: int)
    requires
        diagonal(action.from, action.to),
        action.from != action.to,
    ensures
        (in_capture_span(action, x, y) && !(x == action.from.x as int && y == action.from.y as int)
            && !(x == action.to.x as int && y == action.to.y as int)) <==> strictly_between(
            action.from,
            action.to,
            x,
            y,
        ),
{
    let fx = action.from.x as int;
    let fy = action.from.y as int;
    let tx = action.to.x as int;
    let ty = action.to.y as int;
    let d = diff(fx, tx);
    assert(d > 0);
    if in_capture_span(action, x, y) && !(x == fx && y == fy) && !(x == tx && y == ty) {
        if x == fx {
            assert(diff(fy, y) == 0);
            assert(false);
        }
        if x == tx {
            assert(diff(fx, x) == d);
            assert(y == fy - d || y == fy + d);
            assert(false);
        }
        assert(min(fx, tx) < x < max(fx, tx));
        let t = diff(fx, x);
        assert(0 < t < d);
        assert(y == fy - t || y == fy + t);
        if ty > fy {
            assert(y != fy - t);
        } else {
            assert(y != fy + t);
        }
        assert(min(fy, ty) < y < max(fy, ty));
    }
    if strictly_between(action.from, action.to, x, y) {
        assert(in_capture_span(action, x, y));
        assert(x != fx || y != fy);
        assert(x != tx || y != ty);
    }
}

/// The sweep over the rectangle `[sx, bx) x [sy, by)` has already visited
/// (`i`, `j`) when it stands at column `cx`, row `cy`.
spec fn swept(sx: int, sy: int, by: int, cx: int, cy: int, i: int, j: int) -> bool {
    (sx <= i < cx && sy <= j < by) || (i == cx && sy <= j < cy)
}

/// `a` comes before `b` in the column-first scan of the grid.
pub open spec fn scan_lt(a: Point, b: Point) -> bool {
    a.x < b.x || (a.x == b.x && a.y < b.y)
}

/// `p` comes strictly before the scan position (`x`, `y`).
spec fn scan_before(p: Point, x: int, y: int) -> bool {
    p.x < x || (p.x == x && p.y < y)
}

/// Every cell of `col` below `height` holds the starting layout of column `x`.
spec fn initial_column(col: Vec<BoardState>, x: int, height: u8) -> bool {
    &&& col@.len() == height as int
    &&& forall|y: int|
        0 <= y < height as int ==> #[trigger] col@[y] == (BoardState {
            piece: initial_piece(height, x, y),
            highlighted: false,
        })
}

impl Board {
    /// The grid really is `width` columns of `height` cells each.
    pub open spec fn wf(self) -> bool {
        &&& self.state@.len() == self.width as int
        &&& forall|x: int|
            0 <= x < self.state@.len() ==> (#[trigger] self.state@[x])@.len()
                == self.height as int
    }

    /// The cell at column `x`, row `y`.
    pub open spec fn cell(self, x: int, y: int) -> BoardState {
        self.state@[x]@[y]
    }

    /// The piece (if any) standing on column `x`, row `y`.
    pub open spec fn piece_at(self, x: int, y: int) -> Option<Piece> {
        self.cell(x, y).piece
    }

    pub open spec fn in_bounds(self, p: Point) -> bool {
        p.x < self.width && p.y < self.height
    }

    /// `to` is a legal destination for `piece` standing on `from`: on the
    /// board, on a common diagonal with `from` at any distance, currently
    /// empty, and not backward for an uncrowned piece. Cells between
    /// `from` and `to` are not inspected: any empty terminal cell on the
    /// diagonal is reachable regardless of what stands in between.
    pub open spec fn legal_dest(self, piece: Piece, from: Point, to: Point) -> bool {
        &&& self.in_bounds(to)
        &&& diagonal(from, to)
        &&& direction_ok(piece, from, to)
        &&& self.piece_at(to.x as int, to.y as int) is None
    }

    /// Builds a board with the starting layout described at `initial_piece`.
    pub fn new(width: u8, height: u8) -> (board: Board)
        requires
            height >= 3,
        ensures
            board.wf(),
            board.width == width,
            board.height == height,
            forall|x: int, y: int|
                0 <= x < width && 0 <= y < height ==> #[trigger] board.cell(x, y) == (BoardState {
                    piece: initial_piece(height, x, y),
                    highlighted: false,
                }),
    {
        let mut state: Vec<Vec<BoardState>> = Vec::new();
        let mut x: u8 = 0;
        while x < width
            invariant
                x <= width,
                height >= 3,
                state@.len() == x as int,
                forall|i: int| 0 <= i < x as int ==> initial_column(#[trigger] state@[i], i, height),
            decreases width as int - x as int,
        {
            let mut column: Vec<BoardState> = Vec::new();
            let mut y: u8 = 0;
            while y < height
                invariant
                    y <= height,
                    height >= 3,
                    column@.len() == y as int,
                    forall|j: int|
                        0 <= j < y as int ==> #[trigger] column@[j] == (BoardState {
                            piece: initial_piece(height, x as int, j),
                            highlighted: false,
                        }),
                decreases height as int - y as int,
            {
                let piece: Option<Piece>;
                if (x % 2) == (y % 2) {
                    if y <= 2 {
                        piece = Some(Piece { side: Side::Red, crowned: false });
                    } else if y >= height - 3 {
                        piece = Some(Piece { side: Side::Blue, crowned: false });
                    } else {
                        piece = None;
                    }
                } else {
                    piece = None;
                }
                column.push(BoardState { piece, highlighted: false });
                y += 1;
            }
            state.push(column);
            x += 1;
        }
        Board { width, height, state }
    }

    /// The side of the piece that `action` moves.
    pub open spec fn mover_side(self, action: Action) -> Side {
        self.piece_at(action.from.x as int, action.from.y as int).unwrap().side
    }

    /// The piece as it lands on `action.to`: it keeps its side, and it is
    /// crowned if it already was, or if `action.to.y` is the far edge row
    /// for its side (the top row for Red, row zero for Blue).
    pub open spec fn moved_piece(self, action: Action) -> Piece {
        let p = self.piece_at(action.from.x as int, action.from.y as int).unwrap();
        Piece {
            side: p.side,
            crowned: p.crowned || (p.side == Side::Red && action.to.y == self.height - 1) || (
            p.side == Side::Blue && action.to.y == 0),
        }
    }

    /// The capture sweep of `action` clears the cell at (`x`, `y`): the
    /// sweep examines it, and it holds a piece opposing the mover.
    pub open spec fn captured(self, action: Action, x: int, y: int) -> bool {
        &&& in_capture_span(action, x, y)
        &&& self.mover_side(action).spec_piece_is_hostile(self.piece_at(x, y))
    }

    /// How `post` relates to `pre` after `action` is executed: the moved
    /// piece (crowned per `moved_piece`) stands on the destination, the
    /// origin is empty, every captured cell is cleared, every other cell
    /// keeps its piece, and no highlight flag changes.
    pub open spec fn apply_result(pre: Board, action: Action, post: Board) -> bool {
        &&& post.wf()
        &&& post.width == pre.width
        &&& post.height == pre.height
        &&& post.piece_at(action.to.x as int, action.to.y as int) == Some(
            pre.moved_piece(action),
        )
        &&& post.piece_at(action.from.x as int, action.from.y as int) is None
        &&& forall|x: int, y: int|
            0 <= x < pre.width as int && 0 <= y < pre.height as int && !(x == action.from.x as int
                && y == action.from.y as int) && !(x == action.to.x as int && y == action.to.y
                as int) ==> #[trigger] post.piece_at(x, y) == (if pre.captured(action, x, y) {
                Option::<Piece>::None
            } else {
                pre.piece_at(x, y)
            })
        &&& forall|x: int, y: int|
            0 <= x < pre.width as int && 0 <= y < pre.height as int ==> #[trigger] post.cell(
                x,
                y,
            ).highlighted == pre.cell(x, y).highlighted
    }

    /// After a diagonal move, every opposing piece strictly between the
    /// move's origin and destination is removed, and every cell in that
    /// span holding a friendly piece is left untouched.
    pub proof fn lemma_apply_captures(pre: Board, action: Action, post: Board, x: int, y: int)
        requires
            Board::apply_result(pre, action, post),
            diagonal(action.from, action.to),
            action.from != action.to,
            0 <= x < pre.width as int,
            0 <= y < pre.height as int,
            strictly_between(action.from, action.to, x, y),
        ensures
            pre.mover_side(action).spec_piece_is_hostile(pre.piece_at(x, y)) ==> post.piece_at(
                x,
                y,
            ) is None,
            pre.mover_side(action).spec_piece_is_friendly(pre.piece_at(x, y)) ==> post.piece_at(
                x,
                y,
            ) == pre.piece_at(x, y),
    {
        lemma_capture_span_strictly_between(action, x, y);
    }

    /// Replaces the piece in one cell, leaving every other cell and the
    /// cell's own highlight flag alone.
    fn set_piece(&mut self, x: u8, y: u8, piece: Option<Piece>)
        requires
            old(self).wf(),
            x < old(self).width,
            y < old(self).height,
        ensures
            final(self).wf(),
            final(self).width == old(self).width,
            final(self).height == old(self).height,
            final(self).cell(x as int, y as int) == (BoardState {
                piece,
                highlighted: old(self).cell(x as int, y as int).highlighted,
            }),
            forall|i: int, j: int|
                0 <= i < old(self).width as int && 0 <= j < old(self).height as int && !(i == x
                    as int && j == y as int) ==> #[trigger] final(self).cell(i, j) == old(
                    self,
                ).cell(i, j),
    {
        let highlighted = self.state[x as usize][y as usize].highlighted;
        let column = &mut self.state[x as usize];
        column[y as usize] = BoardState { piece, highlighted };
    }

    /// Executes one move as a single atomic step: lifts the piece off
    /// `action.from`, puts it down on `action.to` (crowned per
    /// `moved_piece`), and removes every opposing piece in the capture
    /// span of the move. Friendly pieces in the span are left untouched,
    /// and pieces between origin and destination never block the move.
    #[verifier::loop_isolation(false)]
    pub fn do_action(&mut self, action: &Action)
        requires
            old(self).wf(),
            old(self).in_bounds(action.from),
            old(self).in_bounds(action.to),
            old(self).piece_at(action.from.x as int, action.from.y as int) is Some,
            action.from != action.to,
        ensures
            Board::apply_result(*old(self), *action, *final(self)),
    {
        let from_piece = self.state[action.from.x as usize][action.from.y as usize].piece.unwrap();

        // Crown the piece, if applicable
        let crowned = if from_piece.crowned {
            true
        } else {
            (from_piece.side == Side::Red && action.to.y == self.height - 1) || (from_piece.side
                == Side::Blue && action.to.y == 0)
        };

        // Actually move the piece
        self.set_piece(action.from.x, action.from.y, None);
        self.set_piece(action.to.x, action.to.y, Some(Piece { side: from_piece.side, crowned }));

        // The rectangle that the capture sweep walks
        let smaller_x = if action.from.x > action.to.x {
            action.to.x
        } else {
            action.from.x
        };
        let bigger_x = if action.from.x > action.to.x {
            action.from.x
        } else {
            action.to.x
        };
        let smaller_y = if action.from.y > action.to.y {
            action.to.y
        } else {
            action.from.y
        };
        let bigger_y = if action.from.y > action.to.y {
            action.from.y
        } else {
            action.to.y
        };

        // Remove enemy pieces between source and destination
        let mut x: u8 = smaller_x;
        while x < bigger_x
            invariant
                smaller_x <= x <= bigger_x,
                self.wf(),
                self.width == old(self).width,
                self.height == old(self).height,
                self.piece_at(action.to.x as int, action.to.y as int) == Some(
                    old(self).moved_piece(*action),
                ),
                self.piece_at(action.from.x as int, action.from.y as int) is None,
                forall|i: int, j: int|
                    0 <= i < old(self).width as int && 0 <= j < old(self).height as int && !(i
                        == action.from.x as int && j == action.from.y as int) && !(i
                        == action.to.x as int && j == action.to.y as int)
                        ==> #[trigger] self.piece_at(i, j) == (if swept(
                        smaller_x as int,
                        smaller_y as int,
                        bigger_y as int,
                        x as int,
                        smaller_y as int,
                        i,
                        j,
                    ) && old(self).captured(*action, i, j) {
                        Option::<Piece>::None
                    } else {
                        old(self).piece_at(i, j)
                    }),
                forall|i: int, j: int|
                    0 <= i < old(self).width as int && 0 <= j < old(self).height as int
                        ==> #[trigger] self.cell(i, j).highlighted == old(self).cell(
                        i,
                        j,
                    ).highlighted,
            decreases bigger_x as int - x as int,
        {
            let mut y: u8 = smaller_y;
            while y < bigger_y
                invariant
                    smaller_x <= x < bigger_x,
                    smaller_y <= y <= bigger_y,
                    self.wf(),
                    self.width == old(self).width,
                    self.height == old(self).height,
                    self.piece_at(action.to.x as int, action.to.y as int) == Some(
                        old(self).moved_piece(*action),
                    ),
                    self.piece_at(action.from.x as int, action.from.y as int) is None,
                    forall|i: int, j: int|
                        0 <= i < old(self).width as int && 0 <= j < old(self).height as int && !(i
                            == action.from.x as int && j == action.from.y as int) && !(i
                            == action.to.x as int && j == action.to.y as int)
                            ==> #[trigger] self.piece_at(i, j) == (if swept(
                            smaller_x as int,
                            smaller_y as int,
                            bigger_y as int,
                            x as int,
                            y as int,
                            i,
                            j,
                        ) && old(self).captured(*action, i, j) {
                            Option::<Piece>::None
                        } else {
                            old(self).piece_at(i, j)
                        }),
                    forall|i: int, j: int|
                        0 <= i < old(self).width as int && 0 <= j < old(self).height as int
                            ==> #[trigger] self.cell(i, j).highlighted == old(self).cell(
                            i,
                            j,
                        ).highlighted,
                decreases bigger_y as int - y as int,
            {
                let dx = if action.from.x >= x {
                    action.from.x - x
                } else {
                    x - action.from.x
                };
                let dy = if action.from.y >= y {
                    action.from.y - y
                } else {
                    y - action.from.y
                };
                let hostile = from_piece.side.piece_is_hostile(
                    &self.state[x as usize][y as usize].piece,
                );
                let ghost pre = *self;
                if dx == dy {
                    if hostile {
                        self.set_piece(x, y, None);
                    }
                }
                proof {
                    let sx = smaller_x as int;
                    let sy = smaller_y as int;
                    let by = bigger_y as int;
                    let cx = x as int;
                    let cy = y as int;
                    assert forall|i: int, j: int|
                        0 <= i < old(self).width as int && 0 <= j < old(self).height as int && !(i
                            == action.from.x as int && j == action.from.y as int) && !(i
                            == action.to.x as int && j == action.to.y as int) implies #[trigger] self.piece_at(
                        i,
                        j,
                    ) == (if swept(sx, sy, by, cx, cy + 1, i, j) && old(self).captured(
                        *action,
                        i,
                        j,
                    ) {
                        Option::<Piece>::None
                    } else {
                        old(self).piece_at(i, j)
                    }) by {
                        if i == cx && j == cy {
                            assert(!swept(sx, sy, by, cx, cy, i, j));
                            assert(pre.piece_at(i, j) == old(self).piece_at(i, j));
                            assert((dx == dy) == (diff(action.from.x as int, i) == diff(
                                action.from.y as int,
                                j,
                            )));
                            if dx == dy && hostile {
                                assert(self.piece_at(i, j) is None);
                                assert(old(self).captured(*action, i, j));
                            } else {
                                assert(self.piece_at(i, j) == pre.piece_at(i, j));
                                assert(!(swept(sx, sy, by, cx, cy + 1, i, j) && old(
                                    self,
                                ).captured(*action, i, j)));
                            }
                        } else {
                            assert(self.piece_at(i, j) == pre.piece_at(i, j));
                            assert(swept(sx, sy, by, cx, cy + 1, i, j) == swept(
                                sx,
                                sy,
                                by,
                                cx,
                                cy,
                                i,
                                j,
                            ));
                        }
                    }
                }
                y += 1;
            }
            proof {
                let sx = smaller_x as int;
                let sy = smaller_y as int;
                let by = bigger_y as int;
                assert forall|i: int, j: int| true implies swept(
                    sx,
                    sy,
                    by,
                    x as int + 1,
                    sy,
                    i,
                    j,
                ) == swept(sx, sy, by, x as int, by, i, j) by {}
            }
            x += 1;
        }
    }

    /// Every legal destination for `piece` standing on `acting_piece`, in
    /// column-first scan order of the grid.
    pub fn valid_moves(&self, acting_piece: &Point, piece: Piece) -> (moves: Vec<Point>)
        requires
            self.wf(),
        ensures
            forall|i: int|
                0 <= i < moves@.len() ==> self.legal_dest(piece, *acting_piece, #[trigger] moves@[i]),
            forall|p: Point| self.legal_dest(piece, *acting_piece, p) ==> moves@.contains(p),
            forall|i: int, j: int| 0 <= i < j < moves@.len() ==> scan_lt(moves@[i], moves@[j]),
    {
        let mut moves: Vec<Point> = Vec::new();
        let mut x: u8 = 0;
        while x < self.width
            invariant
                self.wf(),
                x <= self.width,
                forall|i: int|
                    0 <= i < moves@.len() ==> self.legal_dest(
                        piece,
                        *acting_piece,
                        #[trigger] moves@[i],
                    ),
                forall|p: Point|
                    self.legal_dest(piece, *acting_piece, p) && scan_before(p, x as int, 0)
                        ==> moves@.contains(p),
                forall|i: int|
                    0 <= i < moves@.len() ==> scan_before(#[trigger] moves@[i], x as int, 0),
                forall|i: int, j: int| 0 <= i < j < moves@.len() ==> scan_lt(moves@[i], moves@[j]),
            decreases self.width as int - x as int,
        {
            let mut y: u8 = 0;
            while y < self.height
                invariant
                    self.wf(),
                    x < self.width,
                    y <= self.height,
                    forall|i: int|
                        0 <= i < moves@.len() ==> self.legal_dest(
                            piece,
                            *acting_piece,
                            #[trigger] moves@[i],
                        ),
                    forall|p: Point|
                        self.legal_dest(piece, *acting_piece, p) && scan_before(
                            p,
                            x as int,
                            y as int,
                        ) ==> moves@.contains(p),
                    forall|i: int|
                        0 <= i < moves@.len() ==> scan_before(#[trigger] moves@[i], x as int, y as int),
                    forall|i: int, j: int|
                        0 <= i < j < moves@.len() ==> scan_lt(moves@[i], moves@[j]),
                decreases self.height as int - y as int,
            {
                let to = Point { x, y };
                let dx = if acting_piece.x >= x {
                    acting_piece.x - x
                } else {
                    x - acting_piece.x
                };
                let dy = if acting_piece.y >= y {
                    acting_piece.y - y
                } else {
                    y - acting_piece.y
                };
                let forward = piece.crowned || (match piece.side {
                    Side::Red => acting_piece.y <= y,
                    Side::Blue => acting_piece.y >= y,
                });
                let empty = self.state[x as usize][y as usize].piece.is_none();
                let ghost pre_moves = moves@;
                if dx == dy && forward && empty {
                    moves.push(to);
                }
                proof {
                    if dx == dy && forward && empty {
                        assert(moves@ == pre_moves.push(to));
                        assert(moves@[moves@.len() - 1] == to);
                        assert(moves@.contains(to));
                        assert forall|p: Point| pre_moves.contains(p) implies moves@.contains(
                            p,
                        ) by {
                            let i = choose|i: int|
                                0 <= i < pre_moves.len() && pre_moves[i] == p;
                            assert(moves@[i] == p);
                        }
                    } else {
                        assert(!self.legal_dest(piece, *acting_piece, to));
                    }
                    assert forall|p: Point|
                        self.legal_dest(piece, *acting_piece, p) && scan_before(
                            p,
                            x as int,
                            y as int + 1,
                        ) implies moves@.contains(p) by {
                        if scan_before(p, x as int, y as int) {
                            assert(pre_moves.contains(p));
                        } else {
                            assert(p == to);
                        }
                    }
                }
                y += 1;
            }
            proof {
                assert forall|p: Point|
                    self.legal_dest(piece, *acting_piece, p) && scan_before(p, x as int + 1, 0)
                    implies moves@.contains(p) by {
                    assert(scan_before(p, x as int, self.height as int));
                }
            }
            x += 1;
        }
        moves
    }

    /// The piece standing on `origin`, for contracts about map entries.
    pub open spec fn piece_on(self, origin: Point) -> Piece {
        self.piece_at(origin.x as int, origin.y as int).unwrap()
    }

    /// A sound entry of the legal-move map for `side`: `origin` holds a
    /// friendly piece, and `dests` lists exactly its legal destinations,
    /// in column-first scan order, at least one of them.
    pub open spec fn entry_ok(self, side: Side, origin: Point, dests: Seq<Point>) -> bool {
        &&& self.in_bounds(origin)
        &&& side.spec_piece_is_friendly(self.piece_at(origin.x as int, origin.y as int))
        &&& dests.len() > 0
        &&& forall|k: int|
            0 <= k < dests.len() ==> self.legal_dest(
                self.piece_on(origin),
                origin,
                #[trigger] dests[k],
            )
        &&& forall|q: Point| self.legal_dest(self.piece_on(origin), origin, q) ==> dests.contains(q)
        &&& forall|k1: int, k2: int| 0 <= k1 < k2 < dests.len() ==> scan_lt(dests[k1], dests[k2])
    }

    /// `a` is drawn from `side`'s legal-move map on this board: a
    /// friendly piece stands on its origin, and its destination is legal
    /// for that piece.
    pub open spec fn is_legal_action(self, side: Side, a: Action) -> bool {
        &&& self.in_bounds(a.from)
        &&& side.spec_piece_is_friendly(self.piece_at(a.from.x as int, a.from.y as int))
        &&& self.legal_dest(self.piece_on(a.from), a.from, a.to)
    }

    /// `side` has a piece on `p` with at least one legal destination.
    pub open spec fn has_move_from(self, side: Side, p: Point) -> bool {
        &&& self.in_bounds(p)
        &&& side.spec_piece_is_friendly(self.piece_at(p.x as int, p.y as int))
        &&& exists|q: Point| self.legal_dest(self.piece_on(p), p, q)
    }

    /// `side` can move at all. A side for which this fails has lost.
    pub open spec fn side_has_move(self, side: Side) -> bool {
        exists|p: Point| self.has_move_from(side, p)
    }

    /// `m` is the complete legal-move map of `side`: every entry is sound,
    /// every point the side can move from appears, and origins come in
    /// column-first scan order (which also makes them unique).
    pub open spec fn is_move_map(self, side: Side, m: Seq<(Point, Vec<Point>)>) -> bool {
        &&& forall|i: int| 0 <= i < m.len() ==> self.entry_ok(side, (#[trigger] m[i]).0, m[i].1@)
        &&& forall|p: Point|
            self.has_move_from(side, p) ==> exists|i: int|
                0 <= i < m.len() && (#[trigger] m[i]).0 == p
        &&& forall|i: int, j: int| 0 <= i < j < m.len() ==> scan_lt(m[i].0, m[j].0)
    }

    /// The legal-move map is empty exactly when the side cannot move.
    pub proof fn lemma_move_map_empty(self, side: Side, m: Seq<(Point, Vec<Point>)>)
        requires
            self.is_move_map(side, m),
        ensures
            m.len() == 0 <==> !self.side_has_move(side),
    {
        if m.len() > 0 {
            let origin = m[0].0;
            assert(self.entry_ok(side, origin, m[0].1@));
            assert(self.legal_dest(self.piece_on(origin), origin, m[0].1@[0]));
            assert(self.has_move_from(side, origin));
        } else {
            if self.side_has_move(side) {
                let p = choose|p: Point| self.has_move_from(side, p);
                assert(exists|i: int| 0 <= i < m.len() && (#[trigger] m[i]).0 == p);
            }
        }
    }

    /// The legal-move map for `side`: each cell holding a friendly piece
    /// with at least one legal destination, paired with its destinations,
    /// in column-first scan order of the origins.
    #[verifier::loop_isolation(false)]
    pub fn get_all_moves(&self, side: Side) -> (all_moves: Vec<(Point, Vec<Point>)>)
        requires
            self.wf(),
        ensures
            self.is_move_map(side, all_moves@),
    {
        let mut all_moves: Vec<(Point, Vec<Point>)> = Vec::new();
        let mut x: u8 = 0;
        while x < self.width
            invariant
                x <= self.width,
                forall|i: int|
                    0 <= i < all_moves@.len() ==> self.entry_ok(
                        side,
                        (#[trigger] all_moves@[i]).0,
                        all_moves@[i].1@,
                    ),
                forall|p: Point|
                    self.has_move_from(side, p) && scan_before(p, x as int, 0) ==> exists|i: int|
                        0 <= i < all_moves@.len() && (#[trigger] all_moves@[i]).0 == p,
                forall|i: int|
                    0 <= i < all_moves@.len() ==> scan_before(
                        (#[trigger] all_moves@[i]).0,
                        x as int,
                        0,
                    ),
                forall|i: int, j: int|
                    0 <= i < j < all_moves@.len() ==> scan_lt(all_moves@[i].0, all_moves@[j].0),
            decreases self.width as int - x as int,
        {
            let mut y: u8 = 0;
            while y < self.height
                invariant
                    x < self.width,
                    y <= self.height,
                    forall|i: int|
                        0 <= i < all_moves@.len() ==> self.entry_ok(
                            side,
                            (#[trigger] all_moves@[i]).0,
                            all_moves@[i].1@,
                        ),
                    forall|p: Point|
                        self.has_move_from(side, p) && scan_before(p, x as int, y as int)
                            ==> exists|i: int|
                            0 <= i < all_moves@.len() && (#[trigger] all_moves@[i]).0 == p,
                    forall|i: int|
                        0 <= i < all_moves@.len() ==> scan_before(
                            (#[trigger] all_moves@[i]).0,
                            x as int,
                            y as int,
                        ),
                    forall|i: int, j: int|
                        0 <= i < j < all_moves@.len() ==> scan_lt(all_moves@[i].0, all_moves@[j].0),
                decreases self.height as int - y as int,
            {
                let origin = Point { x, y };
                let piece = self.state[x as usize][y as usize].piece;
                let ghost pre = all_moves@;
                if side.piece_is_friendly(&piece) {
                    let moves = self.valid_moves(&origin, piece.unwrap());
                    let ghost mseq = moves@;
                    if moves.len() != 0 {
                        all_moves.push((origin, moves));
                        proof {
                            assert(all_moves@[all_moves@.len() - 1].0 == origin);
                            assert(all_moves@[all_moves@.len() - 1].1@ == mseq);
                            assert(self.entry_ok(side, origin, mseq));
                            assert forall|p: Point|
                                self.has_move_from(side, p) && scan_before(
                                    p,
                                    x as int,
                                    y as int + 1,
                                ) implies exists|i: int|
                                0 <= i < all_moves@.len() && (#[trigger] all_moves@[i]).0 == p by {
                                if scan_before(p, x as int, y as int) {
                                    let i = choose|i: int|
                                        0 <= i < pre.len() && (#[trigger] pre[i]).0 == p;
                                    assert(0 <= i < all_moves@.len() && all_moves@[i].0 == p);
                                } else {
                                    assert(p == origin);
                                    assert(all_moves@[all_moves@.len() - 1].0 == p);
                                }
                            }
                        }
                    } else {
                        proof {
                            assert forall|p: Point|
                                self.has_move_from(side, p) && scan_before(
                                    p,
                                    x as int,
                                    y as int + 1,
                                ) implies exists|i: int|
                                0 <= i < all_moves@.len() && (#[trigger] all_moves@[i]).0 == p by {
                                if !scan_before(p, x as int, y as int) {
                                    assert(p == origin);
                                    let q = choose|q: Point|
                                        self.legal_dest(self.piece_on(p), p, q);
                                    assert(mseq.contains(q));
                                    assert(false);
                                }
                            }
                        }
                    }
                } else {
                    proof {
                        assert forall|p: Point|
                            self.has_move_from(side, p) && scan_before(p, x as int, y as int + 1)
                            implies exists|i: int|
                            0 <= i < all_moves@.len() && (#[trigger] all_moves@[i]).0 == p by {
                            if !scan_before(p, x as int, y as int) {
                                assert(p == origin);
                                assert(false);
                            }
                        }
                    }
                }
                y += 1;
            }
            proof {
                assert forall|p: Point|
                    self.has_move_from(side, p) && scan_before(p, x as int + 1, 0)
                    implies scan_before(p, x as int, self.height as int) by {}
            }
            x += 1;
        }
        all_moves
    }
}

} // verus!
