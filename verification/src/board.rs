//! The board transcoder: a fixed board of 64 packed pieces, read from and
//! written back to an 8x8 block of display characters.
//!
//! The text form is 8 lines of exactly 8 characters, each line followed by one
//! line break. Parsing splits the input on line breaks and discards empty
//! lines, which tolerates a leading or trailing blank line; rendering always
//! emits the normalized form, with no leading blank line and a trailing line
//! break.

use vstd::prelude::*;
use vstd::string::StrSliceExecFns;
use crate::piece::{Piece, PieceColor, piece_wf, spec_decode, spec_encode};

verus! {

/// Why a board text has the wrong shape.
#[derive(Clone, Copy, Debug, PartialEq, Eq, Structural)]
pub enum MalformedReason {
    /// The text does not hold exactly 8 non-empty lines.
    WrongRowCount { got: usize },
    /// Row `row` (counted from 0) has `len` characters instead of 8.
    WrongRowLength { row: usize, len: usize },
}

/// A failure of the board transcoder.
#[derive(Clone, Copy, Debug, PartialEq, Eq, Structural)]
pub enum BoardError {
    /// The text has the wrong row count or a row of the wrong length.
    MalformedBoard { reason: MalformedReason },
    /// The character at `row`/`col` (counted from 0) is not recognized.
    UnrecognizedPieceChar { ch: char, row: usize, col: usize },
}

/// A chess board: exactly 64 packed pieces, indexed 0-63 in row-major order
/// from the top-left printed square.
#[derive(Debug)]
pub struct Board(Vec<Piece>);

impl View for Board {
    type V = Seq<u8>;

    closed spec fn view(&self) -> Seq<u8> {
        piece_bytes(self.0@)
    }
}

/// The packed bytes of a sequence of pieces.
pub open spec fn piece_bytes(ps: Seq<Piece>) -> Seq<u8> {
    Seq::new(ps.len(), |i: int| ps[i].0)
}

/// The character sequences of a sequence of character vectors.
pub open spec fn line_views(vs: Seq<Vec<char>>) -> Seq<Seq<char>> {
    Seq::new(vs.len(), |i: int| vs[i]@)
}

/// The segments of `t` between line-break characters: one more segment than
/// there are breaks, empty segments kept.
pub open spec fn spec_split(t: Seq<char>) -> Seq<Seq<char>>
    decreases t.len(),
{
    if t.len() == 0 {
        seq![Seq::<char>::empty()]
    } else if t.last() == '\n' {
        spec_split(t.drop_last()).push(Seq::<char>::empty())
    } else {
        let rest = spec_split(t.drop_last());
        rest.update(rest.len() - 1, rest.last().push(t.last()))
    }
}

/// The non-empty segments, in order.
pub open spec fn keep_nonempty(segs: Seq<Seq<char>>) -> Seq<Seq<char>>
    decreases segs.len(),
{
    if segs.len() == 0 {
        Seq::empty()
    } else {
        let rest = keep_nonempty(segs.drop_last());
        if segs.last().len() != 0 {
            rest.push(segs.last())
        } else {
            rest
        }
    }
}

/// The rows of a board text: its non-empty lines, in order.
pub open spec fn board_rows(t: Seq<char>) -> Seq<Seq<char>> {
    keep_nonempty(spec_split(t))
}

/// A row parses when it has exactly 8 characters, all recognized.
pub open spec fn row_ok(l: Seq<char>) -> bool {
    l.len() == 8 && (forall|j: int| 0 <= j < l.len() ==> spec_decode(#[trigger] l[j]) is Some)
}

/// A board text parses when it has exactly 8 non-empty lines and each parses.
pub open spec fn parse_ok(t: Seq<char>) -> bool {
    board_rows(t).len() == 8 && (forall|i: int|
        0 <= i < 8 ==> row_ok(#[trigger] board_rows(t)[i]))
}

/// The bytes a row of recognized characters decodes to.
pub open spec fn spec_decode_row(l: Seq<char>) -> Seq<u8>
    recommends
        forall|j: int| 0 <= j < l.len() ==> spec_decode(#[trigger] l[j]) is Some,
{
    Seq::new(l.len(), |j: int| spec_decode(l[j])->Some_0)
}

/// The bytes a sequence of parsed rows decodes to, in reading order.
pub open spec fn spec_board_bytes(rows: Seq<Seq<char>>) -> Seq<u8>
    decreases rows.len(),
{
    if rows.len() == 0 {
        Seq::empty()
    } else {
        spec_board_bytes(rows.drop_last()) + spec_decode_row(rows.last())
    }
}

/// The display characters of a row of well-formed packed bytes.
pub open spec fn encode_row(bs: Seq<u8>) -> Seq<char>
    recommends
        forall|j: int| 0 <= j < bs.len() ==> piece_wf(#[trigger] bs[j]),
{
    Seq::new(bs.len(), |j: int| spec_encode(bs[j]))
}

/// The text a board's bytes render to: each group of 8 bytes becomes a row of
/// 8 characters followed by one line break.
pub open spec fn spec_render(bs: Seq<u8>) -> Seq<char>
    decreases bs.len(),
{
    if bs.len() < 8 {
        Seq::empty()
    } else {
        spec_render(bs.take(bs.len() - 8)) + encode_row(bs.skip(bs.len() - 8)).push('\n')
    }
}

/// Rows joined back into a text, each row followed by one line break.
pub open spec fn spec_join_rows(rows: Seq<Seq<char>>) -> Seq<char>
    decreases rows.len(),
{
    if rows.len() == 0 {
        Seq::empty()
    } else {
        spec_join_rows(rows.drop_last()) + rows.last().push('\n')
    }
}

/// A board text is normalized when it is exactly its own non-empty lines,
/// each followed by one line break: no leading or trailing blank line.
pub open spec fn normalized(t: Seq<char>) -> bool {
    t == spec_join_rows(board_rows(t))
}

/// The first failure parsing `t` meets, checking the row count, then each row
/// in reading order: its length first, then its characters left to right.
pub open spec fn parse_error(t: Seq<char>, e: BoardError) -> bool {
    let rows = board_rows(t);
    match e {
        BoardError::MalformedBoard { reason } => match reason {
            MalformedReason::WrongRowCount { got } => rows.len() == got && got != 8,
            MalformedReason::WrongRowLength { row, len } => {
                &&& rows.len() == 8
                &&& row < 8
                &&& rows[row as int].len() == len
                &&& len != 8
                &&& forall|i: int| 0 <= i < row ==> row_ok(#[trigger] rows[i])
            },
        },
        BoardError::UnrecognizedPieceChar { ch, row, col } => {
            &&& rows.len() == 8
            &&& row < 8
            &&& rows[row as int].len() == 8
            &&& col < 8
            &&& forall|i: int| 0 <= i < row ==> row_ok(#[trigger] rows[i])
            &&& forall|j: int| 0 <= j < col ==> spec_decode(#[trigger] rows[row as int][j]) is Some
            &&& rows[row as int][col as int] == ch
            &&& spec_decode(ch) is None
        },
    }
}

/// Relies on `String`'s `FromIterator` impl for characters: collecting
/// characters yields a string whose characters are exactly those collected,
/// in order.
#[verifier::external_body]
fn string_from_chars(v: &Vec<char>) -> (s: String)
    ensures
        s@ == v@,
{
    v.iter().collect()
}

impl Board {
    /// A board is well formed when it holds exactly 64 well-formed pieces.
    pub open spec fn wf(self) -> bool {
        self@.len() == 64 && (forall|i: int| 0 <= i < 64 ==> piece_wf(#[trigger] self@[i]))
    }

    /// The piece on square `index`, row-major from the top-left.
    pub fn piece_at(&self, index: usize) -> (p: Piece)
        requires
            self.wf(),
            index < 64,
        ensures
            p.0 == self@[index as int],
            p.wf(),
    {
        self.0[index]
    }

    /// Whether the board holds exactly 64 well-formed pieces.
    pub fn is_well_formed(&self) -> (b: bool)
        ensures
            b == self.wf(),
    {
        if self.0.len() != 64 {
            return false;
        }
        let mut i: usize = 0;
        while i < 64
            invariant
                self.0@.len() == 64,
                i <= 64,
                forall|j: int| 0 <= j < i ==> piece_wf(#[trigger] self@[j]),
            decreases 64 - i,
        {
            let n = self.0[i].0;
            proof {
                assert(n & 0x7fu8 == n % 128) by (bit_vector);
            }
            if n & 0x7f > 6 {
                proof {
                    assert(self@[i as int] == n);
                }
                return false;
            }
            i += 1;
        }
        true
    }

    /// Reads a board from its text form: the non-empty lines must be exactly
    /// 8 rows of 8 recognized characters, decoded in reading order.
    pub fn from_string(s: &str) -> (r: Result<Board, BoardError>)
        ensures
            (r is Ok) == parse_ok(s@),
            r matches Ok(b) ==> b.wf() && b@ == spec_board_bytes(board_rows(s@)),
            r matches Err(e) ==> parse_error(s@, e),
    {
        let ghost t = s@;
        let n = s.unicode_len();

        // split into lines, dropping empty ones as they close
        let mut rows: Vec<Vec<char>> = Vec::new();
        let mut cur: Vec<char> = Vec::new();
        let ghost mut gdone: Seq<Seq<char>> = Seq::empty();
        let mut k: usize = 0;
        proof {
            assert(t.take(0) =~= Seq::<char>::empty());
            assert(gdone.push(cur@) =~= spec_split(t.take(0)));
        }
        while k < n
            invariant
                n == t.len(),
                t == s@,
                k <= n,
                gdone.push(cur@) == spec_split(t.take(k as int)),
                line_views(rows@) == keep_nonempty(gdone),
            decreases n - k,
        {
            let c = s.get_char(k);
            proof {
                assert(t.take(k + 1).drop_last() =~= t.take(k as int));
                assert(t.take(k + 1).last() == t[k as int]);
            }
            if c == '\n' {
                proof {
                    let done1 = gdone.push(cur@);
                    assert(spec_split(t.take(k + 1)) == done1.push(Seq::<char>::empty()));
                    assert(done1.push(Seq::<char>::empty()).drop_last() =~= done1);
                    assert(keep_nonempty(done1) == if cur@.len() != 0 {
                        keep_nonempty(gdone).push(cur@)
                    } else {
                        keep_nonempty(gdone)
                    }) by {
                        assert(done1.drop_last() =~= gdone);
                    }
                    gdone = done1;
                }
                if cur.len() > 0 {
                    let ghost rows_old = rows@;
                    rows.push(cur);
                    proof {
                        assert(line_views(rows@) =~= line_views(rows_old).push(cur@));
                    }
                }
                cur = Vec::new();
            } else {
                proof {
                    let rest = gdone.push(cur@);
                    assert(spec_split(t.take(k + 1)) == rest.update(
                        rest.len() - 1,
                        rest.last().push(t[k as int]),
                    ));
                    assert(rest.update(rest.len() - 1, rest.last().push(t[k as int])) =~= gdone.push(
                        cur@.push(t[k as int]),
                    ));
                }
                cur.push(c);
            }
            k += 1;
        }
        proof {
            assert(t.take(n as int) =~= t);
            let done1 = gdone.push(cur@);
            assert(keep_nonempty(done1) == if cur@.len() != 0 {
                keep_nonempty(gdone).push(cur@)
            } else {
                keep_nonempty(gdone)
            }) by {
                assert(done1.drop_last() =~= gdone);
            }
            gdone = done1;
        }
        if cur.len() > 0 {
            let ghost rows_old = rows@;
            rows.push(cur);
            proof {
                assert(line_views(rows@) =~= line_views(rows_old).push(cur@));
            }
        }
        proof {
            assert(line_views(rows@) == board_rows(t));
        }

        // the non-empty lines must be exactly 8 rows
        if rows.len() != 8 {
            return Err(
                BoardError::MalformedBoard {
                    reason: MalformedReason::WrongRowCount { got: rows.len() },
                },
            );
        }

        // decode the rows in reading order
        let mut pieces: Vec<Piece> = Vec::new();
        let mut i: usize = 0;
        proof {
            assert(piece_bytes(pieces@) =~= spec_board_bytes(board_rows(t).take(0)));
        }
        while i < 8
            invariant
                t == s@,
                line_views(rows@) == board_rows(t),
                rows@.len() == 8,
                i <= 8,
                pieces@.len() == 8 * i,
                forall|i2: int| 0 <= i2 < i ==> row_ok(#[trigger] board_rows(t)[i2]),
                forall|j: int| 0 <= j < pieces@.len() ==> piece_wf(#[trigger] pieces@[j].0),
                piece_bytes(pieces@) == spec_board_bytes(board_rows(t).take(i as int)),
            decreases 8 - i,
        {
            let row = &rows[i];
            let ghost lrow = board_rows(t)[i as int];
            proof {
                assert(row@ == lrow);
            }
            if row.len() != 8 {
                return Err(
                    BoardError::MalformedBoard {
                        reason: MalformedReason::WrongRowLength { row: i, len: row.len() },
                    },
                );
            }
            let mut j: usize = 0;
            while j < 8
                invariant
                    t == s@,
                    row@ == lrow,
                    board_rows(t).len() == 8,
                    lrow == board_rows(t)[i as int],
                    i < 8,
                    lrow.len() == 8,
                    j <= 8,
                    pieces@.len() == 8 * i + j,
                    forall|i2: int| 0 <= i2 < i ==> row_ok(#[trigger] board_rows(t)[i2]),
                    forall|j2: int| 0 <= j2 < j ==> spec_decode(#[trigger] lrow[j2]) is Some,
                    forall|j2: int| 0 <= j2 < pieces@.len() ==> piece_wf(
                        #[trigger] pieces@[j2].0,
                    ),
                    piece_bytes(pieces@) == spec_board_bytes(board_rows(t).take(i as int))
                        + spec_decode_row(lrow.take(j as int)),
                decreases 8 - j,
            {
                let c = row[j];
                match Piece::from_char(c) {
                    Ok(p) => {
                        let ghost pieces_old = pieces@;
                        pieces.push(p);
                        proof {
                            assert(piece_bytes(pieces@) =~= piece_bytes(pieces_old).push(p.0));
                            assert(spec_decode_row(lrow.take(j + 1)) =~= spec_decode_row(
                                lrow.take(j as int),
                            ).push(spec_decode(lrow[j as int])->Some_0));
                        }
                    },
                    Err(_) => {
                        return Err(BoardError::UnrecognizedPieceChar { ch: c, row: i, col: j });
                    },
                }
                j += 1;
            }
            proof {
                assert(lrow.take(8) =~= lrow);
                assert(row_ok(lrow));
                let rows_t = board_rows(t);
                assert(rows_t.take(i + 1).drop_last() =~= rows_t.take(i as int));
                assert(rows_t.take(i + 1).last() == lrow);
                assert(spec_board_bytes(rows_t.take(i + 1)) == spec_board_bytes(
                    rows_t.take(i as int),
                ) + spec_decode_row(lrow));
            }
            i += 1;
        }
        proof {
            assert(board_rows(t).take(8) =~= board_rows(t));
        }
        let board = Board(pieces);
        proof {
            assert(board.wf());
        }
        Ok(board)
    }

    /// Writes a board back to its text form: 8 rows of 8 characters, each
    /// followed by one line break. Rendering a well-formed board cannot fail.
    pub fn to_string(board: Board) -> (r: String)
        requires
            board.wf(),
        ensures
            r@ == spec_render(board@),
    {
        let ghost bs = board@;
        let Board(pieces) = board;
        let mut out: Vec<char> = Vec::new();
        let mut i: usize = 0;
        proof {
            assert(bs.take(0) =~= Seq::<u8>::empty());
            assert(out@ =~= spec_render(bs.take(0)));
        }
        while i < 8
            invariant
                pieces@.len() == 64,
                bs == piece_bytes(pieces@),
                bs.len() == 64,
                forall|j: int| 0 <= j < 64 ==> piece_wf(#[trigger] bs[j]),
                i <= 8,
                out@ == spec_render(bs.take(8 * i as int)),
            decreases 8 - i,
        {
            let mut j: usize = 0;
            while j < 8
                invariant
                    pieces@.len() == 64,
                    bs == piece_bytes(pieces@),
                    bs.len() == 64,
                    forall|j2: int| 0 <= j2 < 64 ==> piece_wf(#[trigger] bs[j2]),
                    i < 8,
                    j <= 8,
                    out@ == spec_render(bs.take(8 * i as int)) + encode_row(
                        bs.subrange(8 * i as int, 8 * i as int + j),
                    ),
                decreases 8 - j,
            {
                let p = pieces[8 * i + j];
                proof {
                    assert(p.0 == bs[8 * i + j]);
                }
                let c = p.to_char().unwrap();
                out.push(c);
                proof {
                    assert(encode_row(bs.subrange(8 * i as int, 8 * i + j + 1)) =~= encode_row(
                        bs.subrange(8 * i as int, 8 * i + j),
                    ).push(spec_encode(bs[8 * i + j])));
                }
                j += 1;
            }
            out.push('\n');
            proof {
                let hi = 8 * (i + 1);
                assert(bs.take(hi).take(hi - 8) =~= bs.take(8 * i as int));
                assert(bs.take(hi).skip(hi - 8) =~= bs.subrange(8 * i as int, 8 * i + 8));
                assert(out@ =~= spec_render(bs.take(hi - 8)) + encode_row(
                    bs.take(hi).skip(hi - 8),
                ).push('\n'));
                assert(out@ == spec_render(bs.take(hi)));
            }
            i += 1;
        }
        proof {
            assert(bs.take(64) =~= bs);
        }
        string_from_chars(&out)
    }

    /// The display color of square `index`, row-major from the top-left: the
    /// checkerboard pattern that empty squares show, where the top-left
    /// square is dark.
    pub fn square_color(index: usize) -> (c: PieceColor)
        requires
            index < 64,
        ensures
            c == spec_square_color(index as int),
    {
        let row = index / 8;
        let col = index % 8;
        if (row + col) % 2 == 1 {
            PieceColor::White
        } else {
            PieceColor::Dark
        }
    }
}

/// The checkerboard color of square `i`, row-major from the top-left; the
/// top-left square is dark.
pub open spec fn spec_square_color(i: int) -> PieceColor {
    if (i / 8 + i % 8) % 2 == 1 {
        PieceColor::White
    } else {
        PieceColor::Dark
    }
}

/// The decoded bytes of parsed rows are well formed and 8 per row.
proof fn lemma_board_bytes_shape(rows: Seq<Seq<char>>)
    requires
        forall|i: int| 0 <= i < rows.len() ==> row_ok(#[trigger] rows[i]),
    ensures
        spec_board_bytes(rows).len() == 8 * rows.len(),
    decreases rows.len(),
{
    if rows.len() > 0 {
        lemma_board_bytes_shape(rows.drop_last());
    }
}

/// Rendering the bytes that parsed rows decode to joins the rows back.
proof fn lemma_render_rows(rows: Seq<Seq<char>>)
    requires
        forall|i: int| 0 <= i < rows.len() ==> row_ok(#[trigger] rows[i]),
    ensures
        spec_render(spec_board_bytes(rows)) == spec_join_rows(rows),
    decreases rows.len(),
{
    if rows.len() == 0 {
        assert(spec_render(spec_board_bytes(rows)) =~= Seq::<char>::empty());
    } else {
        let front = rows.drop_last();
        let last = rows.last();
        lemma_board_bytes_shape(front);
        lemma_render_rows(front);
        let bs = spec_board_bytes(rows);
        assert(bs.len() == 8 * front.len() + 8) by {
            lemma_board_bytes_shape(rows);
        }
        assert(bs.take(bs.len() - 8) =~= spec_board_bytes(front));
        assert(bs.skip(bs.len() - 8) =~= spec_decode_row(last));
        assert forall|j: int| 0 <= j < last.len() implies encode_row(spec_decode_row(last))[j]
            == last[j] by {
            crate::piece::lemma_encode_of_decode(last[j]);
        }
        assert(encode_row(spec_decode_row(last)) =~= last);
    }
}

/// Law: rendering a parsed board reproduces the input text, for any
/// normalized text the parser accepts.
pub proof fn lemma_parse_render_round_trip(t: Seq<char>)
    requires
        parse_ok(t),
        normalized(t),
    ensures
        spec_render(spec_board_bytes(board_rows(t))) == t,
{
    lemma_render_rows(board_rows(t));
}

} // verus!
