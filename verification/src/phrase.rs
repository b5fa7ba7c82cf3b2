//! Lines of text in which quantities stand as such, to be put into words where they are
//! shown.
use crate::text::{first_part, to_first_part};
use crate::time::Timestamp;
use vstd::prelude::*;

verus! {

/// A stretch of a line.
#[derive(Debug, PartialEq, Eq)]
pub enum Piece {
    Words(String),
    /// A number of bytes.
    Size(u64),
    /// A change in bytes per second.
    Rate(i64),
    /// A part in percent of a whole that is not zero, with one decimal.
    Percent { part: u64, whole: u64 },
    /// A part in whole percent of a whole; none of a whole that is zero.
    Share { part: u64, whole: u64 },
    /// How many times a base that is not zero a count is, with one decimal.
    Times { count: u64, base: u64 },
    /// How long ago something was observed.
    Age(Timestamp),
    /// A number of tokens, in a few characters.
    Tokens(u64),
    /// The time that some samples cover, with the nanoseconds between two of them.
    Window { samples: usize, interval: u64 },
    /// What is known of the server's runtime.
    Runtime,
}

/// The content of a [`Piece`].
pub enum PieceModel {
    Words(Seq<char>),
    Size(u64),
    Rate(i64),
    Percent { part: u64, whole: u64 },
    Share { part: u64, whole: u64 },
    Times { count: u64, base: u64 },
    Age(Timestamp),
    Tokens(u64),
    Window { samples: usize, interval: u64 },
    Runtime,
}

impl DeepView for Piece {
    type V = PieceModel;

    open spec fn deep_view(&self) -> PieceModel {
        match self {
            Piece::Words(text) => PieceModel::Words(text@),
            Piece::Size(n) => PieceModel::Size(*n),
            Piece::Rate(n) => PieceModel::Rate(*n),
            Piece::Percent { part, whole } => PieceModel::Percent { part: *part, whole: *whole },
            Piece::Share { part, whole } => PieceModel::Share { part: *part, whole: *whole },
            Piece::Times { count, base } => PieceModel::Times { count: *count, base: *base },
            Piece::Age(at) => PieceModel::Age(*at),
            Piece::Tokens(n) => PieceModel::Tokens(*n),
            Piece::Window { samples, interval } => PieceModel::Window {
                samples: *samples,
                interval: *interval,
            },
            Piece::Runtime => PieceModel::Runtime,
        }
    }
}

/// A line of words alone.
pub open spec fn plain(words: Seq<char>) -> Seq<PieceModel> {
    seq![PieceModel::Words(words)]
}

/// A line without pieces.
pub fn blank() -> (r: Vec<Piece>)
    ensures
        r.deep_view() == Seq::<PieceModel>::empty(),
{
    let r: Vec<Piece> = Vec::new();
    assert(r.deep_view() =~= Seq::empty());
    r
}

/// Appends a piece to a line.
pub fn push_piece(line: &mut Vec<Piece>, piece: Piece)
    ensures
        final(line).deep_view() == old(line).deep_view().push(piece.deep_view()),
{
    let ghost before = line.deep_view();
    line.push(piece);
    assert(line.deep_view() =~= before.push(piece.deep_view()));
}

/// Appends words to a line.
pub fn push_words(line: &mut Vec<Piece>, words: &str)
    ensures
        final(line).deep_view() == old(line).deep_view().push(PieceModel::Words(words@)),
{
    push_piece(line, Piece::Words(words.to_owned()));
}

/// A line of words alone.
pub fn plain_line(words: &str) -> (r: Vec<Piece>)
    ensures
        r.deep_view() == plain(words@),
{
    let mut line = blank();
    push_words(&mut line, words);
    assert(line.deep_view() =~= plain(words@));
    line
}

/// The part before the first dot of a line that begins with words; nothing, where it
/// begins otherwise.
pub open spec fn opening(line: Seq<PieceModel>) -> Seq<PieceModel> {
    if line.len() > 0 {
        match line[0] {
            PieceModel::Words(words) => plain(first_part(words)),
            _ => Seq::empty(),
        }
    } else {
        Seq::empty()
    }
}

/// The part before the first dot of a line that begins with words.
pub fn to_opening(line: &Vec<Piece>) -> (r: Vec<Piece>)
    ensures
        r.deep_view() == opening(line.deep_view()),
{
    if line.len() > 0 {
        assert(line.deep_view()[0] == line@[0].deep_view());
        match &line[0] {
            Piece::Words(words) => plain_line(to_first_part(words.as_str()).as_str()),
            _ => blank(),
        }
    } else {
        blank()
    }
}

/// A line after another.
pub fn joined(line: Vec<Piece>, rest: Vec<Piece>) -> (r: Vec<Piece>)
    ensures
        r.deep_view() == line.deep_view() + rest.deep_view(),
{
    let ghost a = line.deep_view();
    let ghost b = rest.deep_view();
    let mut line = line;
    let mut rest = rest;
    line.append(&mut rest);
    assert(line.deep_view() =~= a + b);
    line
}

} // verus!
