use crate::domain::buffer::Buffer;
use crate::text::{column_of, lemma_index_in_line, line_count, line_len, line_of, line_start};
use vstd::prelude::*;

verus! {

/// A line and column in a buffer, both counted in chars from 0.
#[derive(Clone, Copy, Debug, PartialEq, Eq, Hash, Structural)]
pub struct Position {
    pub line: usize,
    pub column: usize,
}

impl Position {
    pub fn new(line: usize, column: usize) -> (p: Self)
        ensures
            p.line == line,
            p.column == column,
    {
        Self { line, column }
    }

    /// The line and column of char index `char_idx` in `buffer`.
    pub fn from_char_index(buffer: &Buffer, char_idx: usize) -> (p: Self)
        requires
            char_idx <= buffer@.len(),
        ensures
            p.line == line_of(buffer@, char_idx as int),
            p.column == column_of(buffer@, char_idx as int),
    {
        let (line, col) = buffer.char_to_line_col(char_idx);
        Self::new(line, col)
    }

    /// The char index of this position in `buffer`, when the line exists and
    /// the column is at most its length.
    pub fn to_char_index(self, buffer: &Buffer) -> (r: Option<usize>)
        ensures
            r is Some <==> self.line < line_count(buffer@) && self.column <= line_len(
                buffer@,
                self.line as int,
            ),
            r matches Some(i) ==> i == line_start(buffer@, self.line as int) + self.column,
    {
        buffer.line_col_to_char(self.line, self.column)
    }
}

impl Default for Position {
    fn default() -> (p: Self)
        ensures
            p.line == 0,
            p.column == 0,
    {
        Self::new(0, 0)
    }
}

/// The position of a char index leads back to that index: for every index
/// from 0 to the length of the text, `to_char_index(from_char_index(i))` is
/// `Some(i)`.
pub proof fn law_position_round_trip(text: Seq<char>, i: int)
    requires
        0 <= i <= text.len(),
    ensures
        ({
            let line = line_of(text, i) as int;
            let column = column_of(text, i);
            &&& line < line_count(text)
            &&& 0 <= column <= line_len(text, line)
            &&& line_start(text, line) + column == i
        }),
{
    lemma_index_in_line(text, i);
}

} // verus!
