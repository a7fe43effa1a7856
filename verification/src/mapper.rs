//! Coordinate mapping between flat character offsets of one immutable text
//! snapshot and (line, column) positions, where columns are counted in UTF-16
//! code units as the editor protocol mandates.

use vstd::prelude::*;
use vstd::string::StrSliceExecFns;

verus! {

/// The largest snapshot the mapper accepts, in characters: twice this length
/// (an upper bound on any column) still fits the machine's word.
pub const MAX_TEXT_LEN: usize = 0x3fff_ffff;

/// Width of one character in UTF-16 code units, the unit the editor protocol
/// mandates for column positions.
pub open spec fn utf16_width(c: char) -> nat {
    if c as u32 >= 0x10000 {
        2
    } else {
        1
    }
}

/// Executable counterpart of `utf16_width`.
pub fn char_utf16_width(c: char) -> (r: usize)
    ensures
        r == utf16_width(c),
{
    if c as u32 >= 0x10000 {
        2
    } else {
        1
    }
}

/// Width of one character in bytes of its UTF-8 encoding; structural errors
/// from the grammar carry byte spans, which are translated to character
/// offsets through this.
pub open spec fn utf8_width(c: char) -> nat {
    if (c as u32) < 0x80 {
        1
    } else if (c as u32) < 0x800 {
        2
    } else if (c as u32) < 0x10000 {
        3
    } else {
        4
    }
}

/// Executable counterpart of `utf8_width`.
pub fn char_utf8_width(c: char) -> (r: usize)
    ensures
        r == utf8_width(c),
{
    if (c as u32) < 0x80 {
        1
    } else if (c as u32) < 0x800 {
        2
    } else if (c as u32) < 0x10000 {
        3
    } else {
        4
    }
}

/// A protocol position: zero-based line, zero-based column in UTF-16 units.
#[derive(PartialEq, Eq, Structural, Clone, Copy, Debug)]
pub struct Position {
    pub line: usize,
    pub character: usize,
}

/// A half-open span of the document expressed as two positions.
#[derive(PartialEq, Eq, Structural, Clone, Copy, Debug)]
pub struct PositionRange {
    pub start: Position,
    pub end: Position,
}

/// The (line, column) of offset `o` in `text`: lines split at `'\n'`, the
/// column counts UTF-16 units since the start of the line.
pub open spec fn spec_line_col(text: Seq<char>, o: int) -> (int, int)
    decreases o,
{
    if o <= 0 {
        (0, 0)
    } else {
        let prev = spec_line_col(text, o - 1);
        if text[o - 1] == '\n' {
            (prev.0 + 1, 0)
        } else {
            (prev.0, prev.1 + utf16_width(text[o - 1]))
        }
    }
}

pub open spec fn spec_line_of(text: Seq<char>, o: int) -> int {
    spec_line_col(text, o).0
}

pub open spec fn spec_col_of(text: Seq<char>, o: int) -> int {
    spec_line_col(text, o).1
}

/// Start offset of the line that offset `o` lies on.
pub open spec fn spec_sol(text: Seq<char>, o: int) -> int
    decreases o,
{
    if o <= 0 {
        0
    } else if text[o - 1] == '\n' {
        o
    } else {
        spec_sol(text, o - 1)
    }
}

/// The first line-start offset strictly after scanning from `from`: one past
/// the next `'\n'`, or the end of the text if there is none.
pub open spec fn spec_next_line_start(text: Seq<char>, from: int) -> int
    decreases text.len() - from,
{
    if from < 0 || from >= text.len() {
        text.len() as int
    } else if text[from] == '\n' {
        from + 1
    } else {
        spec_next_line_start(text, from + 1)
    }
}

/// Start offset of line `line`, clamped to the end of the text for lines
/// past the last one.
pub open spec fn spec_line_start(text: Seq<char>, line: int) -> int
    decreases line,
{
    if line <= 0 {
        0
    } else {
        spec_next_line_start(text, spec_line_start(text, line - 1))
    }
}

/// Walk from `start` consuming `col` UTF-16 units, stopping at the end of the
/// line or of the text: the offset of column `col`, clamped to the line end.
pub open spec fn spec_offset_in_line(text: Seq<char>, start: int, col: int) -> int
    decreases text.len() - start,
{
    if start < 0 || start >= text.len() || text[start] == '\n' || col <= 0 {
        start
    } else {
        spec_offset_in_line(text, start + 1, col - utf16_width(text[start]))
    }
}

/// The offset of position (`line`, `col`), clamping an overlong line or
/// column to the nearest valid boundary.
pub open spec fn spec_position_to_offset(text: Seq<char>, line: int, col: int) -> int {
    spec_offset_in_line(text, spec_line_start(text, line), col)
}

/// Sum of UTF-16 widths of the characters of `text` in `[s, o)`.
pub open spec fn spec_wsum(text: Seq<char>, s: int, o: int) -> int
    decreases o - s,
{
    if s >= o {
        0
    } else {
        utf16_width(text[s]) + spec_wsum(text, s + 1, o)
    }
}

proof fn lemma_line_col_bounds(text: Seq<char>, o: int)
    requires
        0 <= o <= text.len(),
    ensures
        0 <= spec_line_col(text, o).0 <= o,
        0 <= spec_line_col(text, o).1 <= 2 * o,
    decreases o,
{
    if o > 0 {
        lemma_line_col_bounds(text, o - 1);
    }
}

proof fn lemma_sol_bounds(text: Seq<char>, o: int)
    requires
        0 <= o <= text.len(),
    ensures
        0 <= spec_sol(text, o) <= o,
        forall|k: int| spec_sol(text, o) <= k < o ==> text[k] != '\n',
    decreases o,
{
    if o > 0 {
        lemma_sol_bounds(text, o - 1);
    }
}

proof fn lemma_next_line_start_hit(text: Seq<char>, from: int, i: int)
    requires
        0 <= from <= i < text.len(),
        text[i] == '\n',
        forall|k: int| from <= k < i ==> text[k] != '\n',
    ensures
        spec_next_line_start(text, from) == i + 1,
    decreases i - from,
{
    if from < i {
        lemma_next_line_start_hit(text, from + 1, i);
    }
}

proof fn lemma_next_line_start_none(text: Seq<char>, from: int)
    requires
        0 <= from <= text.len(),
        forall|k: int| from <= k < text.len() ==> text[k] != '\n',
    ensures
        spec_next_line_start(text, from) == text.len(),
    decreases text.len() - from,
{
    if from < text.len() {
        lemma_next_line_start_none(text, from + 1);
    }
}

proof fn lemma_line_start_clamped(text: Seq<char>, l0: int, l1: int)
    requires
        0 <= l0 <= l1,
        spec_line_start(text, l0) == text.len(),
    ensures
        spec_line_start(text, l1) == text.len(),
    decreases l1 - l0,
{
    if l0 < l1 {
        assert(spec_line_start(text, l0 + 1) == spec_next_line_start(text, text.len() as int));
        lemma_line_start_clamped(text, l0 + 1, l1);
    }
}

/// The line-start table agrees with the line of each offset: looking up the
/// start of `o`'s line number yields the start of the line `o` lies on.
proof fn lemma_line_start_of_line(text: Seq<char>, o: int)
    requires
        0 <= o <= text.len(),
    ensures
        spec_line_start(text, spec_line_of(text, o)) == spec_sol(text, o),
    decreases o,
{
    if o > 0 {
        lemma_line_start_of_line(text, o - 1);
        lemma_sol_bounds(text, o - 1);
        lemma_line_col_bounds(text, o - 1);
        if text[o - 1] == '\n' {
            lemma_next_line_start_hit(text, spec_sol(text, o - 1), o - 1);
        }
    }
}

proof fn lemma_wsum_nonneg(text: Seq<char>, s: int, o: int)
    ensures
        spec_wsum(text, s, o) >= 0,
    decreases o - s,
{
    if s < o {
        lemma_wsum_nonneg(text, s + 1, o);
    }
}

proof fn lemma_wsum_snoc(text: Seq<char>, s: int, o: int)
    requires
        s <= o,
    ensures
        spec_wsum(text, s, o + 1) == spec_wsum(text, s, o) + utf16_width(text[o]),
    decreases o - s,
{
    if s < o {
        lemma_wsum_snoc(text, s + 1, o);
    } else {
        assert(spec_wsum(text, s + 1, o + 1) == 0);
        assert(spec_wsum(text, s, o) == 0);
    }
}

/// The column of an offset is the width sum from the start of its line.
proof fn lemma_col_is_wsum(text: Seq<char>, o: int)
    requires
        0 <= o <= text.len(),
    ensures
        spec_col_of(text, o) == spec_wsum(text, spec_sol(text, o), o),
    decreases o,
{
    if o > 0 {
        lemma_col_is_wsum(text, o - 1);
        lemma_sol_bounds(text, o - 1);
        if text[o - 1] != '\n' {
            lemma_wsum_snoc(text, spec_sol(text, o - 1), o - 1);
        }
    }
}

/// Walking the width sum of `[s, o)` from `s` lands exactly on `o`, provided
/// no line break lies strictly inside the span.
proof fn lemma_offset_in_line_wsum(text: Seq<char>, s: int, o: int)
    requires
        0 <= s <= o <= text.len(),
        forall|k: int| s <= k < o ==> text[k] != '\n',
    ensures
        spec_offset_in_line(text, s, spec_wsum(text, s, o)) == o,
    decreases o - s,
{
    if s < o {
        lemma_wsum_nonneg(text, s + 1, o);
        lemma_offset_in_line_wsum(text, s + 1, o);
    }
}

/// Round trip: translating any valid offset to a (line, column) position and
/// back yields the same offset, for every text and every offset in it.
pub proof fn lemma_offset_position_round_trip(text: Seq<char>, o: int)
    requires
        0 <= o <= text.len(),
    ensures
        spec_position_to_offset(text, spec_line_of(text, o), spec_col_of(text, o)) == o,
{
    lemma_line_start_of_line(text, o);
    lemma_col_is_wsum(text, o);
    lemma_sol_bounds(text, o);
    lemma_offset_in_line_wsum(text, spec_sol(text, o), o);
}

/// The character offset reached by consuming `b` bytes of UTF-8 starting at
/// character `i`, clamped to the end of the text; a byte offset inside one
/// character's encoding is rounded up to the next character boundary.
pub open spec fn spec_char_of_byte_from(text: Seq<char>, i: int, b: int) -> int
    decreases text.len() - i,
{
    if i < 0 || i >= text.len() || b <= 0 {
        i
    } else {
        spec_char_of_byte_from(text, i + 1, b - utf8_width(text[i]))
    }
}

/// The character offset of byte offset `b` into the UTF-8 encoding of `text`.
pub open spec fn spec_char_of_byte(text: Seq<char>, b: int) -> int {
    spec_char_of_byte_from(text, 0, b)
}

/// Converts between flat character offsets and protocol (line, column)
/// positions for one immutable text snapshot.
#[derive(Debug)]
pub struct Mapper {
    chars: Vec<char>,
}

impl View for Mapper {
    type V = Seq<char>;

    closed spec fn view(&self) -> Seq<char> {
        self.chars@
    }
}

impl Mapper {
    /// The snapshot is small enough that twice its length (an upper bound on
    /// any column) still fits the machine's word.
    pub closed spec fn wf(&self) -> bool {
        self.chars@.len() <= MAX_TEXT_LEN
    }

    /// Builds a mapper over the characters of `text`; linear in the text and
    /// reused by every handler operating on that snapshot.
    pub fn new(text: &str) -> (m: Mapper)
        requires
            text@.len() <= MAX_TEXT_LEN,
        ensures
            m@ == text@,
            m.wf(),
    {
        let n: usize = text.unicode_len();
        let mut chars: Vec<char> = Vec::new();
        let mut i: usize = 0;
        while i < n
            invariant
                n == text@.len(),
                n <= MAX_TEXT_LEN,
                i <= n,
                chars@ == text@.subrange(0, i as int),
            decreases n - i,
        {
            chars.push(text.get_char(i));
            proof {
                assert(text@.subrange(0, i as int).push(text@[i as int]) =~= text@.subrange(
                    0,
                    i as int + 1,
                ));
            }
            i = i + 1;
        }
        proof {
            assert(text@.subrange(0, n as int) =~= text@);
        }
        Mapper { chars }
    }

    /// Number of characters of the snapshot.
    pub fn len(&self) -> (n: usize)
        ensures
            n == self@.len(),
    {
        self.chars.len()
    }

    /// The position of `offset`, clamped to the end of the text for
    /// out-of-range offsets.
    pub fn offset_to_position(&self, offset: usize) -> (p: Position)
        requires
            self.wf(),
        ensures
            ({
                let o = if offset <= self@.len() {
                    offset as int
                } else {
                    self@.len() as int
                };
                p.line == spec_line_of(self@, o) && p.character == spec_col_of(self@, o)
            }),
    {
        let n: usize = self.chars.len();
        let off: usize = if offset < n {
            offset
        } else {
            n
        };
        let mut line: usize = 0;
        let mut col: usize = 0;
        let mut i: usize = 0;
        while i < off
            invariant
                i <= off <= n,
                n == self@.len() <= MAX_TEXT_LEN,
                line == spec_line_of(self@, i as int),
                col == spec_col_of(self@, i as int),
                line <= i,
                col <= 2 * i,
            decreases off - i,
        {
            let c = self.chars[i];
            if c == '\n' {
                line = line + 1;
                col = 0;
            } else {
                col = col + char_utf16_width(c);
            }
            i = i + 1;
        }
        Position { line, character: col }
    }

    /// The offset of `pos`, clamping an overlong column to its line's end and
    /// an overlong line number to the end of the text.
    pub fn position_to_offset(&self, pos: Position) -> (o: usize)
        requires
            self.wf(),
        ensures
            o == spec_position_to_offset(self@, pos.line as int, pos.character as int),
            o <= self@.len(),
    {
        let n: usize = self.chars.len();
        let mut l: usize = 0;
        let mut i: usize = 0;
        while l < pos.line && i < n
            invariant
                n == self@.len(),
                i <= n,
                l <= pos.line,
                0 <= spec_line_start(self@, l as int) <= i,
                forall|k: int| spec_line_start(self@, l as int) <= k < i ==> self@[k] != '\n',
                l == pos.line ==> i == spec_line_start(self@, l as int),
            decreases n - i,
        {
            let c = self.chars[i];
            if c == '\n' {
                proof {
                    lemma_next_line_start_hit(self@, spec_line_start(self@, l as int), i as int);
                }
                l = l + 1;
            }
            i = i + 1;
        }
        proof {
            if l < pos.line {
                lemma_next_line_start_none(self@, spec_line_start(self@, l as int));
                assert(spec_line_start(self@, l as int + 1) == self@.len());
                lemma_line_start_clamped(self@, l as int + 1, pos.line as int);
            }
            assert(i == spec_line_start(self@, pos.line as int));
        }
        let ghost target = spec_offset_in_line(self@, i as int, pos.character as int);
        let mut rem: usize = pos.character;
        let mut j: usize = i;
        while j < n && rem > 0 && self.chars[j] != '\n'
            invariant
                n == self@.len(),
                j <= n,
                spec_offset_in_line(self@, j as int, rem as int) == target,
            decreases n - j,
        {
            let w = char_utf16_width(self.chars[j]);
            proof {
                let ws = utf16_width(self@[j as int]);
                assert(spec_offset_in_line(self@, j as int, rem as int) == spec_offset_in_line(
                    self@,
                    j as int + 1,
                    rem as int - ws,
                ));
                if rem as int - ws <= 0 {
                    assert(spec_offset_in_line(self@, j as int + 1, rem as int - ws) == j as int
                        + 1);
                    assert(spec_offset_in_line(self@, j as int + 1, 0) == j as int + 1);
                }
            }
            j = j + 1;
            if rem > w {
                rem = rem - w;
            } else {
                rem = 0;
            }
        }
        j
    }

    /// The character offset of byte offset `b`, clamped to the end of the
    /// text; structural errors of the grammar carry byte spans.
    pub fn char_offset_of_byte(&self, b: usize) -> (o: usize)
        ensures
            o == spec_char_of_byte(self@, b as int),
            o <= self@.len(),
    {
        let n: usize = self.chars.len();
        let mut i: usize = 0;
        let mut rem: usize = b;
        while i < n && rem > 0
            invariant
                n == self@.len(),
                i <= n,
                spec_char_of_byte_from(self@, i as int, rem as int) == spec_char_of_byte(
                    self@,
                    b as int,
                ),
            decreases n - i,
        {
            let w = char_utf8_width(self.chars[i]);
            proof {
                let ws = utf8_width(self@[i as int]);
                assert(spec_char_of_byte_from(self@, i as int, rem as int)
                    == spec_char_of_byte_from(self@, i as int + 1, rem as int - ws));
                if rem as int - ws <= 0 {
                    assert(spec_char_of_byte_from(self@, i as int + 1, rem as int - ws) == i as int
                        + 1);
                    assert(spec_char_of_byte_from(self@, i as int + 1, 0) == i as int + 1);
                }
            }
            i = i + 1;
            if rem > w {
                rem = rem - w;
            } else {
                rem = 0;
            }
        }
        i
    }

    /// The span of the whole document as raw offsets: from zero to its length.
    pub fn whole_document_range(&self) -> (r: (usize, usize))
        ensures
            r.0 == 0,
            r.1 == self@.len(),
    {
        (0, self.chars.len())
    }

    /// The span of the whole document as positions, used by the formatter to
    /// express a full-text replacement.
    pub fn all_range(&self) -> (r: PositionRange)
        requires
            self.wf(),
        ensures
            r.start == (Position { line: 0, character: 0 }),
            r.end.line == spec_line_of(self@, self@.len() as int),
            r.end.character == spec_col_of(self@, self@.len() as int),
    {
        let end = self.offset_to_position(self.chars.len());
        PositionRange { start: Position { line: 0, character: 0 }, end }
    }
}

} // verus!
