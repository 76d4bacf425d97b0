use vstd::prelude::*;

use crate::category::Category;
use crate::state::TeXState;
use crate::token::{chars_of_str, Token, TokenView};

verus! {

#[derive(Debug, PartialEq, Eq, Clone, Copy, Structural)]
pub enum LexState {
    BeginningLine,
    MiddleLine,
    SkippingBlanks,
}

#[derive(Debug, PartialEq, Eq, Clone, Copy, Structural)]
pub enum PlainLexResult {
    Eof,
    Eol,
    Char(char),
}

/// What makes lexing fail.
#[derive(Debug, PartialEq, Eq, Clone, Copy, Structural)]
pub enum LexError {
    /// A character of category "invalid".
    InvalidCharacter(char),
    /// An escape character at the end of a line or of the input.
    EndInControlSequence,
    /// A `^^` trigraph whose character cannot be shifted by 64 within a byte.
    TrigraphOverflow,
}

/// Turns lines of text into TeX tokens, the way TeX's eyes and mouth do.
pub struct Lexer {
    source: Vec<Vec<char>>,
    row: usize,
    col: usize,
    state: LexState,
}

pub struct LexerView {
    pub source: Seq<Seq<char>>,
    pub row: int,
    pub col: int,
    pub state: LexState,
}

impl View for Lexer {
    type V = LexerView;

    closed spec fn view(&self) -> LexerView {
        LexerView {
            source: self.source@.map_values(|l: Vec<char>| l@),
            row: self.row as int,
            col: self.col as int,
            state: self.state,
        }
    }
}

/// Every line ends with the end-of-line character, and the position lies
/// within the text.
pub open spec fn lexer_wf(l: LexerView) -> bool {
    &&& forall|r: int|
        0 <= r < l.source.len() ==> (#[trigger] l.source[r]).len() >= 1 && l.source[r].last()
            == '\n'
    &&& 0 <= l.row <= l.source.len()
    &&& l.row < l.source.len() ==> 0 <= l.col <= l.source[l.row].len()
    &&& l.row == l.source.len() ==> l.col == 0
}

/// How many characters and line ends are left from row `from` on.
pub open spec fn rows_size(source: Seq<Seq<char>>, from: int) -> int
    decreases source.len() - from,
{
    if from >= source.len() || from < 0 {
        0
    } else {
        source[from].len() + 1 + rows_size(source, from + 1)
    }
}

/// How much input is left to read.
pub open spec fn remaining(l: LexerView) -> int {
    rows_size(l.source, l.row) - l.col
}

proof fn lemma_rows_size_nonneg(source: Seq<Seq<char>>, from: int)
    ensures
        rows_size(source, from) >= 0,
    decreases source.len() - from,
{
    if from < source.len() && from >= 0 {
        lemma_rows_size_nonneg(source, from + 1);
    }
}

/// A lexer within its text has a non-negative amount of input left.
pub proof fn lemma_remaining_nonneg(l: LexerView)
    requires
        lexer_wf(l),
    ensures
        remaining(l) >= 0,
{
    lemma_rows_size_nonneg(l.source, l.row);
    if l.row < l.source.len() {
        lemma_rows_size_nonneg(l.source, l.row + 1);
    }
}

proof fn lemma_rows_size_mono(source: Seq<Seq<char>>, a: int, b: int)
    requires
        0 <= a < b,
    ensures
        rows_size(source, b) <= rows_size(source, a + 1),
    decreases b - a,
{
    if b > a + 1 {
        lemma_rows_size_mono(source, a, b - 1);
        lemma_rows_size_nonneg(source, b);
        if b - 1 < source.len() {
            assert(rows_size(source, b - 1) == source[b - 1].len() + 1 + rows_size(source, b));
        }
    }
}

/// Later positions have less input left.
pub proof fn lemma_remaining_decreases(a: LexerView, b: LexerView)
    requires
        lexer_wf(a),
        lexer_wf(b),
        a.source == b.source,
        a.row < b.row || (a.row == b.row && a.col < b.col),
    ensures
        0 <= remaining(b) < remaining(a),
{
    lemma_rows_size_nonneg(a.source, a.row);
    lemma_rows_size_nonneg(b.source, b.row);
    if b.row < b.source.len() {
        lemma_rows_size_nonneg(b.source, b.row + 1);
    }
    if a.row < b.row {
        lemma_rows_size_mono(a.source, a.row, b.row);
        lemma_rows_size_nonneg(a.source, a.row + 1);
    }
}

pub open spec fn spec_get_plain_char(l: LexerView) -> (PlainLexResult, LexerView) {
    if l.row >= l.source.len() {
        (PlainLexResult::Eof, l)
    } else if l.col >= l.source[l.row].len() {
        (PlainLexResult::Eol, LexerView { row: l.row + 1, col: 0, ..l })
    } else {
        (PlainLexResult::Char(l.source[l.row][l.col]), LexerView { col: l.col + 1, ..l })
    }
}

pub open spec fn spec_unget(l: LexerView, r: PlainLexResult) -> LexerView {
    match r {
        PlainLexResult::Char(_) => LexerView { col: l.col - 1, ..l },
        PlainLexResult::Eol => LexerView { row: l.row - 1, col: l.source[l.row - 1].len() - 1, ..l },
        PlainLexResult::Eof => l,
    }
}

pub open spec fn is_hex_char(ch: char) -> bool {
    ('0' <= ch <= '9') || ('a' <= ch <= 'f')
}

pub open spec fn hex_value(ch: char) -> int {
    if '0' <= ch <= '9' {
        ch as int - '0' as int
    } else {
        ch as int - 'a' as int + 10
    }
}

/// The character `^^c` stands for, or `None` where computing it overflows a
/// byte.
pub open spec fn shifted_char(c: char) -> Option<char> {
    if c <= '?' {
        Some(((c as u8) + 0x40) as char)
    } else if (c as u8) >= 0x40 {
        Some(((c as u8) - 0x40) as char)
    } else {
        None
    }
}

/// A position in the row of `l`, after at least one character of that row.
pub open spec fn trigraph_measure(l: LexerView) -> int {
    if 0 <= l.row < l.source.len() {
        l.source[l.row].len() - l.col
    } else {
        0
    }
}

/// Reads the rest of a `^^` trigraph, if `first` starts one, after `first`
/// was read; trigraphs may produce further trigraphs.
pub open spec fn spec_handle_trigraphs(l: LexerView, first: char, cat: spec_fn(char) -> Category) -> (
    Result<PlainLexResult, LexError>,
    LexerView,
)
    decreases trigraph_measure(l),
{
    if cat(first) != Category::Superscript {
        (Ok(PlainLexResult::Char(first)), l)
    } else {
        let (r2, l2) = spec_get_plain_char(l);
        match r2 {
            PlainLexResult::Char(c2) => if cat(c2) != Category::Superscript {
                (Ok(PlainLexResult::Char(first)), spec_unget(l2, r2))
            } else {
                let (r3, l3) = spec_get_plain_char(l2);
                match r3 {
                    PlainLexResult::Char(c3) => {
                        let (r4, l4) = spec_get_plain_char(l3);
                        match r4 {
                            PlainLexResult::Char(c4) => if is_hex_char(c3) && is_hex_char(c4) {
                                if trigraph_measure(l4) < trigraph_measure(l) && trigraph_measure(l4) >= 0 {
                                    spec_handle_trigraphs(
                                        l4,
                                        ((hex_value(c3) * 16 + hex_value(c4)) as u8) as char,
                                        cat,
                                    )
                                } else {
                                    (Ok(PlainLexResult::Char(first)), l4)
                                }
                            } else {
                                let l5 = spec_unget(l4, r4);
                                match shifted_char(c3) {
                                    Some(c) => if trigraph_measure(l5) < trigraph_measure(l)
                                        && trigraph_measure(l5) >= 0 {
                                        spec_handle_trigraphs(l5, c, cat)
                                    } else {
                                        (Ok(PlainLexResult::Char(first)), l5)
                                    },
                                    None => (Err(LexError::TrigraphOverflow), l5),
                                }
                            },
                            _ => {
                                let l5 = spec_unget(l4, r4);
                                match shifted_char(c3) {
                                    Some(c) => if trigraph_measure(l5) < trigraph_measure(l)
                                        && trigraph_measure(l5) >= 0 {
                                        spec_handle_trigraphs(l5, c, cat)
                                    } else {
                                        (Ok(PlainLexResult::Char(first)), l5)
                                    },
                                    None => (Err(LexError::TrigraphOverflow), l5),
                                }
                            },
                        }
                    },
                    _ => (
                        Ok(PlainLexResult::Char(first)),
                        spec_unget(spec_unget(l3, r3), r2),
                    ),
                }
            },
            _ => (Ok(PlainLexResult::Char(first)), spec_unget(l2, r2)),
        }
    }
}


fn is_hex(ch: char) -> (b: bool)
    ensures
        b == is_hex_char(ch),
{
    ('0' <= ch && ch <= '9') || ('a' <= ch && ch <= 'f')
}

fn hex_digit_value(ch: char) -> (v: u8)
    requires
        is_hex_char(ch),
    ensures
        v == hex_value(ch),
        v < 16,
{
    if '0' <= ch && ch <= '9' {
        (ch as u8) - ('0' as u8)
    } else {
        (ch as u8) - ('a' as u8) + 10
    }
}

fn shift_char(c: char) -> (r: Option<char>)
    ensures
        r == shifted_char(c),
{
    if c <= '?' {
        Some(((c as u8) + 0x40) as char)
    } else if (c as u8) >= 0x40 {
        Some(((c as u8) - 0x40) as char)
    } else {
        None
    }
}

impl Lexer {
    pub closed spec fn wf(&self) -> bool {
        &&& lexer_wf(self@)
        &&& self.source@.len() == self@.source.len()
    }

    /// A well-formed lexer lies within its text.
    pub proof fn lemma_wf(&self)
        requires
            self.wf(),
        ensures
            lexer_wf(self@),
            remaining(self@) >= 0,
    {
        lemma_remaining_nonneg(self@);
    }

    /// A lexer at the start of the given lines; each line gets an
    /// end-of-line character at its end.
    pub fn new(lines: &[&str]) -> (lexer: Lexer)
        ensures
            lexer.wf(),
            lexer@.source == Seq::new(lines@.len(), |i: int| lines@[i]@.push('\n')),
            lexer@.row == 0,
            lexer@.col == 0,
            lexer@.state == LexState::BeginningLine,
    {
        let mut source: Vec<Vec<char>> = Vec::new();
        let mut i: usize = 0;
        while i < lines.len()
            invariant
                i <= lines.len(),
                source.len() == i,
                forall|j: int| 0 <= j < i ==> (#[trigger] source@[j])@ == lines@[j]@.push('\n'),
            decreases lines.len() - i,
        {
            let mut line = chars_of_str(lines[i]);
            line.push('\n');
            source.push(line);
            i = i + 1;
        }
        let lexer = Lexer { source, row: 0, col: 0, state: LexState::BeginningLine };
        assert(lexer@.source =~= Seq::new(lines@.len(), |i: int| lines@[i]@.push('\n')));
        lexer
    }

    fn get_plain_char(&mut self) -> (r: PlainLexResult)
        requires
            old(self).wf(),
        ensures
            final(self).wf(),
            (r, final(self)@) == spec_get_plain_char(old(self)@),
    {
        if self.row == self.source.len() {
            return PlainLexResult::Eof;
        }
        let len = self.source[self.row].len();
        if self.col == len {
            self.row = self.row + 1;
            self.col = 0;
            assert(self@.source == old(self)@.source);
            return PlainLexResult::Eol;
        }
        let ch = self.source[self.row][self.col];
        self.col = self.col + 1;
        assert(self@.source == old(self)@.source);
        PlainLexResult::Char(ch)
    }

    fn unget_plain_char(&mut self, ch: &PlainLexResult)
        requires
            old(self).wf(),
            *ch matches PlainLexResult::Char(_) ==> old(self)@.col >= 1 && old(self)@.row < old(
                self,
            )@.source.len(),
            *ch is Eol ==> old(self)@.row >= 1,
        ensures
            final(self).wf(),
            final(self)@ == spec_unget(old(self)@, *ch),
    {
        match ch {
            PlainLexResult::Char(_) => {
                self.col = self.col - 1;
            },
            PlainLexResult::Eol => {
                self.row = self.row - 1;
                self.col = self.source[self.row].len() - 1;
            },
            PlainLexResult::Eof => {},
        }
        assert(self@.source == old(self)@.source);
    }
}


impl TeXState {
    /// The category table, as a function.
    pub open spec fn category_fn(&self) -> spec_fn(char) -> Category {
        |c: char| self.category_value(c)
    }
}

/// The lexer relies on the end-of-line character not being a superscript
/// character: with it, a trigraph could end by stepping back before the line
/// end, and the lexer would read the same character forever.
pub open spec fn lexable_categories(cat: spec_fn(char) -> Category) -> bool {
    cat('\n') != Category::Superscript
}

impl Lexer {
    fn handle_trigraphs(&mut self, first_char: char, state: &TeXState) -> (r: Result<PlainLexResult, LexError>)
        requires
            old(self).wf(),
            state.wf(),
            lexable_categories(state.category_fn()),
            old(self)@.row < old(self)@.source.len(),
            old(self)@.col >= 1,
            old(self)@.col < old(self)@.source[old(self)@.row].len() || state.category_value(
                first_char,
            ) != Category::Superscript,
        ensures
            final(self).wf(),
            (r, final(self)@) == spec_handle_trigraphs(old(self)@, first_char, state.category_fn()),
            final(self)@.source == old(self)@.source,
            final(self)@.state == old(self)@.state,
            final(self)@.row == old(self)@.row,
            final(self)@.col >= old(self)@.col,
            r is Ok ==> r matches Ok(PlainLexResult::Char(_)),
        decreases trigraph_measure(old(self)@),
    {
        let ghost cat = state.category_fn();
        let ghost l = self@;
        let first_result = PlainLexResult::Char(first_char);
        if state.get_category(first_char) != Category::Superscript {
            return Ok(first_result);
        }
        let second = self.get_plain_char();
        let second_char: char = match second {
            PlainLexResult::Char(ch) => ch,
            rest => {
                proof {
                    assert(rest is Eol);
                    assert(l.col == l.source[l.row].len());
                }
                self.unget_plain_char(&rest);
                return Ok(first_result);
            },
        };
        let ghost l2 = self@;
        if state.get_category(second_char) != Category::Superscript {
            self.unget_plain_char(&PlainLexResult::Char(second_char));
            return Ok(first_result);
        }
        proof {
            if l.col + 1 == l.source[l.row].len() {
                assert(second_char == l.source[l.row].last());
            }
        }
        let third = self.get_plain_char();
        let third_char: char = match third {
            PlainLexResult::Char(ch) => ch,
            rest => {
                proof {
                    assert(rest is Eol);
                    assert(second_char == l.source[l.row].last());
                }
                self.unget_plain_char(&rest);
                self.unget_plain_char(&PlainLexResult::Char(second_char));
                return Ok(first_result);
            },
        };
        let ghost l3 = self@;
        let fourth = self.get_plain_char();
        match fourth {
            PlainLexResult::Char(fourth_char) => {
                if is_hex(third_char) && is_hex(fourth_char) {
                    let h = hex_digit_value(third_char) * 16 + hex_digit_value(fourth_char);
                    let final_char = h as char;
                    proof {
                        assert(fourth_char != '\n');
                        assert(self@.col < self@.source[self@.row].len());
                        assert(trigraph_measure(self@) < trigraph_measure(l));
                    }
                    self.handle_trigraphs(final_char, state)
                } else {
                    self.unget_plain_char(&PlainLexResult::Char(fourth_char));
                    proof {
                        assert(self@.col < self@.source[self@.row].len());
                        assert(trigraph_measure(self@) < trigraph_measure(l));
                    }
                    match shift_char(third_char) {
                        Some(final_char) => self.handle_trigraphs(final_char, state),
                        None => Err(LexError::TrigraphOverflow),
                    }
                }
            },
            rest => {
                proof {
                    assert(rest is Eol);
                }
                self.unget_plain_char(&rest);
                proof {
                    assert(self@.row == l.row);
                    assert(self@.col == l.col + 1);
                    assert(self@.col < self@.source[self@.row].len());
                    assert(trigraph_measure(self@) < trigraph_measure(l));
                }
                match shift_char(third_char) {
                    Some(final_char) => self.handle_trigraphs(final_char, state),
                    None => Err(LexError::TrigraphOverflow),
                }
            },
        }
    }
}


/// Reads a character, resolving `^^` trigraphs.
pub open spec fn spec_get_char(l: LexerView, cat: spec_fn(char) -> Category) -> (
    Result<PlainLexResult, LexError>,
    LexerView,
) {
    let (r, l1) = spec_get_plain_char(l);
    match r {
        PlainLexResult::Char(c) => spec_handle_trigraphs(l1, c, cat),
        _ => (Ok(r), l1),
    }
}

/// Whether `b` is strictly further into the input than `a`.
pub open spec fn advances(a: LexerView, b: LexerView) -> bool {
    0 <= remaining(b) < remaining(a)
}

/// Reads the letters that continue a control sequence name, after `acc`;
/// the first character that is not a letter is put back.
pub open spec fn spec_lex_letters(l: LexerView, acc: Seq<char>, cat: spec_fn(char) -> Category) -> (
    Result<Seq<char>, LexError>,
    LexerView,
)
    decreases remaining(l),
{
    let (r, l1) = spec_get_char(l, cat);
    match r {
        Err(e) => (Err(e), l1),
        Ok(PlainLexResult::Char(c)) => if cat(c) == Category::Letter {
            if advances(l, l1) && remaining(l) >= 0 {
                spec_lex_letters(l1, acc.push(c), cat)
            } else {
                (Ok(acc.push(c)), l1)
            }
        } else {
            (Ok(acc), spec_unget(l1, PlainLexResult::Char(c)))
        },
        Ok(rest) => (Ok(acc), spec_unget(l1, rest)),
    }
}

/// Lexes the next token: `None` at the end of the input.
#[verifier::opaque]
pub open spec fn spec_lex_token(l: LexerView, cat: spec_fn(char) -> Category) -> (
    Result<Option<TokenView>, LexError>,
    LexerView,
)
    decreases remaining(l),
{
    let (r, l1) = spec_get_char(l, cat);
    match r {
        Err(e) => (Err(e), l1),
        Ok(PlainLexResult::Eof) => (Ok(None), l1),
        Ok(PlainLexResult::Eol) => {
            let l2 = LexerView { state: LexState::BeginningLine, ..l1 };
            if advances(l, l2) && remaining(l) >= 0 {
                spec_lex_token(l2, cat)
            } else {
                (Ok(None), l2)
            }
        },
        Ok(PlainLexResult::Char(c)) => {
            let category = cat(c);
            if category == Category::Invalid {
                (Err(LexError::InvalidCharacter(c)), l1)
            } else if category == Category::Escape {
                let l2 = LexerView { state: LexState::SkippingBlanks, ..l1 };
                let (r2, l3) = spec_get_char(l2, cat);
                match r2 {
                    Ok(PlainLexResult::Char(c2)) => if cat(c2) == Category::Letter {
                        let (r4, l4) = spec_lex_letters(l3, seq![c2], cat);
                        match r4 {
                            Ok(name) => (Ok(Some(TokenView::ControlSequence(name))), l4),
                            Err(e) => (Err(e), l4),
                        }
                    } else {
                        (Ok(Some(TokenView::ControlSequence(seq![c2]))), l3)
                    },
                    Ok(_) => (Err(LexError::EndInControlSequence), l3),
                    Err(e) => (Err(e), l3),
                }
            } else if category == Category::EndOfLine {
                match l1.state {
                    LexState::BeginningLine => (Ok(Some(TokenView::ControlSequence("par"@))), l1),
                    LexState::MiddleLine => (Ok(Some(TokenView::Char(' ', Category::Space))), l1),
                    LexState::SkippingBlanks => if advances(l, l1) && remaining(l) >= 0 {
                        spec_lex_token(l1, cat)
                    } else {
                        (Ok(None), l1)
                    },
                }
            } else if category == Category::Space {
                if l1.state == LexState::MiddleLine {
                    (
                        Ok(Some(TokenView::Char(' ', Category::Space))),
                        LexerView { state: LexState::SkippingBlanks, ..l1 },
                    )
                } else if advances(l, l1) && remaining(l) >= 0 {
                    spec_lex_token(l1, cat)
                } else {
                    (Ok(None), l1)
                }
            } else if category == Category::Comment {
                let l2 = LexerView { col: l1.source[l1.row].len() as int, ..l1 };
                if advances(l, l2) && remaining(l) >= 0 {
                    spec_lex_token(l2, cat)
                } else {
                    (Ok(None), l2)
                }
            } else if category == Category::Ignored {
                if advances(l, l1) && remaining(l) >= 0 {
                    spec_lex_token(l1, cat)
                } else {
                    (Ok(None), l1)
                }
            } else {
                (Ok(Some(TokenView::Char(c, category))), LexerView { state: LexState::MiddleLine, ..l1 })
            }
        },
    }
}

impl Lexer {
    fn get_char(&mut self, state: &TeXState) -> (r: Result<PlainLexResult, LexError>)
        requires
            old(self).wf(),
            state.wf(),
            lexable_categories(state.category_fn()),
        ensures
            final(self).wf(),
            (r, final(self)@) == spec_get_char(old(self)@, state.category_fn()),
            final(self)@.source == old(self)@.source,
            final(self)@.state == old(self)@.state,
            r matches Ok(PlainLexResult::Char(_)) ==> final(self)@.row == old(self)@.row
                && final(self)@.col > old(self)@.col && old(self)@.row < old(self)@.source.len(),
            r matches Ok(PlainLexResult::Eol) ==> final(self)@.row == old(self)@.row + 1
                && final(self)@.col == 0 && old(self)@.row < old(self)@.source.len()
                && old(self)@.col == old(self)@.source[old(self)@.row].len(),
            r is Err ==> final(self)@.row == old(self)@.row && final(self)@.col > old(self)@.col
                && old(self)@.row < old(self)@.source.len(),
            r matches Ok(PlainLexResult::Eof) ==> final(self)@ == old(self)@ && old(self)@.row
                == old(self)@.source.len(),
    {
        let ghost l = self@;
        match self.get_plain_char() {
            PlainLexResult::Char(ch) => {
                proof {
                    if l.col + 1 == l.source[l.row].len() {
                        assert(ch == l.source[l.row].last());
                    }
                }
                self.handle_trigraphs(ch, state)
            },
            rest => Ok(rest),
        }
    }

    fn lex_letters(&mut self, first: char, state: &TeXState) -> (r: Result<Vec<char>, LexError>)
        requires
            old(self).wf(),
            state.wf(),
            lexable_categories(state.category_fn()),
            old(self)@.row < old(self)@.source.len(),
            old(self)@.col >= 1,
        ensures
            final(self).wf(),
            final(self)@.source == old(self)@.source,
            final(self)@.state == old(self)@.state,
            match spec_lex_letters(old(self)@, seq![first], state.category_fn()) {
                (Ok(name), l) => r matches Ok(v) && v@ == name && final(self)@ == l,
                (Err(e), l) => r == Err::<Vec<char>, LexError>(e) && final(self)@ == l,
            },
            final(self)@.row == old(self)@.row,
            final(self)@.col >= old(self)@.col - 1,
    {
        let ghost cat = state.category_fn();
        let ghost start = self@;
        let mut sequence: Vec<char> = Vec::new();
        sequence.push(first);
        loop
            invariant
                self.wf(),
                state.wf(),
                lexable_categories(cat),
                cat == state.category_fn(),
                start == old(self)@,
                self@.source == start.source,
                self@.state == start.state,
                self@.row == start.row,
                self@.col >= start.col,
                self@.row < self@.source.len(),
                self@.col >= 1,
                spec_lex_letters(start, seq![first], cat) == spec_lex_letters(self@, sequence@, cat),
            decreases remaining(self@),
        {
            let ghost before = self@;
            let ghost acc = sequence@;
            match self.get_char(state) {
                Ok(PlainLexResult::Char(c)) => {
                    if state.get_category(c) == Category::Letter {
                        proof {
                            lemma_remaining_decreases(before, self@);
                        }
                        sequence.push(c);
                    } else {
                        self.unget_plain_char(&PlainLexResult::Char(c));
                        return Ok(sequence);
                    }
                },
                Ok(rest) => {
                    proof {
                        if rest is Eol {
                            assert(before.col == before.source[before.row].len());
                        }
                    }
                    self.unget_plain_char(&rest);
                    proof {
                        if rest is Eol {
                            assert(self@.row == before.row);
                            assert(self@.col == before.col - 1);
                        }
                    }
                    return Ok(sequence);
                },
                Err(e) => {
                    return Err(e);
                },
            }
        }
    }

    /// Lexes the next token with the categories of `state`.
    pub fn lex_token_with(&mut self, state: &TeXState) -> (r: Result<Option<Token>, LexError>)
        requires
            old(self).wf(),
            state.wf(),
            lexable_categories(state.category_fn()),
        ensures
            final(self).wf(),
            final(self)@.source == old(self)@.source,
            match spec_lex_token(old(self)@, state.category_fn()) {
                (Ok(Some(t)), l) => r matches Ok(Some(tok)) && tok@ == t && final(self)@ == l,
                (Ok(None), l) => r matches Ok(None) && final(self)@ == l,
                (Err(e), l) => r == Err::<Option<Token>, LexError>(e) && final(self)@ == l,
            },
            r matches Ok(Some(_)) ==> advances(old(self)@, final(self)@),
            remaining(final(self)@) <= remaining(old(self)@),
            remaining(final(self)@) >= 0,
        decreases remaining(old(self)@),
    {
        let ghost l = self@;
        proof {
            reveal(spec_lex_token);
            lemma_rows_size_nonneg(l.source, l.row);
            if l.row < l.source.len() {
                lemma_rows_size_nonneg(l.source, l.row + 1);
            }
        }
        let c = match self.get_char(state) {
            Err(e) => {
                proof { self.lemma_remaining_bounds(l); }
                return Err(e);
            },
            Ok(PlainLexResult::Eof) => {
                return Ok(None);
            },
            Ok(PlainLexResult::Eol) => {
                self.state = LexState::BeginningLine;
                proof {
                    lemma_remaining_decreases(l, self@);
                }
                return self.lex_token_with(state);
            },
            Ok(PlainLexResult::Char(c)) => c,
        };
        let ghost l1 = self@;
        proof {
            lemma_remaining_decreases(l, l1);
        }
        let category = state.get_category(c);
        if category == Category::Invalid {
            return Err(LexError::InvalidCharacter(c));
        } else if category == Category::Escape {
            self.state = LexState::SkippingBlanks;
            let ghost l2 = self@;
            let first_char = match self.get_char(state) {
                Ok(PlainLexResult::Char(c2)) => c2,
                Ok(_) => {
                    proof { self.lemma_remaining_bounds(l); }
                    return Err(LexError::EndInControlSequence);
                },
                Err(e) => {
                    proof { self.lemma_remaining_bounds(l); }
                    return Err(e);
                },
            };
            if state.get_category(first_char) == Category::Letter {
                match self.lex_letters(first_char, state) {
                    Ok(name) => {
                        proof {
                            lemma_remaining_decreases(l, self@);
                        }
                        return Ok(Some(Token::control_sequence_from_chars(&name)));
                    },
                    Err(e) => {
                        proof { self.lemma_remaining_bounds(l); }
                        return Err(e);
                    },
                }
            } else {
                let mut name: Vec<char> = Vec::new();
                name.push(first_char);
                proof {
                    assert(name@ =~= seq![first_char]);
                    lemma_remaining_decreases(l, self@);
                }
                return Ok(Some(Token::control_sequence_from_chars(&name)));
            }
        } else if category == Category::EndOfLine {
            match self.state {
                LexState::BeginningLine => {
                    return Ok(Some(Token::ControlSequence("par".to_owned())));
                },
                LexState::MiddleLine => {
                    return Ok(Some(Token::Char(' ', Category::Space)));
                },
                LexState::SkippingBlanks => {
                    return self.lex_token_with(state);
                },
            }
        } else if category == Category::Space {
            if self.state == LexState::MiddleLine {
                self.state = LexState::SkippingBlanks;
                return Ok(Some(Token::Char(' ', Category::Space)));
            } else {
                return self.lex_token_with(state);
            }
        } else if category == Category::Comment {
            self.col = self.source[self.row].len();
            proof {
                assert(self@.source == l1.source);
                lemma_remaining_decreases(l, self@);
            }
            return self.lex_token_with(state);
        } else if category == Category::Ignored {
            return self.lex_token_with(state);
        } else {
            self.state = LexState::MiddleLine;
            return Ok(Some(Token::Char(c, category)));
        }
    }

    proof fn lemma_remaining_bounds(&self, l: LexerView)
        requires
            self.wf(),
            lexer_wf(l),
            l.source == self@.source,
            self@.row > l.row || (self@.row == l.row && self@.col >= l.col),
        ensures
            remaining(self@) <= remaining(l),
            remaining(self@) >= 0,
    {
        if self@.row > l.row || self@.col > l.col {
            lemma_remaining_decreases(l, self@);
        } else {
            lemma_rows_size_nonneg(l.source, l.row);
            if l.row < l.source.len() {
                lemma_rows_size_nonneg(l.source, l.row + 1);
            }
        }
    }

    /// Lexes the next token with the initial category codes. What comes
    /// next must be a token the lexer accepts: no invalid character, no
    /// escape character at the end of a line, no trigraph that overflows a
    /// byte.
    pub fn lex_token(&mut self) -> (r: Result<Option<Token>, LexError>)
        requires
            old(self).wf(),
            !(spec_lex_token(old(self)@, |c: char| crate::state::initial_category(c)) matches (Err(_), _)),
        ensures
            final(self).wf(),
            final(self)@.source == old(self)@.source,
            match spec_lex_token(old(self)@, |c: char| crate::state::initial_category(c)) {
                (Ok(Some(t)), l) => r matches Ok(Some(tok)) && tok@ == t && final(self)@ == l,
                (Ok(None), l) => r matches Ok(None) && final(self)@ == l,
                (Err(e), l) => r == Err::<Option<Token>, LexError>(e) && final(self)@ == l,
            },
    {
        let state = TeXState::new();
        proof {
            assert(state.category_fn() =~= |c: char| crate::state::initial_category(c));
        }
        self.lex_token_with(&state)
    }
}


/// A later position on the same row has no more input left.
proof fn lemma_same_row_later(a: LexerView, b: LexerView)
    requires
        lexer_wf(a),
        lexer_wf(b),
        a.source == b.source,
        a.row == b.row,
        a.col <= b.col,
    ensures
        0 <= remaining(b) <= remaining(a),
{
    if a.col < b.col {
        lemma_remaining_decreases(a, b);
    } else {
        lemma_remaining_nonneg(a);
    }
}

/// Resolving trigraphs stays on the row and does not go back.
proof fn lemma_handle_trigraphs(l: LexerView, first: char, cat: spec_fn(char) -> Category)
    requires
        lexer_wf(l),
        lexable_categories(cat),
        l.row < l.source.len(),
        l.col >= 1,
        l.col < l.source[l.row].len() || cat(first) != Category::Superscript,
    ensures
        ({
            let (r, l2) = spec_handle_trigraphs(l, first, cat);
            &&& lexer_wf(l2)
            &&& l2.source == l.source
            &&& l2.state == l.state
            &&& l2.row == l.row
            &&& l2.col >= l.col
            &&& r is Ok ==> r matches Ok(PlainLexResult::Char(_))
        }),
    decreases trigraph_measure(l),
{
    if cat(first) == Category::Superscript {
        let (r2, l2) = spec_get_plain_char(l);
        if let PlainLexResult::Char(c2) = r2 {
            if cat(c2) == Category::Superscript {
                if l.col + 1 == l.source[l.row].len() {
                    assert(c2 == l.source[l.row].last());
                }
                let (r3, l3) = spec_get_plain_char(l2);
                if let PlainLexResult::Char(c3) = r3 {
                    let (r4, l4) = spec_get_plain_char(l3);
                    match r4 {
                        PlainLexResult::Char(c4) => {
                            if is_hex_char(c3) && is_hex_char(c4) {
                                let c = ((hex_value(c3) * 16 + hex_value(c4)) as u8) as char;
                                if trigraph_measure(l4) < trigraph_measure(l) && trigraph_measure(l4) >= 0 {
                                    assert(c4 != '\n');
                                    lemma_handle_trigraphs(l4, c, cat);
                                }
                            } else {
                                let l5 = spec_unget(l4, r4);
                                if let Some(c) = shifted_char(c3) {
                                    if trigraph_measure(l5) < trigraph_measure(l) && trigraph_measure(l5) >= 0 {
                                        lemma_handle_trigraphs(l5, c, cat);
                                    }
                                }
                            }
                        },
                        _ => {
                            assert(c3 == l.source[l.row].last());
                            let l5 = spec_unget(l4, r4);
                            if let Some(c) = shifted_char(c3) {
                                if trigraph_measure(l5) < trigraph_measure(l) && trigraph_measure(l5) >= 0 {
                                    lemma_handle_trigraphs(l5, c, cat);
                                }
                            }
                        },
                    }
                }
            }
        }
    }
}

/// Reading a character keeps the lexer within its text and moves it on as
/// the kind of character read says.
proof fn lemma_get_char(l: LexerView, cat: spec_fn(char) -> Category)
    requires
        lexer_wf(l),
        lexable_categories(cat),
    ensures
        ({
            let (r, l1) = spec_get_char(l, cat);
            &&& lexer_wf(l1)
            &&& l1.source == l.source
            &&& l1.state == l.state
            &&& r matches Ok(PlainLexResult::Char(_)) ==> l1.row == l.row && l1.col > l.col
                && l.row < l.source.len()
            &&& r matches Ok(PlainLexResult::Eol) ==> l1.row == l.row + 1 && l1.col == 0
                && l.row < l.source.len() && l.col == l.source[l.row].len()
            &&& r is Err ==> l1.row == l.row && l1.col > l.col && l.row < l.source.len()
            &&& r matches Ok(PlainLexResult::Eof) ==> l1 == l && l.row == l.source.len()
        }),
{
    let (r, l1) = spec_get_plain_char(l);
    if let PlainLexResult::Char(ch) = r {
        if l.col + 1 == l.source[l.row].len() {
            assert(ch == l.source[l.row].last());
        }
        lemma_handle_trigraphs(l1, ch, cat);
    }
}

/// Reading the letters of a control sequence name stays on the row and
/// goes back at most the one character it puts back.
proof fn lemma_lex_letters(l: LexerView, acc: Seq<char>, cat: spec_fn(char) -> Category)
    requires
        lexer_wf(l),
        lexable_categories(cat),
        l.row < l.source.len(),
        l.col >= 1,
    ensures
        ({
            let (r, l2) = spec_lex_letters(l, acc, cat);
            &&& lexer_wf(l2)
            &&& l2.source == l.source
            &&& l2.state == l.state
            &&& l2.row == l.row
            &&& l2.col >= l.col - 1
        }),
    decreases remaining(l),
{
    lemma_remaining_nonneg(l);
    lemma_get_char(l, cat);
    let (r, l1) = spec_get_char(l, cat);
    match r {
        Ok(PlainLexResult::Char(c)) => {
            if cat(c) == Category::Letter {
                lemma_remaining_decreases(l, l1);
                lemma_lex_letters(l1, acc.push(c), cat);
            }
        },
        _ => {},
    }
}

/// Lexing a token keeps the lexer within its text and does not go back;
/// a token read moves it on.
pub proof fn lemma_lex_token(l: LexerView, cat: spec_fn(char) -> Category)
    requires
        lexer_wf(l),
        lexable_categories(cat),
    ensures
        ({
            let (r, l2) = spec_lex_token(l, cat);
            &&& lexer_wf(l2)
            &&& l2.source == l.source
            &&& 0 <= remaining(l2) <= remaining(l)
            &&& r matches Ok(Some(_)) ==> remaining(l2) < remaining(l)
        }),
    decreases remaining(l),
{
    reveal(spec_lex_token);
    lemma_remaining_nonneg(l);
    lemma_get_char(l, cat);
    let (r, l1) = spec_get_char(l, cat);
    match r {
        Err(e) => {
            lemma_remaining_decreases(l, l1);
        },
        Ok(PlainLexResult::Eof) => {},
        Ok(PlainLexResult::Eol) => {
            let l2 = LexerView { state: LexState::BeginningLine, ..l1 };
            lemma_remaining_decreases(l, l2);
            lemma_lex_token(l2, cat);
        },
        Ok(PlainLexResult::Char(c)) => {
            lemma_remaining_decreases(l, l1);
            let category = cat(c);
            if category == Category::Escape {
                let l2 = LexerView { state: LexState::SkippingBlanks, ..l1 };
                lemma_get_char(l2, cat);
                let (r2, l3) = spec_get_char(l2, cat);
                if r2 is Err || r2 matches Ok(PlainLexResult::Char(_)) {
                    lemma_remaining_decreases(l, l3);
                }
                if let Ok(PlainLexResult::Char(c2)) = r2 {
                    if cat(c2) == Category::Letter {
                        lemma_lex_letters(l3, seq![c2], cat);
                        let (r4, l4) = spec_lex_letters(l3, seq![c2], cat);
                        lemma_remaining_decreases(l, l4);
                    }
                } else if r2 matches Ok(PlainLexResult::Eol) {
                    lemma_remaining_decreases(l, l3);
                } else if r2 matches Ok(PlainLexResult::Eof) {
                    lemma_remaining_decreases(l, l3);
                }
            } else if category == Category::EndOfLine {
                if l1.state == LexState::SkippingBlanks {
                    lemma_lex_token(l1, cat);
                }
            } else if category == Category::Space {
                if l1.state != LexState::MiddleLine {
                    lemma_lex_token(l1, cat);
                } else {
                    lemma_remaining_decreases(l, LexerView { state: LexState::SkippingBlanks, ..l1 });
                }
            } else if category == Category::Comment {
                let l2 = LexerView { col: l1.source[l1.row].len() as int, ..l1 };
                lemma_same_row_later(l1, l2);
                lemma_lex_token(l2, cat);
            } else if category == Category::Ignored {
                lemma_lex_token(l1, cat);
            } else {
                lemma_remaining_decreases(l, LexerView { state: LexState::MiddleLine, ..l1 });
            }
        },
    }
}

/// Where lexing gives no token, the lexer is at the end of its text, and
/// lexing there again gives no token and stays there.
pub proof fn lemma_lex_end(l: LexerView, cat: spec_fn(char) -> Category)
    requires
        lexer_wf(l),
        lexable_categories(cat),
    ensures
        spec_lex_token(l, cat).0 == Ok::<Option<TokenView>, LexError>(None) ==> {
            let l2 = spec_lex_token(l, cat).1;
            &&& l2.row == l2.source.len()
            &&& spec_lex_token(l2, cat) == (Ok::<Option<TokenView>, LexError>(None), l2)
        },
    decreases remaining(l),
{
    reveal(spec_lex_token);
    lemma_remaining_nonneg(l);
    lemma_get_char(l, cat);
    let (r, l1) = spec_get_char(l, cat);
    match r {
        Ok(PlainLexResult::Eof) => {},
        Ok(PlainLexResult::Eol) => {
            let l2 = LexerView { state: LexState::BeginningLine, ..l1 };
            lemma_remaining_decreases(l, l2);
            lemma_lex_end(l2, cat);
        },
        Ok(PlainLexResult::Char(c)) => {
            lemma_remaining_decreases(l, l1);
            let category = cat(c);
            if category == Category::EndOfLine || category == Category::Space || category
                == Category::Ignored {
                lemma_lex_end(l1, cat);
            } else if category == Category::Comment {
                let l2 = LexerView { col: l1.source[l1.row].len() as int, ..l1 };
                lemma_same_row_later(l1, l2);
                lemma_remaining_decreases(l, l2);
                lemma_lex_end(l2, cat);
            } else if category == Category::Escape {
                let l2 = LexerView { state: LexState::SkippingBlanks, ..l1 };
                lemma_get_char(l2, cat);
                let (r2, l3) = spec_get_char(l2, cat);
                if let Ok(PlainLexResult::Char(c2)) = r2 {
                    if cat(c2) == Category::Letter {
                        lemma_lex_letters(l3, seq![c2], cat);
                    }
                }
            }
        },
        Err(_) => {},
    }
}

} // verus!
