use vstd::prelude::*;
use crate::machine::{register_named, sfr_named, ScratchpadRegisters, SFR};
use crate::text::{
    copy_range, decimal_digit, hex_number, hex_value, is_decimal_digit, is_letter, is_line_break,
    lemma_run_end, letter, line_break, run_end, scan, CharClass, AT_SIGN, COLON, COMMA, DIGIT_SEVEN,
    DIGIT_ZERO, DOT, END_MARKER, HASH, HEX_SUFFIX,
};

verus! {

/// The kinds of token, each with what it carries.
#[allow(non_camel_case_types)]
#[derive(Clone, Debug, PartialEq, Eq)]
pub enum TokenType {
    /// An identifier: a mnemonic, a register name or a jump target.
    ID(Vec<u8>),
    /// An immediate value, written after `#`.
    IMM(u16),
    /// The operand separator.
    COMMA,
    /// A line break.
    LINE,
    /// A hexadecimal literal, written with the suffix `H`.
    HEX(u16),
    /// An indirect register, written after `@`.
    IND(ScratchpadRegisters),
    /// A bit of a special-function register: the register and the bit index.
    BIT_ADDR(SFR, u8),
    /// A label definition, its text ending in `:`.
    LABEL(Vec<u8>),
    /// Bytes that form no token.
    INVALID,
    /// The end of the input, or the end marker.
    NULL,
}

/// A token and the number of source bytes it took, blanks before it counted.
#[derive(Clone, Debug, PartialEq, Eq)]
pub struct Token {
    pub token: TokenType,
    pub len: usize,
}

/// What a token kind is, with names as byte sequences.
pub ghost enum TokenView {
    Id(Seq<u8>),
    Imm(u16),
    Comma,
    Line,
    Hex(u16),
    Ind(ScratchpadRegisters),
    BitAddr(SFR, u8),
    Label(Seq<u8>),
    Invalid,
    Null,
}

/// What a token is: its kind and the number of bytes it took.
pub ghost struct Lexeme {
    pub token: TokenView,
    pub len: int,
}

impl View for TokenType {
    type V = TokenView;

    open spec fn view(&self) -> TokenView {
        match *self {
            TokenType::ID(name) => TokenView::Id(name@),
            TokenType::IMM(value) => TokenView::Imm(value),
            TokenType::COMMA => TokenView::Comma,
            TokenType::LINE => TokenView::Line,
            TokenType::HEX(value) => TokenView::Hex(value),
            TokenType::IND(reg) => TokenView::Ind(reg),
            TokenType::BIT_ADDR(sfr, bit) => TokenView::BitAddr(sfr, bit),
            TokenType::LABEL(name) => TokenView::Label(name@),
            TokenType::INVALID => TokenView::Invalid,
            TokenType::NULL => TokenView::Null,
        }
    }
}

impl View for Token {
    type V = Lexeme;

    open spec fn view(&self) -> Lexeme {
        Lexeme { token: self.token@, len: self.len as int }
    }
}

/// The sixteen-bit number that the hexadecimal digits of `text` from `start`
/// up to `end` stand for; digits beyond sixteen bits are dropped.
pub open spec fn hex_number_at(text: Seq<u8>, start: int, end: int) -> u16 {
    (hex_value(text.subrange(start, end)) % 0x10000) as u16
}

/// A hexadecimal literal at `pos`: hexadecimal digits and then `H`. Gives
/// the number and the bytes taken; none without the `H`.
pub open spec fn hex_literal_at(text: Seq<u8>, pos: int) -> Option<(u16, int)> {
    let end = run_end(text, pos, CharClass::Hex);
    if 0 <= end < text.len() && text[end] == HEX_SUFFIX {
        Some((hex_number_at(text, pos, end), end + 1 - pos))
    } else {
        None
    }
}

/// The digits of an immediate value at `pos`, after its `#`: at least one
/// hexadecimal digit, and an `H` after them if there is one.
pub open spec fn immediate_at(text: Seq<u8>, pos: int) -> Option<(u16, int)> {
    let end = run_end(text, pos, CharClass::Hex);
    if pos < end {
        if end < text.len() && text[end] == HEX_SUFFIX {
            Some((hex_number_at(text, pos, end), end + 1 - pos))
        } else {
            Some((hex_number_at(text, pos, end), end - pos))
        }
    } else {
        None
    }
}

/// An identifier at `pos`: after any blanks a letter, then letters and
/// digits. Gives the name and the bytes taken, blanks counted.
pub open spec fn identifier_at(text: Seq<u8>, pos: int) -> Option<(Seq<u8>, int)> {
    let start = run_end(text, pos, CharClass::Blank);
    if 0 <= start < text.len() && is_letter(text[start]) {
        let end = run_end(text, start, CharClass::Alnum);
        Some((text.subrange(start, end), end - pos))
    } else {
        None
    }
}

/// A label at `pos`: an identifier with `:` right after it. The text given
/// keeps the `:`.
pub open spec fn label_at(text: Seq<u8>, pos: int) -> Option<(Seq<u8>, int)> {
    match identifier_at(text, pos) {
        Some((name, n)) => if pos + n < text.len() && text[pos + n] == COLON {
            Some((name.push(COLON), n + 1))
        } else {
            None
        },
        None => None,
    }
}

/// A bit address at `pos`: the name of a special-function register, `.`,
/// and one digit from `0` to `7`.
pub open spec fn bit_address_at(text: Seq<u8>, pos: int) -> Option<(SFR, u8, int)> {
    match identifier_at(text, pos) {
        Some((name, n)) => if pos + n + 1 < text.len() && text[pos + n] == DOT && DIGIT_ZERO
            <= text[pos + n + 1] <= DIGIT_SEVEN && sfr_named(name) is Some {
            Some((sfr_named(name).unwrap(), (text[pos + n + 1] - DIGIT_ZERO) as u8, n + 2))
        } else {
            None
        },
        None => None,
    }
}

/// The token that starts with the byte at `start`, `skipped` blanks after
/// the cursor. A decimal digit starts a hexadecimal literal, `#` an immediate
/// value, `@` an indirect register; `,` and a line break stand for
/// themselves; a letter starts a bit address, else a label, else an
/// identifier. Bytes that form no token count as one invalid byte.
pub open spec fn token_from(text: Seq<u8>, start: int, skipped: int) -> Lexeme {
    let b = text[start];
    let invalid = Lexeme { token: TokenView::Invalid, len: skipped + 1 };
    if is_decimal_digit(b) {
        match hex_literal_at(text, start) {
            Some((value, n)) => Lexeme { token: TokenView::Hex(value), len: skipped + n },
            None => invalid,
        }
    } else if b == HASH {
        match immediate_at(text, start + 1) {
            Some((value, n)) => Lexeme { token: TokenView::Imm(value), len: skipped + 1 + n },
            None => invalid,
        }
    } else if b == AT_SIGN {
        match identifier_at(text, start + 1) {
            Some((name, n)) => match register_named(name) {
                Some(reg) => Lexeme { token: TokenView::Ind(reg), len: skipped + 1 + n },
                None => invalid,
            },
            None => invalid,
        }
    } else if b == COMMA {
        Lexeme { token: TokenView::Comma, len: skipped + 1 }
    } else if is_line_break(b) {
        Lexeme { token: TokenView::Line, len: skipped + 1 }
    } else if is_letter(b) {
        match bit_address_at(text, start) {
            Some((sfr, bit, n)) => Lexeme { token: TokenView::BitAddr(sfr, bit), len: skipped + n },
            None => match label_at(text, start) {
                Some((name, n)) => Lexeme { token: TokenView::Label(name), len: skipped + n },
                None => match identifier_at(text, start) {
                    Some((name, n)) => Lexeme { token: TokenView::Id(name), len: skipped + n },
                    None => invalid,
                },
            },
        }
    } else {
        invalid
    }
}

/// The token at the cursor `pos`. Blanks before it are skipped and counted
/// in its length. At the end of the text and at the end marker the token is
/// `Null` and takes the blanks only.
pub open spec fn lexeme_at(text: Seq<u8>, pos: int) -> Lexeme {
    let start = run_end(text, pos, CharClass::Blank);
    if 0 <= start < text.len() && text[start] != END_MARKER {
        token_from(text, start, start - pos)
    } else {
        Lexeme { token: TokenView::Null, len: start - pos }
    }
}

/// A token never reaches past the end of the text, and every token but
/// `Null` takes at least one byte.
pub proof fn lemma_lexeme_bounds(text: Seq<u8>, pos: int)
    requires
        0 <= pos,
    ensures
        0 <= lexeme_at(text, pos).len,
        pos <= text.len() ==> pos + lexeme_at(text, pos).len <= text.len(),
        pos > text.len() ==> lexeme_at(text, pos).len == 0,
        lexeme_at(text, pos).token != TokenView::Null ==> lexeme_at(text, pos).len > 0,
{
    let start = run_end(text, pos, CharClass::Blank);
    lemma_run_end(text, pos, CharClass::Blank);
    if 0 <= start < text.len() && text[start] != END_MARKER {
        lemma_run_end(text, start, CharClass::Hex);
        lemma_run_end(text, start + 1, CharClass::Hex);
        lemma_run_end(text, start + 1, CharClass::Blank);
        lemma_run_end(text, start, CharClass::Blank);
        lemma_run_end(text, start, CharClass::Alnum);
        let inner = run_end(text, start + 1, CharClass::Blank);
        lemma_run_end(text, inner, CharClass::Alnum);
    }
}

/// The span of the hexadecimal literal at `pos`, if there is one: its number
/// and the bytes it takes.
pub fn read_hex_literal(text: &[u8], pos: usize) -> (r: Option<(u16, usize)>)
    ensures
        match r {
            Some((value, n)) => hex_literal_at(text@, pos as int) == Some((value, n as int)) && n >= 1 && pos
                + n <= text@.len(),
            None => hex_literal_at(text@, pos as int) is None,
        },
{
    let end = scan(text, pos, CharClass::Hex);
    proof {
        lemma_run_end(text@, pos as int, CharClass::Hex);
    }
    if end < text.len() && text[end] == HEX_SUFFIX {
        Some((hex_number(text, pos, end), end + 1 - pos))
    } else {
        None
    }
}

/// The digits of the immediate value at `pos`, if there are any: the number
/// and the bytes taken.
pub fn read_immediate(text: &[u8], pos: usize) -> (r: Option<(u16, usize)>)
    ensures
        match r {
            Some((value, n)) => immediate_at(text@, pos as int) == Some((value, n as int)) && n >= 1 && pos + n
                <= text@.len(),
            None => immediate_at(text@, pos as int) is None,
        },
{
    let end = scan(text, pos, CharClass::Hex);
    proof {
        lemma_run_end(text@, pos as int, CharClass::Hex);
    }
    if pos < end {
        let value = hex_number(text, pos, end);
        if end < text.len() && text[end] == HEX_SUFFIX {
            Some((value, end + 1 - pos))
        } else {
            Some((value, end - pos))
        }
    } else {
        None
    }
}

/// The span of the identifier at `pos`, if there is one: where its name
/// starts and where it ends.
pub fn read_identifier(text: &[u8], pos: usize) -> (r: Option<(usize, usize)>)
    ensures
        match r {
            Some((start, end)) => identifier_at(text@, pos as int) == Some(
                (text@.subrange(start as int, end as int), end - pos),
            ) && pos <= start < end <= text@.len(),
            None => identifier_at(text@, pos as int) is None,
        },
{
    let start = scan(text, pos, CharClass::Blank);
    if start < text.len() && letter(text[start]) {
        let end = scan(text, start, CharClass::Alnum);
        proof {
            lemma_run_end(text@, start as int, CharClass::Alnum);
            assert(CharClass::Alnum.holds(text@[start as int]));
            assert(run_end(text@, start as int, CharClass::Alnum) == run_end(
                text@,
                start + 1,
                CharClass::Alnum,
            ));
            lemma_run_end(text@, start + 1, CharClass::Alnum);
        }
        Some((start, end))
    } else {
        None
    }
}

/// The label at `pos`, if there is one: its text, `:` kept, and the bytes
/// it takes.
pub fn read_label(text: &[u8], pos: usize) -> (r: Option<(Vec<u8>, usize)>)
    ensures
        match r {
            Some((name, n)) => label_at(text@, pos as int) == Some((name@, n as int)) && n >= 2 && pos + n
                <= text@.len(),
            None => label_at(text@, pos as int) is None,
        },
{
    match read_identifier(text, pos) {
        Some((from, to)) => {
            if to < text.len() && text[to] == COLON {
                let mut name = copy_range(text, from, to);
                name.push(COLON);
                Some((name, to + 1 - pos))
            } else {
                None
            }
        },
        None => None,
    }
}

/// The bit address at `pos`, if there is one: the register, the bit index
/// and the bytes it takes.
pub fn read_bit_address(text: &[u8], pos: usize) -> (r: Option<(SFR, u8, usize)>)
    ensures
        match r {
            Some((sfr, bit, n)) => bit_address_at(text@, pos as int) == Some((sfr, bit, n as int)) && bit < 8
                && n >= 3 && pos + n <= text@.len(),
            None => bit_address_at(text@, pos as int) is None,
        },
{
    match read_identifier(text, pos) {
        Some((from, to)) => {
            if to < text.len() && text.len() - to > 1 && text[to] == DOT && DIGIT_ZERO <= text[to + 1]
                && text[to + 1] <= DIGIT_SEVEN {
                let name = vstd::slice::slice_subrange(text, from, to);
                match SFR::from_name(name) {
                    Some(sfr) => Some((sfr, text[to + 1] - DIGIT_ZERO, to + 2 - pos)),
                    None => None,
                }
            } else {
                None
            }
        },
        None => None,
    }
}

/// The token at the cursor `pos` of `text`.
pub fn lex(text: &[u8], pos: usize) -> (tok: Token)
    ensures
        tok@ == lexeme_at(text@, pos as int),
        pos <= text@.len() ==> pos + tok.len <= text@.len(),
        pos > text@.len() ==> tok.len == 0,
        tok.token@ != TokenView::Null ==> tok.len > 0,
        pos + tok.len <= usize::MAX,
{
    let limit = text.len();
    let start = scan(text, pos, CharClass::Blank);
    let skipped: usize = start - pos;
    proof {
        lemma_lexeme_bounds(text@, pos as int);
    }
    if !(start < text.len()) || text[start] == END_MARKER {
        return Token { token: TokenType::NULL, len: skipped };
    }
    let b = text[start];
    let invalid = Token { token: TokenType::INVALID, len: skipped + 1 };
    if decimal_digit(b) {
        match read_hex_literal(text, start) {
            Some((value, n)) => Token { token: TokenType::HEX(value), len: skipped + n },
            None => invalid,
        }
    } else if b == HASH {
        match read_immediate(text, start + 1) {
            Some((value, n)) => Token { token: TokenType::IMM(value), len: skipped + 1 + n },
            None => invalid,
        }
    } else if b == AT_SIGN {
        match read_identifier(text, start + 1) {
            Some((from, to)) => {
                let name = vstd::slice::slice_subrange(text, from, to);
                match ScratchpadRegisters::from_name(name) {
                    Some(reg) => Token { token: TokenType::IND(reg), len: to - pos },
                    None => invalid,
                }
            },
            None => invalid,
        }
    } else if b == COMMA {
        Token { token: TokenType::COMMA, len: skipped + 1 }
    } else if line_break(b) {
        Token { token: TokenType::LINE, len: skipped + 1 }
    } else if letter(b) {
        match read_bit_address(text, start) {
            Some((sfr, bit, n)) => Token { token: TokenType::BIT_ADDR(sfr, bit), len: skipped + n },
            None => match read_label(text, start) {
                Some((name, n)) => Token { token: TokenType::LABEL(name), len: skipped + n },
                None => match read_identifier(text, start) {
                    Some((from, to)) => Token {
                        token: TokenType::ID(copy_range(text, from, to)),
                        len: to - pos,
                    },
                    None => invalid,
                },
            },
        }
    } else {
        invalid
    }
}

/// A cursor over source text: the bytes and the position of the next token.
pub struct Tokenizer {
    pub src: Vec<u8>,
    pub pos: usize,
}

impl Default for Tokenizer {
    fn default() -> (t: Tokenizer)
        ensures
            t.src@.len() == 0,
            t.pos == 0,
    {
        Tokenizer { src: Vec::new(), pos: 0 }
    }
}

impl Tokenizer {
    /// A tokenizer at the start of `src`.
    pub fn new(src: Vec<u8>) -> (t: Tokenizer)
        ensures
            t.src@ == src@,
            t.pos == 0,
    {
        Tokenizer { src, pos: 0 }
    }

    /// The token at the cursor, which stays where it is.
    pub fn peek(&self) -> (tok: Token)
        ensures
            tok@ == lexeme_at(self.src@, self.pos as int),
            self.pos <= self.src@.len() ==> self.pos + tok.len <= self.src@.len(),
            self.pos > self.src@.len() ==> tok.len == 0,
            tok.token@ != TokenView::Null ==> tok.len > 0,
            self.pos + tok.len <= usize::MAX,
    {
        lex(self.src.as_slice(), self.pos)
    }

    /// The token at the cursor, which moves past it. At the end of the input
    /// and where the bytes form no token there is none, and the cursor stays.
    pub fn parse_next(&mut self) -> (r: Option<Token>)
        ensures
            final(self).src@ == old(self).src@,
            match r {
                Some(tok) => tok@ == lexeme_at(old(self).src@, old(self).pos as int) && final(self).pos == old(
                    self,
                ).pos + tok.len,
                None => final(self).pos == old(self).pos,
            },
            r is None <==> lexeme_at(old(self).src@, old(self).pos as int).token == TokenView::Null
                || lexeme_at(old(self).src@, old(self).pos as int).token == TokenView::Invalid,
    {
        let tok = self.peek();
        let limit = self.src.len();
        match tok.token {
            TokenType::INVALID | TokenType::NULL => None,
            _ => {
                assert(self.pos + tok.len <= limit || tok.len == 0);
                self.pos = self.pos + tok.len;
                Some(tok)
            },
        }
    }

    /// The hexadecimal literal at the cursor: hexadecimal digits ended by
    /// `H`, with no blanks skipped.
    pub fn parse_hex(&self) -> (r: Option<Token>)
        ensures
            match r {
                Some(tok) => tok.token@ is Hex && hex_literal_at(self.src@, self.pos as int) == Some(
                    (tok.token@->Hex_0, tok.len as int),
                ),
                None => hex_literal_at(self.src@, self.pos as int) is None,
            },
    {
        match read_hex_literal(self.src.as_slice(), self.pos) {
            Some((value, n)) => Some(Token { token: TokenType::HEX(value), len: n }),
            None => None,
        }
    }

    /// The identifier at the cursor, after any blanks.
    pub fn parse_id(&self) -> (r: Option<Token>)
        ensures
            match r {
                Some(tok) => tok.token@ is Id && identifier_at(self.src@, self.pos as int) == Some(
                    (tok.token@->Id_0, tok.len as int),
                ),
                None => identifier_at(self.src@, self.pos as int) is None,
            },
    {
        match read_identifier(self.src.as_slice(), self.pos) {
            Some((from, to)) => Some(
                Token { token: TokenType::ID(copy_range(self.src.as_slice(), from, to)), len: to - self.pos },
            ),
            None => None,
        }
    }

    /// The label at the cursor: an identifier with `:` right after it.
    pub fn parse_label(&self) -> (r: Option<Token>)
        ensures
            match r {
                Some(tok) => tok.token@ is Label && label_at(self.src@, self.pos as int) == Some(
                    (tok.token@->Label_0, tok.len as int),
                ),
                None => label_at(self.src@, self.pos as int) is None,
            },
    {
        match read_label(self.src.as_slice(), self.pos) {
            Some((name, n)) => Some(Token { token: TokenType::LABEL(name), len: n }),
            None => None,
        }
    }

    /// The bit address at the cursor: a register name, `.` and a bit index.
    pub fn parse_bitaddr(&self) -> (r: Option<Token>)
        ensures
            match r {
                Some(tok) => tok.token@ is BitAddr && bit_address_at(self.src@, self.pos as int) == Some(
                    (tok.token@->BitAddr_0, tok.token@->BitAddr_1, tok.len as int),
                ),
                None => bit_address_at(self.src@, self.pos as int) is None,
            },
    {
        match read_bit_address(self.src.as_slice(), self.pos) {
            Some((sfr, bit, n)) => Some(Token { token: TokenType::BIT_ADDR(sfr, bit), len: n }),
            None => None,
        }
    }

    /// Moves the cursor past a comma that stands right at it, and says
    /// whether there was one.
    pub fn consume_comma(&mut self) -> (found: bool)
        ensures
            final(self).src@ == old(self).src@,
            found == (old(self).pos < old(self).src@.len() && old(self).src@[old(self).pos as int] == COMMA),
            final(self).pos == if found {
                old(self).pos + 1
            } else {
                old(self).pos as int
            },
    {
        if self.pos < self.src.len() && self.src[self.pos] == COMMA {
            self.pos = self.pos + 1;
            true
        } else {
            false
        }
    }

    /// Moves the cursor past all whitespace at it, line breaks too, and says
    /// whether there was any.
    pub fn consume_newlines(&mut self) -> (found: bool)
        ensures
            final(self).src@ == old(self).src@,
            final(self).pos == run_end(old(self).src@, old(self).pos as int, CharClass::Space),
            found == (final(self).pos > old(self).pos),
    {
        let end = scan(self.src.as_slice(), self.pos, CharClass::Space);
        let found = end > self.pos;
        self.pos = end;
        found
    }
}

} // verus!
