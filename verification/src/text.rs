use vstd::prelude::*;

verus! {

/// `$`, the marker that ends a program.
pub const END_MARKER: u8 = 0x24;

/// `^`, the marker that starts a program.
pub const START_MARKER: u8 = 0x5E;

/// `#`, which introduces an immediate value.
pub const HASH: u8 = 0x23;

/// `@`, which introduces an indirect register.
pub const AT_SIGN: u8 = 0x40;

/// `,`, which separates operands.
pub const COMMA: u8 = 0x2C;

/// `:`, which ends a label.
pub const COLON: u8 = 0x3A;

/// `.`, which separates a register from a bit index.
pub const DOT: u8 = 0x2E;

/// `/`, which complements a bit operand.
pub const SLASH: u8 = 0x2F;

/// The line feed.
pub const LINE_FEED: u8 = 0x0A;

/// `H`, which ends a hexadecimal literal.
pub const HEX_SUFFIX: u8 = 0x48;

/// The digit `0`.
pub const DIGIT_ZERO: u8 = 0x30;

/// The digit `7`, the highest bit index.
pub const DIGIT_SEVEN: u8 = 0x37;

/// The classes of bytes that the lexer scans runs of.
#[derive(Clone, Copy, Debug, PartialEq, Eq, Structural)]
pub enum CharClass {
    /// Space, tab and form feed: whitespace that does not end a line.
    Blank,
    /// Any ASCII whitespace, line breaks among it.
    Space,
    /// The hexadecimal digits `0` to `9` and `A` to `F`.
    Hex,
    /// ASCII letters and decimal digits.
    Alnum,
}

/// Space, tab or form feed.
pub open spec fn is_blank(b: u8) -> bool {
    b == 0x20 || b == 0x09 || b == 0x0C
}

/// Line feed or carriage return.
pub open spec fn is_line_break(b: u8) -> bool {
    b == 0x0A || b == 0x0D
}

/// An ASCII letter.
pub open spec fn is_letter(b: u8) -> bool {
    (0x41 <= b <= 0x5A) || (0x61 <= b <= 0x7A)
}

/// A decimal digit.
pub open spec fn is_decimal_digit(b: u8) -> bool {
    0x30 <= b <= 0x39
}

/// A hexadecimal digit: a decimal digit or an upper-case letter `A` to `F`.
pub open spec fn is_hex_digit(b: u8) -> bool {
    is_decimal_digit(b) || (0x41 <= b <= 0x46)
}

/// The number a hexadecimal digit stands for.
pub open spec fn hex_digit_value(b: u8) -> nat {
    if is_decimal_digit(b) {
        (b - 0x30) as nat
    } else {
        (b - 0x41 + 10) as nat
    }
}

/// The number that a string of hexadecimal digits stands for.
pub open spec fn hex_value(digits: Seq<u8>) -> nat
    decreases digits.len(),
{
    if digits.len() == 0 {
        0
    } else {
        hex_value(digits.drop_last()) * 16 + hex_digit_value(digits.last())
    }
}

impl CharClass {
    /// Whether a byte belongs to the class.
    pub open spec fn holds(self, b: u8) -> bool {
        match self {
            CharClass::Blank => is_blank(b),
            CharClass::Space => is_blank(b) || is_line_break(b),
            CharClass::Hex => is_hex_digit(b),
            CharClass::Alnum => is_letter(b) || is_decimal_digit(b),
        }
    }

    /// Whether a byte belongs to the class.
    pub fn matches(&self, b: u8) -> (r: bool)
        ensures
            r == self.holds(b),
    {
        match self {
            CharClass::Blank => blank(b),
            CharClass::Space => blank(b) || line_break(b),
            CharClass::Hex => hex_digit(b),
            CharClass::Alnum => letter(b) || decimal_digit(b),
        }
    }
}

/// Where the run of bytes of one class that starts at `pos` ends: the first
/// position from `pos` on that holds a byte outside the class, or the end of
/// the text. A position outside the text is its own run end.
pub open spec fn run_end(text: Seq<u8>, pos: int, class: CharClass) -> int
    decreases text.len() - pos,
{
    if 0 <= pos < text.len() && class.holds(text[pos]) {
        run_end(text, pos + 1, class)
    } else {
        pos
    }
}

/// A run ends at or after its start and inside the text, every byte of the
/// run belongs to the class, and the byte after the run does not.
pub proof fn lemma_run_end(text: Seq<u8>, pos: int, class: CharClass)
    ensures
        pos <= run_end(text, pos, class),
        0 <= pos <= text.len() ==> run_end(text, pos, class) <= text.len(),
        !(0 <= pos < text.len()) ==> run_end(text, pos, class) == pos,
        forall|i: int| pos <= i < run_end(text, pos, class) ==> class.holds(#[trigger] text[i]),
        0 <= run_end(text, pos, class) < text.len() ==> !class.holds(text[run_end(text, pos, class)]),
    decreases text.len() - pos,
{
    if 0 <= pos < text.len() && class.holds(text[pos]) {
        lemma_run_end(text, pos + 1, class);
    }
}

/// Space, tab or form feed.
pub fn blank(b: u8) -> (r: bool)
    ensures
        r == is_blank(b),
{
    b == 0x20 || b == 0x09 || b == 0x0C
}

/// Line feed or carriage return.
pub fn line_break(b: u8) -> (r: bool)
    ensures
        r == is_line_break(b),
{
    b == 0x0A || b == 0x0D
}

/// An ASCII letter.
pub fn letter(b: u8) -> (r: bool)
    ensures
        r == is_letter(b),
{
    (0x41 <= b && b <= 0x5A) || (0x61 <= b && b <= 0x7A)
}

/// A decimal digit.
pub fn decimal_digit(b: u8) -> (r: bool)
    ensures
        r == is_decimal_digit(b),
{
    0x30 <= b && b <= 0x39
}

/// A hexadecimal digit.
pub fn hex_digit(b: u8) -> (r: bool)
    ensures
        r == is_hex_digit(b),
{
    decimal_digit(b) || (0x41 <= b && b <= 0x46)
}

/// Whether two byte strings are equal.
pub fn bytes_eq(a: &[u8], b: &[u8]) -> (r: bool)
    ensures
        r == (a@ == b@),
{
    if a.len() != b.len() {
        return false;
    }
    let mut i: usize = 0;
    while i < a.len()
        invariant
            a@.len() == b@.len(),
            i <= a@.len(),
            forall|j: int| 0 <= j < i ==> a@[j] == b@[j],
        decreases a@.len() - i,
    {
        if a[i] != b[i] {
            return false;
        }
        i += 1;
    }
    assert(a@ =~= b@);
    true
}

/// The end of the run of bytes of one class that starts at `pos`.
pub fn scan(text: &[u8], pos: usize, class: CharClass) -> (end: usize)
    ensures
        end == run_end(text@, pos as int, class),
        pos <= end,
        pos <= text@.len() ==> end <= text@.len(),
{
    let mut i: usize = pos;
    while i < text.len() && class.matches(text[i])
        invariant
            pos <= i,
            pos <= text@.len() ==> i <= text@.len(),
            run_end(text@, i as int, class) == run_end(text@, pos as int, class),
        decreases text@.len() - i,
    {
        i += 1;
    }
    i
}

/// The bytes of `text` from `start` up to `end`, copied.
pub fn copy_range(text: &[u8], start: usize, end: usize) -> (out: Vec<u8>)
    requires
        start <= end <= text@.len(),
    ensures
        out@ == text@.subrange(start as int, end as int),
{
    let mut out: Vec<u8> = Vec::new();
    let mut i: usize = start;
    while i < end
        invariant
            start <= i <= end <= text@.len(),
            out@ == text@.subrange(start as int, i as int),
        decreases end - i,
    {
        out.push(text[i]);
        assert(out@ =~= text@.subrange(start as int, i + 1));
        i += 1;
    }
    out
}

/// The number that the hexadecimal digits from `start` up to `end` stand
/// for, reduced to sixteen bits.
pub fn hex_number(text: &[u8], start: usize, end: usize) -> (num: u16)
    requires
        start <= end <= text@.len(),
        forall|i: int| start <= i < end ==> is_hex_digit(#[trigger] text@[i]),
    ensures
        num == hex_value(text@.subrange(start as int, end as int)) % 0x10000,
{
    let mut num: u16 = 0;
    let mut i: usize = start;
    assert(text@.subrange(start as int, start as int).len() == 0);
    while i < end
        invariant
            start <= i <= end <= text@.len(),
            forall|j: int| start <= j < end ==> is_hex_digit(#[trigger] text@[j]),
            num == hex_value(text@.subrange(start as int, i as int)) % 0x10000,
        decreases end - i,
    {
        let b = text[i];
        let digit: u16 = if decimal_digit(b) {
            (b - 0x30) as u16
        } else {
            (b - 0x41 + 10) as u16
        };
        proof {
            let before = text@.subrange(start as int, i as int);
            let now = text@.subrange(start as int, i + 1);
            assert(now.drop_last() =~= before);
            assert(now.last() == b);
            assert(is_hex_digit(text@[i as int]));
            assert(digit == hex_digit_value(b));
            let v = hex_value(before);
            assert(hex_value(now) == v * 16 + digit);
            assert(((v % 0x10000) % 0x1000) * 16 + digit == (v * 16 + digit) % 0x10000) by {
                let q = v / 0x10000;
                let r = v % 0x10000;
                let q2 = r / 0x1000;
                let r2 = r % 0x1000;
                assert(v == 0x10000 * q + r);
                assert(r == 0x1000 * q2 + r2);
                assert(v * 16 + digit == 0x10000 * (16 * q + q2) + (r2 * 16 + digit));
                assert(0 <= r2 * 16 + digit < 0x10000);
                vstd::arithmetic::div_mod::lemma_fundamental_div_mod_converse(
                    v * 16 + digit as int,
                    0x10000,
                    16 * q + q2 as int,
                    r2 * 16 + digit as int,
                );
            }
        }
        num = (num % 0x1000) * 16 + digit;
        i += 1;
    }
    num
}

} // verus!
