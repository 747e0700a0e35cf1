//! The scalar kinds that a relational column can hold.
use vstd::prelude::*;
use crate::error::{Error, ErrorView, ScalarKind};

verus! {

/// One column value.
///
/// `Real` holds the IEEE-754 binary64 bit pattern of the number. No
/// coercion happens inside this type; the serializer and the deserializer
/// decide every conversion.
#[derive(Debug, Clone, PartialEq, Eq)]
pub enum Cell {
    Integer(i64),
    Real(u64),
    Text(String),
    Blob(Vec<u8>),
    Null,
}

/// The mathematical content of a [`Cell`].
pub enum CellView {
    Integer(i64),
    Real(u64),
    Text(Seq<char>),
    Blob(Seq<u8>),
    Null,
}

impl View for Cell {
    type V = CellView;

    open spec fn view(&self) -> CellView {
        match self {
            Cell::Integer(i) => CellView::Integer(*i),
            Cell::Real(bits) => CellView::Real(*bits),
            Cell::Text(s) => CellView::Text(s@),
            Cell::Blob(b) => CellView::Blob(b@),
            Cell::Null => CellView::Null,
        }
    }
}

/// Tells whether the kind is one of the eight integer kinds.
pub open spec fn is_integer_kind(kind: ScalarKind) -> bool {
    kind is I8 || kind is I16 || kind is I32 || kind is I64 || kind is U8 || kind is U16
        || kind is U32 || kind is U64
}

/// The least number of an integer kind.
pub open spec fn kind_min(kind: ScalarKind) -> int {
    match kind {
        ScalarKind::I8 => i8::MIN as int,
        ScalarKind::I16 => i16::MIN as int,
        ScalarKind::I32 => i32::MIN as int,
        ScalarKind::I64 => i64::MIN as int,
        _ => 0,
    }
}

/// The greatest number of an integer kind.
pub open spec fn kind_max(kind: ScalarKind) -> int {
    match kind {
        ScalarKind::I8 => i8::MAX as int,
        ScalarKind::I16 => i16::MAX as int,
        ScalarKind::I32 => i32::MAX as int,
        ScalarKind::I64 => i64::MAX as int,
        ScalarKind::U8 => u8::MAX as int,
        ScalarKind::U16 => u16::MAX as int,
        ScalarKind::U32 => u32::MAX as int,
        _ => u64::MAX as int,
    }
}

/// Tells whether a stored integer is a number of the given integer kind.
pub open spec fn fits(kind: ScalarKind, n: i64) -> bool {
    kind_min(kind) <= n <= kind_max(kind)
}

/// Makes the text that consists of one character.
///
/// Trusted: `String::from(char)` of the standard library is taken to
/// return the string whose only character is the argument.
#[verifier::external_body]
fn char_text(c: char) -> (r: String)
    ensures
        r@ == seq![c],
{
    String::from(c)
}

impl Cell {
    /// The cell of a boolean: the integer 1 for `true`, 0 for `false`.
    pub fn from_bool(b: bool) -> (r: Cell)
        ensures
            r@ == CellView::Integer(if b { 1i64 } else { 0i64 }),
    {
        if b {
            Cell::Integer(1)
        } else {
            Cell::Integer(0)
        }
    }

    /// The cell of a signed integer of any width, widened to 64 bits.
    pub fn from_signed(n: i64) -> (r: Cell)
        ensures
            r@ == CellView::Integer(n),
    {
        Cell::Integer(n)
    }

    /// The cell of an unsigned integer of any width, widened to 64 bits.
    /// A number above `i64::MAX` cannot be stored and is rejected, never
    /// wrapped or cut.
    pub fn from_unsigned(n: u64) -> (r: Result<Cell, Error>)
        ensures
            match r {
                Ok(cell) => n <= i64::MAX && cell@ == CellView::Integer(n as i64),
                Err(e) => n > i64::MAX && e@ == ErrorView::ValueTooLarge(n),
            },
    {
        if n > 0x7fff_ffff_ffff_ffffu64 {
            Err(Error::ValueTooLarge(n))
        } else {
            Ok(Cell::Integer(n as i64))
        }
    }

    /// The cell of a real number given by its binary64 bit pattern.
    pub fn from_real_bits(bits: u64) -> (r: Cell)
        ensures
            r@ == CellView::Real(bits),
    {
        Cell::Real(bits)
    }

    /// The cell of a single character: the text of that character.
    pub fn from_char(c: char) -> (r: Cell)
        ensures
            r@ == CellView::Text(seq![c]),
    {
        Cell::Text(char_text(c))
    }

    /// The cell of a string.
    pub fn from_text(text: &String) -> (r: Cell)
        ensures
            r@ == CellView::Text(text@),
    {
        Cell::Text(text.clone())
    }

    /// The cell of a byte sequence.
    pub fn from_bytes(bytes: &Vec<u8>) -> (r: Cell)
        ensures
            r@ == CellView::Blob(bytes@),
    {
        Cell::Blob(copy_bytes(bytes))
    }

    /// Reads a boolean: the integer 0 is `false`, the integer 1 is `true`,
    /// and every other cell is a mismatch.
    pub fn to_bool(&self) -> (r: Result<bool, Error>)
        ensures
            match r {
                Ok(b) => self@ == CellView::Integer(if b { 1i64 } else { 0i64 }),
                Err(e) => e@ == ErrorView::TypeMismatch(self@, ScalarKind::Bool) && self@
                    != CellView::Integer(0) && self@ != CellView::Integer(1),
            },
    {
        match self {
            Cell::Integer(0) => Ok(false),
            Cell::Integer(1) => Ok(true),
            _ => Err(Error::TypeMismatch(self.duplicate(), ScalarKind::Bool)),
        }
    }

    /// Reads an integer of the given kind: an integer cell whose number
    /// lies in the range of the kind. Every other cell is a mismatch, and
    /// so is every cell where the kind is no integer kind.
    pub fn to_integer(&self, kind: ScalarKind) -> (r: Result<i64, Error>)
        ensures
            match r {
                Ok(n) => is_integer_kind(kind) && self@ == CellView::Integer(n) && fits(kind, n),
                Err(e) => e@ == ErrorView::TypeMismatch(self@, kind) && !(is_integer_kind(kind)
                    && (self@ matches CellView::Integer(n) && fits(kind, n))),
            },
    {
        let (low, high): (i64, i64) = match kind {
            ScalarKind::I8 => (-0x80, 0x7f),
            ScalarKind::I16 => (-0x8000, 0x7fff),
            ScalarKind::I32 => (-0x8000_0000, 0x7fff_ffff),
            ScalarKind::I64 => (-0x8000_0000_0000_0000, 0x7fff_ffff_ffff_ffff),
            ScalarKind::U8 => (0, 0xff),
            ScalarKind::U16 => (0, 0xffff),
            ScalarKind::U32 => (0, 0xffff_ffff),
            ScalarKind::U64 => (0, 0x7fff_ffff_ffff_ffff),
            _ => {
                return Err(Error::TypeMismatch(self.duplicate(), kind));
            },
        };
        match self {
            Cell::Integer(n) => {
                if low <= *n && *n <= high {
                    Ok(*n)
                } else {
                    Err(Error::TypeMismatch(self.duplicate(), kind))
                }
            },
            _ => Err(Error::TypeMismatch(self.duplicate(), kind)),
        }
    }

    /// Reads an 8-bit signed integer: an integer cell whose number lies in
    /// the range of that type. Every other cell is a mismatch.
    pub fn to_i8(&self) -> (r: Result<i8, Error>)
        ensures
            match r {
                Ok(v) => self@ matches CellView::Integer(n) && n == v && fits(ScalarKind::I8, n),
                Err(e) => e@ == ErrorView::TypeMismatch(self@, ScalarKind::I8) && !(
                self@ matches CellView::Integer(n) && fits(ScalarKind::I8, n)),
            },
    {
        match self.to_integer(ScalarKind::I8) {
            Ok(n) => Ok(n as i8),
            Err(e) => Err(e),
        }
    }

    /// Reads a 16-bit signed integer: an integer cell whose number lies in
    /// the range of that type. Every other cell is a mismatch.
    pub fn to_i16(&self) -> (r: Result<i16, Error>)
        ensures
            match r {
                Ok(v) => self@ matches CellView::Integer(n) && n == v && fits(ScalarKind::I16, n),
                Err(e) => e@ == ErrorView::TypeMismatch(self@, ScalarKind::I16) && !(
                self@ matches CellView::Integer(n) && fits(ScalarKind::I16, n)),
            },
    {
        match self.to_integer(ScalarKind::I16) {
            Ok(n) => Ok(n as i16),
            Err(e) => Err(e),
        }
    }

    /// Reads a 32-bit signed integer: an integer cell whose number lies in
    /// the range of that type. Every other cell is a mismatch.
    pub fn to_i32(&self) -> (r: Result<i32, Error>)
        ensures
            match r {
                Ok(v) => self@ matches CellView::Integer(n) && n == v && fits(ScalarKind::I32, n),
                Err(e) => e@ == ErrorView::TypeMismatch(self@, ScalarKind::I32) && !(
                self@ matches CellView::Integer(n) && fits(ScalarKind::I32, n)),
            },
    {
        match self.to_integer(ScalarKind::I32) {
            Ok(n) => Ok(n as i32),
            Err(e) => Err(e),
        }
    }

    /// Reads a 64-bit signed integer: an integer cell whose number lies in
    /// the range of that type. Every other cell is a mismatch.
    pub fn to_i64(&self) -> (r: Result<i64, Error>)
        ensures
            match r {
                Ok(v) => self@ matches CellView::Integer(n) && n == v && fits(ScalarKind::I64, n),
                Err(e) => e@ == ErrorView::TypeMismatch(self@, ScalarKind::I64) && !(
                self@ matches CellView::Integer(n) && fits(ScalarKind::I64, n)),
            },
    {
        match self.to_integer(ScalarKind::I64) {
            Ok(n) => Ok(n),
            Err(e) => Err(e),
        }
    }

    /// Reads an 8-bit unsigned integer: an integer cell whose number lies in
    /// the range of that type. Every other cell is a mismatch. A negative number is a mismatch.
    pub fn to_u8(&self) -> (r: Result<u8, Error>)
        ensures
            match r {
                Ok(v) => self@ matches CellView::Integer(n) && n == v && fits(ScalarKind::U8, n),
                Err(e) => e@ == ErrorView::TypeMismatch(self@, ScalarKind::U8) && !(
                self@ matches CellView::Integer(n) && fits(ScalarKind::U8, n)),
            },
    {
        match self.to_integer(ScalarKind::U8) {
            Ok(n) => Ok(n as u8),
            Err(e) => Err(e),
        }
    }

    /// Reads a 16-bit unsigned integer: an integer cell whose number lies in
    /// the range of that type. Every other cell is a mismatch. A negative number is a mismatch.
    pub fn to_u16(&self) -> (r: Result<u16, Error>)
        ensures
            match r {
                Ok(v) => self@ matches CellView::Integer(n) && n == v && fits(ScalarKind::U16, n),
                Err(e) => e@ == ErrorView::TypeMismatch(self@, ScalarKind::U16) && !(
                self@ matches CellView::Integer(n) && fits(ScalarKind::U16, n)),
            },
    {
        match self.to_integer(ScalarKind::U16) {
            Ok(n) => Ok(n as u16),
            Err(e) => Err(e),
        }
    }

    /// Reads a 32-bit unsigned integer: an integer cell whose number lies in
    /// the range of that type. Every other cell is a mismatch. A negative number is a mismatch.
    pub fn to_u32(&self) -> (r: Result<u32, Error>)
        ensures
            match r {
                Ok(v) => self@ matches CellView::Integer(n) && n == v && fits(ScalarKind::U32, n),
                Err(e) => e@ == ErrorView::TypeMismatch(self@, ScalarKind::U32) && !(
                self@ matches CellView::Integer(n) && fits(ScalarKind::U32, n)),
            },
    {
        match self.to_integer(ScalarKind::U32) {
            Ok(n) => Ok(n as u32),
            Err(e) => Err(e),
        }
    }

    /// Reads a 64-bit unsigned integer: an integer cell whose number lies in
    /// the range of that type. Every other cell is a mismatch. A negative number is a mismatch.
    pub fn to_u64(&self) -> (r: Result<u64, Error>)
        ensures
            match r {
                Ok(v) => self@ matches CellView::Integer(n) && n == v && fits(ScalarKind::U64, n),
                Err(e) => e@ == ErrorView::TypeMismatch(self@, ScalarKind::U64) && !(
                self@ matches CellView::Integer(n) && fits(ScalarKind::U64, n)),
            },
    {
        match self.to_integer(ScalarKind::U64) {
            Ok(n) => Ok(n as u64),
            Err(e) => Err(e),
        }
    }

    /// Reads the bit pattern of a real number from a real cell. Every
    /// other cell is a mismatch.
    pub fn to_real_bits(&self) -> (r: Result<u64, Error>)
        ensures
            match r {
                Ok(bits) => self@ == CellView::Real(bits),
                Err(e) => e@ == ErrorView::TypeMismatch(self@, ScalarKind::Real)
                    && !(self@ is Real),
            },
    {
        match self {
            Cell::Real(bits) => Ok(*bits),
            _ => Err(Error::TypeMismatch(self.duplicate(), ScalarKind::Real)),
        }
    }

    /// Tells whether the cell is a text of exactly one character.
    pub(crate) fn holds_char(&self) -> (r: bool)
        ensures
            r == (self@ matches CellView::Text(s) && s.len() == 1),
    {
        match self {
            Cell::Text(s) => s.as_str().unicode_len() == 1,
            _ => false,
        }
    }

    /// The character of a text cell of exactly one character.
    pub(crate) fn first_char(&self) -> (r: char)
        requires
            self@ matches CellView::Text(s) && s.len() == 1,
        ensures
            self@ == CellView::Text(seq![r]),
    {
        match self {
            Cell::Text(s) => {
                let c = s.as_str().get_char(0);
                assert(s@ == seq![c]);
                c
            },
            _ => ' ',
        }
    }

    /// Reads a character from a text cell of exactly one character. Every
    /// other cell is a mismatch.
    pub fn to_char(&self) -> (r: Result<char, Error>)
        ensures
            match r {
                Ok(c) => self@ == CellView::Text(seq![c]),
                Err(e) => e@ == ErrorView::TypeMismatch(self@, ScalarKind::Char) && !(
                self@ matches CellView::Text(s) && s.len() == 1),
            },
    {
        if self.holds_char() {
            Ok(self.first_char())
        } else {
            Err(Error::TypeMismatch(self.duplicate(), ScalarKind::Char))
        }
    }

    /// Reads a string from a text cell. Every other cell is a mismatch.
    pub fn to_text(&self) -> (r: Result<String, Error>)
        ensures
            match r {
                Ok(s) => self@ == CellView::Text(s@),
                Err(e) => e@ == ErrorView::TypeMismatch(self@, ScalarKind::Text)
                    && !(self@ is Text),
            },
    {
        match self {
            Cell::Text(s) => Ok(s.clone()),
            _ => Err(Error::TypeMismatch(self.duplicate(), ScalarKind::Text)),
        }
    }

    /// Reads a byte sequence from a blob cell. Every other cell is a
    /// mismatch.
    pub fn to_bytes(&self) -> (r: Result<Vec<u8>, Error>)
        ensures
            match r {
                Ok(b) => self@ == CellView::Blob(b@),
                Err(e) => e@ == ErrorView::TypeMismatch(self@, ScalarKind::Bytes)
                    && !(self@ is Blob),
            },
    {
        match self {
            Cell::Blob(b) => Ok(copy_bytes(b)),
            _ => Err(Error::TypeMismatch(self.duplicate(), ScalarKind::Bytes)),
        }
    }

    /// Makes an independent cell with the same content.
    pub fn duplicate(&self) -> (r: Cell)
        ensures
            r@ == self@,
    {
        match self {
            Cell::Integer(i) => Cell::Integer(*i),
            Cell::Real(bits) => Cell::Real(*bits),
            Cell::Text(s) => Cell::Text(s.clone()),
            Cell::Blob(b) => Cell::Blob(copy_bytes(b)),
            Cell::Null => Cell::Null,
        }
    }

    /// Tells whether the cell is `Null`.
    pub fn is_null(&self) -> (r: bool)
        ensures
            r == (self@ is Null),
    {
        match self {
            Cell::Null => true,
            _ => false,
        }
    }
}

/// Copies a byte sequence.
pub fn copy_bytes(bytes: &Vec<u8>) -> (r: Vec<u8>)
    ensures
        r@ == bytes@,
{
    let mut out: Vec<u8> = Vec::new();
    let mut i: usize = 0;
    while i < bytes.len()
        invariant
            i <= bytes.len(),
            out@ == bytes@.take(i as int),
        decreases bytes.len() - i,
    {
        out.push(bytes[i]);
        i += 1;
        assert(out@ == bytes@.take(i as int));
    }
    assert(bytes@.take(bytes.len() as int) == bytes@);
    out
}

/// A cell together with the logical name it was produced under.
///
/// The name is present for a cell that came from a field of a record or
/// from an entry of a mapping, and absent in positional contexts.
#[derive(Debug, Clone, PartialEq, Eq)]
pub struct NamedCell {
    pub name: Option<String>,
    pub cell: Cell,
}

/// The mathematical content of a [`NamedCell`].
pub struct NamedCellView {
    pub name: Option<Seq<char>>,
    pub cell: CellView,
}

impl View for NamedCell {
    type V = NamedCellView;

    open spec fn view(&self) -> NamedCellView {
        NamedCellView {
            name: match self.name {
                Some(n) => Some(n@),
                None => None,
            },
            cell: self.cell@,
        }
    }
}

/// The contents of the cells of a sequence, in order.
pub open spec fn cell_views(cells: Seq<Cell>) -> Seq<CellView> {
    Seq::new(cells.len(), |i: int| cells[i]@)
}

/// The contents of the named cells of a sequence, in order.
pub open spec fn named_cell_views(cells: Seq<NamedCell>) -> Seq<NamedCellView> {
    Seq::new(cells.len(), |i: int| cells[i]@)
}

} // verus!
