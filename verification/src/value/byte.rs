//! Byte-group values: the named width classes of one, two, four, eight and
//! sixteen bytes, the eight-byte machine word, and the general group of any
//! other width.

use vstd::prelude::*;
use crate::parse::{Parsed, parse_slice};
use crate::encoding::{be_value, be_decode, be_encode, pow256, lemma_be_value_bound};
use crate::model::{ValueV, value_raw, bytes_of_raw};
use crate::types::concept::Type;
use crate::types::primitive::Primitive;
use crate::value::concept::{DataValue, ValueCell, bytes_view};

verus! {

/// A single byte.
#[derive(Clone, Copy, Debug)]
pub struct Byte(pub u8);

impl Byte {
    pub fn new(from: u8) -> (r: Self)
        ensures
            r@ == ValueV::Byte(from),
    {
        Byte(from)
    }

    pub fn get(&self) -> (r: u8)
        ensures
            r == self@->Byte_0,
    {
        self.0
    }

    /// Reads a byte from a one-byte buffer.
    pub fn from_raw(raw: &[u8]) -> (r: Self)
        requires
            raw@.len() == 1,
        ensures
            r@ == ValueV::Byte(raw@[0]),
    {
        Byte(raw[0])
    }
}

impl View for Byte {
    type V = ValueV;

    open spec fn view(&self) -> ValueV {
        ValueV::Byte(self.0)
    }
}

impl DataValue for Byte {
    fn set(&mut self, raw: &[u8])
        ensures
            final(self)@ == (ValueV::Byte(raw@[0])),
    {
        *self = Self::from_raw(raw);
    }

    fn data_type(&self) -> (t: Type) {
        Primitive::Byte.to_rc()
    }

    fn raw(&self) -> (r: Vec<u8>) {
        be_encode(self.0 as u128, 1)
    }
}

/// A two-byte group.
#[derive(Clone, Copy, Debug)]
pub struct Word(pub u16);

impl Word {
    pub fn new(from: u16) -> (r: Self)
        ensures
            r@ == ValueV::Word(from),
    {
        Word(from)
    }

    pub fn get(&self) -> (r: u16)
        ensures
            r == self@->Word_0,
    {
        self.0
    }

    /// Reads a word from a two-byte big-endian buffer.
    pub fn from_raw(raw: &[u8]) -> (r: Self)
        requires
            raw@.len() == 2,
        ensures
            r@ == ValueV::Word(be_value(raw@) as u16),
    {
        proof {
            lemma_be_value_bound(raw@);
            assert(pow256(2) == 0x10000) by {
                reveal_with_fuel(pow256, 3);
            }
        }
        Word(be_decode(raw) as u16)
    }
}

impl View for Word {
    type V = ValueV;

    open spec fn view(&self) -> ValueV {
        ValueV::Word(self.0)
    }
}

impl DataValue for Word {
    fn set(&mut self, raw: &[u8])
        ensures
            final(self)@ == (ValueV::Word(be_value(raw@) as u16)),
    {
        *self = Self::from_raw(raw);
    }

    fn data_type(&self) -> (t: Type) {
        Primitive::Bytes(2).to_rc()
    }

    fn raw(&self) -> (r: Vec<u8>) {
        be_encode(self.0 as u128, 2)
    }
}

/// A four-byte group.
#[derive(Clone, Copy, Debug)]
pub struct Quad(pub u32);

impl Quad {
    pub fn new(from: u32) -> (r: Self)
        ensures
            r@ == ValueV::Quad(from),
    {
        Quad(from)
    }

    pub fn get(&self) -> (r: u32)
        ensures
            r == self@->Quad_0,
    {
        self.0
    }

    /// Reads a quad from a four-byte big-endian buffer.
    pub fn from_raw(raw: &[u8]) -> (r: Self)
        requires
            raw@.len() == 4,
        ensures
            r@ == ValueV::Quad(be_value(raw@) as u32),
    {
        proof {
            lemma_be_value_bound(raw@);
            assert(pow256(4) == 0x100000000) by {
                reveal_with_fuel(pow256, 5);
            }
        }
        Quad(be_decode(raw) as u32)
    }
}

impl View for Quad {
    type V = ValueV;

    open spec fn view(&self) -> ValueV {
        ValueV::Quad(self.0)
    }
}

impl DataValue for Quad {
    fn set(&mut self, raw: &[u8])
        ensures
            final(self)@ == (ValueV::Quad(be_value(raw@) as u32)),
    {
        *self = Self::from_raw(raw);
    }

    fn data_type(&self) -> (t: Type) {
        Primitive::Bytes(4).to_rc()
    }

    fn raw(&self) -> (r: Vec<u8>) {
        be_encode(self.0 as u128, 4)
    }
}

/// An eight-byte group.
#[derive(Clone, Copy, Debug)]
pub struct Long(pub u64);

impl Long {
    pub fn new(from: u64) -> (r: Self)
        ensures
            r@ == ValueV::Long(from),
    {
        Long(from)
    }

    pub fn get(&self) -> (r: u64)
        ensures
            r == self@->Long_0,
    {
        self.0
    }

    /// Reads a long from an eight-byte big-endian buffer.
    pub fn from_raw(raw: &[u8]) -> (r: Self)
        requires
            raw@.len() == 8,
        ensures
            r@ == ValueV::Long(be_value(raw@) as u64),
    {
        proof {
            lemma_be_value_bound(raw@);
            assert(pow256(8) == 0x10000000000000000) by {
                reveal_with_fuel(pow256, 9);
            }
        }
        Long(be_decode(raw) as u64)
    }
}

impl View for Long {
    type V = ValueV;

    open spec fn view(&self) -> ValueV {
        ValueV::Long(self.0)
    }
}

impl DataValue for Long {
    fn set(&mut self, raw: &[u8])
        ensures
            final(self)@ == (ValueV::Long(be_value(raw@) as u64)),
    {
        *self = Self::from_raw(raw);
    }

    fn data_type(&self) -> (t: Type) {
        Primitive::Bytes(8).to_rc()
    }

    fn raw(&self) -> (r: Vec<u8>) {
        be_encode(self.0 as u128, 8)
    }
}

/// A sixteen-byte group.
#[derive(Clone, Copy, Debug)]
pub struct Wide(pub u128);

impl Wide {
    pub fn new(from: u128) -> (r: Self)
        ensures
            r@ == ValueV::Wide(from),
    {
        Wide(from)
    }

    pub fn get(&self) -> (r: u128)
        ensures
            r == self@->Wide_0,
    {
        self.0
    }

    /// Reads a wide from a sixteen-byte big-endian buffer.
    pub fn from_raw(raw: &[u8]) -> (r: Self)
        requires
            raw@.len() == 16,
        ensures
            r@ == ValueV::Wide(be_value(raw@) as u128),
    {
        proof {
            lemma_be_value_bound(raw@);
        }
        Wide(be_decode(raw))
    }
}

impl View for Wide {
    type V = ValueV;

    open spec fn view(&self) -> ValueV {
        ValueV::Wide(self.0)
    }
}

impl DataValue for Wide {
    fn set(&mut self, raw: &[u8])
        ensures
            final(self)@ == (ValueV::Wide(be_value(raw@) as u128)),
    {
        *self = Self::from_raw(raw);
    }

    fn data_type(&self) -> (t: Type) {
        Primitive::Bytes(16).to_rc()
    }

    fn raw(&self) -> (r: Vec<u8>) {
        be_encode(self.0, 16)
    }
}

/// The machine word: this library lays it out as eight bytes everywhere.
#[derive(Clone, Copy, Debug)]
pub struct Arch(pub u64);

impl Arch {
    pub fn new(from: u64) -> (r: Self)
        ensures
            r@ == ValueV::Arch(from),
    {
        Arch(from)
    }

    /// The width of the machine word this library models.
    pub fn size_of() -> (r: usize)
        ensures
            r == 8,
    {
        8
    }

    pub fn get(&self) -> (r: u64)
        ensures
            r == self@->Arch_0,
    {
        self.0
    }

    /// Reads a machine word from an eight-byte big-endian buffer.
    pub fn from_raw(raw: &[u8]) -> (r: Self)
        requires
            raw@.len() == 8,
        ensures
            r@ == ValueV::Arch(be_value(raw@) as u64),
    {
        proof {
            lemma_be_value_bound(raw@);
            assert(pow256(8) == 0x10000000000000000) by {
                reveal_with_fuel(pow256, 9);
            }
        }
        Arch(be_decode(raw) as u64)
    }
}

impl View for Arch {
    type V = ValueV;

    open spec fn view(&self) -> ValueV {
        ValueV::Arch(self.0)
    }
}

impl DataValue for Arch {
    fn set(&mut self, raw: &[u8])
        ensures
            final(self)@ == (ValueV::Arch(be_value(raw@) as u64)),
    {
        *self = Self::from_raw(raw);
    }

    fn data_type(&self) -> (t: Type) {
        Primitive::Bytes(8).to_rc()
    }

    fn raw(&self) -> (r: Vec<u8>) {
        be_encode(self.0 as u128, 8)
    }
}

/// A byte group of any width.
#[derive(Debug)]
pub enum Bytes {
    Byte(Byte),
    Word(Word),
    Quad(Quad),
    Long(Long),
    Wide(Wide),
    Arch(Arch),
    /// The general group: its bytes and its width, which always agree.
    Bytes(Vec<u8>, usize),
}

impl View for Bytes {
    type V = ValueV;

    open spec fn view(&self) -> ValueV {
        bytes_view(*self)
    }
}

/// The error of reading a machine word from a buffer of the wrong width.
#[derive(Debug)]
pub struct CannotCreateArchWithGivenSize(pub usize);

impl Bytes {
    /// Parses a byte group of the given width off the front of the input.
    pub fn parse(input: &[u8], size: usize) -> (r: Parsed<Self>)
        ensures
            match r.0 {
                Some(b) => input@.len() >= size && b@ == bytes_of_raw(input@.take(size as int))
                    && r.1@ == input@.skip(size as int),
                None => input@.len() < size && r.1@ == input@,
            },
    {
        let (head, rest) = parse_slice(input, size);
        match head {
            Some(raw) => (Some(Self::from_raw(raw)), rest),
            None => (None, input),
        }
    }

    /// Reads a machine word from a buffer, failing on any width but eight.
    pub fn try_from_arch(raw: &[u8]) -> (r: Result<Self, CannotCreateArchWithGivenSize>)
        ensures
            match r {
                Ok(b) => raw@.len() == 8 && b@ == ValueV::Arch(be_value(raw@) as u64),
                Err(e) => raw@.len() != 8 && e.0 == raw@.len(),
            },
    {
        if raw.len() == 8 {
            Ok(Bytes::Arch(Arch::from_raw(raw)))
        } else {
            Err(CannotCreateArchWithGivenSize(raw.len()))
        }
    }

    /// Wraps this group as a value handle.
    pub fn to_cell(self) -> (r: ValueCell)
        ensures
            r@ == self@,
    {
        ValueCell::Bytes(self)
    }

    /// The bytes of this group, identical to its raw image.
    pub fn get(&self) -> (r: Vec<u8>)
        ensures
            r@ == value_raw(self@),
    {
        self.raw()
    }

    /// Reads a group from a buffer of any width: the named classes for one,
    /// two, four, eight and sixteen bytes, the general group otherwise.
    pub fn from_raw(raw: &[u8]) -> (r: Self)
        ensures
            r@ == bytes_of_raw(raw@),
    {
        if raw.len() == 8 {
            Bytes::Arch(Arch::from_raw(raw))
        } else if raw.len() == 1 {
            Bytes::Byte(Byte::from_raw(raw))
        } else if raw.len() == 2 {
            Bytes::Word(Word::from_raw(raw))
        } else if raw.len() == 4 {
            Bytes::Quad(Quad::from_raw(raw))
        } else if raw.len() == 16 {
            Bytes::Wide(Wide::from_raw(raw))
        } else {
            let mut data: Vec<u8> = Vec::new();
            let mut i: usize = 0;
            while i < raw.len()
                invariant
                    i <= raw@.len(),
                    data@ == raw@.take(i as int),
                decreases raw@.len() - i,
            {
                data.push(raw[i]);
                proof {
                    assert(data@ =~= raw@.take(i as int + 1));
                }
                i = i + 1;
            }
            let width = data.len();
            proof {
                assert(raw@.take(raw@.len() as int) =~= raw@);
            }
            Bytes::Bytes(data, width)
        }
    }
}

impl Clone for Bytes {
    fn clone(&self) -> (r: Self)
        ensures
            r@ == self@,
    {
        match self {
            Bytes::Byte(x) => Bytes::Byte(*x),
            Bytes::Word(x) => Bytes::Word(*x),
            Bytes::Quad(x) => Bytes::Quad(*x),
            Bytes::Long(x) => Bytes::Long(*x),
            Bytes::Wide(x) => Bytes::Wide(*x),
            Bytes::Arch(x) => Bytes::Arch(*x),
            Bytes::Bytes(data, width) => {
                let mut copy: Vec<u8> = Vec::new();
                let mut i: usize = 0;
                while i < data.len()
                    invariant
                        i <= data@.len(),
                        copy@ == data@.take(i as int),
                    decreases data@.len() - i,
                {
                    copy.push(data[i]);
                    proof {
                        assert(copy@ =~= data@.take(i as int + 1));
                    }
                    i = i + 1;
                }
                proof {
                    assert(data@.take(data@.len() as int) =~= data@);
                }
                Bytes::Bytes(copy, *width)
            },
        }
    }
}

impl DataValue for Bytes {
    fn set(&mut self, raw: &[u8])
        ensures
            final(self)@ == bytes_of_raw(raw@),
    {
        *self = Self::from_raw(raw);
    }

    fn data_type(&self) -> (t: Type) {
        match self {
            Bytes::Byte(_) => Primitive::Byte,
            Bytes::Arch(_) => Primitive::Bytes(8),
            Bytes::Word(_) => Primitive::Bytes(2),
            Bytes::Quad(_) => Primitive::Bytes(4),
            Bytes::Long(_) => Primitive::Bytes(8),
            Bytes::Wide(_) => Primitive::Bytes(16),
            Bytes::Bytes(_, l) => Primitive::Bytes(*l),
        }.to_rc()
    }

    fn raw(&self) -> (r: Vec<u8>) {
        match self {
            Bytes::Byte(b) => b.raw(),
            Bytes::Arch(a) => a.raw(),
            Bytes::Word(w) => w.raw(),
            Bytes::Quad(q) => q.raw(),
            Bytes::Long(l) => l.raw(),
            Bytes::Wide(w) => w.raw(),
            Bytes::Bytes(b, _) => {
                let mut copy: Vec<u8> = Vec::new();
                let mut i: usize = 0;
                while i < b.len()
                    invariant
                        i <= b@.len(),
                        copy@ == b@.take(i as int),
                    decreases b@.len() - i,
                {
                    copy.push(b[i]);
                    proof {
                        assert(copy@ =~= b@.take(i as int + 1));
                    }
                    i = i + 1;
                }
                proof {
                    assert(b@.take(b@.len() as int) =~= b@);
                }
                copy
            },
        }
    }
}

} // verus!
