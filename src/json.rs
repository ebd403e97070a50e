//! A writer of JSON text, built value by value.
//!
//! The writer keeps a stack of the containers being written and puts the separators (`,`
//! between items, `:` between a key and its value) where they belong. Its output is a buffer of
//! bytes, which the caller writes wherever it wants.
use vstd::prelude::*;
use vstd::string::StringSliceAdditionalSpecFns;

verus! {

/// What the next item of an object is.
#[derive(Clone, Copy, Debug, PartialEq, Eq, Structural)]
pub enum ObjectItemNext {
    /// The first key.
    FirstKey,
    /// A key after a value.
    Key,
    /// The value of the last key.
    Value,
}

/// One level of the container stack.
#[derive(Clone, Copy, Debug, PartialEq, Eq, Structural)]
pub enum StackItem {
    /// The top level, which holds one value.
    Root,
    /// Inside an array; `first` until an item is written.
    ArrayItem { first: bool },
    /// Inside an object.
    ObjectItem { next: ObjectItemNext },
}

/// The separator written before a value at the top of `stack`, and the new top item.
pub open spec fn value_prefix(top: StackItem) -> (Seq<u8>, StackItem) {
    match top {
        StackItem::Root => (Seq::empty(), StackItem::Root),
        StackItem::ArrayItem { first } => if first {
            (Seq::empty(), StackItem::ArrayItem { first: false })
        } else {
            (seq![0x2cu8], StackItem::ArrayItem { first: false })
        },
        StackItem::ObjectItem { next } => match next {
            ObjectItemNext::FirstKey => (Seq::empty(), StackItem::ObjectItem { next: ObjectItemNext::Value }),
            ObjectItemNext::Key => (seq![0x2cu8], StackItem::ObjectItem { next: ObjectItemNext::Value }),
            ObjectItemNext::Value => (seq![0x3au8], StackItem::ObjectItem { next: ObjectItemNext::Key }),
        },
    }
}

/// The stack after a value was started: its top item updated.
pub open spec fn started(stack: Seq<StackItem>) -> Seq<StackItem> {
    stack.update(stack.len() - 1, value_prefix(stack.last()).1)
}

/// The stack after a value was finished: a finished top-level value leaves no room for another.
pub open spec fn finished(stack: Seq<StackItem>) -> Seq<StackItem> {
    if stack.len() > 0 && stack.last() == StackItem::Root {
        stack.drop_last()
    } else {
        stack
    }
}

/// The lowercase hexadecimal digit of `d`, which is below 16.
pub open spec fn hex_digit(d: u8) -> u8 {
    if d < 10 {
        (0x30u8 + d) as u8
    } else {
        (0x61u8 + d - 10) as u8
    }
}

/// The JSON form of one byte of a UTF-8 string: quotes, backslashes and control characters are
/// escaped, every other byte is kept.
pub open spec fn escape_byte(b: u8) -> Seq<u8> {
    if b == 0x22 {
        seq![0x5cu8, 0x22u8]
    } else if b == 0x5c {
        seq![0x5cu8, 0x5cu8]
    } else if b == 0x0a {
        seq![0x5cu8, 0x6eu8]
    } else if b == 0x0d {
        seq![0x5cu8, 0x72u8]
    } else if b == 0x09 {
        seq![0x5cu8, 0x74u8]
    } else if b == 0x08 {
        seq![0x5cu8, 0x62u8]
    } else if b == 0x0c {
        seq![0x5cu8, 0x66u8]
    } else if b < 0x20 || b == 0x7f {
        seq![0x5cu8, 0x75u8, 0x30u8, 0x30u8, hex_digit(b / 16), hex_digit(b % 16)]
    } else {
        seq![b]
    }
}

/// The JSON form of the UTF-8 bytes `s`, without the quotes.
pub open spec fn escaped(s: Seq<u8>) -> Seq<u8>
    decreases s.len(),
{
    if s.len() == 0 {
        Seq::empty()
    } else {
        escaped(s.drop_last()) + escape_byte(s.last())
    }
}

/// The decimal digits of `v`.
pub open spec fn decimal(v: nat) -> Seq<u8>
    decreases v,
{
    if v < 10 {
        seq![(0x30u8 + v) as u8]
    } else {
        decimal(v / 10) + seq![(0x30u8 + v % 10) as u8]
    }
}

/// Appends the JSON form of the bytes of `value` to `out`.
fn push_escaped(out: &mut Vec<u8>, value: &[u8])
    ensures
        final(out)@ == old(out)@ + escaped(value@),
{
    let mut i: usize = 0;
    while i < value.len()
        invariant
            i <= value@.len(),
            out@ == old(out)@ + escaped(value@.subrange(0, i as int)),
        decreases value@.len() - i,
    {
        let b = value[i];
        proof {
            assert(value@.subrange(0, i + 1).drop_last() =~= value@.subrange(0, i as int));
        }
        if b == 0x22 {
            out.push(0x5cu8);
            out.push(0x22u8);
        } else if b == 0x5c {
            out.push(0x5cu8);
            out.push(0x5cu8);
        } else if b == 0x0a {
            out.push(0x5cu8);
            out.push(0x6eu8);
        } else if b == 0x0d {
            out.push(0x5cu8);
            out.push(0x72u8);
        } else if b == 0x09 {
            out.push(0x5cu8);
            out.push(0x74u8);
        } else if b == 0x08 {
            out.push(0x5cu8);
            out.push(0x62u8);
        } else if b == 0x0c {
            out.push(0x5cu8);
            out.push(0x66u8);
        } else if b < 0x20 || b == 0x7f {
            out.push(0x5cu8);
            out.push(0x75u8);
            out.push(0x30u8);
            out.push(0x30u8);
            out.push(hex(b / 16));
            out.push(hex(b % 16));
        } else {
            out.push(b);
        }
        i = i + 1;
        proof {
            assert(out@ =~= old(out)@ + escaped(value@.subrange(0, i as int)));
        }
    }
    assert(value@.subrange(0, value@.len() as int) =~= value@);
}

/// The lowercase hexadecimal digit of `d`.
fn hex(d: u8) -> (r: u8)
    requires
        d < 16,
    ensures
        r == hex_digit(d),
{
    if d < 10 {
        0x30u8 + d
    } else {
        0x61u8 + d - 10
    }
}

/// Appends the decimal digits of `v` to `out`.
fn push_decimal(out: &mut Vec<u8>, v: u64)
    ensures
        final(out)@ == old(out)@ + decimal(v as nat),
    decreases v,
{
    if v >= 10 {
        push_decimal(out, v / 10);
    }
    out.push(0x30u8 + (v % 10) as u8);
    proof {
        if v < 10 {
            assert(decimal(v as nat) == seq![(0x30u8 + v) as u8]);
        }
        assert(out@ =~= old(out)@ + decimal(v as nat));
    }
}

/// Display a string as a JSON-escaped string.
pub struct JsonString<'a>(pub &'a str);

impl<'a> JsonString<'a> {
    /// The JSON form of the string, without the quotes.
    pub fn escaped(&self) -> (r: Vec<u8>)
        ensures
            r@ == escaped(self.0.spec_bytes()),
    {
        let mut out: Vec<u8> = Vec::new();
        push_escaped(&mut out, self.0.as_bytes());
        assert(out@ =~= escaped(self.0.spec_bytes()));
        out
    }
}

/// A writer that allows writing JSON data incrementally.
pub struct JsonWriter {
    writer: Vec<u8>,
    stack: Vec<StackItem>,
}

impl JsonWriter {
    /// The text written so far.
    pub closed spec fn output(&self) -> Seq<u8> {
        self.writer@
    }

    /// The containers being written, innermost last.
    pub closed spec fn stack(&self) -> Seq<StackItem> {
        self.stack@
    }

    /// Creates a new [`JsonWriter`] with no output, ready for one top-level value.
    pub fn new() -> (r: Self)
        ensures
            r.output() == Seq::<u8>::empty(),
            r.stack() == seq![StackItem::Root],
    {
        let mut stack: Vec<StackItem> = Vec::new();
        stack.push(StackItem::Root);
        JsonWriter { writer: Vec::new(), stack }
    }

    /// The text written so far.
    pub fn as_bytes(&self) -> (r: &[u8])
        ensures
            r@ == self.output(),
    {
        self.writer.as_slice()
    }

    /// Gives the text written back.
    pub fn into_inner(self) -> (r: Vec<u8>)
        ensures
            r@ == self.output(),
    {
        self.writer
    }

    /// True when a value may be written: the top-level value has not been written yet.
    pub fn accepts_value(&self) -> (r: bool)
        ensures
            r == (self.stack().len() > 0),
    {
        self.stack.len() > 0
    }

    /// True when the innermost container is an array.
    pub fn in_array(&self) -> (r: bool)
        ensures
            r == (self.stack().len() > 0 && self.stack().last() is ArrayItem),
    {
        let n = self.stack.len();
        n > 0 && match self.stack[n - 1] {
            StackItem::ArrayItem { .. } => true,
            _ => false,
        }
    }

    /// True when the innermost container is an object that does not wait for a value.
    pub fn can_end_object(&self) -> (r: bool)
        ensures
            r == (self.stack().len() > 0 && (self.stack().last() == StackItem::ObjectItem {
                next: ObjectItemNext::FirstKey,
            } || self.stack().last() == StackItem::ObjectItem { next: ObjectItemNext::Key })),
    {
        let n = self.stack.len();
        n > 0 && match self.stack[n - 1] {
            StackItem::ObjectItem { next: ObjectItemNext::FirstKey } => true,
            StackItem::ObjectItem { next: ObjectItemNext::Key } => true,
            _ => false,
        }
    }

    /// Start new JSON value: writes the separator that the innermost container needs.
    fn start_value(&mut self)
        requires
            old(self).stack().len() > 0,
        ensures
            final(self).output() == old(self).output() + value_prefix(old(self).stack().last()).0,
            final(self).stack() == started(old(self).stack()),
    {
        let n = self.stack.len();
        let top = self.stack[n - 1];
        let next = match top {
            StackItem::Root => StackItem::Root,
            StackItem::ArrayItem { first } => {
                if !first {
                    self.writer.push(0x2cu8);
                }
                StackItem::ArrayItem { first: false }
            },
            StackItem::ObjectItem { next } => match next {
                ObjectItemNext::FirstKey => StackItem::ObjectItem { next: ObjectItemNext::Value },
                ObjectItemNext::Key => {
                    self.writer.push(0x2cu8);
                    StackItem::ObjectItem { next: ObjectItemNext::Value }
                },
                ObjectItemNext::Value => {
                    self.writer.push(0x3au8);
                    StackItem::ObjectItem { next: ObjectItemNext::Key }
                },
            },
        };
        self.stack.set(n - 1, next);
        proof {
            assert(self.writer@ =~= old(self).output() + value_prefix(top).0);
        }
    }

    /// End current JSON value: after the top-level value, no other may follow.
    fn end_value(&mut self)
        ensures
            final(self).output() == old(self).output(),
            final(self).stack() == finished(old(self).stack()),
    {
        let n = self.stack.len();
        if n > 0 && self.stack[n - 1] == StackItem::Root {
            self.stack.pop();
        }
    }

    /// Open a new array.
    pub fn start_array(&mut self)
        requires
            old(self).stack().len() > 0,
        ensures
            final(self).output() == old(self).output() + value_prefix(old(self).stack().last()).0
                + seq![0x5bu8],
            final(self).stack() == started(old(self).stack()).push(
                StackItem::ArrayItem { first: true },
            ),
    {
        self.start_value();
        self.writer.push(0x5bu8);
        self.stack.push(StackItem::ArrayItem { first: true });
    }

    /// Close an array.
    pub fn end_array(&mut self)
        requires
            old(self).stack().len() > 0,
            old(self).stack().last() is ArrayItem,
        ensures
            final(self).output() == old(self).output() + seq![0x5du8],
            final(self).stack() == finished(old(self).stack().drop_last()),
    {
        self.stack.pop();
        self.writer.push(0x5du8);
        self.end_value();
    }

    /// Open a new object.
    pub fn start_object(&mut self)
        requires
            old(self).stack().len() > 0,
        ensures
            final(self).output() == old(self).output() + value_prefix(old(self).stack().last()).0
                + seq![0x7bu8],
            final(self).stack() == started(old(self).stack()).push(
                StackItem::ObjectItem { next: ObjectItemNext::FirstKey },
            ),
    {
        self.start_value();
        self.writer.push(0x7bu8);
        self.stack.push(StackItem::ObjectItem { next: ObjectItemNext::FirstKey });
    }

    /// Close an object, which must not wait for the value of a key.
    pub fn end_object(&mut self)
        requires
            old(self).stack().len() > 0,
            old(self).stack().last() == (StackItem::ObjectItem { next: ObjectItemNext::FirstKey })
                || old(self).stack().last() == (StackItem::ObjectItem { next: ObjectItemNext::Key }),
        ensures
            final(self).output() == old(self).output() + seq![0x7du8],
            final(self).stack() == finished(old(self).stack().drop_last()),
    {
        self.stack.pop();
        self.writer.push(0x7du8);
        self.end_value();
    }

    /// Write a key for the current object.
    pub fn write_key(&mut self, key: &str)
        requires
            old(self).stack().len() > 0,
        ensures
            final(self).output() == old(self).output() + value_prefix(old(self).stack().last()).0
                + seq![0x22u8] + escaped(key.spec_bytes()) + seq![0x22u8],
            final(self).stack() == finished(started(old(self).stack())),
    {
        self.write_str(key)
    }

    /// Write a string value.
    pub fn write_str(&mut self, value: &str)
        requires
            old(self).stack().len() > 0,
        ensures
            final(self).output() == old(self).output() + value_prefix(old(self).stack().last()).0
                + seq![0x22u8] + escaped(value.spec_bytes()) + seq![0x22u8],
            final(self).stack() == finished(started(old(self).stack())),
    {
        self.start_value();
        let ghost mid = self.writer@;
        self.writer.push(0x22u8);
        push_escaped(&mut self.writer, value.as_bytes());
        self.writer.push(0x22u8);
        proof {
            assert(self.writer@ =~= mid + seq![0x22u8] + escaped(value.spec_bytes()) + seq![0x22u8]);
        }
        self.end_value();
    }

    /// Write an unsigned integer value in decimal.
    pub fn write_u64(&mut self, value: u64)
        requires
            old(self).stack().len() > 0,
        ensures
            final(self).output() == old(self).output() + value_prefix(old(self).stack().last()).0
                + decimal(value as nat),
            final(self).stack() == finished(started(old(self).stack())),
    {
        self.start_value();
        push_decimal(&mut self.writer, value);
        self.end_value();
    }

    /// Write a signed integer value in decimal.
    pub fn write_i64(&mut self, value: i64)
        requires
            old(self).stack().len() > 0,
        ensures
            final(self).output() == old(self).output() + value_prefix(old(self).stack().last()).0
                + if value < 0 {
                seq![0x2du8] + decimal((-value) as nat)
            } else {
                decimal(value as nat)
            },
            final(self).stack() == finished(started(old(self).stack())),
    {
        self.start_value();
        let ghost mid = self.writer@;
        if value < 0 {
            self.writer.push(0x2du8);
            let magnitude: u64 = if value == i64::MIN {
                0x8000_0000_0000_0000
            } else {
                (-value) as u64
            };
            push_decimal(&mut self.writer, magnitude);
            proof {
                assert(self.writer@ =~= mid + (seq![0x2du8] + decimal((-value) as nat)));
            }
        } else {
            push_decimal(&mut self.writer, value as u64);
        }
        self.end_value();
    }

    /// Write a number already written in decimal notation, such as a floating-point value.
    pub fn write_number(&mut self, text: &str)
        requires
            old(self).stack().len() > 0,
        ensures
            final(self).output() == old(self).output() + value_prefix(old(self).stack().last()).0
                + text.spec_bytes(),
            final(self).stack() == finished(started(old(self).stack())),
    {
        self.start_value();
        let bytes = text.as_bytes();
        let ghost mid = self.writer@;
        let mut i: usize = 0;
        while i < bytes.len()
            invariant
                i <= bytes@.len(),
                bytes@ == text.spec_bytes(),
                self.writer@ == mid + bytes@.subrange(0, i as int),
                self.stack@ == started(old(self).stack()),
            decreases bytes@.len() - i,
        {
            self.writer.push(bytes[i]);
            i = i + 1;
            proof {
                assert(self.writer@ =~= mid + bytes@.subrange(0, i as int));
            }
        }
        assert(bytes@.subrange(0, bytes@.len() as int) =~= bytes@);
        self.end_value();
    }
}

} // verus!
