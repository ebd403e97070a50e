//! PackBits decompression (Apple Technical Note 1023).
//!
//! A packed stream is a sequence of runs, each introduced by a header byte `n` read as a signed
//! byte: `0..=127` copies the next `n + 1` bytes, `-127..=-1` repeats the next byte `1 - n`
//! times, and `-128` is skipped. The end of the data between two runs ends the stream; an end
//! inside a run is an error.
use vstd::prelude::*;

use crate::error::{err, Error, ErrorKind};

verus! {

/// `count` copies of `b`.
pub open spec fn repeated(b: u8, count: nat) -> Seq<u8> {
    Seq::new(count, |i: int| b)
}

/// The bytes that the packed stream `s` unpacks to, and whether it ends inside a run.
pub open spec fn unpacked(s: Seq<u8>) -> (Seq<u8>, bool)
    decreases s.len(),
{
    if s.len() == 0 {
        (Seq::empty(), false)
    } else if s[0] == 0x80 {
        unpacked(s.drop_first())
    } else if s[0] > 0x80 {
        if s.len() < 2 {
            (Seq::empty(), true)
        } else {
            let (out, failed) = unpacked(s.subrange(2, s.len() as int));
            (repeated(s[1], (257 - s[0]) as nat) + out, failed)
        }
    } else {
        let count = s[0] + 1;
        let t = s.drop_first();
        if t.len() < count {
            (t, true)
        } else {
            let (out, failed) = unpacked(t.subrange(count as int, t.len() as int));
            (t.subrange(0, count as int) + out, failed)
        }
    }
}

/// Where the decoder stands between two reads.
#[derive(Clone, Copy, Debug, PartialEq, Eq, Structural)]
pub enum ReaderState {
    /// At a header byte.
    Start,
    /// Inside a run of `count` more copies of `data`.
    Repeat { count: u8, data: u8 },
    /// Inside a run of `count` more bytes to copy.
    Literal { count: u8 },
}

/// The bytes still to come from a decoder in `state` whose unread input is `input`, and
/// whether the stream ends inside a run.
pub open spec fn pending(state: ReaderState, input: Seq<u8>) -> (Seq<u8>, bool) {
    match state {
        ReaderState::Start => unpacked(input),
        ReaderState::Repeat { count, data } => {
            let (out, failed) = unpacked(input);
            (repeated(data, count as nat) + out, failed)
        },
        ReaderState::Literal { count } => if input.len() < count {
            (input, true)
        } else {
            let (out, failed) = unpacked(input.subrange(count as int, input.len() as int));
            (input.subrange(0, count as int) + out, failed)
        },
    }
}

/// PackBits decoder over packed bytes.
pub struct PackBitsReader {
    inner: Vec<u8>,
    pos: usize,
    state: ReaderState,
}

impl PackBitsReader {
    /// The bytes still to come, and whether the stream ends inside a run.
    pub closed spec fn remaining(&self) -> (Seq<u8>, bool) {
        pending(self.state, self.inner@.subrange(self.pos as int, self.inner@.len() as int))
    }

    #[verifier::type_invariant]
    spec fn inv(&self) -> bool {
        &&& self.pos <= self.inner@.len()
        &&& match self.state {
            ReaderState::Start => true,
            ReaderState::Repeat { count, data } => count > 0,
            ReaderState::Literal { count } => count > 0,
        }
    }

    /// Creates a new [`PackBitsReader`] over the given packed bytes.
    pub fn new(reader: Vec<u8>) -> (r: Self)
        ensures
            r.remaining() == unpacked(reader@),
    {
        let r = PackBitsReader { inner: reader, pos: 0, state: ReaderState::Start };
        assert(reader@.subrange(0, reader@.len() as int) =~= reader@);
        r
    }

    /// The measure that every step decreases: unread input bytes, plus one for a pending run.
    pub closed spec fn progress(&self) -> nat {
        ((self.inner@.len() - self.pos) * 2 + match self.state {
            ReaderState::Start => 0int,
            _ => 1int,
        }) as nat
    }

    /// Reads a header byte. `Ok(false)` when the data ends there, which ends the stream.
    fn read_header(&mut self) -> (r: Result<bool, Error>)
        requires
            old(self).state == ReaderState::Start,
        ensures
            match r {
                Ok(true) => final(self).remaining() == old(self).remaining() && final(self).progress()
                    < old(self).progress(),
                Ok(false) => old(self).remaining() == (Seq::<u8>::empty(), false) && final(self)
                    .remaining() == old(self).remaining(),
                Err(e) => e == err(ErrorKind::UnexpectedEof) && old(self).remaining() == (
                    Seq::<u8>::empty(),
                    true,
                ),
            },
    {
        proof {
            use_type_invariant(&*self);
        }
        let ghost input = self.inner@.subrange(self.pos as int, self.inner@.len() as int);
        if self.pos == self.inner.len() {
            return Ok(false);
        }
        let header = self.inner[self.pos];
        if header == 0x80 {
            self.pos = self.pos + 1;
            assert(input.drop_first() =~= self.inner@.subrange(self.pos as int, self.inner@.len() as int));
        } else if header > 0x80 {
            if self.pos + 1 == self.inner.len() {
                return Err(Error::new(ErrorKind::UnexpectedEof));
            }
            let data = self.inner[self.pos + 1];
            self.pos = self.pos + 2;
            self.state = ReaderState::Repeat { count: (257 - header as u16) as u8, data };
            assert(input.subrange(2, input.len() as int) =~= self.inner@.subrange(
                self.pos as int,
                self.inner@.len() as int,
            ));
        } else {
            self.pos = self.pos + 1;
            self.state = ReaderState::Literal { count: header + 1 };
            assert(input.drop_first() =~= self.inner@.subrange(self.pos as int, self.inner@.len() as int));
        }
        Ok(true)
    }

    /// Writes the bytes of the pending run into `buf` from `start`, as many as fit; returns
    /// where the written bytes end.
    fn emit_run(&mut self, buf: &mut [u8], start: usize) -> (r: Result<usize, Error>)
        requires
            old(self).state != ReaderState::Start,
            start < old(buf)@.len(),
        ensures
            final(buf)@.len() == old(buf)@.len(),
            forall|i: int| 0 <= i < start ==> final(buf)@[i] == old(buf)@[i],
            ({
                let (out, failed) = old(self).remaining();
                match r {
                    Ok(k) => start < k <= old(buf)@.len() && k - start <= out.len()
                        && final(buf)@.subrange(start as int, k as int) == out.subrange(
                        0,
                        k - start,
                    ) && final(self).remaining() == (out.subrange(k - start, out.len() as int), failed)
                        && final(self).progress() <= old(self).progress(),
                    Err(e) => e == err(ErrorKind::UnexpectedEof) && failed && out.len() < old(
                        buf,
                    )@.len() - start,
                }
            }),
    {
        proof {
            use_type_invariant(&*self);
        }
        let ghost input = self.inner@.subrange(self.pos as int, self.inner@.len() as int);
        let ghost out = self.remaining().0;
        let n = buf.len();
        let room = n - start;
        match self.state {
            ReaderState::Repeat { count, data } => {
                let filled: usize = if (count as usize) < room {
                    count as usize
                } else {
                    room
                };
                let mut k: usize = 0;
                while k < filled
                    invariant
                        k <= filled,
                        start + filled <= n,
                        n == buf@.len(),
                        buf@.len() == old(buf)@.len(),
                        forall|i: int| 0 <= i < start ==> buf@[i] == old(buf)@[i],
                        forall|i: int| start <= i < start + k ==> buf@[i] == data,
                    decreases filled - k,
                {
                    buf[start + k] = data;
                    k = k + 1;
                }
                let left = count - filled as u8;
                if left == 0 {
                    self.state = ReaderState::Start;
                } else {
                    self.state = ReaderState::Repeat { count: left, data };
                }
                proof {
                    let tail = unpacked(input).0;
                    assert(out == repeated(data, count as nat) + tail);
                    assert(buf@.subrange(start as int, start + filled) =~= out.subrange(
                        0,
                        filled as int,
                    ));
                    assert(out.subrange(filled as int, out.len() as int) =~= repeated(
                        data,
                        left as nat,
                    ) + tail);
                    if left == 0 {
                        assert(repeated(data, 0) + tail =~= tail);
                    }
                }
                Ok(start + filled)
            },
            ReaderState::Literal { count } => {
                let len = self.inner.len();
                let avail = len - self.pos;
                let copied: usize = if (count as usize) < room {
                    count as usize
                } else {
                    room
                };
                if copied > avail {
                    proof {
                        assert(input.len() < count);
                    }
                    return Err(Error::new(ErrorKind::UnexpectedEof));
                }
                let mut k: usize = 0;
                while k < copied
                    invariant
                        k <= copied,
                        start + copied <= n,
                        n == buf@.len(),
                        buf@.len() == old(buf)@.len(),
                        len == self.inner@.len(),
                        self.pos + copied <= len,
                        forall|i: int| 0 <= i < start ==> buf@[i] == old(buf)@[i],
                        forall|i: int|
                            start <= i < start + k ==> buf@[i] == self.inner@[self.pos + i - start],
                    decreases copied - k,
                {
                    buf[start + k] = self.inner[self.pos + k];
                    k = k + 1;
                }
                proof {
                    if input.len() >= count {
                        let tail = unpacked(input.subrange(count as int, input.len() as int)).0;
                        assert(out == input.subrange(0, count as int) + tail);
                    } else {
                        assert(out == input);
                    }
                    assert forall|i: int| 0 <= i < copied implies out[i] == input[i] by {
                        if input.len() >= count {
                            let tail = unpacked(input.subrange(count as int, input.len() as int)).0;
                            assert((input.subrange(0, count as int) + tail)[i] == input[i]);
                        }
                    }
                    assert(buf@.subrange(start as int, start + copied) =~= out.subrange(
                        0,
                        copied as int,
                    ));
                }
                let ghost p0 = self.pos;
                self.pos = self.pos + copied;
                let left = count - copied as u8;
                if left == 0 {
                    self.state = ReaderState::Start;
                } else {
                    self.state = ReaderState::Literal { count: left };
                }
                proof {
                    let rest_in = self.inner@.subrange(self.pos as int, self.inner@.len() as int);
                    assert(rest_in =~= input.subrange(copied as int, input.len() as int));
                    if input.len() >= count {
                        let tail = unpacked(input.subrange(count as int, input.len() as int)).0;
                        assert(rest_in.subrange(left as int, rest_in.len() as int) =~= input.subrange(
                            count as int,
                            input.len() as int,
                        ));
                        assert(out.subrange(copied as int, out.len() as int) =~= rest_in.subrange(
                            0,
                            left as int,
                        ) + tail);
                        if left == 0 {
                            assert(rest_in.subrange(0, 0) + tail =~= tail);
                            assert(rest_in.subrange(0, rest_in.len() as int) =~= rest_in);
                        }
                    } else {
                        assert(out.subrange(copied as int, out.len() as int) =~= rest_in);
                    }
                }
                Ok(start + copied)
            },
            ReaderState::Start => Ok(start),
        }
    }

    /// Fills `buf` with the next unpacked bytes and returns how many were written: all of
    /// `buf`, or every byte left when fewer remain. When the stream ends inside a run before
    /// `buf` is full, the result is an error.
    pub fn read(&mut self, buf: &mut [u8]) -> (r: Result<usize, Error>)
        ensures
            final(buf)@.len() == old(buf)@.len(),
            ({
                let (out, failed) = old(self).remaining();
                let n = old(buf)@.len();
                if n <= out.len() {
                    r == Ok::<usize, Error>(n as usize) && final(buf)@ == out.subrange(0, n as int)
                        && final(self).remaining() == (
                        out.subrange(n as int, out.len() as int),
                        failed,
                    )
                } else if !failed {
                    r == Ok::<usize, Error>(out.len() as usize) && final(buf)@.subrange(
                        0,
                        out.len() as int,
                    ) == out && final(self).remaining() == (Seq::<u8>::empty(), false)
                } else {
                    r == Err::<usize, Error>(err(ErrorKind::UnexpectedEof))
                }
            }),
    {
        let ghost out = self.remaining().0;
        let ghost failed = self.remaining().1;
        let n = buf.len();
        let mut start: usize = 0;
        while start < n
            invariant
                n == buf@.len(),
                buf@.len() == old(buf)@.len(),
                start <= n,
                start <= out.len(),
                buf@.subrange(0, start as int) == out.subrange(0, start as int),
                self.remaining() == (out.subrange(start as int, out.len() as int), failed),
                old(self).remaining() == (out, failed),
            decreases self.progress() + (n - start) * 2,
        {
            let ghost rest = out.subrange(start as int, out.len() as int);
            assert(rest.len() == out.len() - start);
            if self.state == ReaderState::Start {
                match self.read_header() {
                    Ok(true) => {},
                    Ok(false) => {
                        proof {
                            assert(rest == Seq::<u8>::empty());
                            assert(out.len() == start);
                            assert(out.subrange(0, start as int) =~= out);
                            assert(out.subrange(start as int, out.len() as int) =~= Seq::<u8>::empty());
                        }
                        return Ok(start);
                    },
                    Err(e) => {
                        proof {
                            assert(rest == Seq::<u8>::empty());
                        }
                        return Err(e);
                    },
                }
            } else {
                let ghost before = buf@;
                let k = match self.emit_run(buf, start) {
                    Ok(k) => k,
                    Err(e) => return Err(e),
                };
                proof {
                    assert(buf@.subrange(0, k as int) =~= out.subrange(0, k as int)) by {
                        assert forall|i: int| 0 <= i < k implies buf@[i] == out[i] by {
                            if i < start {
                                assert(before.subrange(0, start as int)[i] == out.subrange(
                                    0,
                                    start as int,
                                )[i]);
                            } else {
                                assert(buf@.subrange(start as int, k as int)[i - start] == rest.subrange(
                                    0,
                                    k - start,
                                )[i - start]);
                            }
                        }
                    }
                    assert(rest.subrange(k - start, rest.len() as int) =~= out.subrange(
                        k as int,
                        out.len() as int,
                    ));
                }
                start = k;
            }
        }
        proof {
            assert(buf@ =~= buf@.subrange(0, n as int));
        }
        Ok(start)
    }

    /// Appends all the remaining unpacked bytes to `out` and returns how many there were; an
    /// error when the stream ends inside a run.
    pub fn read_to_end(&mut self, out: &mut Vec<u8>) -> (r: Result<usize, Error>)
        ensures
            ({
                let (rest, failed) = old(self).remaining();
                if failed {
                    r == Err::<usize, Error>(err(ErrorKind::UnexpectedEof))
                } else {
                    r == Ok::<usize, Error>(rest.len() as usize) && final(out)@ == old(out)@ + rest
                        && final(self).remaining() == (Seq::<u8>::empty(), false)
                }
            }),
    {
        let ghost rest = self.remaining().0;
        let ghost failed = self.remaining().1;
        let mut total: usize = 0;
        let mut buf = [0u8; 256];
        loop
            invariant
                old(self).remaining() == (rest, failed),
                total <= rest.len(),
                out@ == old(out)@ + rest.subrange(0, total as int),
                self.remaining() == (rest.subrange(total as int, rest.len() as int), failed),
                buf@.len() == 256,
            decreases rest.len() - total,
        {
            let ghost before = self.remaining().0;
            let k = match self.read(&mut buf) {
                Ok(k) => k,
                Err(e) => return Err(e),
            };
            let mut i: usize = 0;
            while i < k
                invariant
                    i <= k <= 256,
                    buf@.len() == 256,
                    k <= before.len(),
                    buf@.subrange(0, k as int) == before.subrange(0, k as int),
                    out@ == old(out)@ + rest.subrange(0, total as int) + before.subrange(0, i as int),
                decreases k - i,
            {
                out.push(buf[i]);
                proof {
                    assert(buf@.subrange(0, k as int)[i as int] == buf@[i as int]);
                    assert(before.subrange(0, i + 1) =~= before.subrange(0, i as int).push(before[i as int]));
                }
                i = i + 1;
            }
            proof {
                assert(before =~= rest.subrange(total as int, rest.len() as int));
                assert(rest.subrange(0, total as int) + before.subrange(0, k as int) =~= rest.subrange(
                    0,
                    total + k,
                ));
                assert(before.subrange(k as int, before.len() as int) =~= rest.subrange(
                    total + k,
                    rest.len() as int,
                ));
            }
            let len = out.len();
            assert(total + k <= len);
            total = total + k;
            if k < 256 {
                proof {
                    assert(rest.subrange(0, total as int) =~= rest);
                }
                return Ok(total);
            }
        }
    }
}

} // verus!
