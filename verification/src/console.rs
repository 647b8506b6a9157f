//! The console: typed bytes that wait to be read, and the terminal that
//! shows what is written.

use vstd::prelude::*;
use crate::framebuffer::FrameBufferWriter;

verus! {

/// Keyboard input and terminal output.
pub struct Console {
    /// Typed bytes that no one has read yet, oldest first.
    pub stdin: Vec<u8>,
    pub screen: FrameBufferWriter,
}

/// How many bytes a read into a buffer of `len` bytes takes from `stdin`.
pub open spec fn taken(stdin: Seq<u8>, len: int) -> int {
    if len <= stdin.len() {
        len
    } else {
        stdin.len() as int
    }
}

/// The buffer after a read from `stdin`: the oldest bytes in front, the
/// rest of the buffer as before.
pub open spec fn filled(stdin: Seq<u8>, buf: Seq<u8>) -> Seq<u8> {
    Seq::new(
        buf.len(),
        |i: int|
            if i < taken(stdin, buf.len() as int) {
                stdin[i]
            } else {
                buf[i]
            },
    )
}

impl Console {
    pub open spec fn wf(&self) -> bool {
        self.screen.wf()
    }

    /// A console with nothing typed, over a terminal.
    pub fn new(screen: FrameBufferWriter) -> (console: Console)
        ensures
            console.screen == screen,
            console.stdin@ == Seq::<u8>::empty(),
    {
        Console { stdin: Vec::new(), screen }
    }

    /// Takes a typed byte: it waits to be read, and where echo is on it goes
    /// through the terminal's parser and is shown.
    pub fn key_handle(&mut self, byte: u8)
        requires
            old(self).wf(),
        ensures
            final(self).wf(),
            final(self).stdin@ == old(self).stdin@.push(byte),
            final(self).screen@ == if old(self).screen@.echo {
                old(self).screen@.fed(final(self).screen@.parser, seq![byte])
            } else {
                old(self).screen@
            },
            old(self).screen@.keeps(final(self).screen@),
    {
        self.stdin.push(byte);
        if self.screen.echo() {
            let mut bytes: Vec<u8> = Vec::new();
            bytes.push(byte);
            assert(bytes@ =~= seq![byte]);
            self.screen.write_bytes(bytes.as_slice());
        }
    }

    /// Moves the oldest typed bytes into the front of `buf`, as many as
    /// there are and `buf` has room for, and returns their number.
    pub fn read(&mut self, buf: &mut Vec<u8>) -> (count: usize)
        ensures
            count == taken(old(self).stdin@, old(buf)@.len() as int),
            final(buf)@ == filled(old(self).stdin@, old(buf)@),
            final(self).stdin@ == old(self).stdin@.skip(count as int),
            final(self).screen == old(self).screen,
    {
        let n: usize = if buf.len() <= self.stdin.len() {
            buf.len()
        } else {
            self.stdin.len()
        };
        let mut i: usize = 0;
        while i < n
            invariant
                i <= n,
                n == taken(old(self).stdin@, old(buf)@.len() as int),
                n <= self.stdin@.len(),
                buf@.len() == old(buf)@.len(),
                *self == *old(self),
                forall|k: int|
                    0 <= k < buf@.len() ==> buf@[k] == (if k < i {
                        self.stdin@[k]
                    } else {
                        old(buf)@[k]
                    }),
            decreases n - i,
        {
            buf[i] = self.stdin[i];
            i = i + 1;
        }
        assert(buf@ =~= filled(old(self).stdin@, old(buf)@));
        let mut rest: Vec<u8> = Vec::new();
        let mut j: usize = n;
        while j < self.stdin.len()
            invariant
                n <= j <= self.stdin@.len(),
                *self == *old(self),
                rest@ == self.stdin@.subrange(n as int, j as int),
            decreases self.stdin@.len() - j,
        {
            rest.push(self.stdin[j]);
            assert(self.stdin@.subrange(n as int, j + 1) =~= self.stdin@.subrange(
                n as int,
                j as int,
            ).push(self.stdin@[j as int]));
            j = j + 1;
        }
        assert(rest@ =~= old(self).stdin@.skip(n as int));
        self.stdin = rest;
        n
    }

    /// Shows bytes on the terminal and returns their number: the bytes go
    /// through the terminal's parser, and what the parser reports is
    /// carried out.
    pub fn write(&mut self, buf: &[u8]) -> (count: usize)
        requires
            old(self).wf(),
        ensures
            final(self).wf(),
            count == buf@.len(),
            final(self).stdin == old(self).stdin,
            final(self).screen@ == old(self).screen@.fed(final(self).screen@.parser, buf@),
            old(self).screen@.keeps(final(self).screen@),
    {
        self.screen.write_bytes(buf);
        buf.len()
    }
}

} // verus!
