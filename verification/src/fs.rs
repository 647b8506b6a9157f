//! What a file handle can stand for: a device or an open file.

use vstd::prelude::*;

verus! {

/// What a caller waits for when it polls.
#[derive(Clone, Copy, Debug, PartialEq, Eq, Structural)]
pub enum IO {
    Read,
    Write,
}

/// What every resource behind a handle can do.
pub trait FileIO {
    /// Fills the front of `buf` and returns how many bytes it put there.
    fn read(&mut self, buf: &mut Vec<u8>) -> Result<usize, ()>;

    /// Takes the bytes of `buf` and returns how many it took.
    fn write(&mut self, buf: &[u8]) -> Result<usize, ()>;

    fn close(&mut self);

    /// Whether the event would not have to wait.
    fn poll(&mut self, event: IO) -> bool;
}

/// The devices that a handle can stand for.
#[derive(Clone, Copy, Debug, PartialEq, Eq, Structural)]
pub enum Device {
    /// The keyboard as input and the terminal as output.
    Console,
    /// Takes everything and gives nothing.
    Null,
}

/// An open file: its bytes and the position of the next read or write.
#[derive(Debug)]
pub struct File {
    pub data: Vec<u8>,
    pub offset: usize,
}

/// An open file as contracts see it.
pub struct FileView {
    pub data: Seq<u8>,
    pub offset: int,
}

impl View for File {
    type V = FileView;

    open spec fn view(&self) -> FileView {
        FileView { data: self.data@, offset: self.offset as int }
    }
}

impl FileView {
    /// How many bytes a read into a buffer of `len` bytes gives.
    pub open spec fn read_len(self, len: int) -> int {
        if self.offset >= self.data.len() {
            0
        } else if len <= self.data.len() - self.offset {
            len
        } else {
            self.data.len() - self.offset
        }
    }

    /// The buffer after a read: the bytes read in front, the rest as before.
    pub open spec fn read_into(self, buf: Seq<u8>) -> Seq<u8> {
        Seq::new(
            buf.len(),
            |i: int|
                if i < self.read_len(buf.len() as int) {
                    self.data[self.offset + i]
                } else {
                    buf[i]
                },
        )
    }

    /// The file after a read into a buffer of `len` bytes.
    pub open spec fn after_read(self, len: int) -> FileView {
        FileView { offset: self.offset + self.read_len(len), ..self }
    }

    /// The file's bytes after a write at its position: what lies under the
    /// written bytes is replaced, and the file grows where they reach past
    /// its end. A position past the end is first filled up with zeros.
    pub open spec fn written(self, buf: Seq<u8>) -> Seq<u8> {
        let len = if self.offset + buf.len() > self.data.len() {
            self.offset + buf.len()
        } else {
            self.data.len() as int
        };
        Seq::new(
            len as nat,
            |i: int|
                if self.offset <= i < self.offset + buf.len() {
                    buf[i - self.offset]
                } else if i < self.data.len() {
                    self.data[i]
                } else {
                    0u8
                },
        )
    }
}

impl File {
    /// A file that holds `data`, positioned at its start.
    pub fn new(data: Vec<u8>) -> (file: File)
        ensures
            file@ == (FileView { data: data@, offset: 0 }),
    {
        File { data, offset: 0 }
    }

    /// How many bytes the file holds.
    pub fn size(&self) -> (size: usize)
        ensures
            size == self@.data.len(),
    {
        self.data.len()
    }

    /// A second handle on the same state.
    pub fn duplicate(&self) -> (copy: File)
        ensures
            copy@ == self@,
    {
        File { data: self.data.clone(), offset: self.offset }
    }
}

impl FileIO for File {
    /// Copies the bytes from the file's position on into the front of `buf`,
    /// as many as the file has left and `buf` has room for, and moves the
    /// position past them.
    fn read(&mut self, buf: &mut Vec<u8>) -> (result: Result<usize, ()>)
        ensures
            result == Ok::<usize, ()>(old(self)@.read_len(old(buf)@.len() as int) as usize),
            final(buf)@ == old(self)@.read_into(old(buf)@),
            final(self)@ == old(self)@.after_read(old(buf)@.len() as int),
    {
        let total: usize = self.data.len();
        let have: usize = if self.offset >= total {
            0
        } else {
            total - self.offset
        };
        let n: usize = if buf.len() <= have {
            buf.len()
        } else {
            have
        };
        let mut i: usize = 0;
        while i < n
            invariant
                i <= n,
                n == old(self)@.read_len(old(buf)@.len() as int),
                n <= buf@.len(),
                n > 0 ==> self.offset + n <= total,
                total == self.data@.len(),
                buf@.len() == old(buf)@.len(),
                *self == *old(self),
                forall|k: int|
                    0 <= k < buf@.len() ==> buf@[k] == (if k < i {
                        self.data@[self.offset + k]
                    } else {
                        old(buf)@[k]
                    }),
            decreases n - i,
        {
            buf[i] = self.data[self.offset + i];
            i = i + 1;
        }
        assert(buf@ =~= old(self)@.read_into(old(buf)@));
        self.offset = self.offset + n;
        Ok(n)
    }

    /// Puts the bytes of `buf` into the file at its position and moves the
    /// position past them. Fails, and changes nothing, where the position
    /// would pass the largest file size.
    fn write(&mut self, buf: &[u8]) -> (result: Result<usize, ()>)
        ensures
            old(self)@.offset + buf@.len() <= usize::MAX ==> result == Ok::<usize, ()>(
                buf@.len() as usize,
            ) && final(self)@ == (FileView {
                data: old(self)@.written(buf@),
                offset: old(self)@.offset + buf@.len(),
            }),
            old(self)@.offset + buf@.len() > usize::MAX ==> result is Err && final(self)@ == old(self)@,
    {
        if buf.len() > usize::MAX - self.offset {
            return Err(());
        }
        let end: usize = self.offset + buf.len();
        while self.data.len() < end
            invariant
                self.offset == old(self).offset,
                old(self).data@.len() <= self.data@.len(),
                self.data@.len() <= end || self.data@.len() == old(self).data@.len(),
                forall|k: int|
                    0 <= k < self.data@.len() ==> self.data@[k] == (if k < old(self).data@.len() {
                        old(self).data@[k]
                    } else {
                        0u8
                    }),
            decreases end - self.data.len(),
        {
            self.data.push(0);
        }
        let ghost padded = self.data@;
        let mut i: usize = 0;
        while i < buf.len()
            invariant
                i <= buf.len(),
                end == self.offset + buf.len(),
                end <= self.data@.len(),
                self.offset == old(self).offset,
                self.data@.len() == padded.len(),
                forall|k: int|
                    0 <= k < self.data@.len() ==> self.data@[k] == (if self.offset <= k
                        < self.offset + i {
                        buf@[k - self.offset]
                    } else {
                        padded[k]
                    }),
            decreases buf.len() - i,
        {
            self.data[self.offset + i] = buf[i];
            i = i + 1;
        }
        assert(self.data@ =~= old(self)@.written(buf@));
        self.offset = end;
        Ok(buf.len())
    }

    fn close(&mut self)
        ensures
            final(self)@ == old(self)@,
    {
    }

    /// A read finds bytes as long as the position is before the end; a
    /// write never waits.
    fn poll(&mut self, event: IO) -> (ready: bool)
        ensures
            final(self)@ == old(self)@,
            ready == match event {
                IO::Read => old(self)@.offset < old(self)@.data.len(),
                IO::Write => true,
            },
    {
        match event {
            IO::Read => self.offset < self.data.len(),
            IO::Write => true,
        }
    }
}

/// What a handle stands for.
#[derive(Debug)]
pub enum Resource {
    Device(Device),
    File(File),
}

/// A resource as contracts see it.
pub enum ResourceView {
    Device(Device),
    File(FileView),
}

impl View for Resource {
    type V = ResourceView;

    open spec fn view(&self) -> ResourceView {
        match self {
            Resource::Device(device) => ResourceView::Device(*device),
            Resource::File(file) => ResourceView::File(file@),
        }
    }
}

impl Resource {
    /// A second handle on the same state.
    pub fn duplicate(&self) -> (copy: Resource)
        ensures
            copy@ == self@,
    {
        match self {
            Resource::Device(device) => Resource::Device(*device),
            Resource::File(file) => Resource::File(file.duplicate()),
        }
    }
}

} // verus!
