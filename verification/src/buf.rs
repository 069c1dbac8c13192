//! Buffers: the memory regions that operations work on.

use vstd::prelude::*;

verus! {

/// What a [`Buffer`] is: a region of memory at a fixed address, of which a
/// prefix has been initialised.
pub struct BufferView {
    /// Where the region starts.
    pub ptr: usize,
    /// Every byte of the region; its length is the buffer's capacity.
    pub bytes: Seq<u8>,
    /// How many bytes, from the start, hold data.
    pub init: nat,
}

/// The smallest of three numbers.
pub open spec fn min3(a: int, b: int, c: int) -> int {
    if a <= b && a <= c {
        a
    } else if b <= c {
        b
    } else {
        c
    }
}

impl BufferView {
    /// The initialised prefix is no longer than the region.
    pub open spec fn wf(self) -> bool {
        self.init <= self.bytes.len() <= usize::MAX
    }

    /// The size of the whole region.
    pub open spec fn capacity(self) -> nat {
        self.bytes.len()
    }

    /// The bytes that hold data.
    pub open spec fn filled(self) -> Seq<u8> {
        self.bytes.subrange(0, self.init as int)
    }

    /// How many bytes arrive when a writer that reports `limit` bytes and
    /// supplies `data` writes into this region.
    pub open spec fn accepted(self, data: Seq<u8>, limit: int) -> nat {
        if limit <= 0 {
            0
        } else {
            min3(limit, data.len() as int, self.bytes.len() as int) as nat
        }
    }

    /// The region after such a write: the bytes that arrived replace the
    /// start of the region, the rest stays, and the initialised prefix grows
    /// to cover them.
    pub open spec fn deposit(self, data: Seq<u8>, limit: int) -> BufferView {
        let n = self.accepted(data, limit);
        BufferView {
            ptr: self.ptr,
            bytes: data.subrange(0, n as int) + self.bytes.subrange(
                n as int,
                self.bytes.len() as int,
            ),
            init: if self.init < n {
                n
            } else {
                self.init
            },
        }
    }

    /// The region after its holder reports `n` initialised bytes.
    pub open spec fn with_init(self, n: nat) -> BufferView {
        BufferView {
            init: if n <= self.init {
                self.init
            } else if n <= self.bytes.len() {
                n
            } else {
                self.bytes.len()
            },
            ..self
        }
    }
}

/// An owned region of memory. It moves as one value: whoever holds the
/// `Buffer` is the only one who can read or write the region, and no method
/// changes its address or its capacity.
#[derive(Debug)]
pub struct Buffer {
    ptr: usize,
    bytes: Vec<u8>,
    init: usize,
}

impl View for Buffer {
    type V = BufferView;

    closed spec fn view(&self) -> BufferView {
        BufferView { ptr: self.ptr, bytes: self.bytes@, init: self.init as nat }
    }
}

impl Buffer {
    /// Holds of every buffer: its view is well formed.
    #[verifier::type_invariant]
    pub open spec fn inv(self) -> bool {
        self@.wf()
    }

    /// A zeroed region of `capacity` bytes at `ptr`, none of them initialised.
    pub fn with_capacity(ptr: usize, capacity: usize) -> (buf: Buffer)
        ensures
            buf@ == (BufferView { ptr, bytes: Seq::new(capacity as nat, |i: int| 0u8), init: 0 }),
            buf@.wf(),
    {
        let mut bytes: Vec<u8> = Vec::new();
        let mut i: usize = 0;
        while i < capacity
            invariant
                i <= capacity,
                bytes@ == Seq::new(i as nat, |j: int| 0u8),
            decreases capacity - i,
        {
            bytes.push(0u8);
            i = i + 1;
        }
        Buffer { ptr, bytes, init: 0 }
    }

    /// The region at `ptr` that holds exactly `bytes`, all of them initialised.
    pub fn from_vec(ptr: usize, bytes: Vec<u8>) -> (buf: Buffer)
        ensures
            buf@ == (BufferView { ptr, bytes: bytes@, init: bytes@.len() }),
            buf@.wf(),
    {
        let init: usize = bytes.len();
        Buffer { ptr, bytes, init }
    }

    /// Where the region starts.
    pub fn ptr(&self) -> (p: usize)
        ensures
            p == self@.ptr,
    {
        self.ptr
    }

    /// The size of the whole region.
    pub fn capacity(&self) -> (n: usize)
        ensures
            n == self@.capacity(),
    {
        self.bytes.len()
    }

    /// How many bytes hold data.
    pub fn len(&self) -> (n: usize)
        ensures
            n == self@.init,
            n <= self@.capacity(),
    {
        proof {
            use_type_invariant(self);
        }
        self.init
    }

    /// The part that a reader of the region may read: its address and the
    /// number of initialised bytes.
    pub fn as_read_slice(&self) -> (span: (usize, usize))
        ensures
            span.0 == self@.ptr,
            span.1 == self@.init,
    {
        (self.ptr, self.init)
    }

    /// The part that a writer into the region may write: its address and its
    /// capacity. The buffer itself stays as it is.
    pub fn as_write_slice_mut(&mut self) -> (span: (usize, usize))
        ensures
            span.0 == old(self)@.ptr,
            span.1 == old(self)@.capacity(),
            final(self)@ == old(self)@,
    {
        (self.ptr, self.bytes.len())
    }

    /// Records that the first `n` bytes now hold data. The initialised prefix
    /// only grows, and never past the capacity.
    pub fn set_init(&mut self, n: usize)
        ensures
            final(self)@ == old(self)@.with_init(n as nat),
            final(self)@.wf(),
    {
        proof {
            use_type_invariant(&*self);
        }
        if n > self.init {
            if n <= self.bytes.len() {
                self.init = n;
            } else {
                self.init = self.bytes.len();
            }
        }
    }

    /// The byte at `index` of the region, if the region is that long.
    pub fn get(&self, index: usize) -> (b: Option<u8>)
        ensures
            b == if index < self@.capacity() {
                Some(self@.bytes[index as int])
            } else {
                None
            },
    {
        if index < self.bytes.len() {
            Some(self.bytes[index])
        } else {
            None
        }
    }

    /// A copy of the bytes that hold data.
    pub fn to_vec(&self) -> (out: Vec<u8>)
        ensures
            out@ == self@.filled(),
    {
        proof {
            use_type_invariant(self);
        }
        let mut out: Vec<u8> = Vec::new();
        let mut i: usize = 0;
        while i < self.init
            invariant
                i <= self.init <= self.bytes.len(),
                out@ == self.bytes@.subrange(0, i as int),
            decreases self.init - i,
        {
            out.push(self.bytes[i]);
            i = i + 1;
        }
        out
    }

    /// Gives up the buffer for the bytes of its whole region.
    pub fn into_vec(self) -> (out: Vec<u8>)
        ensures
            out@ == self@.bytes,
    {
        self.bytes
    }

    /// Writes into the region from its start, as the writer of an operation
    /// does: `limit` is the number of bytes it reports, `data` what it wrote.
    /// Returns how many bytes arrived.
    pub fn deposit(&mut self, data: &Vec<u8>, limit: i32) -> (n: usize)
        ensures
            n == old(self)@.accepted(data@, limit as int),
            final(self)@ == old(self)@.deposit(data@, limit as int),
            final(self)@.wf(),
    {
        proof {
            use_type_invariant(&*self);
        }
        let mut n: usize = 0;
        if limit > 0 {
            n = limit as usize;
            if data.len() < n {
                n = data.len();
            }
            if self.bytes.len() < n {
                n = self.bytes.len();
            }
        }
        // The region is taken out while it is written, so that the buffer is
        // well formed at every step; the bytes themselves stay where they are.
        let kept: usize = self.init;
        let mut bytes: Vec<u8> = Vec::new();
        self.init = 0;
        std::mem::swap(&mut self.bytes, &mut bytes);
        let ghost before = bytes@;
        let mut i: usize = 0;
        while i < n
            invariant
                i <= n <= data.len(),
                n <= bytes.len(),
                bytes@.len() == before.len(),
                forall|j: int|
                    0 <= j < before.len() ==> bytes@[j] == if j < i {
                        data@[j]
                    } else {
                        before[j]
                    },
            decreases n - i,
        {
            bytes.set(i, data[i]);
            i = i + 1;
        }
        proof {
            assert(bytes@ =~= data@.subrange(0, n as int) + before.subrange(
                n as int,
                before.len() as int,
            ));
        }
        std::mem::swap(&mut self.bytes, &mut bytes);
        self.init = if kept < n {
            n
        } else {
            kept
        };
        n
    }
}

} // verus!
