//! Fixed-capacity byte ring buffer that feeds the output side of the pipeline.
//!
//! A fresh buffer is completely filled with zero bytes so that the first
//! output requests can be answered before any processed data arrives.  Those
//! initial zeros are *placeholders*: a write may push them out from the front
//! to make room, whereas bytes that came from writes are never overwritten.
use vstd::prelude::*;

verus! {

/// The smaller of two naturals.
pub open spec fn min_nat(a: nat, b: nat) -> nat {
    if a < b {
        a
    } else {
        b
    }
}

/// Abstract state of a ring buffer.
pub struct RingView {
    /// Bytes waiting to be read, oldest first.
    pub contents: Seq<u8>,
    /// How many of the oldest bytes are still zero placeholders from the initial fill.
    pub placeholders: nat,
    /// Number of bytes the buffer can hold.
    pub capacity: nat,
}

impl RingView {
    /// Every abstract state reachable through the buffer's operations satisfies this.
    pub open spec fn valid(self) -> bool {
        &&& self.contents.len() <= self.capacity
        &&& self.placeholders <= self.contents.len()
        &&& forall|i: int| 0 <= i < self.placeholders ==> #[trigger] self.contents[i] == 0
    }

    /// Number of buffered bytes that came from writes.
    pub open spec fn written_len(self) -> int {
        self.contents.len() - self.placeholders
    }

    /// Room a write may use: everything not taken by written bytes.
    pub open spec fn free_space(self) -> nat {
        (self.capacity - self.written_len()) as nat
    }

    /// Number of bytes that a write of `len` bytes stores.
    pub open spec fn accepted(self, len: nat) -> nat {
        min_nat(len, self.free_space())
    }

    /// Number of placeholders that a write of `len` bytes pushes out of the front.
    pub open spec fn displaced(self, len: nat) -> nat {
        let w = self.accepted(len);
        if self.contents.len() + w > self.capacity {
            (self.contents.len() + w - self.capacity) as nat
        } else {
            0
        }
    }

    /// State after writing `data`.
    pub open spec fn after_write(self, data: Seq<u8>) -> RingView {
        let w = self.accepted(data.len());
        let d = self.displaced(data.len());
        RingView {
            contents: self.contents.skip(d as int) + data.take(w as int),
            placeholders: (self.placeholders - d) as nat,
            capacity: self.capacity,
        }
    }

    /// Number of bytes that a read or peek of `count` bytes yields.
    pub open spec fn taken(self, count: nat) -> nat {
        min_nat(count, self.contents.len())
    }

    /// Bytes that a read or peek of `count` bytes yields.
    pub open spec fn front(self, count: nat) -> Seq<u8> {
        self.contents.take(self.taken(count) as int)
    }

    /// State after reading `count` bytes.
    pub open spec fn after_read(self, count: nat) -> RingView {
        let k = self.taken(count);
        RingView {
            contents: self.contents.skip(k as int),
            placeholders: (self.placeholders - min_nat(self.placeholders, k)) as nat,
            capacity: self.capacity,
        }
    }
}

/// A fresh buffer of `capacity` bytes: all zero placeholders.
pub open spec fn initial_ring(capacity: nat) -> RingView {
    RingView {
        contents: Seq::new(capacity, |i: int| 0u8),
        placeholders: capacity,
        capacity: capacity,
    }
}

/// Physical index of logical offset `x` (with `0 <= x < 2 * cap`) in a ring of `cap` slots.
pub open spec fn wrap(cap: int, x: int) -> int {
    if x < cap {
        x
    } else {
        x - cap
    }
}

/// Every operation keeps the abstract state valid: never more than `capacity`
/// bytes are buffered, and the placeholders at the front are zeros.
pub proof fn law_operations_keep_valid(v: RingView, data: Seq<u8>, count: nat)
    requires
        v.valid(),
    ensures
        initial_ring(v.capacity).valid(),
        v.after_write(data).valid(),
        v.after_read(count).valid(),
{
    let w = v.after_write(data);
    let d = v.displaced(data.len());
    assert forall|i: int| 0 <= i < w.placeholders implies #[trigger] w.contents[i] == 0 by {
        assert(w.contents[i] == v.contents[i + d]);
    }
    let r = v.after_read(count);
    let k = v.taken(count);
    assert forall|i: int| 0 <= i < r.placeholders implies #[trigger] r.contents[i] == 0 by {
        assert(r.contents[i] == v.contents[i + k]);
    }
}

/// A write never overwrites or loses bytes of earlier writes: only placeholders
/// are pushed out, and the accepted prefix of the new data follows the earlier data.
pub proof fn law_write_keeps_written_bytes(v: RingView, data: Seq<u8>)
    requires
        v.valid(),
    ensures
        v.displaced(data.len()) <= v.placeholders,
        v.after_write(data).contents.skip(v.after_write(data).placeholders as int) == v.contents.skip(
            v.placeholders as int,
        ) + data.take(v.accepted(data.len()) as int),
{
    let w = v.after_write(data);
    assert(w.contents.skip(w.placeholders as int) =~= v.contents.skip(v.placeholders as int)
        + data.take(v.accepted(data.len()) as int));
}

/// A write stores all of its data exactly when the data fits into the free space;
/// otherwise it stores as much as fits.
pub proof fn law_write_accepts_what_fits(v: RingView, data: Seq<u8>)
    requires
        v.valid(),
    ensures
        v.accepted(data.len()) == data.len() <==> data.len() <= v.free_space(),
        v.accepted(data.len()) < data.len() ==> v.accepted(data.len()) == v.free_space(),
        v.after_write(data).written_len() == v.written_len() + v.accepted(data.len()),
{
}

/// Reading back what was written: once no placeholders are left, a write that
/// fits is read back in full, after the bytes that were already buffered.
pub proof fn law_read_returns_written(v: RingView, data: Seq<u8>)
    requires
        v.valid(),
        v.placeholders == 0,
        data.len() <= v.free_space(),
    ensures
        v.after_write(data).front((v.contents.len() + data.len()) as nat) == v.contents + data,
        v.after_write(data).after_read((v.contents.len() + data.len()) as nat).contents.len() == 0,
{
    let w = v.after_write(data);
    assert(data.take(data.len() as int) =~= data);
    assert(v.contents.skip(0) =~= v.contents);
    assert(w.contents =~= v.contents + data);
    assert(w.front((v.contents.len() + data.len()) as nat) =~= v.contents + data);
}

/// A fresh buffer answers its first reads with zeros, up to its capacity.
pub proof fn law_initial_reads_are_zero(capacity: nat, count: nat)
    ensures
        initial_ring(capacity).front(count) == Seq::new(min_nat(count, capacity), |i: int| 0u8),
{
    assert(initial_ring(capacity).front(count) =~= Seq::new(min_nat(count, capacity), |i: int| 0u8));
}

/// Reads consume the buffer in order: reading `a` bytes and then `b` bytes yields
/// the same bytes as one read of `a + b` bytes.
pub proof fn law_reads_concatenate(v: RingView, a: nat, b: nat)
    requires
        v.valid(),
    ensures
        v.front(a) + v.after_read(a).front(b) == v.front(a + b),
        v.after_read(a).after_read(b).contents == v.after_read(a + b).contents,
{
    assert(v.front(a) + v.after_read(a).front(b) =~= v.front(a + b));
    assert(v.after_read(a).after_read(b).contents =~= v.after_read(a + b).contents);
}

/// Ring buffer for efficient data management.
pub struct RingBuffer {
    data: Vec<u8>,
    capacity: usize,
    write_pos: usize,
    read_pos: usize,
    available: usize,
    placeholders: usize,
}

impl View for RingBuffer {
    type V = RingView;

    closed spec fn view(&self) -> RingView {
        RingView {
            contents: Seq::new(
                self.available as nat,
                |i: int| self.data@[wrap(self.capacity as int, self.read_pos + i)],
            ),
            placeholders: self.placeholders as nat,
            capacity: self.capacity as nat,
        }
    }
}

impl RingBuffer {
    /// Internal consistency of the physical layout.
    pub closed spec fn wf(&self) -> bool {
        &&& self.data.len() == self.capacity
        &&& self.available <= self.capacity
        &&& self.placeholders <= self.available
        &&& self.capacity == 0 ==> self.read_pos == 0 && self.write_pos == 0
        &&& self.capacity > 0 ==> {
            &&& self.read_pos < self.capacity
            &&& self.write_pos == wrap(self.capacity as int, self.read_pos + self.available)
        }
        &&& forall|i: int|
            0 <= i < self.placeholders ==> #[trigger] self.data@[wrap(
                self.capacity as int,
                self.read_pos + i,
            )] == 0
    }

    /// A well-formed buffer has a valid abstract state.
    pub proof fn lemma_wf_view(&self)
        requires
            self.wf(),
        ensures
            self@.valid(),
    {
        assert forall|i: int| 0 <= i < self@.placeholders implies #[trigger] self@.contents[i]
            == 0 by {
            assert(self.data@[wrap(self.capacity as int, self.read_pos + i)] == 0);
        }
    }

    /// Create a buffer of `capacity` bytes, initially filled with zeros.
    pub fn new(capacity: usize) -> (r: Self)
        ensures
            r.wf(),
            r@ == initial_ring(capacity as nat),
    {
        let data = vec![0u8; capacity];
        let r = RingBuffer {
            data,
            capacity,
            write_pos: 0,
            read_pos: 0,
            available: capacity,
            placeholders: capacity,
        };
        proof {
            assert forall|i: int| 0 <= i < capacity implies #[trigger] r.data@[wrap(
                capacity as int,
                i,
            )] == 0 by {
                assert(cloned(0u8, r.data@[i]));
            }
            assert(r@.contents =~= initial_ring(capacity as nat).contents);
        }
        r
    }

    /// Number of bytes waiting to be read.
    pub fn available_data(&self) -> (n: usize)
        requires
            self.wf(),
        ensures
            n == self@.contents.len(),
    {
        self.available
    }

    /// Copy out the oldest `min(count, available)` bytes without consuming them.
    fn copy_front(&self, count: usize) -> (result: Vec<u8>)
        requires
            self.wf(),
        ensures
            result@ == self@.front(count as nat),
    {
        let to_read = if count < self.available {
            count
        } else {
            self.available
        };
        let mut result: Vec<u8> = Vec::new();
        let mut pos = self.read_pos;
        let mut i: usize = 0;
        while i < to_read
            invariant
                self.wf(),
                to_read <= self.available,
                i <= to_read,
                result@.len() == i,
                self.capacity > 0 ==> pos == wrap(self.capacity as int, self.read_pos + i),
                forall|j: int| 0 <= j < i ==> #[trigger] result@[j] == self@.contents[j],
            decreases to_read - i,
        {
            result.push(self.data[pos]);
            pos = if pos + 1 == self.capacity {
                0
            } else {
                pos + 1
            };
            i = i + 1;
        }
        assert(result@ =~= self@.front(count as nat));
        result
    }

    /// Drop the oldest `n` bytes.
    fn drop_front(&mut self, n: usize)
        requires
            old(self).wf(),
            n <= old(self)@.contents.len(),
        ensures
            final(self).wf(),
            final(self)@ == old(self)@.after_read(n as nat),
    {
        let ghost old_view = self@;
        let gap = self.capacity - self.read_pos;
        if self.capacity > 0 {
            self.read_pos = if n >= gap {
                n - gap
            } else {
                self.read_pos + n
            };
        }
        self.available = self.available - n;
        self.placeholders = if self.placeholders < n {
            0
        } else {
            self.placeholders - n
        };
        proof {
            let cap = self.capacity as int;
            let old_read = old(self).read_pos as int;
            assert forall|i: int| 0 <= i < self.placeholders implies #[trigger] self.data@[wrap(
                cap,
                self.read_pos + i,
            )] == 0 by {
                assert(wrap(cap, self.read_pos + i) == wrap(cap, old_read + (n + i)));
            }
            assert(self@.contents =~= old_view.after_read(n as nat).contents);
        }
    }

    /// Append `data[..w]` behind the current contents, which must leave enough room.
    fn append(&mut self, data: &[u8], w: usize)
        requires
            old(self).wf(),
            w <= data@.len(),
            old(self)@.contents.len() + w <= old(self)@.capacity,
        ensures
            final(self).wf(),
            final(self)@ == (RingView {
                contents: old(self)@.contents + data@.take(w as int),
                ..old(self)@
            }),
    {
        proof {
            self.lemma_wf_view();
        }
        let ghost old_view = self@;
        let ghost cap = self.capacity as int;
        let ghost start = self.read_pos as int;
        let ghost avail = self.available as int;
        let ghost wpos = self.write_pos;
        let mut pos = self.write_pos;
        let mut i: usize = 0;
        while i < w
            invariant
                self.data@.len() == self.capacity,
                self.capacity == cap,
                self.read_pos == start,
                self.write_pos == wpos,
                cap == 0 ==> start == 0 && wpos == 0,
                self.available == avail,
                self.placeholders == old_view.placeholders,
                cap > 0 ==> start < cap,
                avail + w <= cap,
                w <= data@.len(),
                i <= w,
                cap > 0 ==> pos == wrap(cap, start + avail + i),
                forall|j: int| 0 <= j < avail ==> #[trigger] self.data@[wrap(cap, start + j)]
                    == old_view.contents[j],
                forall|j: int|
                    avail <= j < avail + i ==> #[trigger] self.data@[wrap(cap, start + j)]
                        == data@[j - avail],
            decreases w - i,
        {
            let ghost before = self.data@;
            self.data[pos] = data[i];
            proof {
                assert forall|j: int| 0 <= j < avail + i implies #[trigger] self.data@[wrap(
                    cap,
                    start + j,
                )] == before[wrap(cap, start + j)] by {
                    assert(wrap(cap, start + j) != wrap(cap, start + avail + i));
                }
            }
            pos = if pos + 1 == self.capacity {
                0
            } else {
                pos + 1
            };
            i = i + 1;
        }
        self.available = self.available + w;
        if self.capacity > 0 {
            self.write_pos = pos;
        }
        proof {
            if cap > 0 {
                assert(self.write_pos == wrap(cap, start + self.available));
            }
            assert forall|j: int| 0 <= j < self.placeholders implies #[trigger] self.data@[wrap(
                cap,
                start + j,
            )] == 0 by {
                assert(old_view.contents[j] == 0);
            }
            assert(self@.contents =~= old_view.contents + data@.take(w as int));
        }
    }

    /// Write data to buffer, returns amount written.
    ///
    /// At most the free space (capacity minus the bytes that came from earlier
    /// writes) is taken from the front of `data`; zero placeholders at the front
    /// of the buffer make room for it where needed.
    pub fn write(&mut self, data: &[u8]) -> (n: usize)
        requires
            old(self).wf(),
        ensures
            final(self).wf(),
            n == old(self)@.accepted(data@.len()),
            final(self)@ == old(self)@.after_write(data@),
    {
        proof {
            self.lemma_wf_view();
        }
        let ghost old_view = self@;
        let written = self.available - self.placeholders;
        let free = self.capacity - written;
        let to_write = if data.len() < free {
            data.len()
        } else {
            free
        };
        if to_write == 0 {
            assert(old_view.after_write(data@).contents =~= old_view.contents);
            return 0;
        }
        let room = self.capacity - self.available;
        let displaced = if to_write > room {
            to_write - room
        } else {
            0
        };
        self.drop_front(displaced);
        self.append(data, to_write);
        proof {
            assert(self@.contents =~= old_view.after_write(data@).contents);
        }
        to_write
    }

    /// Read data from buffer, returns data read.
    pub fn read(&mut self, count: usize) -> (result: Vec<u8>)
        requires
            old(self).wf(),
            old(self)@.capacity > 0,
        ensures
            final(self).wf(),
            result@ == old(self)@.front(count as nat),
            final(self)@ == old(self)@.after_read(count as nat),
    {
        let result = self.copy_front(count);
        let to_read = if count < self.available {
            count
        } else {
            self.available
        };
        self.drop_front(to_read);
        proof {
            let v = old(self)@;
            assert(v.after_read(to_read as nat) == v.after_read(count as nat));
        }
        result
    }

    /// Peek at data without consuming.
    pub fn peek(&self, count: usize) -> (result: Vec<u8>)
        requires
            self.wf(),
        ensures
            result@ == self@.front(count as nat),
    {
        self.copy_front(count)
    }
}

} // verus!
