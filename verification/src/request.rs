//! The requests that travel to the ring thread, and how they are laid out for the kernel.

use bytes::Bytes;
use vstd::prelude::*;

use crate::foreign::slice_address;

verus! {

/// Number of submission queue entries in the ring, and of requests that its channel holds.
pub const RING_SIZE: u32 = 64;

/// Upper bound on outstanding reads.
pub const MAX_INFLIGHT_READS: usize = 32;

/// Upper bound on outstanding writes. Replies are submitted from every worker task, so this is
/// also the cap on reply memory that the ring thread keeps alive on behalf of the workers.
pub const MAX_INFLIGHT_WRITES: usize = 64;

/// Completions of writes carry tags from here on, completions of reads carry tags below.
pub const TAG_WRITE_BASE: u64 = 0x1000;

/// Where a buffer lies and how long it is, so that it can be handed to another thread while its
/// owner keeps it alive.
#[derive(Debug, PartialEq, Eq, Structural)]
pub struct AlignedDataBuf {
    /// The address of the first byte.
    pub ptr: usize,
    /// The number of bytes.
    pub len: usize,
}

impl AlignedDataBuf {
    /// Describes `buf`, and leaves its bytes alone.
    pub fn new(buf: &mut [u8]) -> (described: Self)
        ensures
            described.ptr != 0,
            described.len == old(buf)@.len(),
            final(buf)@ == old(buf)@,
    {
        let len: usize = buf.len();
        Self::at(slice_address(buf), len)
    }

    /// Describes the `len` bytes at address `ptr`.
    pub fn at(ptr: usize, len: usize) -> (described: Self)
        ensures
            described == (AlignedDataBuf { ptr, len }),
    {
        AlignedDataBuf { ptr, len }
    }
}

/// A request to read from the device into two buffers. `R` is the handle by which the caller is
/// answered.
pub struct ReadRequest<R> {
    /// Filled first.
    pub header_buf: Vec<u8>,
    /// Filled with what does not fit into the header.
    pub data_buf: AlignedDataBuf,
    /// How the caller is answered.
    pub reply: R,
}

/// A request to write a reply to the device. `W` is the handle by which the caller is answered.
pub struct WriteRequest<W> {
    /// Written first.
    pub data: Bytes,
    /// Written after `data`, where there is any.
    pub body_extend: Option<Bytes>,
    /// How the caller is answered.
    pub reply: W,
}

/// A request to the ring thread, of either sort.
pub enum RingRequest<R, W> {
    /// Read from the device.
    Read(ReadRequest<R>),
    /// Write to the device.
    Write(WriteRequest<W>),
}

/// The buffer that an entry of a vectored operation points to.
#[derive(Clone, Copy, Debug, PartialEq, Eq, Structural)]
pub enum Region {
    /// `header_buf` of a read.
    Header,
    /// `data_buf` of a read.
    Data,
    /// `data` of a write.
    Reply,
    /// `body_extend` of a write.
    Extend,
    /// No buffer.
    Null,
}

/// One entry of a vectored operation: a buffer and its length.
#[derive(Clone, Copy, Debug, PartialEq, Eq, Structural)]
pub struct Segment {
    /// The buffer.
    pub region: Region,
    /// Its length in bytes.
    pub len: usize,
}

/// The entries of a vectored operation, of which the first `count` are used.
#[derive(Clone, Copy, Debug, PartialEq, Eq, Structural)]
pub struct IoVecs {
    /// The first entry.
    pub first: Segment,
    /// The second entry.
    pub second: Segment,
    /// How many entries the operation uses.
    pub count: u32,
}

/// An entry that points nowhere.
pub open spec fn null_segment() -> Segment {
    Segment { region: Region::Null, len: 0 }
}

/// The length of a byte buffer of the `bytes` crate.
pub open spec fn bytes_len(b: Bytes) -> nat {
    crate::foreign::bytes_content(b).len()
}

impl IoVecs {
    /// The entries that the operation uses, in order.
    pub open spec fn used(self) -> Seq<Segment> {
        seq![self.first, self.second].take(self.count as int)
    }

    /// The number of bytes that the used entries cover.
    pub open spec fn total(self) -> nat {
        if self.count == 0 {
            0
        } else if self.count == 1 {
            self.first.len as nat
        } else {
            (self.first.len + self.second.len) as nat
        }
    }
}

impl<R> ReadRequest<R> {
    /// A read always covers both buffers, the header first.
    pub open spec fn spec_iovecs(self) -> IoVecs {
        IoVecs {
            first: Segment { region: Region::Header, len: self.header_buf@.len() as usize },
            second: Segment { region: Region::Data, len: self.data_buf.len },
            count: 2,
        }
    }

    /// The entries for a vectored read.
    pub fn iovecs(&self) -> (iovecs: IoVecs)
        ensures
            iovecs == self.spec_iovecs(),
            iovecs.count == 2,
            iovecs.first.region == Region::Header,
            iovecs.first.len == self.header_buf@.len(),
            iovecs.second.region == Region::Data,
            iovecs.second.len == self.data_buf.len,
    {
        IoVecs {
            first: Segment { region: Region::Header, len: self.header_buf.len() },
            second: Segment { region: Region::Data, len: self.data_buf.len },
            count: 2,
        }
    }
}

impl<W> WriteRequest<W> {
    /// A write covers the reply, and behind it the extension where there is one.
    pub open spec fn spec_iovecs(self) -> IoVecs {
        IoVecs {
            first: Segment { region: Region::Reply, len: bytes_len(self.data) as usize },
            second: match self.body_extend {
                Some(body) => Segment { region: Region::Extend, len: bytes_len(body) as usize },
                None => null_segment(),
            },
            count: if self.body_extend is Some {
                2
            } else {
                1
            },
        }
    }

    /// The entries for a vectored write.
    pub fn iovecs(&self) -> (iovecs: IoVecs)
        ensures
            iovecs == self.spec_iovecs(),
            iovecs.first.region == Region::Reply,
            iovecs.first.len == bytes_len(self.data),
            match self.body_extend {
                Some(body) => {
                    &&& iovecs.count == 2
                    &&& iovecs.second.region == Region::Extend
                    &&& iovecs.second.len == bytes_len(body)
                },
                None => {
                    &&& iovecs.count == 1
                    &&& iovecs.second.region == Region::Null
                    &&& iovecs.second.len == 0
                },
            },
    {
        let first = Segment { region: Region::Reply, len: self.data.len() };
        match &self.body_extend {
            None => IoVecs { first, second: Segment { region: Region::Null, len: 0 }, count: 1 },
            Some(body) => IoVecs {
                first,
                second: Segment { region: Region::Extend, len: body.len() },
                count: 2,
            },
        }
    }
}

/// Which way a submission moves bytes.
#[derive(Clone, Copy, Debug, PartialEq, Eq, Structural)]
pub enum Opcode {
    /// From the device into the buffers.
    Readv,
    /// From the buffers to the device.
    Writev,
}

/// An entry for the submission queue.
#[derive(Clone, Copy, Debug, PartialEq, Eq, Structural)]
pub struct Submission {
    /// The operation.
    pub opcode: Opcode,
    /// The descriptor of the device.
    pub fd: i32,
    /// The buffers.
    pub iovecs: IoVecs,
    /// The tag that the completion will carry.
    pub user_data: u64,
}

/// What the tag of a completion stands for.
#[derive(Clone, Copy, Debug, PartialEq, Eq, Structural)]
pub enum Tag {
    /// The read in this slot.
    Read(usize),
    /// The write in this slot.
    Write(usize),
}

/// The number by which the ring carries a tag.
pub open spec fn encode_tag(tag: Tag) -> int {
    match tag {
        Tag::Read(slot) => slot as int,
        Tag::Write(slot) => TAG_WRITE_BASE + slot,
    }
}

/// The tag that a number carried by the ring stands for.
pub open spec fn spec_decode_tag(user_data: u64) -> Tag {
    if user_data < TAG_WRITE_BASE {
        Tag::Read(user_data as usize)
    } else {
        Tag::Write(((user_data - TAG_WRITE_BASE) as u64) as usize)
    }
}

/// Turns a tag into the number by which the ring carries it.
pub fn tag_number(tag: Tag) -> (user_data: u64)
    requires
        encode_tag(tag) <= u64::MAX,
    ensures
        user_data == encode_tag(tag),
{
    match tag {
        Tag::Read(slot) => slot as u64,
        Tag::Write(slot) => TAG_WRITE_BASE + slot as u64,
    }
}

/// Turns a number carried by the ring into the tag it stands for.
pub fn decode_tag(user_data: u64) -> (tag: Tag)
    ensures
        tag == spec_decode_tag(user_data),
{
    if user_data < TAG_WRITE_BASE {
        Tag::Read(user_data as usize)
    } else {
        Tag::Write((user_data - TAG_WRITE_BASE) as usize)
    }
}

/// A slot number that a tag can carry: reads stay below the numbers of writes.
pub open spec fn carries(tag: Tag) -> bool {
    match tag {
        Tag::Read(slot) => slot < TAG_WRITE_BASE,
        Tag::Write(slot) => TAG_WRITE_BASE + slot <= u64::MAX,
    }
}

/// Every slot that a table may hold can be carried, the number stands for the same slot again,
/// and the numbers of reads and writes never collide.
pub proof fn law_tags_never_collide(tag: Tag, other: Tag)
    requires
        carries(tag),
        carries(other),
    ensures
        spec_decode_tag(encode_tag(tag) as u64) == tag,
        encode_tag(tag) == encode_tag(other) ==> tag == other,
        forall|slot: usize|
            slot < MAX_INFLIGHT_READS ==> #[trigger] carries(Tag::Read(slot)),
        forall|slot: usize|
            slot < MAX_INFLIGHT_WRITES ==> #[trigger] carries(Tag::Write(slot)),
{
}

/// The entry for byte `k` of what a vectored operation moves: the buffer, and the place in it.
/// The kernel goes through the used entries in order, each from its start to its end.
pub open spec fn byte_place(iovecs: IoVecs, k: int) -> Option<(Region, int)> {
    if iovecs.count >= 1 && 0 <= k < iovecs.first.len {
        Some((iovecs.first.region, k))
    } else if iovecs.count >= 2 && iovecs.first.len <= k < iovecs.first.len + iovecs.second.len {
        Some((iovecs.second.region, k - iovecs.first.len))
    } else {
        None
    }
}

/// What is read goes into the header until that is full, then into the data buffer, and nowhere
/// else. Both entries are there however long the buffers are.
pub proof fn law_read_fills_header_then_data<R>(read: ReadRequest<R>, k: int)
    ensures
        byte_place(read.spec_iovecs(), k) == (if 0 <= k < read.header_buf@.len() {
            Some((Region::Header, k))
        } else if read.header_buf@.len() <= k < read.header_buf@.len() + read.data_buf.len {
            Some((Region::Data, k - read.header_buf@.len()))
        } else {
            None
        }),
        read.spec_iovecs().count == 2,
        read.spec_iovecs().first.region == Region::Header,
        read.spec_iovecs().first.len == read.header_buf@.len(),
        read.spec_iovecs().second.region == Region::Data,
        read.spec_iovecs().second.len == read.data_buf.len,
{
    assert(read.header_buf.len() == read.header_buf@.len());
}

/// What is written is the reply from its first byte to its last, then the extension from its
/// first byte to its last, and nothing else. There is an entry for the reply, and one more
/// exactly where there is an extension.
pub proof fn law_write_sends_reply_then_extension<W>(write: WriteRequest<W>, k: int)
    requires
        bytes_len(write.data) <= usize::MAX,
        write.body_extend matches Some(body) ==> bytes_len(body) <= usize::MAX,
    ensures
        ({
            let reply = crate::foreign::bytes_content(write.data);
            let extension = match write.body_extend {
                Some(body) => crate::foreign::bytes_content(body),
                None => Seq::empty(),
            };
            byte_place(write.spec_iovecs(), k) == (if 0 <= k < reply.len() {
                Some((Region::Reply, k))
            } else if reply.len() <= k < reply.len() + extension.len() {
                Some((Region::Extend, k - reply.len()))
            } else {
                None
            })
        }),
        write.spec_iovecs().first.region == Region::Reply,
        write.spec_iovecs().first.len == bytes_len(write.data),
        match write.body_extend {
            Some(body) => {
                &&& write.spec_iovecs().count == 2
                &&& write.spec_iovecs().second.region == Region::Extend
                &&& write.spec_iovecs().second.len == bytes_len(body)
            },
            None => {
                &&& write.spec_iovecs().count == 1
                &&& write.spec_iovecs().second.region == Region::Null
                &&& write.spec_iovecs().second.len == 0
            },
        },
{
}

/// Numbers below the base of the writes are slots of reads; from the base on they are slots of
/// writes, counted from it.
pub proof fn law_numbers_stand_for_slots(user_data: u64)
    requires
        user_data - 0x1000 <= usize::MAX,
    ensures
        match spec_decode_tag(user_data) {
            Tag::Read(slot) => slot == user_data && user_data < 0x1000,
            Tag::Write(slot) => slot + 0x1000 == user_data,
        },
{
}

/// The number for a read's slot is the slot, that for a write's lies `0x1000` above the slot.
pub proof fn law_slots_have_numbers(slot: usize)
    ensures
        encode_tag(Tag::Read(slot)) == slot,
        encode_tag(Tag::Write(slot)) == slot + 0x1000,
{
}

} // verus!
