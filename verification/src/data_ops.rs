//! Reading and writing device memory in segments.
//!
//! A transfer of any length is cut into segments that fit the device's
//! receive buffer. Each segment takes one exchange: a command goes out and
//! one response line comes back. A transfer here does no I/O itself: it
//! hands out the exchange that is due, and takes the response to it.

use vstd::prelude::*;
use vstd::slice::slice_subrange;
use crate::bytes;
use crate::codec;
use crate::codec::end_address;
use crate::codec::parse_read_response;
use crate::codec::parse_write_response;
use crate::codec::read_command;
use crate::codec::read_response_limit;
use crate::codec::write_command;
use crate::codec::WRITE_RESPONSE_LIMIT;
use crate::device::Device;
use crate::device::MEMORY_SIZE;
use crate::error::unit_result;
use crate::error::Error;
use crate::error::ErrorView;
use crate::segments::bytes_before;
use crate::segments::lemma_segment;
use crate::segments::lemma_segment_count;
use crate::segments::segment_count;
use crate::segments::segment_len;
use crate::segments::segment_start;

verus! {

/// The largest read that fits the 64 bytes of an Arduino's receive
/// buffer: the tag and the terminator take two of them, and each byte of
/// data takes two.
pub const DEFAULT_READ_BUFFER_SIZE: u8 = 31;

/// The largest write that fits the same buffer: the tag, the terminator
/// and the four address digits take six of its bytes.
pub const DEFAULT_WRITE_BUFFER_SIZE: u8 = 29;

/// The size of a transfer buffer: from 1 to 255 bytes.
#[derive(Clone, Copy, Debug, PartialEq, Eq)]
pub struct BufferSize {
    value: u8,
}

impl View for BufferSize {
    type V = u8;

    closed spec fn view(&self) -> u8 {
        self.value
    }
}

impl BufferSize {
    #[verifier::type_invariant]
    spec fn positive(self) -> bool {
        self.value > 0
    }

    /// A buffer of `value` bytes, unless `value` is zero.
    pub fn new(value: u8) -> (size: Option<BufferSize>)
        ensures
            value == 0 ==> size is None,
            value > 0 ==> size is Some && size.unwrap()@ == value,
    {
        if value == 0 {
            None
        } else {
            Some(BufferSize { value })
        }
    }

    /// The number of bytes, which is not zero.
    pub fn get(self) -> (value: u8)
        ensures
            value == self@,
            value > 0,
    {
        proof {
            use_type_invariant(&self);
        }
        self.value
    }
}

/// The size of a transfer: at least one byte.
#[derive(Clone, Copy, Debug, PartialEq, Eq)]
pub struct ByteCount {
    value: usize,
}

impl View for ByteCount {
    type V = usize;

    closed spec fn view(&self) -> usize {
        self.value
    }
}

impl ByteCount {
    #[verifier::type_invariant]
    spec fn positive(self) -> bool {
        self.value > 0
    }

    /// A transfer of `value` bytes, unless `value` is zero.
    pub fn new(value: usize) -> (count: Option<ByteCount>)
        ensures
            value == 0 ==> count is None,
            value > 0 ==> count is Some && count.unwrap()@ == value,
    {
        if value == 0 {
            None
        } else {
            Some(ByteCount { value })
        }
    }

    /// The number of bytes, which is not zero.
    pub fn get(self) -> (value: usize)
        ensures
            value == self@,
            value > 0,
    {
        proof {
            use_type_invariant(&self);
        }
        self.value
    }
}

/// Bytes of device memory together with the address of the first.
#[derive(Debug, PartialEq, Eq)]
pub struct DataChunk {
    pub offset: u16,
    pub data: Vec<u8>,
}

/// A [`DataChunk`] with its bytes as a sequence.
pub struct DataChunkView {
    pub offset: u16,
    pub data: Seq<u8>,
}

impl View for DataChunk {
    type V = DataChunkView;

    open spec fn view(&self) -> DataChunkView {
        DataChunkView { offset: self.offset, data: self.data@ }
    }
}

/// What to read: `size` bytes from `offset` on, at most `buffer_size` of
/// them with one command.
#[derive(Copy, Clone, Debug, PartialEq, Eq)]
pub struct DataReadRequest {
    pub offset: u16,
    pub size: ByteCount,
    pub buffer_size: BufferSize,
}

/// What to write: the bytes of `data` from its offset on, at most
/// `buffer_size` of them with one command.
pub struct DataWriteRequest<'a> {
    pub data: &'a DataChunk,
    pub buffer_size: BufferSize,
}

/// One turn on the link: a command to send, and the line limit to receive
/// the response with.
#[derive(Debug, PartialEq, Eq)]
pub struct Exchange {
    pub command: Vec<u8>,
    pub limit: usize,
}

/// The view of a chunk that a read may have failed to give.
pub open spec fn chunk_result(r: Result<DataChunk, Error>) -> Result<DataChunkView, ErrorView> {
    match r {
        Ok(chunk) => Ok(chunk@),
        Err(e) => Err(e@),
    }
}

/// What the response to the read of `count` bytes at `address` gives.
pub open spec fn parse_chunk(response: Seq<u8>, address: u16, count: u8) -> Result<
    DataChunkView,
    ErrorView,
> {
    match parse_read_response(response, count) {
        Ok(data) => Ok(DataChunkView { offset: address, data }),
        Err(e) => Err(e),
    }
}

/// Whether `size` bytes from `offset` on lie within the device's memory.
pub open spec fn in_range(offset: u16, size: int) -> bool {
    offset + size <= MEMORY_SIZE
}

/// The number of bytes from `offset` to the end of the memory of
/// `device`: the most that a read from there can ask for.
pub fn size_to_end(device: &Device, offset: u16) -> (size: Result<usize, Error>)
    ensures
        size == Ok::<usize, Error>((MEMORY_SIZE - offset) as usize),
{
    match device.memory_size() {
        Ok(memory_size) => Ok(memory_size - offset as usize),
        Err(e) => Err(e),
    }
}

/// Tests that `size` bytes from `offset` on lie within the memory of
/// `device`.
pub fn check_range(device: &Device, offset: u16, size: usize) -> (outcome: Result<(), Error>)
    ensures
        match outcome {
            Ok(()) => in_range(offset, size as int),
            Err(e) => !in_range(offset, size as int) && e@ == (ErrorView::OutOfRange {
                offset,
                size,
                memory_size: MEMORY_SIZE,
            }),
        },
{
    let memory_size: usize = match device.memory_size() {
        Ok(memory_size) => memory_size,
        Err(e) => {
            return Err(e);
        },
    };
    if size > memory_size - offset as usize {
        Err(Error::OutOfRange { offset, size, memory_size })
    } else {
        Ok(())
    }
}

/// The length of the segment that is due in a transfer of `size` bytes
/// in which `index` segments, of `done` bytes together, are behind, or
/// `None` where none is left.
fn segment_due(size: usize, buffer_size: u8, index: usize, done: usize) -> (len: Option<u8>)
    requires
        buffer_size > 0,
        index <= segment_count(size as int, buffer_size as int),
        done == bytes_before(size as int, buffer_size as int, index as int),
    ensures
        segment_count(size as int, buffer_size as int) <= size,
        match len {
            None => index == segment_count(size as int, buffer_size as int),
            Some(len) => {
                &&& index < segment_count(size as int, buffer_size as int)
                &&& len == segment_len(size as int, buffer_size as int, index as int)
                &&& 1 <= len <= buffer_size
                &&& done == index * buffer_size
                &&& done + len <= size
                &&& done + len == bytes_before(size as int, buffer_size as int, index + 1)
            },
        },
{
    proof {
        lemma_segment_count(size as int, buffer_size as int);
    }
    if done >= size {
        proof {
            if index < segment_count(size as int, buffer_size as int) {
                lemma_segment(size as int, buffer_size as int, index as int);
            }
        }
        None
    } else {
        proof {
            lemma_segment(size as int, buffer_size as int, index as int);
        }
        let left: usize = size - done;
        if left < buffer_size as usize {
            Some(left as u8)
        } else {
            Some(buffer_size)
        }
    }
}

/// A read in progress: a single pass over the segments of a request, in
/// address order. It cannot be restarted.
#[derive(Debug)]
pub struct ReadTransfer {
    request: DataReadRequest,
    index: usize,
    done: usize,
}

impl ReadTransfer {
    #[verifier::type_invariant]
    spec fn wf(self) -> bool {
        let size = self.request.size@ as int;
        let buffer_size = self.request.buffer_size@ as int;
        &&& size > 0
        &&& buffer_size > 0
        &&& in_range(self.request.offset, size)
        &&& self.index <= segment_count(size, buffer_size)
        &&& self.done == bytes_before(size, buffer_size, self.index as int)
    }

    /// The request that is being served.
    pub closed spec fn request(&self) -> DataReadRequest {
        self.request
    }

    /// The index of the segment that is due.
    pub closed spec fn position(&self) -> int {
        self.index as int
    }

    /// The number of segments in all.
    pub open spec fn segments(&self) -> int {
        segment_count(self.request().size@ as int, self.request().buffer_size@ as int)
    }

    /// Whether every segment has had its response.
    pub open spec fn finished(&self) -> bool {
        self.position() >= self.segments()
    }

    /// The address at which the segment that is due starts.
    pub open spec fn pending_address(&self) -> u16 {
        segment_start(
            self.request().offset as int,
            self.request().buffer_size@ as int,
            self.position(),
        ) as u16
    }

    /// The length of the segment that is due.
    pub open spec fn pending_len(&self) -> u8 {
        segment_len(
            self.request().size@ as int,
            self.request().buffer_size@ as int,
            self.position(),
        ) as u8
    }

    fn pending_segment(&self) -> (segment: Option<(u16, u8)>)
        ensures
            match segment {
                None => self.finished(),
                Some((address, len)) => {
                    &&& !self.finished()
                    &&& address == self.pending_address()
                    &&& len == self.pending_len()
                    &&& self.position() + 1 <= self.segments() <= MEMORY_SIZE
                    &&& self.done + len == bytes_before(
                        self.request().size@ as int,
                        self.request().buffer_size@ as int,
                        self.position() + 1,
                    )
                },
            },
    {
        proof {
            use_type_invariant(self);
        }
        let size: usize = self.request.size.get();
        let buffer_size: u8 = self.request.buffer_size.get();
        match segment_due(size, buffer_size, self.index, self.done) {
            None => None,
            Some(len) => {
                let address: u16 = (self.request.offset as usize + self.done) as u16;
                Some((address, len))
            },
        }
    }

    fn at_same_place(&self) -> (twin: ReadTransfer)
        ensures
            twin == *self,
    {
        proof {
            use_type_invariant(self);
        }
        ReadTransfer { request: self.request, index: self.index, done: self.done }
    }

    /// Whether every segment has had its response.
    pub fn is_finished(&self) -> (finished: bool)
        ensures
            finished == self.finished(),
    {
        self.pending_segment().is_none()
    }

    /// The exchange that is due: the read command for the next segment,
    /// or `None` once every segment has had its response.
    pub fn pending(&self) -> (exchange: Option<Exchange>)
        ensures
            match exchange {
                None => self.finished(),
                Some(x) => {
                    &&& !self.finished()
                    &&& x.command@ == read_command(self.pending_address(), self.pending_len())
                    &&& x.limit == read_response_limit(self.pending_len())
                },
            },
    {
        match self.pending_segment() {
            None => None,
            Some((address, len)) => Some(
                Exchange {
                    command: codec::encode_read_command(address, len),
                    limit: codec::response_limit(len),
                },
            ),
        }
    }

    /// Takes the response to the exchange that is due and moves on to the
    /// next segment, whether the response was good or not.
    ///
    /// Gives the chunk that the response holds, tagged with the segment's
    /// address, or `None` where no exchange was due.
    pub fn accept(&mut self, response: &[u8]) -> (chunk: Option<Result<DataChunk, Error>>)
        ensures
            final(self).request() == old(self).request(),
            old(self).finished() ==> chunk is None && final(self).position() == old(
                self,
            ).position(),
            !old(self).finished() ==> {
                &&& final(self).position() == old(self).position() + 1
                &&& chunk is Some
                &&& chunk_result(chunk.unwrap()) == parse_chunk(
                    response@,
                    old(self).pending_address(),
                    old(self).pending_len(),
                )
            },
    {
        proof {
            use_type_invariant(&*self);
        }
        match self.pending_segment() {
            None => None,
            Some((address, len)) => {
                let outcome: Result<DataChunk, Error> = match codec::decode_read_response(
                    response,
                    len,
                ) {
                    Ok(data) => Ok(DataChunk { offset: address, data }),
                    Err(e) => Err(e),
                };
                *self = ReadTransfer {
                    request: self.request,
                    index: self.index + 1,
                    done: self.done + len as usize,
                };
                Some(outcome)
            },
        }
    }
}

/// Starts a read.
///
/// Fails with `OutOfRange`, before anything is sent, where the request
/// reaches beyond the memory of `device`. Otherwise the transfer stands
/// before the first segment.
pub fn read_data(device: &Device, request: DataReadRequest) -> (transfer: Result<
    ReadTransfer,
    Error,
>)
    ensures
        match transfer {
            Ok(t) => {
                &&& in_range(request.offset, request.size@ as int)
                &&& t.request() == request
                &&& t.position() == 0
            },
            Err(e) => {
                &&& !in_range(request.offset, request.size@ as int)
                &&& e@ == (ErrorView::OutOfRange {
                    offset: request.offset,
                    size: request.size@,
                    memory_size: MEMORY_SIZE,
                })
            },
        },
{
    let size: usize = request.size.get();
    let buffer_size: u8 = request.buffer_size.get();
    match check_range(device, request.offset, size) {
        Err(e) => Err(e),
        Ok(()) => {
            proof {
                lemma_segment_count(size as int, buffer_size as int);
            }
            Ok(ReadTransfer { request, index: 0, done: 0 })
        },
    }
}

/// The address at which sub-chunk `i` of a write from `offset` goes:
/// `i` buffers on, wrapping at the end of the address space.
pub open spec fn sub_chunk_address(offset: u16, buffer_size: int, i: int) -> u16 {
    end_address(offset, i * buffer_size)
}

/// The bytes of sub-chunk `i` of `data`.
pub open spec fn sub_chunk(data: Seq<u8>, buffer_size: int, i: int) -> Seq<u8> {
    data.subrange(
        i * buffer_size,
        i * buffer_size + segment_len(data.len() as int, buffer_size, i),
    )
}

/// Stepping on from an address that `done` bytes led to leads where
/// all the bytes together lead.
proof fn lemma_end_address_step(offset: u16, done: int, len: int)
    requires
        0 <= done,
        0 <= len < 0x10000,
    ensures
        end_address(end_address(offset, done), len) == end_address(offset, done + len),
        end_address(offset, done).wrapping_add(len as u16) == end_address(offset, done + len),
{
}

/// A write in progress: a single pass over the sub-chunks of a request,
/// in address order. It ends with the first response that does not
/// confirm its command.
#[derive(Debug)]
pub struct WriteTransfer<'a> {
    data: &'a [u8],
    offset: u16,
    buffer_size: BufferSize,
    index: usize,
    done: usize,
    address: u16,
    failed: bool,
}

impl<'a> WriteTransfer<'a> {
    #[verifier::type_invariant]
    spec fn wf(self) -> bool {
        let size = self.data@.len() as int;
        let buffer_size = self.buffer_size@ as int;
        &&& buffer_size > 0
        &&& self.index <= segment_count(size, buffer_size)
        &&& self.done == bytes_before(size, buffer_size, self.index as int)
        &&& self.address == end_address(self.offset, self.done as int)
    }

    /// The bytes to write.
    pub closed spec fn data(&self) -> Seq<u8> {
        self.data@
    }

    /// The address of the first byte.
    pub closed spec fn offset(&self) -> u16 {
        self.offset
    }

    /// The largest number of bytes that one command carries.
    pub closed spec fn buffer_size(&self) -> u8 {
        self.buffer_size@
    }

    /// The index of the sub-chunk that is due.
    pub closed spec fn position(&self) -> int {
        self.index as int
    }

    /// Whether a response failed to confirm its command.
    pub closed spec fn failed(&self) -> bool {
        self.failed
    }

    /// The number of sub-chunks in all.
    pub open spec fn segments(&self) -> int {
        segment_count(self.data().len() as int, self.buffer_size() as int)
    }

    /// Whether nothing is left to send: every sub-chunk was confirmed, or
    /// the transfer has failed.
    pub open spec fn finished(&self) -> bool {
        self.failed() || self.position() >= self.segments()
    }

    /// The address at which the sub-chunk that is due goes.
    pub open spec fn pending_address(&self) -> u16 {
        sub_chunk_address(self.offset(), self.buffer_size() as int, self.position())
    }

    /// The length of the sub-chunk that is due.
    pub open spec fn pending_len(&self) -> int {
        segment_len(self.data().len() as int, self.buffer_size() as int, self.position())
    }

    /// The bytes of the sub-chunk that is due.
    pub open spec fn pending_payload(&self) -> Seq<u8> {
        sub_chunk(self.data(), self.buffer_size() as int, self.position())
    }

    fn pending_segment(&self) -> (segment: Option<(u16, &'a [u8])>)
        ensures
            match segment {
                None => self.finished(),
                Some((address, payload)) => {
                    &&& !self.finished()
                    &&& address == self.pending_address()
                    &&& payload@ == self.pending_payload()
                    &&& payload@.len() == self.pending_len()
                    &&& 1 <= payload@.len() <= self.buffer_size()
                    &&& self.position() + 1 <= self.segments() <= usize::MAX
                    &&& self.address == end_address(self.offset(), self.done as int)
                    &&& self.done + payload@.len() <= usize::MAX
                    &&& self.done + payload@.len() == bytes_before(
                        self.data().len() as int,
                        self.buffer_size() as int,
                        self.position() + 1,
                    )
                },
            },
    {
        proof {
            use_type_invariant(self);
        }
        if self.failed {
            return None;
        }
        let buffer_size: u8 = self.buffer_size.get();
        match segment_due(self.data.len(), buffer_size, self.index, self.done) {
            None => None,
            Some(len) => {
                let payload = slice_subrange(self.data, self.done, self.done + len as usize);
                Some((self.address, payload))
            },
        }
    }

    /// Whether nothing is left to send.
    pub fn is_finished(&self) -> (finished: bool)
        ensures
            finished == self.finished(),
    {
        self.pending_segment().is_none()
    }

    /// The exchange that is due: the write command for the next
    /// sub-chunk, or `None` where nothing is left to send.
    pub fn pending(&self) -> (exchange: Option<Exchange>)
        ensures
            match exchange {
                None => self.finished(),
                Some(x) => {
                    &&& !self.finished()
                    &&& x.command@ == write_command(self.pending_address(), self.pending_payload())
                    &&& x.limit == WRITE_RESPONSE_LIMIT
                },
            },
    {
        match self.pending_segment() {
            None => None,
            Some((address, payload)) => Some(
                Exchange {
                    command: codec::encode_write_command(address, payload),
                    limit: WRITE_RESPONSE_LIMIT,
                },
            ),
        }
    }

    /// Takes the response to the exchange that is due.
    ///
    /// Where the response confirms the command, the transfer moves on to
    /// the next sub-chunk. Where it does not, the transfer has failed and
    /// sends no more. Gives `None` where no exchange was due.
    pub fn accept(&mut self, response: &[u8]) -> (outcome: Option<Result<(), Error>>)
        ensures
            final(self).data() == old(self).data(),
            final(self).offset() == old(self).offset(),
            final(self).buffer_size() == old(self).buffer_size(),
            old(self).finished() ==> {
                &&& outcome is None
                &&& final(self).position() == old(self).position()
                &&& final(self).failed() == old(self).failed()
            },
            !old(self).finished() ==> {
                &&& outcome is Some
                &&& unit_result(outcome.unwrap()) == parse_write_response(
                    response@,
                    old(self).pending_address(),
                    old(self).pending_len(),
                )
                &&& outcome.unwrap() is Ok ==> !final(self).failed() && final(self).position()
                    == old(self).position() + 1
                &&& outcome.unwrap() is Err ==> final(self).failed() && final(self).position()
                    == old(self).position()
            },
    {
        proof {
            use_type_invariant(&*self);
        }
        match self.pending_segment() {
            None => None,
            Some((address, payload)) => {
                let len: u8 = payload.len() as u8;
                let outcome: Result<(), Error> = codec::check_write_response(
                    response,
                    address,
                    len,
                );
                proof {
                    lemma_end_address_step(self.offset, self.done as int, len as int);
                }
                if outcome.is_ok() {
                    *self = WriteTransfer {
                        data: self.data,
                        offset: self.offset,
                        buffer_size: self.buffer_size,
                        index: self.index + 1,
                        done: self.done + len as usize,
                        address: address.wrapping_add(len as u16),
                        failed: false,
                    };
                } else {
                    *self = WriteTransfer {
                        data: self.data,
                        offset: self.offset,
                        buffer_size: self.buffer_size,
                        index: self.index,
                        done: self.done,
                        address: self.address,
                        failed: true,
                    };
                }
                Some(outcome)
            },
        }
    }
}

/// Starts a write of the request's bytes, at its chunk's offset.
///
/// Nothing is tested against the size of the memory: addresses wrap at
/// the end of the address space. A request without bytes gives a
/// transfer that is finished.
pub fn write_data<'a>(request: DataWriteRequest<'a>) -> (transfer: WriteTransfer<'a>)
    ensures
        transfer.data() == request.data.data@,
        transfer.offset() == request.data.offset,
        transfer.buffer_size() == request.buffer_size@,
        transfer.position() == 0,
        !transfer.failed(),
{
    let buffer_size: u8 = request.buffer_size.get();
    proof {
        lemma_segment_count(request.data.data@.len() as int, buffer_size as int);
    }
    WriteTransfer {
        data: request.data.data.as_slice(),
        offset: request.data.offset,
        buffer_size: request.buffer_size,
        index: 0,
        done: 0,
        address: request.data.offset,
        failed: false,
    }
}

/// Whether `chunk` holds what was written: the bytes of `written` at the
/// chunk's distance from `base`, the address of the first byte written.
pub open spec fn chunk_matches(base: u16, written: Seq<u8>, chunk: DataChunkView) -> bool {
    let at = chunk.offset - base;
    &&& 0 <= at
    &&& at + chunk.data.len() <= written.len()
    &&& written.subrange(at, at + chunk.data.len()) == chunk.data
}

/// Compares a chunk that was read back with the bytes `written` from
/// `base` on.
///
/// Fails with `VerificationFailed`, which names the chunk's addresses,
/// where the chunk differs from what was written there, or lies outside
/// of it.
pub fn verify_chunk(base: u16, written: &[u8], chunk: &DataChunk) -> (outcome: Result<(), Error>)
    ensures
        match outcome {
            Ok(()) => chunk_matches(base, written@, chunk@),
            Err(e) => !chunk_matches(base, written@, chunk@) && e@
                == (ErrorView::VerificationFailed {
                start: chunk.offset,
                len: chunk.data.len(),
            }),
        },
{
    let len: usize = chunk.data.len();
    if chunk.offset >= base {
        let at: usize = (chunk.offset - base) as usize;
        if at <= written.len() && len <= written.len() - at {
            let expected = slice_subrange(written, at, at + len);
            if bytes::equal(chunk.data.as_slice(), expected) {
                return Ok(());
            }
        }
    }
    Err(Error::VerificationFailed { start: chunk.offset, len })
}

/// What the comparison with `written`, which lies at `base`, makes of
/// a chunk that was read back, or of the failure to read it.
pub open spec fn verdict(
    chunk: Result<DataChunkView, ErrorView>,
    base: u16,
    written: Seq<u8>,
) -> Result<(), ErrorView> {
    match chunk {
        Err(e) => Err(e),
        Ok(c) => if chunk_matches(base, written, c) {
            Ok(())
        } else {
            Err(ErrorView::VerificationFailed { start: c.offset, len: c.data.len() as usize })
        },
    }
}

/// A verification in progress: what was written is read back, and each
/// chunk is compared as it arrives. It ends with the first chunk that
/// cannot be had or that differs.
#[derive(Debug)]
pub struct Verification<'a> {
    written: &'a DataChunk,
    buffer_size: BufferSize,
    transfer: Option<ReadTransfer>,
    failed: bool,
}

impl<'a> Verification<'a> {
    #[verifier::type_invariant]
    spec fn wf(self) -> bool {
        match self.transfer {
            None => self.written.data@.len() == 0,
            Some(transfer) => {
                &&& transfer.request.offset == self.written.offset
                &&& transfer.request.size@ == self.written.data@.len()
                &&& transfer.request.buffer_size == self.buffer_size
            },
        }
    }

    /// What was written.
    pub closed spec fn written(&self) -> DataChunkView {
        self.written@
    }

    /// The largest number of bytes that one command reads back.
    pub closed spec fn buffer_size(&self) -> u8 {
        self.buffer_size@
    }

    /// The index of the segment that is due.
    pub closed spec fn position(&self) -> int {
        match self.transfer {
            None => 0,
            Some(transfer) => transfer.index as int,
        }
    }

    /// Whether a chunk could not be had, or differed.
    pub closed spec fn failed(&self) -> bool {
        self.failed
    }

    /// The number of segments in all.
    pub open spec fn segments(&self) -> int {
        segment_count(self.written().data.len() as int, self.buffer_size() as int)
    }

    /// Whether nothing is left to read: every chunk was found good, or
    /// the verification has failed.
    pub open spec fn finished(&self) -> bool {
        self.failed() || self.position() >= self.segments()
    }

    /// The address at which the segment that is due starts.
    pub open spec fn pending_address(&self) -> u16 {
        segment_start(
            self.written().offset as int,
            self.buffer_size() as int,
            self.position(),
        ) as u16
    }

    /// The length of the segment that is due.
    pub open spec fn pending_len(&self) -> u8 {
        segment_len(
            self.written().data.len() as int,
            self.buffer_size() as int,
            self.position(),
        ) as u8
    }

    /// Whether nothing is left to read.
    pub fn is_finished(&self) -> (finished: bool)
        ensures
            finished == self.finished(),
    {
        self.pending().is_none()
    }

    /// The exchange that is due: the read command for the next segment,
    /// or `None` where nothing is left to read.
    pub fn pending(&self) -> (exchange: Option<Exchange>)
        ensures
            match exchange {
                None => self.finished(),
                Some(x) => {
                    &&& !self.finished()
                    &&& x.command@ == read_command(self.pending_address(), self.pending_len())
                    &&& x.limit == read_response_limit(self.pending_len())
                },
            },
    {
        let buffer_size: u8 = self.buffer_size.get();
        proof {
            use_type_invariant(self);
            lemma_segment_count(self.written.data@.len() as int, buffer_size as int);
        }
        if self.failed {
            return None;
        }
        match &self.transfer {
            None => None,
            Some(transfer) => transfer.pending(),
        }
    }

    /// Takes the response to the exchange that is due, and compares the
    /// chunk that it holds with what was written at its place.
    ///
    /// Where the chunk is good, the verification goes on with the next
    /// segment. Where the response holds no chunk, or the chunk differs,
    /// the verification has failed and reads no more. Gives `None` where
    /// no exchange was due.
    pub fn accept(&mut self, response: &[u8]) -> (outcome: Option<Result<(), Error>>)
        ensures
            final(self).written() == old(self).written(),
            final(self).buffer_size() == old(self).buffer_size(),
            old(self).finished() ==> {
                &&& outcome is None
                &&& final(self).position() == old(self).position()
                &&& final(self).failed() == old(self).failed()
            },
            !old(self).finished() ==> {
                &&& outcome is Some
                &&& unit_result(outcome.unwrap()) == verdict(
                    parse_chunk(response@, old(self).pending_address(), old(self).pending_len()),
                    old(self).written().offset,
                    old(self).written().data,
                )
                &&& final(self).position() == old(self).position() + 1
                &&& final(self).failed() == (outcome.unwrap() is Err)
            },
    {
        let buffer_size: u8 = self.buffer_size.get();
        proof {
            use_type_invariant(&*self);
            lemma_segment_count(self.written.data@.len() as int, buffer_size as int);
        }
        if self.failed {
            return None;
        }
        let mut transfer: ReadTransfer = match &self.transfer {
            None => {
                return None;
            },
            Some(transfer) => transfer.at_same_place(),
        };
        match transfer.accept(response) {
            None => None,
            Some(chunk) => {
                let outcome: Result<(), Error> = match chunk {
                    Err(e) => Err(e),
                    Ok(chunk) => verify_chunk(
                        self.written.offset,
                        self.written.data.as_slice(),
                        &chunk,
                    ),
                };
                *self = Verification {
                    written: self.written,
                    buffer_size: self.buffer_size,
                    transfer: Some(transfer),
                    failed: outcome.is_err(),
                };
                Some(outcome)
            },
        }
    }
}

/// Starts the verification of a write: the read of the bytes of
/// `written`, at its offset, with buffers of `buffer_size` bytes.
///
/// Fails with `OutOfRange`, before anything is sent, where what was
/// written does not lie within the memory of `device`. Where nothing was
/// written, the verification is finished before it starts.
pub fn verify_data<'a>(device: &Device, written: &'a DataChunk, buffer_size: BufferSize) -> (verification:
    Result<Verification<'a>, Error>)
    ensures
        match verification {
            Ok(v) => {
                &&& in_range(written.offset, written.data@.len() as int)
                &&& v.written() == written@
                &&& v.buffer_size() == buffer_size@
                &&& v.position() == 0
                &&& !v.failed()
            },
            Err(e) => {
                &&& !in_range(written.offset, written.data@.len() as int)
                &&& e@ == (ErrorView::OutOfRange {
                    offset: written.offset,
                    size: written.data@.len() as usize,
                    memory_size: MEMORY_SIZE,
                })
            },
        },
{
    match ByteCount::new(written.data.len()) {
        None => Ok(Verification { written, buffer_size, transfer: None, failed: false }),
        Some(size) => {
            let request = DataReadRequest { offset: written.offset, size, buffer_size };
            match read_data(device, request) {
                Err(e) => Err(e),
                Ok(transfer) => Ok(
                    Verification { written, buffer_size, transfer: Some(transfer), failed: false },
                ),
            }
        },
    }
}

/// The chunks of a read tile its range.
///
/// Let every command of a read within the memory have had a response
/// that holds a chunk. Then the first chunk starts at `offset`; every
/// chunk holds at least one byte and at most a buffer full; every chunk
/// but the last is full, and the next one starts where it ends; and the
/// last one ends where the range ends. So the addresses only grow, and
/// nothing is left out or read twice.
pub proof fn lemma_read_chunks_tile(
    offset: u16,
    size: int,
    buffer_size: int,
    responses: Seq<Seq<u8>>,
    chunks: Seq<DataChunkView>,
)
    requires
        size > 0,
        0 < buffer_size <= 255,
        in_range(offset, size),
        responses.len() == segment_count(size, buffer_size),
        chunks.len() == segment_count(size, buffer_size),
        forall|i: int|
            0 <= i < chunks.len() ==> parse_chunk(
                responses[i],
                segment_start(offset as int, buffer_size, i) as u16,
                segment_len(size, buffer_size, i) as u8,
            ) == Ok::<DataChunkView, ErrorView>(#[trigger] chunks[i]),
    ensures
        chunks.len() >= 1,
        chunks[0].offset == offset,
        forall|i: int| 0 <= i < chunks.len() ==> 1 <= (#[trigger] chunks[i]).data.len() <= buffer_size,
        forall|i: int|
            0 <= i < chunks.len() - 1 ==> (#[trigger] chunks[i]).data.len() == buffer_size
                && chunks[i + 1].offset == chunks[i].offset + buffer_size,
        chunks.last().offset + chunks.last().data.len() == offset + size,
{
    lemma_segment_count(size, buffer_size);
    assert forall|i: int| 0 <= i < chunks.len() implies (#[trigger] chunks[i]).offset
        == segment_start(offset as int, buffer_size, i) && chunks[i].data.len() == segment_len(
        size,
        buffer_size,
        i,
    ) by {
        lemma_segment(size, buffer_size, i);
    }
    assert forall|i: int| 0 <= i < chunks.len() implies 1 <= (#[trigger] chunks[i]).data.len()
        <= buffer_size by {
        lemma_segment(size, buffer_size, i);
    }
    assert forall|i: int| 0 <= i < chunks.len() - 1 implies (#[trigger] chunks[i]).data.len()
        == buffer_size && chunks[i + 1].offset == chunks[i].offset + buffer_size by {
        lemma_segment(size, buffer_size, i);
        lemma_segment(size, buffer_size, i + 1);
        crate::segments::lemma_segment_order(buffer_size, i, i + 1);
    }
    lemma_segment(size, buffer_size, chunks.len() - 1);
}

} // verus!
