//! A model of the device's memory, and what a write followed by a read
//! comes to on it.
//!
//! The model is the one that the protocol takes for granted: a write
//! command stores its payload from its address on, a read command hands
//! out what is stored, and addresses wrap at the end of the address
//! space.

use vstd::prelude::*;
use crate::codec::lemma_read_response_round_trip;
use crate::codec::parse_write_response;
use crate::codec::read_response;
use crate::codec::write_response;
use crate::data_ops::chunk_matches;
use crate::data_ops::parse_chunk;
use crate::data_ops::sub_chunk;
use crate::data_ops::sub_chunk_address;
use crate::data_ops::verdict;
use crate::data_ops::DataChunkView;
use crate::device::MEMORY_SIZE;
use crate::error::ErrorView;
use crate::segments::bytes_before;
use crate::segments::lemma_segment;
use crate::segments::lemma_segment_count;
use crate::segments::segment_count;
use crate::segments::segment_len;
use crate::segments::segment_start;

verus! {

/// The memory after a write command has stored `payload` at `address`.
pub open spec fn store(memory: Seq<u8>, address: u16, payload: Seq<u8>) -> Seq<u8> {
    Seq::new(
        memory.len(),
        |a: int|
            {
                let k = (a - address) % 0x10000;
                if k < payload.len() {
                    payload[k]
                } else {
                    memory[a]
                }
            },
    )
}

/// The `count` bytes that a read command at `address` hands out.
pub open spec fn load(memory: Seq<u8>, address: u16, count: int) -> Seq<u8> {
    Seq::new(count as nat, |k: int| memory[(address + k) % 0x10000])
}

/// The memory after the first `segments` commands of the write of `data`
/// at `offset`.
pub open spec fn written(
    memory: Seq<u8>,
    offset: u16,
    data: Seq<u8>,
    buffer_size: int,
    segments: int,
) -> Seq<u8>
    decreases segments,
{
    if segments <= 0 {
        memory
    } else {
        store(
            written(memory, offset, data, buffer_size, segments - 1),
            sub_chunk_address(offset, buffer_size, segments - 1),
            sub_chunk(data, buffer_size, segments - 1),
        )
    }
}

/// After the first `segments` commands of a write, the bytes that they
/// carried are in memory, each `data[k]` at the address `k` bytes on from
/// `offset`, and every other address holds what it held.
pub proof fn lemma_written(
    memory: Seq<u8>,
    offset: u16,
    data: Seq<u8>,
    buffer_size: int,
    segments: int,
)
    requires
        memory.len() == MEMORY_SIZE,
        data.len() <= MEMORY_SIZE,
        buffer_size > 0,
        0 <= segments <= segment_count(data.len() as int, buffer_size),
    ensures
        written(memory, offset, data, buffer_size, segments).len() == MEMORY_SIZE,
        forall|a: int|
            0 <= a < MEMORY_SIZE ==> #[trigger] written(
                memory,
                offset,
                data,
                buffer_size,
                segments,
            )[a] == if (a - offset) % 0x10000 < bytes_before(
                data.len() as int,
                buffer_size,
                segments,
            ) {
                data[(a - offset) % 0x10000]
            } else {
                memory[a]
            },
    decreases segments,
{
    let size = data.len() as int;
    if segments > 0 {
        let i = segments - 1;
        lemma_written(memory, offset, data, buffer_size, i);
        lemma_segment_count(size, buffer_size);
        lemma_segment(size, buffer_size, i);
        let after = written(memory, offset, data, buffer_size, segments);
        let address = sub_chunk_address(offset, buffer_size, i);
        let payload = sub_chunk(data, buffer_size, i);
        let start = i * buffer_size;
        let len = segment_len(size, buffer_size, i);
        assert(payload.len() == len);
        assert(address == (offset + start) % 0x10000);
        assert forall|a: int| 0 <= a < MEMORY_SIZE implies #[trigger] after[a] == if (a - offset)
            % 0x10000 < start + len {
            data[(a - offset) % 0x10000]
        } else {
            memory[a]
        } by {
            let k = (a - offset) % 0x10000;
            let j = (a - address) % 0x10000;
            if j < len {
                assert(k == start + j);
            }
        }
    }
}

/// What a device with this memory answers to command `i` of the write
/// of `data` at `offset`, held against what the write awaits.
pub open spec fn write_outcome(offset: u16, data: Seq<u8>, buffer_size: int, i: int) -> Result<
    (),
    ErrorView,
> {
    let address = sub_chunk_address(offset, buffer_size, i);
    parse_write_response(
        write_response(address, sub_chunk(data, buffer_size, i).len() as int),
        address,
        segment_len(data.len() as int, buffer_size, i),
    )
}

/// What command `j` of the read of `size` bytes from `offset` gives on
/// a device with this memory.
pub open spec fn read_outcome(
    memory: Seq<u8>,
    offset: u16,
    size: int,
    buffer_size: int,
    j: int,
) -> Result<DataChunkView, ErrorView> {
    let address = segment_start(offset as int, buffer_size, j) as u16;
    let count = segment_len(size, buffer_size, j) as u8;
    parse_chunk(read_response(load(memory, address, count as int)), address, count)
}

/// The part of `data`, which lies at `offset`, that segment `j` of a read
/// of all of it covers.
pub open spec fn covered(offset: u16, data: Seq<u8>, buffer_size: int, j: int) -> DataChunkView {
    let start = j * buffer_size;
    DataChunkView {
        offset: (offset + start) as u16,
        data: data.subrange(start, start + segment_len(data.len() as int, buffer_size, j)),
    }
}

/// Whether `memory` holds `data` from `offset` on.
pub open spec fn holds(memory: Seq<u8>, offset: u16, data: Seq<u8>) -> bool {
    &&& memory.len() == MEMORY_SIZE
    &&& offset + data.len() <= MEMORY_SIZE
    &&& forall|k: int| 0 <= k < data.len() ==> memory[offset + k] == #[trigger] data[k]
}

/// After the whole write of `data` at `offset`, where it fits the
/// memory, the memory holds `data` there.
pub proof fn lemma_written_holds(memory: Seq<u8>, offset: u16, data: Seq<u8>, buffer_size: int)
    requires
        memory.len() == MEMORY_SIZE,
        offset + data.len() <= MEMORY_SIZE,
        buffer_size > 0,
    ensures
        holds(
            written(
                memory,
                offset,
                data,
                buffer_size,
                segment_count(data.len() as int, buffer_size),
            ),
            offset,
            data,
        ),
{
    let size = data.len() as int;
    let segments = segment_count(size, buffer_size);
    let after = written(memory, offset, data, buffer_size, segments);
    lemma_segment_count(size, buffer_size);
    lemma_written(memory, offset, data, buffer_size, segments);
    assert forall|k: int| 0 <= k < data.len() implies after[offset + k] == #[trigger] data[k] by {}
}

/// The device confirms every command of a write.
pub proof fn lemma_write_confirmed(offset: u16, data: Seq<u8>, buffer_size: int, i: int)
    requires
        buffer_size > 0,
        0 <= i < segment_count(data.len() as int, buffer_size),
    ensures
        write_outcome(offset, data, buffer_size, i) == Ok::<(), ErrorView>(()),
{
    lemma_segment_count(data.len() as int, buffer_size);
    lemma_segment(data.len() as int, buffer_size, i);
}

/// Where the memory holds `data` at `offset`, command `j` of a read of
/// all of it gives the part of `data` that its segment covers, and the
/// comparison with `data` accepts that chunk.
pub proof fn lemma_read_back(memory: Seq<u8>, offset: u16, data: Seq<u8>, buffer_size: u8, j: int)
    requires
        holds(memory, offset, data),
        buffer_size > 0,
        0 <= j < segment_count(data.len() as int, buffer_size as int),
    ensures
        read_outcome(memory, offset, data.len() as int, buffer_size as int, j) == Ok::<
            DataChunkView,
            ErrorView,
        >(covered(offset, data, buffer_size as int, j)),
        chunk_matches(offset, data, covered(offset, data, buffer_size as int, j)),
{
    let size = data.len() as int;
    lemma_segment_count(size, buffer_size as int);
    lemma_segment(size, buffer_size as int, j);
    let start = j * buffer_size;
    let address = segment_start(offset as int, buffer_size as int, j) as u16;
    let count = segment_len(size, buffer_size as int, j) as u8;
    let expected = data.subrange(start, start + count);
    let loaded = load(memory, address, count as int);
    assert(loaded =~= expected);
    lemma_read_response_round_trip(expected, count);
}

/// A write followed by a read gives back what was written.
///
/// Let `data`, not empty, be written at `offset` with buffers of
/// `write_buffer` bytes, into a memory that it fits, and let the same
/// range then be read with buffers of `read_buffer` bytes. Then every
/// write command is confirmed by the response that the device gives;
/// and the response to every read command decodes to the chunk that
/// holds the bytes of `data` at the chunk's place, so that the
/// comparison with what was written accepts it.
pub proof fn lemma_write_read_round_trip(
    memory: Seq<u8>,
    offset: u16,
    data: Seq<u8>,
    write_buffer: u8,
    read_buffer: u8,
)
    requires
        memory.len() == MEMORY_SIZE,
        data.len() > 0,
        offset + data.len() <= MEMORY_SIZE,
        write_buffer > 0,
        read_buffer > 0,
    ensures
        forall|i: int|
            0 <= i < segment_count(data.len() as int, write_buffer as int)
                ==> #[trigger] write_outcome(offset, data, write_buffer as int, i) == Ok::<
                (),
                ErrorView,
            >(()),
        forall|j: int|
            0 <= j < segment_count(data.len() as int, read_buffer as int) ==> {
                &&& #[trigger] read_outcome(
                    written(
                        memory,
                        offset,
                        data,
                        write_buffer as int,
                        segment_count(data.len() as int, write_buffer as int),
                    ),
                    offset,
                    data.len() as int,
                    read_buffer as int,
                    j,
                ) == Ok::<DataChunkView, ErrorView>(covered(offset, data, read_buffer as int, j))
                &&& chunk_matches(offset, data, covered(offset, data, read_buffer as int, j))
                &&& verdict(
                    Ok(covered(offset, data, read_buffer as int, j)),
                    offset,
                    data,
                ) == Ok::<(), ErrorView>(())
            },
{
    let size = data.len() as int;
    let writes = segment_count(size, write_buffer as int);
    let reads = segment_count(size, read_buffer as int);
    let after = written(memory, offset, data, write_buffer as int, writes);
    lemma_written_holds(memory, offset, data, write_buffer as int);
    assert forall|i: int| 0 <= i < writes implies #[trigger] write_outcome(
        offset,
        data,
        write_buffer as int,
        i,
    ) == Ok::<(), ErrorView>(()) by {
        lemma_write_confirmed(offset, data, write_buffer as int, i);
    }
    assert forall|j: int| 0 <= j < reads implies {
        &&& #[trigger] read_outcome(after, offset, size, read_buffer as int, j) == Ok::<
            DataChunkView,
            ErrorView,
        >(covered(offset, data, read_buffer as int, j))
        &&& chunk_matches(offset, data, covered(offset, data, read_buffer as int, j))
    } by {
        lemma_read_back(after, offset, data, read_buffer, j);
    }
}

} // verus!
