use rome_link::data_ops::check_range;
use rome_link::data_ops::read_data;
use rome_link::data_ops::size_to_end;
use rome_link::data_ops::verify_chunk;
use rome_link::data_ops::verify_data;
use rome_link::data_ops::write_data;
use rome_link::data_ops::BufferSize;
use rome_link::data_ops::ByteCount;
use rome_link::data_ops::DataChunk;
use rome_link::data_ops::DataReadRequest;
use rome_link::data_ops::DataWriteRequest;
use rome_link::data_ops::Exchange;
use rome_link::data_ops::DEFAULT_READ_BUFFER_SIZE;
use rome_link::data_ops::DEFAULT_WRITE_BUFFER_SIZE;
use rome_link::device::Device;
use rome_link::device::DeviceSettings;
use rome_link::error::Error;

/// A device as the protocol takes it to be: 64 KiB of memory behind the
/// read and the write command.
struct Memory {
    bytes: Vec<u8>,
    commands: Vec<Vec<u8>>,
}

fn nibble(c: u8) -> usize {
    match c {
        b'0'..=b'9' => (c - b'0') as usize,
        b'A'..=b'F' => (c - b'A') as usize + 10,
        _ => panic!("the command holds {:?} among its digits", c as char),
    }
}

fn number(digits: &[u8]) -> usize {
    digits.iter().fold(0, |n, c| n * 16 + nibble(*c))
}

impl Memory {
    fn new() -> Memory {
        Memory { bytes: vec![0xEE; 0x10000], commands: Vec::new() }
    }

    fn counting() -> Memory {
        let mut memory = Memory::new();
        for (address, byte) in memory.bytes.iter_mut().enumerate() {
            *byte = address as u8;
        }
        memory
    }

    fn respond(&mut self, exchange: &Exchange) -> Vec<u8> {
        let command = &exchange.command;
        self.commands.push(command.clone());
        assert_eq!(command.last(), Some(&b'\n'));
        let line = &command[..command.len() - 1];
        assert!(!line.contains(&b'\n'));
        let address = number(&line[1..5]);
        let response = match line[0] {
            b'R' => {
                assert_eq!(line.len(), 7);
                let count = number(&line[5..7]);
                let mut response = String::from("R");
                for k in 0..count {
                    response.push_str(&format!("{:02X}", self.bytes[(address + k) % 0x10000]));
                }
                response
            }
            b'W' => {
                let digits = &line[5..];
                assert_eq!(digits.len() % 2, 0);
                let count = digits.len() / 2;
                for k in 0..count {
                    self.bytes[(address + k) % 0x10000] = number(&digits[2 * k..2 * k + 2]) as u8;
                }
                format!("W{:04X}{:04X}", address, (address + count) % 0x10000)
            }
            tag => panic!("the command begins with {:?}", tag as char),
        };
        assert!(response.len() <= exchange.limit);
        response.into_bytes()
    }
}

fn device() -> Device {
    Device::new("port", &DeviceSettings::default())
}

fn request(offset: u16, size: usize, buffer_size: u8) -> DataReadRequest {
    DataReadRequest {
        offset,
        size: ByteCount::new(size).unwrap(),
        buffer_size: BufferSize::new(buffer_size).unwrap(),
    }
}

fn read_all(memory: &mut Memory, offset: u16, size: usize, buffer_size: u8) -> Vec<DataChunk> {
    let mut transfer = read_data(&device(), request(offset, size, buffer_size)).unwrap();
    let mut chunks = Vec::new();
    while let Some(exchange) = transfer.pending() {
        let response = memory.respond(&exchange);
        chunks.push(transfer.accept(&response).unwrap().unwrap());
    }
    assert!(transfer.is_finished());
    assert_eq!(transfer.accept(b"R00"), None);
    chunks
}

fn write_all(memory: &mut Memory, offset: u16, data: &[u8], buffer_size: u8) {
    let chunk = DataChunk { offset, data: data.to_vec() };
    let mut transfer = write_data(DataWriteRequest {
        data: &chunk,
        buffer_size: BufferSize::new(buffer_size).unwrap(),
    });
    while let Some(exchange) = transfer.pending() {
        let response = memory.respond(&exchange);
        assert_eq!(transfer.accept(&response), Some(Ok(())));
    }
    assert!(transfer.is_finished());
    assert_eq!(transfer.accept(b"W00000000"), None);
}

#[test]
fn default_buffer_sizes_fit_the_receive_buffer() {
    assert_eq!(DEFAULT_READ_BUFFER_SIZE, 31);
    assert_eq!(DEFAULT_WRITE_BUFFER_SIZE, 29);
    assert_eq!(2 + 4 + 2 * DEFAULT_WRITE_BUFFER_SIZE as usize, 64);
}

#[test]
fn sizes_are_never_zero() {
    assert_eq!(BufferSize::new(0), None);
    assert_eq!(ByteCount::new(0), None);
    assert_eq!(BufferSize::new(1).unwrap().get(), 1);
    assert_eq!(BufferSize::new(255).unwrap().get(), 255);
    assert_eq!(ByteCount::new(1).unwrap().get(), 1);
    assert_eq!(ByteCount::new(0x10000).unwrap().get(), 0x10000);
}

#[test]
fn read_of_ten_bytes_in_segments_of_four() {
    let mut memory = Memory::counting();
    let chunks = read_all(&mut memory, 0x0000, 10, 4);
    assert_eq!(
        chunks,
        vec![
            DataChunk { offset: 0x0000, data: vec![0, 1, 2, 3] },
            DataChunk { offset: 0x0004, data: vec![4, 5, 6, 7] },
            DataChunk { offset: 0x0008, data: vec![8, 9] },
        ]
    );
    assert_eq!(
        memory.commands,
        vec![b"R000004\n".to_vec(), b"R000404\n".to_vec(), b"R000802\n".to_vec()]
    );
}

#[test]
fn read_hands_out_one_exchange_at_a_time() {
    let mut transfer = read_data(&device(), request(0x0100, 70, 31)).unwrap();
    assert!(!transfer.is_finished());
    assert_eq!(transfer.pending(), Some(Exchange { command: b"R01001F\n".to_vec(), limit: 64 }));
    // Asking again does not move on.
    assert_eq!(transfer.pending(), Some(Exchange { command: b"R01001F\n".to_vec(), limit: 64 }));
    let first = transfer.accept(&[&b"R"[..], &b"41".repeat(31)].concat());
    assert_eq!(first, Some(Ok(DataChunk { offset: 0x0100, data: vec![0x41; 31] })));
    assert_eq!(transfer.pending(), Some(Exchange { command: b"R011F1F\n".to_vec(), limit: 64 }));
    let second = transfer.accept(&[&b"R"[..], &b"42".repeat(31)].concat());
    assert_eq!(second, Some(Ok(DataChunk { offset: 0x011F, data: vec![0x42; 31] })));
    assert_eq!(transfer.pending(), Some(Exchange { command: b"R013E08\n".to_vec(), limit: 18 }));
    let third = transfer.accept(&[&b"R"[..], &b"43".repeat(8)].concat());
    assert_eq!(third, Some(Ok(DataChunk { offset: 0x013E, data: vec![0x43; 8] })));
    assert_eq!(transfer.pending(), None);
    assert!(transfer.is_finished());
}

#[test]
fn read_chunks_tile_the_range() {
    for (offset, size, buffer_size) in [
        (0u16, 1usize, 1u8),
        (0, 1, 255),
        (0x1234, 31, 31),
        (0x1234, 32, 31),
        (0x1234, 62, 31),
        (0x00FF, 1000, 7),
        (0xFF00, 0x100, 255),
        (0xFFFF, 1, 31),
        (0x8000, 0x8000, 255),
    ] {
        let mut memory = Memory::counting();
        let chunks = read_all(&mut memory, offset, size, buffer_size);
        assert_eq!(chunks.len(), size.div_ceil(buffer_size as usize));
        let mut address = offset as usize;
        for (i, chunk) in chunks.iter().enumerate() {
            assert_eq!(chunk.offset as usize, address);
            assert!(!chunk.data.is_empty());
            if i + 1 < chunks.len() {
                assert_eq!(chunk.data.len(), buffer_size as usize);
            } else {
                assert!(chunk.data.len() <= buffer_size as usize);
            }
            for (k, byte) in chunk.data.iter().enumerate() {
                assert_eq!(*byte, (address + k) as u8);
            }
            address += chunk.data.len();
        }
        assert_eq!(address, offset as usize + size);
    }
}

#[test]
fn read_of_the_whole_memory_byte_by_byte() {
    let mut memory = Memory::counting();
    let chunks = read_all(&mut memory, 0, 0x10000, 1);
    assert_eq!(chunks.len(), 0x10000);
    assert_eq!(chunks[0], DataChunk { offset: 0, data: vec![0] });
    assert_eq!(chunks[0xFFFF], DataChunk { offset: 0xFFFF, data: vec![0xFF] });
    assert_eq!(memory.commands[0xFFFF], b"RFFFF01\n".to_vec());
}

#[test]
fn read_beyond_the_memory_is_out_of_range() {
    let transfer = read_data(&device(), request(0xFFFE, 4, 31));
    assert_eq!(
        transfer.err(),
        Some(Error::OutOfRange { offset: 0xFFFE, size: 4, memory_size: 0x10000 })
    );
    let transfer = read_data(&device(), request(0, 0x10001, 31));
    assert_eq!(
        transfer.err(),
        Some(Error::OutOfRange { offset: 0, size: 0x10001, memory_size: 0x10000 })
    );
    let transfer = read_data(&device(), request(1, usize::MAX, 1));
    assert_eq!(
        transfer.err(),
        Some(Error::OutOfRange { offset: 1, size: usize::MAX, memory_size: 0x10000 })
    );
}

#[test]
fn read_up_to_the_last_byte_is_in_range() {
    assert!(read_data(&device(), request(0xFFFE, 2, 31)).is_ok());
    assert!(read_data(&device(), request(0, 0x10000, 31)).is_ok());
    assert!(read_data(&device(), request(0xFFFF, 1, 31)).is_ok());
}

#[test]
fn range_check() {
    assert_eq!(check_range(&device(), 0, 0), Ok(()));
    assert_eq!(check_range(&device(), 0xFFFF, 1), Ok(()));
    assert_eq!(check_range(&device(), 0x8000, 0x8000), Ok(()));
    assert_eq!(
        check_range(&device(), 0x8000, 0x8001),
        Err(Error::OutOfRange { offset: 0x8000, size: 0x8001, memory_size: 0x10000 })
    );
}

#[test]
fn read_goes_on_after_a_bad_response() {
    let mut transfer = read_data(&device(), request(0x0010, 6, 4)).unwrap();
    assert_eq!(
        transfer.accept(b"R0011223"),
        Some(Err(Error::DecodeError { response: b"R0011223".to_vec() }))
    );
    assert_eq!(transfer.pending(), Some(Exchange { command: b"R001402\n".to_vec(), limit: 6 }));
    assert_eq!(
        transfer.accept(b"X"),
        Some(Err(Error::ProtocolMismatch { response: b"X".to_vec(), expected: b"R".to_vec() }))
    );
    assert_eq!(transfer.pending(), None);
}

#[test]
fn read_response_must_hold_the_segment() {
    let mut transfer = read_data(&device(), request(0x0010, 6, 4)).unwrap();
    // Good digits, but for two bytes where four were asked for.
    assert_eq!(
        transfer.accept(b"R0011"),
        Some(Err(Error::ProtocolMismatch {
            response: b"R0011".to_vec(),
            expected: b"R".to_vec()
        }))
    );
}

#[test]
fn write_in_sub_chunks() {
    let mut memory = Memory::new();
    write_all(&mut memory, 0x00FE, &[1, 2, 3, 4, 5, 6, 7], 3);
    assert_eq!(
        memory.commands,
        vec![b"W00FE010203\n".to_vec(), b"W0101040506\n".to_vec(), b"W010407\n".to_vec()]
    );
    assert_eq!(&memory.bytes[0x00FD..0x0106], &[0xEE, 1, 2, 3, 4, 5, 6, 7, 0xEE]);
}

#[test]
fn write_hands_out_one_exchange_at_a_time() {
    let chunk = DataChunk { offset: 0x2000, data: vec![0xAA, 0xBB, 0xCC] };
    let mut transfer =
        write_data(DataWriteRequest { data: &chunk, buffer_size: BufferSize::new(2).unwrap() });
    assert_eq!(transfer.pending(), Some(Exchange { command: b"W2000AABB\n".to_vec(), limit: 16 }));
    assert_eq!(transfer.pending(), Some(Exchange { command: b"W2000AABB\n".to_vec(), limit: 16 }));
    assert_eq!(transfer.accept(b"W20002002"), Some(Ok(())));
    assert_eq!(transfer.pending(), Some(Exchange { command: b"W2002CC\n".to_vec(), limit: 16 }));
    assert_eq!(transfer.accept(b"W20022003"), Some(Ok(())));
    assert_eq!(transfer.pending(), None);
    assert!(transfer.is_finished());
}

#[test]
fn write_of_nothing_sends_nothing() {
    let chunk = DataChunk { offset: 0x2000, data: vec![] };
    let mut transfer =
        write_data(DataWriteRequest { data: &chunk, buffer_size: BufferSize::new(29).unwrap() });
    assert!(transfer.is_finished());
    assert_eq!(transfer.pending(), None);
    assert_eq!(transfer.accept(b"W20002000"), None);
}

#[test]
fn write_wraps_at_the_end_of_the_address_space() {
    let mut memory = Memory::new();
    write_all(&mut memory, 0xFFFE, &[1, 2, 3, 4, 5], 2);
    assert_eq!(
        memory.commands,
        vec![b"WFFFE0102\n".to_vec(), b"W00000304\n".to_vec(), b"W000205\n".to_vec()]
    );
    assert_eq!(&memory.bytes[0xFFFE..], &[1, 2]);
    assert_eq!(&memory.bytes[..4], &[3, 4, 5, 0xEE]);
}

#[test]
fn write_wraps_within_a_sub_chunk() {
    let chunk = DataChunk { offset: 0xFFFF, data: vec![1, 2, 3] };
    let mut transfer =
        write_data(DataWriteRequest { data: &chunk, buffer_size: BufferSize::new(3).unwrap() });
    assert_eq!(transfer.pending(), Some(Exchange { command: b"WFFFF010203\n".to_vec(), limit: 16 }));
    assert_eq!(transfer.accept(b"WFFFF0002"), Some(Ok(())));
    assert!(transfer.is_finished());
}

#[test]
fn write_ends_with_the_first_bad_response() {
    let chunk = DataChunk { offset: 0x2000, data: vec![0xAA, 0xBB, 0xCC] };
    let mut transfer =
        write_data(DataWriteRequest { data: &chunk, buffer_size: BufferSize::new(2).unwrap() });
    assert_eq!(
        transfer.accept(b"W20002003"),
        Some(Err(Error::ProtocolMismatch {
            response: b"W20002003".to_vec(),
            expected: b"W20002002".to_vec(),
        }))
    );
    assert!(transfer.is_finished());
    assert_eq!(transfer.pending(), None);
    assert_eq!(transfer.accept(b"W20002002"), None);
}

#[test]
fn write_then_read_gives_the_same_bytes() {
    let data: Vec<u8> = (0..1000u32).map(|i| (i * 7 + 3) as u8).collect();
    for (write_buffer, read_buffer) in [(29u8, 31u8), (1, 255), (255, 1), (7, 7), (31, 29)] {
        for offset in [0u16, 0x0123, 0xFC18] {
            let mut memory = Memory::new();
            write_all(&mut memory, offset, &data, write_buffer);
            let chunks = read_all(&mut memory, offset, data.len(), read_buffer);
            let mut read_back = Vec::new();
            for chunk in &chunks {
                assert_eq!(verify_chunk(offset, &data, chunk), Ok(()));
                read_back.extend_from_slice(&chunk.data);
            }
            assert_eq!(read_back, data);
        }
    }
}

#[test]
fn verification_compares_at_the_chunk_s_place() {
    let written = [10u8, 11, 12, 13, 14, 15];
    let chunk = DataChunk { offset: 0x0102, data: vec![12, 13, 14] };
    assert_eq!(verify_chunk(0x0100, &written, &chunk), Ok(()));
    let chunk = DataChunk { offset: 0x0100, data: vec![10, 11, 12, 13, 14, 15] };
    assert_eq!(verify_chunk(0x0100, &written, &chunk), Ok(()));
    let chunk = DataChunk { offset: 0x0106, data: vec![] };
    assert_eq!(verify_chunk(0x0100, &written, &chunk), Ok(()));
}

#[test]
fn verification_fails_on_the_first_difference() {
    let written = [10u8, 11, 12, 13, 14, 15];
    let chunk = DataChunk { offset: 0x0102, data: vec![12, 99, 14] };
    assert_eq!(
        verify_chunk(0x0100, &written, &chunk),
        Err(Error::VerificationFailed { start: 0x0102, len: 3 })
    );
}

#[test]
fn verification_fails_outside_of_what_was_written() {
    let written = [10u8, 11, 12, 13, 14, 15];
    let chunk = DataChunk { offset: 0x00FF, data: vec![10] };
    assert_eq!(
        verify_chunk(0x0100, &written, &chunk),
        Err(Error::VerificationFailed { start: 0x00FF, len: 1 })
    );
    let chunk = DataChunk { offset: 0x0104, data: vec![14, 15, 16] };
    assert_eq!(
        verify_chunk(0x0100, &written, &chunk),
        Err(Error::VerificationFailed { start: 0x0104, len: 3 })
    );
    let chunk = DataChunk { offset: 0x0107, data: vec![] };
    assert_eq!(
        verify_chunk(0x0100, &written, &chunk),
        Err(Error::VerificationFailed { start: 0x0107, len: 0 })
    );
}

#[test]
fn verification_finds_a_byte_that_the_device_changed() {
    let data: Vec<u8> = (0..100u8).collect();
    let mut memory = Memory::new();
    write_all(&mut memory, 0x4000, &data, 29);
    memory.bytes[0x4000 + 40] ^= 0x01;
    let chunks = read_all(&mut memory, 0x4000, data.len(), 31);
    let verdicts: Vec<Result<(), Error>> =
        chunks.iter().map(|chunk| verify_chunk(0x4000, &data, chunk)).collect();
    assert_eq!(
        verdicts,
        vec![
            Ok(()),
            Err(Error::VerificationFailed { start: 0x401F, len: 31 }),
            Ok(()),
            Ok(()),
        ]
    );
}

fn verify_all(memory: &mut Memory, offset: u16, data: &[u8], buffer_size: u8) -> Result<(), Error> {
    let written = DataChunk { offset, data: data.to_vec() };
    let mut verification =
        verify_data(&device(), &written, BufferSize::new(buffer_size).unwrap()).unwrap();
    let mut verdict = Ok(());
    while let Some(exchange) = verification.pending() {
        let response = memory.respond(&exchange);
        verdict = verification.accept(&response).unwrap();
    }
    assert!(verification.is_finished());
    assert_eq!(verification.accept(b"R00"), None);
    verdict
}

#[test]
fn verification_accepts_what_was_written() {
    let data: Vec<u8> = (0..500u32).map(|i| (i * 13 + 1) as u8).collect();
    for (write_buffer, read_buffer) in [(29u8, 31u8), (1, 255), (255, 1), (31, 29)] {
        for offset in [0u16, 0x0123, 0xFE0C] {
            let mut memory = Memory::new();
            write_all(&mut memory, offset, &data, write_buffer);
            assert_eq!(verify_all(&mut memory, offset, &data, read_buffer), Ok(()));
            let reads = (data.len()).div_ceil(read_buffer as usize);
            let writes = (data.len()).div_ceil(write_buffer as usize);
            assert_eq!(memory.commands.len(), writes + reads);
        }
    }
}

#[test]
fn verification_stops_at_the_first_chunk_that_differs() {
    let data: Vec<u8> = (0..100u8).collect();
    let mut memory = Memory::new();
    write_all(&mut memory, 0x4000, &data, 29);
    memory.bytes[0x4000 + 40] ^= 0x01;
    memory.bytes[0x4000 + 90] ^= 0x01;
    memory.commands.clear();
    assert_eq!(
        verify_all(&mut memory, 0x4000, &data, 31),
        Err(Error::VerificationFailed { start: 0x401F, len: 31 })
    );
    assert_eq!(memory.commands, vec![b"R40001F\n".to_vec(), b"R401F1F\n".to_vec()]);
}

#[test]
fn verification_stops_at_a_response_without_a_chunk() {
    let written = DataChunk { offset: 0x0010, data: vec![1, 2, 3, 4, 5, 6] };
    let mut verification = verify_data(&device(), &written, BufferSize::new(4).unwrap()).unwrap();
    assert_eq!(verification.pending(), Some(Exchange { command: b"R001004\n".to_vec(), limit: 10 }));
    assert_eq!(
        verification.accept(b"R0102030"),
        Some(Err(Error::DecodeError { response: b"R0102030".to_vec() }))
    );
    assert!(verification.is_finished());
    assert_eq!(verification.pending(), None);
    assert_eq!(verification.accept(b"R01020304"), None);
}

#[test]
fn verification_of_nothing_reads_nothing() {
    let written = DataChunk { offset: 0x0010, data: vec![] };
    let mut verification = verify_data(&device(), &written, BufferSize::new(4).unwrap()).unwrap();
    assert!(verification.is_finished());
    assert_eq!(verification.pending(), None);
    assert_eq!(verification.accept(b"R"), None);
}

#[test]
fn verification_beyond_the_memory_is_out_of_range() {
    let written = DataChunk { offset: 0xFFFE, data: vec![1, 2, 3] };
    let verification = verify_data(&device(), &written, BufferSize::new(4).unwrap());
    assert_eq!(
        verification.err(),
        Some(Error::OutOfRange { offset: 0xFFFE, size: 3, memory_size: 0x10000 })
    );
}

#[test]
fn size_up_to_the_end_of_the_memory() {
    assert_eq!(size_to_end(&device(), 0), Ok(0x10000));
    assert_eq!(size_to_end(&device(), 0x0100), Ok(0xFF00));
    assert_eq!(size_to_end(&device(), 0xFFFF), Ok(1));
}
