//! The command codec: memory commands and their responses as wire bytes.
//!
//! A read asks for up to 255 bytes from a 16-bit address; a write carries
//! its payload along. Every command is one line, and so is every response.

use vstd::prelude::*;
use vstd::slice::slice_subrange;
use vstd::slice::slice_to_vec;
use crate::bytes;
use crate::error::bytes_result;
use crate::error::unit_result;
use crate::error::Error;
use crate::error::ErrorView;
use crate::hex;
use crate::hex::bytes_of;
use crate::hex::hex_of;
use crate::hex::hex_of_byte;
use crate::hex::hex_of_u16;

verus! {

/// The byte that ends every line.
pub const TERMINATOR: u8 = 0x0A;

/// `R`, the first byte of a read command and of its response.
pub const READ_TAG: u8 = 0x52;

/// `W`, the first byte of a write command and of its response.
pub const WRITE_TAG: u8 = 0x57;

/// The longest line accepted in answer to a write command.
pub const WRITE_RESPONSE_LIMIT: usize = 16;

/// The line that asks for `count` bytes from `address` on.
pub open spec fn read_command(address: u16, count: u8) -> Seq<u8> {
    seq![READ_TAG] + hex_of_u16(address) + hex_of_byte(count) + seq![TERMINATOR]
}

/// The line with which a device hands out `data`.
pub open spec fn read_response(data: Seq<u8>) -> Seq<u8> {
    seq![READ_TAG] + hex_of(data)
}

/// The longest line accepted in answer to a read of `count` bytes.
pub open spec fn read_response_limit(count: u8) -> int {
    2 + 2 * count
}

/// What a response to a read of `count` bytes holds.
///
/// The response must begin with the read tag; the rest must be
/// hexadecimal digits, two for each of exactly `count` bytes.
pub open spec fn parse_read_response(response: Seq<u8>, count: u8) -> Result<Seq<u8>, ErrorView> {
    if response.len() == 0 || response[0] != READ_TAG {
        Err(ErrorView::ProtocolMismatch { response, expected: seq![READ_TAG] })
    } else {
        match bytes_of(response.skip(1)) {
            None => Err(ErrorView::DecodeError { response }),
            Some(data) => if data.len() == count {
                Ok(data)
            } else {
                Err(ErrorView::ProtocolMismatch { response, expected: seq![READ_TAG] })
            },
        }
    }
}

/// The line that stores `payload` from `address` on.
pub open spec fn write_command(address: u16, payload: Seq<u8>) -> Seq<u8> {
    seq![WRITE_TAG] + hex_of_u16(address) + hex_of(payload) + seq![TERMINATOR]
}

/// The address after `len` bytes from `address`, wrapping at the end of
/// the 16-bit address space.
pub open spec fn end_address(address: u16, len: int) -> u16 {
    ((address + len) % 0x10000) as u16
}

/// The line with which a device confirms a write of `len` bytes at
/// `address`: both ends of the range written.
pub open spec fn write_response(address: u16, len: int) -> Seq<u8> {
    seq![WRITE_TAG] + hex_of_u16(address) + hex_of_u16(end_address(address, len))
}

/// Whether `response` confirms a write of `len` bytes at `address`.
pub open spec fn parse_write_response(response: Seq<u8>, address: u16, len: int) -> Result<
    (),
    ErrorView,
> {
    if response == write_response(address, len) {
        Ok(())
    } else {
        Err(ErrorView::ProtocolMismatch { response, expected: write_response(address, len) })
    }
}

/// Builds the command that reads `count` bytes from `address` on.
pub fn encode_read_command(address: u16, count: u8) -> (command: Vec<u8>)
    ensures
        command@ == read_command(address, count),
{
    let mut command: Vec<u8> = Vec::new();
    command.push(READ_TAG);
    hex::push_u16(&mut command, address);
    hex::push_byte(&mut command, count);
    command.push(TERMINATOR);
    command
}

/// The line limit to receive the response to a read of `count` bytes
/// with.
pub fn response_limit(count: u8) -> (limit: usize)
    ensures
        limit == read_response_limit(count),
{
    2 + (count as usize) * 2
}

/// Decodes the response to a read of `count` bytes.
pub fn decode_read_response(response: &[u8], count: u8) -> (data: Result<Vec<u8>, Error>)
    ensures
        bytes_result(data) == parse_read_response(response@, count),
{
    if response.len() == 0 || response[0] != READ_TAG {
        let mut expected: Vec<u8> = Vec::new();
        expected.push(READ_TAG);
        return Err(Error::ProtocolMismatch { response: slice_to_vec(response), expected });
    }
    let payload = slice_subrange(response, 1, response.len());
    match hex::decode(payload) {
        None => Err(Error::DecodeError { response: slice_to_vec(response) }),
        Some(data) => {
            if data.len() == count as usize {
                Ok(data)
            } else {
                let mut expected: Vec<u8> = Vec::new();
                expected.push(READ_TAG);
                Err(Error::ProtocolMismatch { response: slice_to_vec(response), expected })
            }
        },
    }
}

/// Builds the command that stores `payload` from `address` on.
pub fn encode_write_command(address: u16, payload: &[u8]) -> (command: Vec<u8>)
    ensures
        command@ == write_command(address, payload@),
{
    let mut command: Vec<u8> = Vec::new();
    command.push(WRITE_TAG);
    hex::push_u16(&mut command, address);
    hex::push_bytes(&mut command, payload);
    command.push(TERMINATOR);
    command
}

/// Builds the response that confirms a write of `len` bytes at `address`.
pub fn expected_write_response(address: u16, len: u8) -> (response: Vec<u8>)
    ensures
        response@ == write_response(address, len as int),
{
    let end: u16 = address.wrapping_add(len as u16);
    let mut response: Vec<u8> = Vec::new();
    response.push(WRITE_TAG);
    hex::push_u16(&mut response, address);
    hex::push_u16(&mut response, end);
    response
}

/// Checks the response to a write of `len` bytes at `address`.
pub fn check_write_response(response: &[u8], address: u16, len: u8) -> (outcome: Result<
    (),
    Error,
>)
    ensures
        unit_result(outcome) == parse_write_response(response@, address, len as int),
{
    let expected: Vec<u8> = expected_write_response(address, len);
    if bytes::equal(response, expected.as_slice()) {
        Ok(())
    } else {
        Err(Error::ProtocolMismatch { response: slice_to_vec(response), expected })
    }
}

/// A device's answer to the read of `count` bytes decodes to the bytes it
/// handed out.
pub proof fn lemma_read_response_round_trip(data: Seq<u8>, count: u8)
    requires
        data.len() == count,
    ensures
        parse_read_response(read_response(data), count) == Ok::<Seq<u8>, ErrorView>(data),
        read_response(data).len() <= read_response_limit(count),
{
    hex::lemma_bytes_of_hex_of(data);
    assert(read_response(data).skip(1) =~= hex_of(data));
}

/// A damaged payload is never taken for data.
///
/// Let a response begin with the read tag. Where what follows is an odd
/// number of bytes, or holds a byte that is no hexadecimal digit, the
/// response is a `DecodeError`. And a response is data only where it is
/// the tag and two digits for each of the `count` bytes: each byte of
/// the data is then what its two digits stand for.
pub proof fn lemma_damaged_payload(response: Seq<u8>, count: u8)
    requires
        response.len() > 0,
        response[0] == READ_TAG,
    ensures
        (response.len() - 1) % 2 == 1 ==> parse_read_response(response, count) == Err::<
            Seq<u8>,
            ErrorView,
        >(ErrorView::DecodeError { response }),
        (exists|j: int| 1 <= j < response.len() && hex::digit_value(response[j]) is None)
            ==> parse_read_response(response, count) == Err::<Seq<u8>, ErrorView>(
            ErrorView::DecodeError { response },
        ),
        parse_read_response(response, count) is Ok <==> {
            &&& response.len() == 1 + 2 * count
            &&& forall|j: int| 1 <= j < response.len() ==> hex::digit_value(response[j]) is Some
        },
        parse_read_response(response, count) matches Ok(data) ==> {
            &&& data.len() == count
            &&& forall|i: int|
                0 <= i < count ==> data[i] == hex::pair_value(response.skip(1), i)
        },
{
    let payload = response.skip(1);
    if exists|j: int| 1 <= j < response.len() && hex::digit_value(response[j]) is None {
        let j = choose|j: int| 1 <= j < response.len() && hex::digit_value(response[j]) is None;
        assert(payload[j - 1] == response[j]);
    }
    if hex::is_hex(payload) {
        assert forall|j: int| 1 <= j < response.len() implies hex::digit_value(
            response[j],
        ) is Some by {
            assert(payload[j - 1] == response[j]);
        }
    }
}

} // verus!
