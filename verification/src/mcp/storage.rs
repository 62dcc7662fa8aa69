//! The flash image and the serial line, as a front end reads and fills them.

use vstd::prelude::*;

use crate::mcp::handler::{
    HexValue, ReadFlashParams, ReadFlashResult, UartBufferResult, WriteFlashParams,
    WriteFlashResult,
};
use crate::mcp::hex::{bytes_to_hex, decode_hex};
use crate::mcp::worker::cut_window;
use crate::peripherals::spi_flash::{FlashState, SpiFlash};
use crate::soc::uart::Uart;

verus! {

/// Read bytes of the flash image, as many as asked for and as there are.
pub fn read_flash(data: &[u8], params: &ReadFlashParams) -> (r: ReadFlashResult)
    ensures
        r.offset.0 == params.offset.0,
        ({
            let bytes = crate::mcp::worker::window(
                data@,
                params.offset.0 as int,
                params.length.0 as int,
            );
            &&& r.length == bytes.len()
            &&& r.hex@ == crate::mcp::hex::hex_of(bytes)
        }),
{
    let bytes = cut_window(data, params.offset.0, params.length.0);
    ReadFlashResult {
        offset: HexValue(params.offset.0),
        length: bytes.len() as u32,
        hex: bytes_to_hex(bytes.as_slice()),
    }
}

/// An image with bytes laid over it from a place on. What lies past its end is
/// dropped.
pub open spec fn laid_over(data: Seq<u8>, start: int, bytes: Seq<u8>) -> Seq<u8> {
    Seq::new(
        data.len(),
        |i: int|
            if start <= i < start + bytes.len() {
                bytes[i - start]
            } else {
                data[i]
            },
    )
}

/// The bytes that fall on the image.
pub open spec fn landing(data: Seq<u8>, start: int, bytes: Seq<u8>) -> int {
    if start >= data.len() {
        0
    } else if start + bytes.len() <= data.len() {
        bytes.len() as int
    } else {
        data.len() - start
    }
}

fn lay_over(data: &mut Vec<u8>, start: usize, bytes: &Vec<u8>) -> (r: usize)
    ensures
        final(data)@ == laid_over(old(data)@, start as int, bytes@),
        r == landing(old(data)@, start as int, bytes@),
{
    let total: usize = data.len();
    let ghost before = data@;
    if start >= total {
        assert(data@ =~= laid_over(before, start as int, bytes@));
        return 0;
    }
    let room: usize = total - start;
    let n: usize = if bytes.len() <= room {
        bytes.len()
    } else {
        room
    };
    for i in 0..n
        invariant
            n <= bytes@.len(),
            start + n <= total,
            total == before.len(),
            data@ == laid_over(before, start as int, bytes@.take(i as int)),
    {
        data.set(start + i, bytes[i]);
        assert(data@ =~= laid_over(before, start as int, bytes@.take(i + 1)));
    }
    assert(data@ =~= laid_over(before, start as int, bytes@));
    n
}

/// Write bytes straight into the flash image, which marks it. Text that is no
/// hexadecimal writes nothing.
pub fn write_flash(flash: &mut SpiFlash, params: &WriteFlashParams) -> (r: WriteFlashResult)
    ensures
        r.offset.0 == params.offset.0,
        final(flash)@.data.len() == old(flash)@.data.len(),
        match crate::mcp::hex::hex_bytes(params.hex@) {
            Some(bytes) => {
                let start = params.offset.0 as int;
                &&& final(flash)@ == (FlashState {
                    data: laid_over(old(flash)@.data, start, bytes),
                    dirty: old(flash)@.dirty || r.bytes_written > 0,
                    ..old(flash)@
                })
                &&& r.bytes_written == landing(old(flash)@.data, start, bytes)
            },
            None => final(flash)@ == old(flash)@ && r.bytes_written == 0,
        },
{
    let offset: u32 = params.offset.0;
    let written: usize = match decode_hex(params.hex.as_str()) {
        Ok(bytes) => lay_over(&mut flash.data, offset as usize, &bytes),
        Err(_) => 0,
    };
    if written > 0 {
        flash.dirty = true;
    }
    WriteFlashResult { bytes_written: written, offset: HexValue(offset) }
}

/// What was written over the image reads back.
pub proof fn law_written_flash_reads_back(data: Seq<u8>, start: int, bytes: Seq<u8>)
    requires
        0 <= start,
        start + bytes.len() <= data.len(),
        bytes.len() > 0,
    ensures
        crate::mcp::worker::window(laid_over(data, start, bytes), start, bytes.len() as int)
            == bytes,
{
    assert(crate::mcp::worker::window(laid_over(data, start, bytes), start, bytes.len() as int)
        =~= bytes);
}

/// The text bytes are taken for, a replacement character standing for what is
/// none.
pub uninterp spec fn lossy_text(bytes: Seq<u8>) -> Seq<char>;

/// `String::from_utf8_lossy`: the text depends on the bytes alone, and bytes
/// that are UTF-8 are taken for the text they encode.
#[verifier::external_body]
fn lossy(bytes: &[u8]) -> (r: String)
    ensures
        r@ == lossy_text(bytes@),
        vstd::utf8::valid_utf8(bytes@) ==> r@ == vstd::utf8::decode_utf8(bytes@),
{
    String::from_utf8_lossy(bytes).into_owned()
}

/// Show bytes of the serial line beside the text they were taken for.
pub fn uart_buffer_result(bytes: &Vec<u8>, ascii: String) -> (r: UartBufferResult)
    ensures
        r.bytes_len == bytes@.len(),
        r.ascii@ == ascii@,
        r.hex@ == crate::mcp::hex::hex_of(bytes@),
{
    UartBufferResult { bytes_len: bytes.len(), ascii, hex: bytes_to_hex(bytes.as_slice()) }
}

/// Show everything software has printed.
pub fn get_uart_buffer(uart: &Uart) -> (r: UartBufferResult)
    ensures
        r.bytes_len == uart@.tx.len(),
        r.ascii@ == lossy_text(uart@.tx),
        vstd::utf8::valid_utf8(uart@.tx) ==> r.ascii@ == vstd::utf8::decode_utf8(uart@.tx),
        r.hex@ == crate::mcp::hex::hex_of(uart@.tx),
{
    let bytes = uart.tx_log_bytes();
    let ascii = lossy(bytes.as_slice());
    uart_buffer_result(&bytes, ascii)
}

/// Bytes laid over an image change what they fall on and nothing else, and the
/// image keeps its size; what falls past its end is not counted.
pub proof fn law_laid_bytes_change_their_place(data: Seq<u8>, start: int, bytes: Seq<u8>, i: int)
    requires
        0 <= start,
        0 <= i < data.len(),
    ensures
        laid_over(data, start, bytes).len() == data.len(),
        i < start || i >= start + bytes.len() ==> laid_over(data, start, bytes)[i] == data[i],
        start <= i < start + bytes.len() ==> laid_over(data, start, bytes)[i] == bytes[i - start],
        start + bytes.len() <= data.len() ==> landing(data, start, bytes) == bytes.len(),
        start < data.len() < start + bytes.len() ==> landing(data, start, bytes) == data.len()
            - start,
        start >= data.len() ==> landing(data, start, bytes) == 0,
{
}

} // verus!
