//! The MAX6675 thermocouple converter: decoding its 16-bit frame, and
//! conversions between its raw code (quarter degrees Celsius) and Fahrenheit.
use vstd::prelude::*;
use embedded_hal::blocking::spi::Transfer;
use embedded_hal::digital::v2::OutputPin;

verus! {

/// Why no reading could be taken.
#[derive(Clone, Copy, Debug, PartialEq, Eq, Structural)]
pub enum Max6675Error {
    /// The SPI transfer, or a change of the chip-select line, failed.
    SPIError,
    /// The converter flagged its thermocouple input as open.
    SensorError,
}

/// Division of `a` by a positive `b`, rounded toward zero as Rust's integer `/` does.
pub open spec fn trunc_div(a: int, b: int) -> int {
    if a >= 0 {
        a / b
    } else {
        -((-a) / b)
    }
}

/// Whether the open-thermocouple bit (bit 2 of the low byte) is set.
pub open spec fn frame_flags_fault(lo: u8) -> bool {
    (lo as int / 4) % 2 == 1
}

/// The temperature code that a frame carries: the 16-bit word shifted right by three.
pub open spec fn frame_value(hi: u8, lo: u8) -> int {
    (hi as int * 256 + lo as int) / 8
}

/// What a frame `hi, lo` decodes to.
pub open spec fn frame_result(hi: u8, lo: u8) -> Result<u16, Max6675Error> {
    if frame_flags_fault(lo) {
        Err(Max6675Error::SensorError)
    } else {
        Ok(frame_value(hi, lo) as u16)
    }
}

/// A 16-bit raw code read as a signed value, as a cast to `i16` reads it:
/// codes from 32768 up stand for the negative temperatures that `f_to_raw`
/// wraps around.
pub open spec fn signed_code(raw: u16) -> int {
    if raw < 32768 {
        raw as int
    } else {
        raw as int - 65536
    }
}

/// Degrees Fahrenheit for a signed raw value: `raw * 9 / 20 + 32`, rounded toward zero.
pub open spec fn fahrenheit_of(raw: int) -> int {
    trunc_div(raw * 9, 20) + 32
}

/// Raw code for degrees Fahrenheit: `(f - 32) * 20 / 9` rounded toward zero, as a
/// 16-bit code (a negative quotient wraps around as the cast to `u16` does).
pub open spec fn raw_of_fahrenheit(f: int) -> int {
    trunc_div((f - 32) * 20, 9) % 65536
}

/// Decodes the two bytes that the converter shifts out, high byte first.
pub fn decode_frame(hi: u8, lo: u8) -> (r: Result<u16, Max6675Error>)
    ensures
        r == frame_result(hi, lo),
{
    if (lo / 4) % 2 == 1 {
        Err(Max6675Error::SensorError)
    } else {
        let word: u16 = (hi as u16) * 256 + (lo as u16);
        Ok(word / 8)
    }
}

/// Converts a raw code, read as signed, to whole degrees Fahrenheit.
pub fn raw_to_f(temp: u16) -> (r: i16)
    ensures
        r == fahrenheit_of(signed_code(temp)),
{
    let signed: i32 = if temp < 32768 {
        temp as i32
    } else {
        temp as i32 - 65536
    };
    let scaled: i32 = signed * 9;
    let degrees: i32 = if scaled >= 0 {
        scaled / 20
    } else {
        -((-scaled) / 20)
    };
    (degrees + 32) as i16
}

/// Converts whole degrees Fahrenheit to a raw code.
pub fn f_to_raw(temp_f: i16) -> (r: u16)
    ensures
        r == raw_of_fahrenheit(temp_f as int),
{
    let scaled: i32 = (temp_f as i32 - 32) * 20;
    if scaled >= 0 {
        let q: u32 = (scaled / 9) as u32;
        (q % 65536) as u16
    } else {
        let q: u32 = ((-scaled) / 9) as u32;
        let m: u32 = q % 65536;
        proof {
            let qi = q as int;
            assert((-qi) % 65536 == (65536 - qi % 65536) % 65536) by {
                vstd::arithmetic::div_mod::lemma_fundamental_div_mod(qi, 65536);
                vstd::arithmetic::div_mod::lemma_fundamental_div_mod(-qi, 65536);
                vstd::arithmetic::div_mod::lemma_fundamental_div_mod(65536 - qi % 65536, 65536);
            }
        }
        ((65536 - m) % 65536) as u16
    }
}

/// Converting a raw code of a temperature at or above freezing to Fahrenheit
/// and back loses at most three raw codes (a degree Fahrenheit is 2.2 codes),
/// and never gains.
pub proof fn lemma_raw_round_trip(x: u16)
    requires
        x < 32768,
    ensures
        x - 3 <= raw_of_fahrenheit(fahrenheit_of(signed_code(x))) <= x,
{
    let xi = x as int;
    let q = xi * 9 / 20;
    vstd::arithmetic::div_mod::lemma_fundamental_div_mod(xi * 9, 20);
    vstd::arithmetic::div_mod::lemma_mod_bound(xi * 9, 20);
    assert(fahrenheit_of(xi) - 32 == q);
    assert(q >= 0);
    let r = (q * 20) / 9;
    vstd::arithmetic::div_mod::lemma_fundamental_div_mod(q * 20, 9);
    vstd::arithmetic::div_mod::lemma_mod_bound(q * 20, 9);
    assert(0 <= r <= xi);
    vstd::arithmetic::div_mod::lemma_small_mod(r as nat, 65536);
}

/// Converting whole degrees Fahrenheit to a raw code and back comes within one
/// degree: from 32 °F up it gives the same degrees or one fewer, below 32 °F the
/// same or one more (the code then wraps around, and reads back as negative).
/// Beyond this range the code no longer fits in 16 bits.
pub proof fn lemma_fahrenheit_round_trip(y: i16)
    requires
        -14714 <= y <= 14777,
    ensures
        y - 1 <= fahrenheit_of(signed_code(raw_of_fahrenheit(y as int) as u16)) <= y + 1,
        y >= 32 ==> fahrenheit_of(signed_code(raw_of_fahrenheit(y as int) as u16)) <= y,
        y < 32 ==> y <= fahrenheit_of(signed_code(raw_of_fahrenheit(y as int) as u16)),
{
    let d = y as int - 32;
    if d >= 0 {
        let r = (d * 20) / 9;
        vstd::arithmetic::div_mod::lemma_fundamental_div_mod(d * 20, 9);
        vstd::arithmetic::div_mod::lemma_mod_bound(d * 20, 9);
        assert(0 <= r < 32768);
        vstd::arithmetic::div_mod::lemma_small_mod(r as nat, 65536);
        assert(raw_of_fahrenheit(y as int) == r);
        assert(signed_code(r as u16) == r);
        vstd::arithmetic::div_mod::lemma_fundamental_div_mod(r * 9, 20);
        vstd::arithmetic::div_mod::lemma_mod_bound(r * 9, 20);
    } else {
        let q = ((-d) * 20) / 9;
        vstd::arithmetic::div_mod::lemma_fundamental_div_mod((-d) * 20, 9);
        vstd::arithmetic::div_mod::lemma_mod_bound((-d) * 20, 9);
        assert(1 <= q <= 32768);
        assert(trunc_div(d * 20, 9) == -q);
        assert((-q) % 65536 == 65536 - q) by {
            vstd::arithmetic::div_mod::lemma_fundamental_div_mod(-q, 65536);
        }
        assert(raw_of_fahrenheit(y as int) == 65536 - q);
        assert(signed_code((65536 - q) as u16) == -q);
        vstd::arithmetic::div_mod::lemma_fundamental_div_mod(q * 9, 20);
        vstd::arithmetic::div_mod::lemma_mod_bound(q * 9, 20);
        assert(trunc_div(-q * 9, 20) == -((q * 9) / 20));
    }
}

/// Relies on embedded_hal's `OutputPin::set_low`; only whether it succeeded is kept.
#[verifier::external_body]
fn pin_set_low<CS: OutputPin>(cs: &mut CS) -> (ok: bool) {
    cs.set_low().is_ok()
}

/// Relies on embedded_hal's `OutputPin::set_high`; only whether it succeeded is kept.
#[verifier::external_body]
fn pin_set_high<CS: OutputPin>(cs: &mut CS) -> (ok: bool) {
    cs.set_high().is_ok()
}

/// Relies on embedded_hal's blocking `Transfer::transfer`: it exchanges two bytes
/// in place; the bytes read back are returned, or `None` where the bus failed.
#[verifier::external_body]
fn spi_read_two<SPI: Transfer<u8>>(spi: &mut SPI) -> (r: Option<(u8, u8)>) {
    let mut buf: [u8; 2] = [0u8, 0u8];
    let ok = spi.transfer(&mut buf).is_ok();
    if ok {
        Some((buf[0], buf[1]))
    } else {
        None
    }
}

/// A MAX6675 on an SPI bus, selected by its own chip-select pin.
pub struct TempMAX6675<SPI, CS> {
    pub spi: SPI,
    pub cs: CS,
}

impl<SPI, CS> TempMAX6675<SPI, CS> where SPI: Transfer<u8>, CS: OutputPin {
    pub fn new(spi: SPI, cs: CS) -> (r: Self)
        ensures
            r.spi == spi,
            r.cs == cs,
    {
        TempMAX6675 { spi, cs }
    }

    /// Takes one reading: selects the chip, reads its frame, releases the chip
    /// and decodes the frame (see `finish_read`). Where selecting the chip or the
    /// transfer fails, the chip is left as it is.
    pub fn read_temp_raw(&mut self) -> (r: Result<u16, Max6675Error>)
        ensures
            r == Err::<u16, Max6675Error>(Max6675Error::SPIError)
                || exists|hi: u8, lo: u8| r == frame_result(hi, lo),
    {
        if !pin_set_low(&mut self.cs) {
            return finish_read(false, None, false);
        }
        let frame = spi_read_two(&mut self.spi);
        if frame.is_none() {
            return finish_read(true, frame, false);
        }
        let released = pin_set_high(&mut self.cs);
        finish_read(true, frame, released)
    }
}

/// The result of a reading from what each bus step gave: whether the chip was
/// selected, the frame read back (`None` where the transfer failed), and whether
/// the chip was released. Any bus failure gives `SPIError`; otherwise the frame
/// is decoded.
pub fn finish_read(selected: bool, frame: Option<(u8, u8)>, released: bool) -> (r: Result<
    u16,
    Max6675Error,
>)
    ensures
        !selected || frame is None || !released ==> r == Err::<u16, Max6675Error>(
            Max6675Error::SPIError,
        ),
        selected && released ==> (frame matches Some((hi, lo)) ==> r == frame_result(hi, lo)),
{
    match frame {
        Some((hi, lo)) => {
            if selected && released {
                decode_frame(hi, lo)
            } else {
                Err(Max6675Error::SPIError)
            }
        },
        None => Err(Max6675Error::SPIError),
    }
}

} // verus!
