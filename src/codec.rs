//! The wire codec: a request is four upper-case hexadecimal digits giving the
//! command's length in bytes, then the command's bytes.
use crate::errors::AdbSocketError;
use vstd::prelude::*;
use vstd::string::StringSliceAdditionalSpecFns;

verus! {

/// The largest command length that four hexadecimal digits can carry.
pub const MAX_COMMAND_LEN: usize = 0xFFFF;

/// The upper-case hexadecimal digit of a value below sixteen.
pub open spec fn hex_digit(v: nat) -> u8 {
    if v < 10 {
        (0x30 + v) as u8
    } else {
        (0x41 + v - 10) as u8
    }
}

/// The value of a hexadecimal digit of either case, if the byte is one.
pub open spec fn hex_value(b: u8) -> Option<nat> {
    if 0x30 <= b <= 0x39 {
        Some((b - 0x30) as nat)
    } else if 0x41 <= b <= 0x46 {
        Some((b - 0x41 + 10) as nat)
    } else if 0x61 <= b <= 0x66 {
        Some((b - 0x61 + 10) as nat)
    } else {
        None
    }
}

/// A value below 65536 as four zero-padded upper-case hexadecimal digits.
pub open spec fn hex4(n: nat) -> Seq<u8> {
    seq![hex_digit(n / 4096 % 16), hex_digit(n / 256 % 16), hex_digit(n / 16 % 16), hex_digit(n % 16)]
}

/// The value of a four-digit hexadecimal field, if it is one.
pub open spec fn parse_hex4(b: Seq<u8>) -> Option<nat> {
    if b.len() == 4 && hex_value(b[0]) is Some && hex_value(b[1]) is Some && hex_value(b[2]) is Some
        && hex_value(b[3]) is Some {
        Some(
            hex_value(b[0]).unwrap() * 4096 + hex_value(b[1]).unwrap() * 256 + hex_value(
                b[2],
            ).unwrap() * 16 + hex_value(b[3]).unwrap(),
        )
    } else {
        None
    }
}

/// The framed request for a command of these bytes.
pub open spec fn frame(cmd: Seq<u8>) -> Seq<u8> {
    hex4(cmd.len()) + cmd
}

fn digit_of(v: usize) -> (r: u8)
    requires
        v < 16,
    ensures
        r == hex_digit(v as nat),
{
    if v < 10 {
        (0x30 + v) as u8
    } else {
        (0x41 + v - 10) as u8
    }
}

fn value_of(b: u8) -> (r: Option<usize>)
    ensures
        r is Some == hex_value(b) is Some,
        r is Some ==> r.unwrap() as nat == hex_value(b).unwrap(),
        r is Some ==> r.unwrap() < 16,
{
    if 0x30 <= b && b <= 0x39 {
        Some((b - 0x30) as usize)
    } else if 0x41 <= b && b <= 0x46 {
        Some((b - 0x41 + 10) as usize)
    } else if 0x61 <= b && b <= 0x66 {
        Some((b - 0x61 + 10) as usize)
    } else {
        None
    }
}

/// Frames a command for the daemon: its length in bytes as four upper-case
/// hexadecimal digits, then its bytes, in one buffer.
pub fn encode_request(cmd: &str) -> (r: Vec<u8>)
    requires
        cmd.spec_bytes().len() <= MAX_COMMAND_LEN,
    ensures
        r@ == frame(cmd.spec_bytes()),
{
    let bytes = cmd.as_bytes();
    let n = bytes.len();
    let mut r: Vec<u8> = Vec::with_capacity(n + 4);
    r.push(digit_of(n / 4096 % 16));
    r.push(digit_of(n / 256 % 16));
    r.push(digit_of(n / 16 % 16));
    r.push(digit_of(n % 16));
    let mut i: usize = 0;
    while i < n
        invariant
            n == bytes@.len(),
            bytes@ == cmd.spec_bytes(),
            i <= n,
            r@ == hex4(n as nat) + bytes@.subrange(0, i as int),
        decreases n - i,
    {
        r.push(bytes[i]);
        i = i + 1;
        assert(r@ =~= hex4(n as nat) + bytes@.subrange(0, i as int));
    }
    assert(bytes@.subrange(0, n as int) =~= bytes@);
    r
}

/// Reads a four-digit hexadecimal length field, of either case.
pub fn parse_length(field: &[u8]) -> (r: Result<usize, AdbSocketError>)
    ensures
        parse_hex4(field@) is Some ==> r is Ok && r.unwrap() as nat == parse_hex4(field@).unwrap(),
        parse_hex4(field@) is None ==> (r matches Err(AdbSocketError::InvalidHex(b)) && b@ == field@),
{
    if field.len() == 4 {
        let d0 = value_of(field[0]);
        let d1 = value_of(field[1]);
        let d2 = value_of(field[2]);
        let d3 = value_of(field[3]);
        match (d0, d1, d2, d3) {
            (Some(a), Some(b), Some(c), Some(d)) => {
                return Ok(a * 4096 + b * 256 + c * 16 + d);
            },
            _ => {},
        }
    }
    Err(AdbSocketError::InvalidHex(vstd::slice::slice_to_vec(field)))
}

/// Reading back the header of a framed command gives the command's length in
/// bytes, and the command's bytes follow it unchanged.
pub proof fn lemma_frame_round_trip(cmd: Seq<u8>)
    requires
        cmd.len() <= MAX_COMMAND_LEN,
    ensures
        frame(cmd).len() == 4 + cmd.len(),
        parse_hex4(frame(cmd).subrange(0, 4)) == Some(cmd.len()),
        frame(cmd).subrange(4, frame(cmd).len() as int) == cmd,
{
    let n = cmd.len();
    let f = frame(cmd);
    assert(f.subrange(0, 4) =~= hex4(n));
    assert(f.subrange(4, f.len() as int) =~= cmd);
    let a = n / 4096 % 16;
    let b = n / 256 % 16;
    let c = n / 16 % 16;
    let d = n % 16;
    assert(hex_value(hex_digit(a)) == Some(a));
    assert(hex_value(hex_digit(b)) == Some(b));
    assert(hex_value(hex_digit(c)) == Some(c));
    assert(hex_value(hex_digit(d)) == Some(d));
    assert(a * 4096 + b * 256 + c * 16 + d == n) by (nonlinear_arith)
        requires
            n <= 0xFFFF,
            a == n / 4096 % 16,
            b == n / 256 % 16,
            c == n / 16 % 16,
            d == n % 16,
    ;
}

} // verus!
