use vstd::prelude::*;

use vstd::slice::{slice_subrange, slice_to_vec};

use crate::error::SLError;

verus! {

/// Length of a record header: the two magic bytes and a six-byte field.
pub const HEADER_LEN: usize = 8;

/// Header value of the sentinel that ends a multi-record catalog response.
pub const TERMINAL_INFO: i64 = 0;

/// Header value of the sentinel that announces more catalog records.
pub const CONTINUATION_INFO: i64 = -1;

/// The buffer starts with the magic marker `SL`.
pub open spec fn has_magic(b: Seq<u8>) -> bool {
    b.len() >= 2 && b[0] == 0x53u8 && b[1] == 0x4cu8
}

/// The six-byte field that follows the magic marker.
pub open spec fn field_of(b: Seq<u8>) -> Seq<u8> {
    b.subrange(2, 8)
}

/// `INFO *`: the last record of a catalog response.
pub open spec fn terminal_field() -> Seq<u8> {
    seq![0x49u8, 0x4eu8, 0x46u8, 0x4fu8, 0x20u8, 0x2au8]
}

/// `INFO  `: more catalog records follow.
pub open spec fn continuation_field() -> Seq<u8> {
    seq![0x49u8, 0x4eu8, 0x46u8, 0x4fu8, 0x20u8, 0x20u8]
}

pub open spec fn is_hex_digit(c: u8) -> bool {
    (0x30u8 <= c <= 0x39u8) || (0x41u8 <= c <= 0x46u8) || (0x61u8 <= c <= 0x66u8)
}

pub open spec fn hex_digit_value(c: u8) -> int {
    if 0x30u8 <= c <= 0x39u8 {
        c - 0x30
    } else if 0x41u8 <= c <= 0x46u8 {
        c - 0x41 + 10
    } else {
        c - 0x61 + 10
    }
}

pub open spec fn is_hex_field(f: Seq<u8>) -> bool {
    forall|i: int| 0 <= i < f.len() ==> is_hex_digit(#[trigger] f[i])
}

/// The number that a string of hexadecimal digits denotes, most significant first.
pub open spec fn hex_value(f: Seq<u8>) -> int
    decreases f.len(),
{
    if f.len() == 0 {
        0
    } else {
        16 * hex_value(f.drop_last()) + hex_digit_value(f.last())
    }
}

pub open spec fn pow16(n: nat) -> int
    decreases n,
{
    if n == 0 {
        1
    } else {
        16 * pow16((n - 1) as nat)
    }
}

/// The header decodes: magic marker present, field a sentinel or hexadecimal.
pub open spec fn header_ok(b: Seq<u8>) -> bool {
    has_magic(b) && (field_of(b) == terminal_field() || field_of(b) == continuation_field()
        || is_hex_field(field_of(b)))
}

/// What a well-formed header decodes to.
pub open spec fn header_value(b: Seq<u8>) -> int {
    if field_of(b) == terminal_field() {
        TERMINAL_INFO as int
    } else if field_of(b) == continuation_field() {
        CONTINUATION_INFO as int
    } else {
        hex_value(field_of(b))
    }
}

/// The error a header that does not decode gives.
pub open spec fn header_error(b: Seq<u8>, e: SLError) -> bool {
    if !has_magic(b) {
        e is BadMagic
    } else {
        match e {
            SLError::BadSequenceNumber(f) => f@ == field_of(b),
            _ => false,
        }
    }
}

/// What decoding the first eight bytes of `b` gives.
pub open spec fn header_result(b: Seq<u8>, r: Result<i64, SLError>) -> bool {
    match r {
        Ok(v) => header_ok(b) && v == header_value(b),
        Err(e) => !header_ok(b) && header_error(b, e),
    }
}

fn field_matches(buf: &[u8], lit: &[u8]) -> (r: bool)
    requires
        buf@.len() >= 8,
        lit@.len() == 6,
    ensures
        r == (field_of(buf@) == lit@),
{
    let mut i: usize = 0;
    while i < 6
        invariant
            0 <= i <= 6,
            buf@.len() >= 8,
            lit@.len() == 6,
            forall|j: int| 0 <= j < i ==> buf@[j + 2] == lit@[j],
        decreases 6 - i,
    {
        if buf[i + 2] != lit[i] {
            assert(field_of(buf@)[i as int] != lit@[i as int]);
            return false;
        }
        i = i + 1;
    }
    assert(field_of(buf@) =~= lit@);
    true
}

fn hex_digit(c: u8) -> (r: Option<u64>)
    ensures
        match r {
            Some(v) => is_hex_digit(c) && v == hex_digit_value(c),
            None => !is_hex_digit(c),
        },
{
    if 0x30u8 <= c && c <= 0x39u8 {
        Some((c - 0x30u8) as u64)
    } else if 0x41u8 <= c && c <= 0x46u8 {
        Some((c - 0x41u8 + 10) as u64)
    } else if 0x61u8 <= c && c <= 0x66u8 {
        Some((c - 0x61u8 + 10) as u64)
    } else {
        None
    }
}

/// Decodes a record header from the first eight bytes of `buf`: a sequence
/// number, or one of the sentinels `INFO *` (0) and `INFO  ` (-1).
pub fn parse_header(buf: &[u8]) -> (r: Result<i64, SLError>)
    requires
        buf@.len() >= HEADER_LEN,
    ensures
        header_result(buf@, r),
        !has_magic(buf@) ==> r matches Err(SLError::BadMagic),
        has_magic(buf@) && field_of(buf@) == terminal_field() ==> r == Ok::<i64, SLError>(
            TERMINAL_INFO,
        ),
        has_magic(buf@) && field_of(buf@) == continuation_field() ==> r == Ok::<i64, SLError>(
            CONTINUATION_INFO,
        ),
        has_magic(buf@) && field_of(buf@) != terminal_field() && field_of(buf@)
            != continuation_field() && !is_hex_field(field_of(buf@)) ==> r matches Err(
            SLError::BadSequenceNumber(_),
        ),
{
    if buf[0] != 0x53u8 || buf[1] != 0x4cu8 {
        return Err(SLError::BadMagic);
    }
    let terminal: [u8; 6] = [0x49u8, 0x4eu8, 0x46u8, 0x4fu8, 0x20u8, 0x2au8];
    let continuation: [u8; 6] = [0x49u8, 0x4eu8, 0x46u8, 0x4fu8, 0x20u8, 0x20u8];
    assert(terminal@ =~= terminal_field());
    assert(continuation@ =~= continuation_field());
    if field_matches(buf, &terminal) {
        return Ok(TERMINAL_INFO);
    }
    if field_matches(buf, &continuation) {
        return Ok(CONTINUATION_INFO);
    }
    let mut acc: u64 = 0;
    let mut i: usize = 2;
    while i < 8
        invariant
            2 <= i <= 8,
            buf@.len() >= 8,
            has_magic(buf@),
            field_of(buf@) != terminal_field(),
            field_of(buf@) != continuation_field(),
            is_hex_field(buf@.subrange(2, i as int)),
            acc == hex_value(buf@.subrange(2, i as int)),
            acc < pow16((i - 2) as nat),
            pow16((i - 2) as nat) <= 0x1000000,
        decreases 8 - i,
    {
        match hex_digit(buf[i]) {
            Some(d) => {
                let ghost prev = buf@.subrange(2, i as int);
                let ghost next = buf@.subrange(2, i + 1);
                assert(next.drop_last() =~= prev);
                assert(pow16((i - 1) as nat) == 16 * pow16((i - 2) as nat));
                assert(i - 1 <= 6);
                reveal_with_fuel(pow16, 7);
                acc = acc * 16 + d;
                i = i + 1;
            },
            None => {
                let f = slice_to_vec(slice_subrange(buf, 2, 8));
                assert(field_of(buf@)[i - 2] == buf@[i as int]);
                assert(!is_hex_digit(field_of(buf@)[i - 2]));
                assert(!is_hex_field(field_of(buf@)));
                assert(f@ =~= field_of(buf@));
                return Err(SLError::BadSequenceNumber(f));
            },
        }
    }
    assert(buf@.subrange(2, 8) =~= field_of(buf@));
    Ok(acc as i64)
}

} // verus!
