//! Bytes and text: UTF-8 decoding and the line and field splitting that the
//! daemon's textual replies need.
use vstd::prelude::*;
use vstd::slice::{slice_subrange, slice_to_vec};
use vstd::utf8::*;

verus! {

/// Relies on `String::from_utf8`: it succeeds exactly on valid UTF-8 and then
/// holds the decoded characters.
#[verifier::external_body]
pub(crate) fn string_from_utf8(bytes: Vec<u8>) -> (r: Option<String>)
    ensures
        r.is_some() == valid_utf8(bytes@),
        r.is_some() ==> r.unwrap()@ == decode_utf8(bytes@),
{
    String::from_utf8(bytes).ok()
}

/// An ASCII byte: a character of its own in UTF-8.
pub open spec fn is_ascii_byte(b: u8) -> bool {
    b < 0x80
}

/// Cutting valid UTF-8 just before and just after an ASCII byte leaves valid
/// UTF-8 on both sides.
pub proof fn lemma_split_at_ascii(bytes: Seq<u8>, d: int)
    requires
        valid_utf8(bytes),
        0 <= d < bytes.len(),
        is_ascii_byte(bytes[d]),
    ensures
        valid_utf8(bytes.subrange(0, d)),
        valid_utf8(bytes.subrange(d + 1, bytes.len() as int)),
{
    is_char_boundary_iff_not_is_continuation_byte(bytes, d);
    valid_utf8_split(bytes, d);
    let tail = bytes.subrange(d, bytes.len() as int);
    assert(tail[0] == bytes[d]);
    reveal_with_fuel(valid_utf8, 2);
    assert(pop_first_scalar(tail) =~= bytes.subrange(d + 1, bytes.len() as int));
}

/// Every part of valid UTF-8 that lies between two cuts at ASCII bytes (or at
/// the ends) is valid UTF-8.
pub proof fn lemma_piece_valid(bytes: Seq<u8>, i: int, j: int)
    requires
        valid_utf8(bytes),
        0 <= i <= j <= bytes.len(),
        i == 0 || is_ascii_byte(bytes[i - 1]),
        j == bytes.len() || is_ascii_byte(bytes[j]),
    ensures
        valid_utf8(bytes.subrange(i, j)),
{
    let rest = if i == 0 {
        bytes
    } else {
        lemma_split_at_ascii(bytes, i - 1);
        bytes.subrange(i, bytes.len() as int)
    };
    assert(rest =~= bytes.subrange(i, bytes.len() as int));
    if j < bytes.len() {
        lemma_split_at_ascii(rest, j - i);
        assert(rest.subrange(0, j - i) =~= bytes.subrange(i, j));
    } else {
        assert(rest =~= bytes.subrange(i, j));
    }
}

/// Decodes a part of a valid UTF-8 text that was cut at ASCII bytes.
pub(crate) fn piece_to_string(bytes: &[u8], i: usize, j: usize) -> (r: String)
    requires
        valid_utf8(bytes@),
        i <= j <= bytes@.len(),
        i == 0 || is_ascii_byte(bytes@[i - 1]),
        j == bytes@.len() || is_ascii_byte(bytes@[j as int]),
    ensures
        r@ == decode_utf8(bytes@.subrange(i as int, j as int)),
{
    proof {
        lemma_piece_valid(bytes@, i as int, j as int);
    }
    let piece = slice_to_vec(slice_subrange(bytes, i, j));
    match string_from_utf8(piece) {
        Some(s) => s,
        None => {
            proof {
                assert(false);
            }
            String::new()
        },
    }
}

/// The index of the last `sep` in `b`, or -1 when there is none.
pub open spec fn last_index_of(b: Seq<u8>, sep: u8) -> int
    decreases b.len(),
{
    if b.len() == 0 {
        -1
    } else if b.last() == sep {
        b.len() - 1
    } else {
        last_index_of(b.drop_last(), sep)
    }
}

/// `b` cut at every `sep`: one piece more than there are separators, empty
/// pieces kept.
pub open spec fn split_on(b: Seq<u8>, sep: u8) -> Seq<Seq<u8>>
    decreases b.len(),
{
    let k = last_index_of(b, sep);
    if 0 <= k < b.len() {
        split_on(b.subrange(0, k), sep).push(b.subrange(k + 1, b.len() as int))
    } else {
        seq![b]
    }
}

/// The pieces of `b[from..to]` that end before a separator at `start - 1`
/// (none when `start == from`).
pub open spec fn pieces_before(b: Seq<u8>, sep: u8, from: int, start: int) -> Seq<Seq<u8>> {
    if start == from {
        Seq::empty()
    } else {
        split_on(b.subrange(from, start - 1), sep)
    }
}

proof fn lemma_last_index(b: Seq<u8>, sep: u8, k: int)
    requires
        -1 <= k < b.len(),
        k >= 0 ==> b[k] == sep,
        forall|j: int| k < j < b.len() ==> b[j] != sep,
    ensures
        last_index_of(b, sep) == k,
    decreases b.len(),
{
    if b.len() > 0 && b.last() != sep {
        lemma_last_index(b.drop_last(), sep, k);
    }
}

proof fn lemma_split_extend(b: Seq<u8>, sep: u8, from: int, start: int, i: int)
    requires
        0 <= from <= start <= i <= b.len(),
        start == from || b[start - 1] == sep,
        forall|j: int| start <= j < i ==> b[j] != sep,
    ensures
        split_on(b.subrange(from, i), sep) == pieces_before(b, sep, from, start).push(
            b.subrange(start, i),
        ),
{
    let sub = b.subrange(from, i);
    let k = if start == from {
        -1
    } else {
        start - 1 - from
    };
    lemma_last_index(sub, sep, k);
    if start == from {
        assert(sub =~= b.subrange(start, i));
        assert(seq![sub] =~= Seq::<Seq<u8>>::empty().push(sub));
    } else {
        assert(sub.subrange(0, k) =~= b.subrange(from, start - 1));
        assert(sub.subrange(k + 1, sub.len() as int) =~= b.subrange(start, i));
    }
}

/// The ranges of the pieces of `b[from..to]` cut at `sep`: each range holds
/// its piece, and starts at `from` or just after a separator, and ends at
/// `to` or at a separator.
pub fn split_ranges(b: &[u8], sep: u8, from: usize, to: usize) -> (r: Vec<(usize, usize)>)
    requires
        from <= to <= b@.len(),
    ensures
        r@.len() == split_on(b@.subrange(from as int, to as int), sep).len(),
        forall|k: int|
            0 <= k < r@.len() ==> {
                &&& from <= #[trigger] r@[k].0 <= r@[k].1 <= to
                &&& b@.subrange(r@[k].0 as int, r@[k].1 as int) == split_on(
                    b@.subrange(from as int, to as int),
                    sep,
                )[k]
                &&& (r@[k].0 == from || b@[r@[k].0 - 1] == sep)
                &&& (r@[k].1 == to || b@[r@[k].1 as int] == sep)
            },
{
    let mut r: Vec<(usize, usize)> = Vec::new();
    let mut start: usize = from;
    let mut i: usize = from;
    while i < to
        invariant
            from <= start <= i <= to <= b@.len(),
            start == from || b@[start - 1] == sep,
            forall|j: int| start <= j < i ==> b@[j] != sep,
            r@.len() == pieces_before(b@, sep, from as int, start as int).len(),
            forall|k: int|
                0 <= k < r@.len() ==> {
                    &&& from <= #[trigger] r@[k].0 <= r@[k].1 < start
                    &&& b@.subrange(r@[k].0 as int, r@[k].1 as int) == pieces_before(
                        b@,
                        sep,
                        from as int,
                        start as int,
                    )[k]
                    &&& (r@[k].0 == from || b@[r@[k].0 - 1] == sep)
                    &&& b@[r@[k].1 as int] == sep
                },
        decreases to - i,
    {
        if b[i] == sep {
            proof {
                lemma_split_extend(b@, sep, from as int, start as int, i as int);
            }
            r.push((start, i));
            start = i + 1;
        }
        i = i + 1;
    }
    proof {
        lemma_split_extend(b@, sep, from as int, start as int, to as int);
    }
    r.push((start, to));
    r
}

} // verus!
