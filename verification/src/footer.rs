//! Footer reader: locates and validates the fixed 12-byte trailer at the
//! end of the host binary and yields the embedded archive's byte range.
//!
//! Trailer layout, at the absolute end of the file:
//! bytes `[0..8)` hold `archive_size` as an unsigned 64-bit little-endian
//! integer; bytes `[8..12)` hold the magic constant `"SNPK"`.  Any file that
//! is too short or whose last four bytes differ from the magic carries no
//! embedded data; that is an expected state, not an error.

use vstd::prelude::*;

verus! {

/// The four magic bytes `"SNPK"` that close a well-formed trailer.
pub open spec fn magic() -> Seq<u8> {
    seq![0x53u8, 0x4eu8, 0x50u8, 0x4bu8]
}

/// The unsigned integer held by eight little-endian bytes.
pub open spec fn le64(b: Seq<u8>) -> int
    recommends
        b.len() == 8,
{
    b[0] + b[1] * 0x100 + b[2] * 0x1_0000 + b[3] * 0x100_0000 + b[4] * 0x1_0000_0000 + b[5]
        * 0x100_0000_0000 + b[6] * 0x1_0000_0000_0000 + b[7] * 0x100_0000_0000_0000
}

/// The eight little-endian bytes that encode `n`.
pub open spec fn u64_le_bytes(n: u64) -> Seq<u8> {
    seq![
        (n & 0xff) as u8,
        ((n >> 8) & 0xff) as u8,
        ((n >> 16) & 0xff) as u8,
        ((n >> 24) & 0xff) as u8,
        ((n >> 32) & 0xff) as u8,
        ((n >> 40) & 0xff) as u8,
        ((n >> 48) & 0xff) as u8,
        ((n >> 56) & 0xff) as u8,
    ]
}

/// The archive size announced by the trailer, or `None` when the file is
/// shorter than a trailer or its last four bytes are not the magic.
pub open spec fn trailer_of(data: Seq<u8>) -> Option<u64> {
    if data.len() < 12 {
        None
    } else if data.subrange(data.len() - 4, data.len() as int) != magic() {
        None
    } else {
        Some(le64(data.subrange(data.len() - 12, data.len() - 4)) as u64)
    }
}

/// The embedded archive bytes: the `archive_size` bytes that immediately
/// precede the trailer, present only when the announced size fits the file.
pub open spec fn archive_of(data: Seq<u8>) -> Option<Seq<u8>> {
    match trailer_of(data) {
        Some(n) => if n + 12 <= data.len() {
            Some(data.subrange(data.len() - 12 - n, data.len() - 12))
        } else {
            None
        },
        None => None,
    }
}

proof fn lemma_le64_bounds(b: Seq<u8>)
    requires
        b.len() == 8,
    ensures
        0 <= le64(b) <= u64::MAX,
{
    assert(b[0] <= 0xff && b[1] <= 0xff && b[2] <= 0xff && b[3] <= 0xff && b[4] <= 0xff && b[5]
        <= 0xff && b[6] <= 0xff && b[7] <= 0xff);
}

/// Reads the trailer of a whole file image: `Some(archive_size)` exactly
/// when the file ends in a well-formed trailer.
pub fn parse_trailer(data: &Vec<u8>) -> (r: Option<u64>)
    ensures
        r == trailer_of(data@),
{
    let len = data.len();
    if len < 12 {
        return None;
    }
    if data[len - 4] != 0x53 || data[len - 3] != 0x4e || data[len - 2] != 0x50 || data[len - 1]
        != 0x4b {
        proof {
            let tail = data@.subrange(len - 4, len as int);
            assert(tail[0] == data@[len - 4]);
            assert(tail[1] == data@[len - 3]);
            assert(tail[2] == data@[len - 2]);
            assert(tail[3] == data@[len - 1]);
        }
        return None;
    }
    proof {
        assert(data@.subrange(len - 4, len as int) =~= magic());
    }
    let b0 = data[len - 12] as u64;
    let b1 = data[len - 11] as u64;
    let b2 = data[len - 10] as u64;
    let b3 = data[len - 9] as u64;
    let b4 = data[len - 8] as u64;
    let b5 = data[len - 7] as u64;
    let b6 = data[len - 6] as u64;
    let b7 = data[len - 5] as u64;
    let n: u64 = b0 | (b1 << 8) | (b2 << 16) | (b3 << 24) | (b4 << 32) | (b5 << 40) | (b6 << 48)
        | (b7 << 56);
    proof {
        assert((b0 | (b1 << 8) | (b2 << 16) | (b3 << 24) | (b4 << 32) | (b5 << 40) | (b6 << 48) | (
        b7 << 56)) == b0 + b1 * 0x100 + b2 * 0x1_0000 + b3 * 0x100_0000 + b4 * 0x1_0000_0000 + b5
            * 0x100_0000_0000 + b6 * 0x1_0000_0000_0000 + b7 * 0x100_0000_0000_0000)
            by (bit_vector)
            requires
                b0 < 0x100 && b1 < 0x100 && b2 < 0x100 && b3 < 0x100 && b4 < 0x100 && b5 < 0x100
                    && b6 < 0x100 && b7 < 0x100,
        ;
        let size = data@.subrange(len - 12, len - 4);
        assert(size[0] == data@[len - 12]);
        assert(size[1] == data@[len - 11]);
        assert(size[2] == data@[len - 10]);
        assert(size[3] == data@[len - 9]);
        assert(size[4] == data@[len - 8]);
        assert(size[5] == data@[len - 7]);
        assert(size[6] == data@[len - 6]);
        assert(size[7] == data@[len - 5]);
        lemma_le64_bounds(size);
        assert(n == le64(size));
    }
    Some(n)
}

/// Slices the embedded archive out of a whole file image: `Some` exactly
/// when a well-formed trailer announces a size that fits the file.
pub fn embedded_archive(data: &Vec<u8>) -> (r: Option<Vec<u8>>)
    ensures
        (r is Some) == (archive_of(data@) is Some),
        r matches Some(v) ==> Some(v@) == archive_of(data@),
{
    let len = data.len();
    match parse_trailer(data) {
        None => None,
        Some(n) => {
            if n > (len - 12) as u64 {
                return None;
            }
            let start = len - 12 - (n as usize);
            let end = len - 12;
            let mut out: Vec<u8> = Vec::new();
            let mut i = start;
            while i < end
                invariant
                    start <= i <= end <= data@.len(),
                    out@ == data@.subrange(start as int, i as int),
                decreases end - i,
            {
                out.push(data[i]);
                proof {
                    assert(out@ =~= data@.subrange(start as int, i + 1));
                }
                i = i + 1;
            }
            proof {
                assert(out@ =~= data@.subrange(data@.len() - 12 - n, data@.len() - 12));
            }
            Some(out)
        },
    }
}

/// A file shorter than one trailer carries no embedded data.
pub proof fn lemma_short_file_absent(data: Seq<u8>)
    requires
        data.len() < 12,
    ensures
        trailer_of(data) is None,
        archive_of(data) is None,
{
}

/// A wrong magic means absence, whatever the eight size bytes hold.
pub proof fn lemma_bad_magic_absent(data: Seq<u8>)
    requires
        data.len() < 4 || data.subrange(data.len() - 4, data.len() as int) != magic(),
    ensures
        trailer_of(data) is None,
        archive_of(data) is None,
{
}

/// When a trailer announces a size that fits, the archive is exactly the
/// byte range `[len - 12 - n, len - 12)`.
pub proof fn lemma_archive_range(data: Seq<u8>, n: u64)
    requires
        trailer_of(data) == Some(n),
        n + 12 <= data.len(),
    ensures
        archive_of(data) == Some(data.subrange(data.len() - 12 - n, data.len() - 12)),
{
}

/// Eight little-endian bytes read back as the integer they encode.
pub proof fn lemma_le64_round_trip(n: u64)
    ensures
        le64(u64_le_bytes(n)) == n,
{
    assert((n & 0xff) < 0x100 && ((n >> 8) & 0xff) < 0x100 && ((n >> 16) & 0xff) < 0x100 && ((n
        >> 24) & 0xff) < 0x100 && ((n >> 32) & 0xff) < 0x100 && ((n >> 40) & 0xff) < 0x100 && ((n
        >> 48) & 0xff) < 0x100 && ((n >> 56) & 0xff) < 0x100) by (bit_vector);
    assert(((n & 0xff) + ((n >> 8) & 0xff) * 0x100 + ((n >> 16) & 0xff) * 0x1_0000 + ((n >> 24)
        & 0xff) * 0x100_0000 + ((n >> 32) & 0xff) * 0x1_0000_0000 + ((n >> 40) & 0xff)
        * 0x100_0000_0000 + ((n >> 48) & 0xff) * 0x1_0000_0000_0000 + ((n >> 56) & 0xff)
        * 0x100_0000_0000_0000) == n) by (bit_vector);
}

/// A file built as `prefix + payload + trailer`, with the trailer
/// announcing the payload's own length, reads back exactly that payload.
pub proof fn lemma_trailer_round_trip(prefix: Seq<u8>, payload: Seq<u8>, n: u64)
    requires
        payload.len() == n,
    ensures
        trailer_of(prefix + payload + u64_le_bytes(n) + magic()) == Some(n),
        archive_of(prefix + payload + u64_le_bytes(n) + magic()) == Some(payload),
{
    let data = prefix + payload + u64_le_bytes(n) + magic();
    assert(data.len() == prefix.len() + n + 12);
    assert(data.subrange(data.len() - 4, data.len() as int) =~= magic());
    assert(data.subrange(data.len() - 12, data.len() - 4) =~= u64_le_bytes(n));
    lemma_le64_round_trip(n);
    assert(trailer_of(data) == Some(n));
    assert(data.subrange(data.len() - 12 - n, data.len() - 12) =~= payload);
}

} // verus!
