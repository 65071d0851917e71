use vstd::prelude::*;
use crate::error::CT3DError;
use crate::float_bits::{
    F32_ONE_BITS,
    f32_bits_of_uint,
    f32_bits_to_uint,
    u24_to_f32_bits,
    f32_bits_to_u24,
    lemma_f32_bits_uint_roundtrip,
};
use crate::volume::{Vec3Bits, IVec3, Volume, MAX_RESOLUTION};

verus! {

// The device volume encoding is one flat sequence of single-precision
// values (held here as bit patterns):
//
//   [ enabled, radii.x, radii.y, radii.z, res.x, res.y, res.z, density... ]
//
// with `enabled` 1.0 when a volume is present and the resolution counts
// stored as integer-valued floats. Both directions of that layout live in
// this module, so the offset contract has a single home; the byte-level
// density payload of the on-disk volume format lives here too.

/// The wire layout of a well-formed volume.
pub open spec fn spec_encode(v: Volume) -> Seq<u32> {
    seq![
        F32_ONE_BITS,
        v.radii.x,
        v.radii.y,
        v.radii.z,
        f32_bits_of_uint(v.res.x as int) as u32,
        f32_bits_of_uint(v.res.y as int) as u32,
        f32_bits_of_uint(v.res.z as int) as u32,
    ] + v.data@
}

/// Parse of a wire buffer: the components of the encoded volume, or `None`
/// unless the buffer is exactly the encoding of a well-formed volume
/// (enabled flag set, resolution counts integer-valued and at least 1,
/// density length matching the resolution product).
pub open spec fn spec_decode(s: Seq<u32>) -> Option<(Vec3Bits, IVec3, Seq<u32>)> {
    if s.len() < 7 {
        None
    } else if s[0] != F32_ONE_BITS {
        None
    } else {
        match (
            f32_bits_to_uint(s[4] as int),
            f32_bits_to_uint(s[5] as int),
            f32_bits_to_uint(s[6] as int),
        ) {
            (Some(rx), Some(ry), Some(rz)) => {
                if 1 <= rx && 1 <= ry && 1 <= rz && s.len() == 7 + (rx * ry) * rz {
                    Some(
                        (
                            Vec3Bits { x: s[1], y: s[2], z: s[3] },
                            IVec3 { x: rx as i32, y: ry as i32, z: rz as i32 },
                            s.subrange(7, s.len() as int),
                        ),
                    )
                } else {
                    None
                }
            },
            _ => None,
        }
    }
}

impl Volume {
    /// Flattens the volume into the device volume encoding.
    pub fn encode(&self) -> (r: Vec<u32>)
        requires
            self.wf(),
        ensures
            r@ == spec_encode(*self),
    {
        let mut out: Vec<u32> = Vec::new();
        out.push(F32_ONE_BITS);
        out.push(self.radii.x);
        out.push(self.radii.y);
        out.push(self.radii.z);
        out.push(u24_to_f32_bits(self.res.x as u32));
        out.push(u24_to_f32_bits(self.res.y as u32));
        out.push(u24_to_f32_bits(self.res.z as u32));
        proof {
            assert(out@ =~= spec_encode(*self).subrange(0, 7));
        }
        let len = self.data.len();
        let mut i: usize = 0;
        while i < len
            invariant
                i <= len,
                len == self.data@.len(),
                out@ =~= spec_encode(*self).subrange(0, 7 + i),
            decreases len - i,
        {
            out.push(self.data[i]);
            i = i + 1;
            proof {
                assert(out@ =~= spec_encode(*self).subrange(0, 7 + i));
            }
        }
        proof {
            assert(out@ =~= spec_encode(*self));
        }
        out
    }
}

/// Parses a device volume encoding back into a volume: the host-side
/// mirror of the kernel's buffer decoder, and the inverse of `encode`.
pub fn decode(buf: &Vec<u32>) -> (r: Option<Volume>)
    ensures
        match r {
            Some(v) => {
                &&& v.wf()
                &&& spec_decode(buf@) == Some((v.radii, v.res, v.data@))
            },
            None => spec_decode(buf@) is None,
        },
{
    let n = buf.len();
    if n < 7 {
        return None;
    }
    if buf[0] != F32_ONE_BITS {
        return None;
    }
    let rx: u32 = match f32_bits_to_u24(buf[4]) {
        Some(v) => v,
        None => { return None; },
    };
    let ry: u32 = match f32_bits_to_u24(buf[5]) {
        Some(v) => v,
        None => { return None; },
    };
    let rz: u32 = match f32_bits_to_u24(buf[6]) {
        Some(v) => v,
        None => { return None; },
    };
    if rx == 0 || ry == 0 || rz == 0 {
        return None;
    }
    let cnt: u64 = (n - 7) as u64;
    proof {
        assert(1 <= (rx as int) * (ry as int) <= 0x1_0000_0000_0000) by (nonlinear_arith)
            requires
                1 <= rx as int <= 0x100_0000,
                1 <= ry as int <= 0x100_0000,
        ;
    }
    let a: u64 = (rx as u64) * (ry as u64);
    if cnt % a != 0 {
        proof {
            assert(cnt != a * (rz as u64)) by (nonlinear_arith)
                requires
                    a >= 1,
                    cnt % a != 0,
            ;
        }
        return None;
    }
    if cnt / a != rz as u64 {
        proof {
            assert(cnt != a * (rz as u64)) by (nonlinear_arith)
                requires
                    a >= 1,
                    cnt % a == 0,
                    cnt / a != rz as u64,
            ;
        }
        return None;
    }
    proof {
        assert(cnt == a * (rz as u64)) by (nonlinear_arith)
            requires
                a >= 1,
                cnt % a == 0,
                cnt / a == rz as u64,
        ;
    }
    let mut data: Vec<u32> = Vec::new();
    let mut i: usize = 7;
    while i < n
        invariant
            7 <= i <= n,
            n == buf@.len(),
            data@ =~= buf@.subrange(7, i as int),
        decreases n - i,
    {
        data.push(buf[i]);
        i = i + 1;
        proof {
            assert(data@ =~= buf@.subrange(7, i as int));
        }
    }
    let v = Volume {
        radii: Vec3Bits { x: buf[1], y: buf[2], z: buf[3] },
        res: IVec3 { x: rx as i32, y: ry as i32, z: rz as i32 },
        data,
    };
    proof {
        assert(v.data@.len() == (v.res.x * v.res.y) * v.res.z) by (nonlinear_arith)
            requires
                v.data@.len() == n - 7,
                n - 7 == (rx as int) * (ry as int) * (rz as int),
                v.res.x == rx as int,
                v.res.y == ry as int,
                v.res.z == rz as int,
        ;
        assert(buf@.subrange(7, n as int) =~= v.data@);
    }
    Some(v)
}

/// Encoding then decoding a well-formed volume gives back exactly its
/// half-extents, cell counts and density samples: nothing is lost on the
/// way to the device.
pub proof fn lemma_encode_decode_roundtrip(v: Volume)
    requires
        v.wf(),
    ensures
        spec_decode(spec_encode(v)) == Some((v.radii, v.res, v.data@)),
{
    let s = spec_encode(v);
    lemma_f32_bits_uint_roundtrip(v.res.x as int);
    lemma_f32_bits_uint_roundtrip(v.res.y as int);
    lemma_f32_bits_uint_roundtrip(v.res.z as int);
    assert(s.len() == 7 + v.data@.len());
    assert(s[4] as int == f32_bits_of_uint(v.res.x as int));
    assert(s[5] as int == f32_bits_of_uint(v.res.y as int));
    assert(s[6] as int == f32_bits_of_uint(v.res.z as int));
    assert(f32_bits_to_uint(s[4] as int) == Some(v.res.x as int));
    assert(f32_bits_to_uint(s[5] as int) == Some(v.res.y as int));
    assert(f32_bits_to_uint(s[6] as int) == Some(v.res.z as int));
    assert(s.subrange(7, s.len() as int) =~= v.data@);
}

// ---------------------------------------------------------------------
// Byte-level density payload of the on-disk volume format: each sample is
// written as its four bytes, least significant first, in grid order.

/// The four bytes of one 32-bit value, least significant first.
pub open spec fn le_bytes_of_u32(w: u32) -> Seq<u8> {
    seq![
        (w % 256) as u8,
        (w / 256 % 256) as u8,
        (w / 65536 % 256) as u8,
        (w / 16777216) as u8,
    ]
}

/// One 32-bit value from its four bytes, least significant first.
pub open spec fn u32_of_le_bytes(b0: u8, b1: u8, b2: u8, b3: u8) -> u32 {
    (b0 + b1 * 256 + b2 * 65536 + b3 * 16777216) as u32
}

/// The byte payload of a density sequence.
pub open spec fn spec_payload_bytes(data: Seq<u32>) -> Seq<u8> {
    Seq::new((4 * data.len()) as nat, |i: int| le_bytes_of_u32(data[i / 4])[i % 4])
}

/// The densities read back from a byte payload (meaningful when the
/// length is a multiple of four).
pub open spec fn spec_payload_words(bytes: Seq<u8>) -> Seq<u32> {
    Seq::new(
        (bytes.len() / 4) as nat,
        |k: int| u32_of_le_bytes(bytes[4 * k], bytes[4 * k + 1], bytes[4 * k + 2], bytes[4 * k + 3]),
    )
}

pub proof fn lemma_le_bytes_roundtrip(w: u32)
    ensures
        u32_of_le_bytes(
            le_bytes_of_u32(w)[0],
            le_bytes_of_u32(w)[1],
            le_bytes_of_u32(w)[2],
            le_bytes_of_u32(w)[3],
        ) == w,
{
    assert(w % 256 + (w / 256 % 256) * 256 + (w / 65536 % 256) * 65536 + (w / 16777216)
        * 16777216 == w) by (bit_vector);
}

/// Serializing the densities and parsing the bytes back reproduces every
/// sample bit-exactly.
pub proof fn lemma_payload_roundtrip(data: Seq<u32>)
    ensures
        spec_payload_bytes(data).len() % 4 == 0,
        spec_payload_words(spec_payload_bytes(data)) == data,
{
    let bs = spec_payload_bytes(data);
    assert(bs.len() == 4 * data.len());
    let ws = spec_payload_words(bs);
    assert(ws.len() == data.len());
    assert forall|k: int| 0 <= k < data.len() implies ws[k] == data[k] by {
        assert(bs[4 * k] == le_bytes_of_u32(data[k])[0]);
        assert(bs[4 * k + 1] == le_bytes_of_u32(data[k])[1]);
        assert(bs[4 * k + 2] == le_bytes_of_u32(data[k])[2]);
        assert(bs[4 * k + 3] == le_bytes_of_u32(data[k])[3]);
        lemma_le_bytes_roundtrip(data[k]);
    }
    assert(ws =~= data);
}

/// Writes a density sequence as its byte payload.
pub fn payload_bytes(data: &Vec<u32>) -> (r: Vec<u8>)
    ensures
        r@ == spec_payload_bytes(data@),
    {
    let len = data.len();
    let mut out: Vec<u8> = Vec::new();
    let mut k: usize = 0;
    while k < len
        invariant
            k <= len,
            len == data@.len(),
            out@.len() == 4 * k,
            forall|j: int|
                0 <= j < 4 * k ==> #[trigger] out@[j] == spec_payload_bytes(data@)[j],
        decreases len - k,
    {
        let w = data[k];
        out.push((w % 256) as u8);
        out.push((w / 256 % 256) as u8);
        out.push((w / 65536 % 256) as u8);
        out.push((w / 16777216) as u8);
        k = k + 1;
        proof {
            assert forall|j: int| 0 <= j < 4 * k
                implies #[trigger] out@[j] == spec_payload_bytes(data@)[j] by {
                if j >= 4 * (k - 1) {
                    assert(j / 4 == k - 1 && j % 4 == j - 4 * (k - 1));
                }
            }
        }
    }
    proof {
        assert(out@ =~= spec_payload_bytes(data@));
    }
    out
}

/// Parses a byte payload back into density samples; fails exactly when
/// the byte count is not a multiple of the four-byte sample width.
pub fn parse_payload(bytes: &Vec<u8>) -> (r: Result<Vec<u32>, CT3DError>)
    ensures
        match r {
            Ok(d) => bytes@.len() % 4 == 0 && d@ == spec_payload_words(bytes@),
            Err(_) => bytes@.len() % 4 != 0,
        },
{
    let n = bytes.len();
    if n % 4 != 0 {
        return Err(CT3DError::new(None));
    }
    let words = n / 4;
    let mut out: Vec<u32> = Vec::new();
    let mut k: usize = 0;
    while k < words
        invariant
            k <= words,
            words == bytes@.len() / 4,
            n == bytes@.len(),
            n % 4 == 0,
            out@.len() == k,
            forall|j: int|
                0 <= j < k ==> #[trigger] out@[j] == spec_payload_words(bytes@)[j],
        decreases words - k,
    {
        let b0 = bytes[4 * k];
        let b1 = bytes[4 * k + 1];
        let b2 = bytes[4 * k + 2];
        let b3 = bytes[4 * k + 3];
        let w: u32 = (b0 as u32) + (b1 as u32) * 256 + (b2 as u32) * 65536 + (b3 as u32)
            * 16777216;
        out.push(w);
        k = k + 1;
    }
    Ok(out)
}

} // verus!
