//! The VXL binary container and the stored-grid blob format.
//!
//! A canvas travels as: 4-byte magic, 1-byte name length, the name
//! bytes, 1 reserved byte, a 4-byte version tag, 1-byte palette-entry
//! count, three little-endian u16 dimensions, the palette entries (3
//! bytes each), then the flattened grid compressed as a gzip stream to
//! the end of the container. Grids are also stored standalone in
//! durable rows as the bare gzip stream.
//!
//! Timestamps are not wire fields; they are re-derived when a container
//! is turned back into a canvas.

use vstd::prelude::*;

use std::io::Read;
use std::io::Write;

use crate::canvas::{box_volume, VoxelCanvas};
use crate::clock::now_timestamp;
use crate::errors::VoxError;

verus! {

/// What flate2's gzip decoder yields on the given bytes: the
/// decompressed payload on a well-formed stream, nothing otherwise. A
/// function of the input bytes alone.
pub uninterp spec fn gunzip_of(b: Seq<u8>) -> Option<Seq<u8>>;

/// Relies on flate2's `write::GzEncoder` (gzip stream, default level):
/// feeding its output to the gzip decoder returns exactly the input.
/// The encoder's only errors are those of the underlying writer, and a
/// `Vec` writer has none, so the call always succeeds.
#[verifier::external_body]
fn gzip_compress(data: &Vec<u8>) -> (r: Option<Vec<u8>>)
    ensures
        r is Some,
        r matches Some(b) ==> gunzip_of(b@) == Some(data@),
{
    let mut encoder = flate2::write::GzEncoder::new(Vec::new(), flate2::Compression::default());
    if encoder.write_all(data).is_err() {
        return None;
    }
    encoder.finish().ok()
}

/// Relies on flate2's `read::GzDecoder`, whose result `gunzip_of`
/// names: reading it to the end yields the decompressed bytes, or an
/// error on a malformed stream.
#[verifier::external_body]
fn gzip_decompress(data: &Vec<u8>) -> (r: Option<Vec<u8>>)
    ensures
        r matches Some(v) ==> gunzip_of(data@) == Some(v@),
        r is None ==> gunzip_of(data@) is None,
{
    let mut decoder = flate2::read::GzDecoder::new(data.as_slice());
    let mut out = Vec::new();
    match decoder.read_to_end(&mut out) {
        Ok(_) => Some(out),
        Err(_) => None,
    }
}

pub open spec fn magic_bytes() -> Seq<u8> {
    seq![0x56u8, 0x58u8, 0x4cu8, 0x20u8]
}

pub open spec fn version_bytes() -> Seq<u8> {
    seq![0x30u8, 0x30u8, 0x30u8, 0x31u8]
}

pub open spec fn le16_lo(v: u16) -> u8 {
    (v % 256) as u8
}

pub open spec fn le16_hi(v: u16) -> u8 {
    (v / 256) as u8
}

/// A standalone export of one canvas: its name (as bytes), palette,
/// dimensions and cells.
pub struct VxlContainer {
    pub name: Vec<u8>,
    pub palette: Vec<(u8, u8, u8)>,
    pub size_x: u16,
    pub size_y: u16,
    pub size_z: u16,
    pub grid: Vec<u8>,
}

impl VxlContainer {
    /// Name and palette fit their one-byte length fields and the grid
    /// fills its box exactly.
    pub open spec fn wf(&self) -> bool {
        &&& self.name@.len() <= 255
        &&& self.palette@.len() <= 255
        &&& self.grid@.len() == self.size_x * self.size_y * self.size_z
    }
}

/// `b` is a byte string that the container decodes from: every header
/// field in place (the reserved byte is free) and a gzip tail holding
/// exactly the grid.
pub open spec fn encodes(c: VxlContainer, b: Seq<u8>) -> bool {
    let n = c.name@.len() as int;
    let p = c.palette@.len() as int;
    &&& c.wf()
    &&& b.len() >= 17 + n + 3 * p
    &&& b.subrange(0, 4) == magic_bytes()
    &&& b[4] == n as u8
    &&& b.subrange(5, 5 + n) == c.name@
    &&& b.subrange(6 + n, 10 + n) == version_bytes()
    &&& b[10 + n] == p as u8
    &&& b[11 + n] == le16_lo(c.size_x) && b[12 + n] == le16_hi(c.size_x)
    &&& b[13 + n] == le16_lo(c.size_y) && b[14 + n] == le16_hi(c.size_y)
    &&& b[15 + n] == le16_lo(c.size_z) && b[16 + n] == le16_hi(c.size_z)
    &&& (forall|i: int| 0 <= i < p ==> {
        &&& b[17 + n + 3 * i] == (#[trigger] c.palette@[i]).0
        &&& b[17 + n + 3 * i + 1] == c.palette@[i].1
        &&& b[17 + n + 3 * i + 2] == c.palette@[i].2
    })
    &&& gunzip_of(b.subrange(17 + n + 3 * p, b.len() as int)) == Some(c.grid@)
}

/// The byte strings that decode successfully: magic and version in
/// place, lengths consistent, and a gzip tail whose payload fills the
/// declared box exactly.
pub open spec fn vxl_valid(b: Seq<u8>) -> bool {
    &&& b.len() >= 5
    &&& b.subrange(0, 4) == magic_bytes()
    &&& ({
        let n = b[4] as int;
        &&& b.len() >= 17 + n
        &&& b.subrange(6 + n, 10 + n) == version_bytes()
        &&& ({
            let p = b[10 + n] as int;
            &&& b.len() >= 17 + n + 3 * p
            &&& ({
                let sx = b[11 + n] + 256 * b[12 + n];
                let sy = b[13 + n] + 256 * b[14 + n];
                let sz = b[15 + n] + 256 * b[16 + n];
                gunzip_of(b.subrange(17 + n + 3 * p, b.len() as int)) matches Some(g)
                    && g.len() == sx * sy * sz
            })
        })
    })
}

/// A 16-bit value is exactly its two little-endian bytes.
pub proof fn lemma_le16(v: u16)
    by (nonlinear_arith)
    ensures
        le16_lo(v) + 256 * le16_hi(v) == v,
        le16_lo(v) < 256,
        le16_hi(v) < 256,
{
}

/// Round trip: any two containers that one byte string encodes agree on
/// dimensions, palette, name bytes and every cell, so decoding an
/// encoding of a container recovers it exactly.
pub proof fn lemma_round_trip(c1: VxlContainer, c2: VxlContainer, b: Seq<u8>)
    requires
        encodes(c1, b),
        encodes(c2, b),
    ensures
        c1.size_x == c2.size_x,
        c1.size_y == c2.size_y,
        c1.size_z == c2.size_z,
        c1.name@ == c2.name@,
        c1.palette@ == c2.palette@,
        c1.grid@ == c2.grid@,
{
    let n1 = c1.name@.len() as int;
    let n2 = c2.name@.len() as int;
    assert(b[4] == n1 as u8 && b[4] == n2 as u8);
    assert(n1 == n2);
    let n = n1;
    assert(c1.name@ == b.subrange(5, 5 + n) && c2.name@ == b.subrange(5, 5 + n));
    let p1 = c1.palette@.len() as int;
    let p2 = c2.palette@.len() as int;
    assert(b[10 + n] == p1 as u8 && b[10 + n] == p2 as u8);
    assert(p1 == p2);
    let p = p1;
    lemma_le16(c1.size_x);
    lemma_le16(c2.size_x);
    lemma_le16(c1.size_y);
    lemma_le16(c2.size_y);
    lemma_le16(c1.size_z);
    lemma_le16(c2.size_z);
    assert(c1.size_x == c2.size_x);
    assert(c1.size_y == c2.size_y);
    assert(c1.size_z == c2.size_z);
    assert forall|i: int| 0 <= i < p
        implies #[trigger] c1.palette@[i] == c2.palette@[i] by {
        assert(c1.palette@[i].0 == b[17 + n + 3 * i]);
        assert(c2.palette@[i].0 == b[17 + n + 3 * i]);
        assert(c1.palette@[i].1 == b[17 + n + 3 * i + 1]);
        assert(c2.palette@[i].1 == b[17 + n + 3 * i + 1]);
        assert(c1.palette@[i].2 == b[17 + n + 3 * i + 2]);
        assert(c2.palette@[i].2 == b[17 + n + 3 * i + 2]);
    }
    assert(c1.palette@ =~= c2.palette@);
    assert(Some(c1.grid@) == gunzip_of(b.subrange(17 + n + 3 * p, b.len() as int)));
    assert(Some(c1.grid@) == Some(c2.grid@));
}

/// Every encoding is a byte string that decodes: completeness of the
/// reader against the writer.
pub proof fn lemma_encodes_valid(c: VxlContainer, b: Seq<u8>)
    requires
        encodes(c, b),
    ensures
        vxl_valid(b),
{
    let n = c.name@.len() as int;
    let p = c.palette@.len() as int;
    assert(b[4] == n as u8);
    assert(b[4] as int == n);
    assert(b[10 + n] == p as u8);
    assert(b[10 + n] as int == p);
    lemma_le16(c.size_x);
    lemma_le16(c.size_y);
    lemma_le16(c.size_z);
    assert(b[11 + n] + 256 * b[12 + n] == c.size_x);
    assert(b[13 + n] + 256 * b[14 + n] == c.size_y);
    assert(b[15 + n] + 256 * b[16 + n] == c.size_z);
}

/// Appends all bytes of `src` to `out`.
fn push_bytes(out: &mut Vec<u8>, src: &Vec<u8>)
    ensures
        final(out)@ == old(out)@ + src@,
{
    proof {
        assert(out@ =~= old(out)@ + src@.subrange(0, 0));
    }
    let n = src.len();
    let mut i: usize = 0;
    while i < n
        invariant
            n == src@.len(),
            i <= n,
            out@ == old(out)@ + src@.subrange(0, i as int),
        decreases n - i,
    {
        out.push(src[i]);
        proof {
            assert(out@ =~= old(out)@ + src@.subrange(0, i + 1));
        }
        i = i + 1;
    }
    proof {
        assert(src@.subrange(0, n as int) =~= src@);
    }
}

/// Writes the container to its byte form. Encoding a well-formed
/// container always succeeds: the compressor writes into memory and
/// cannot fail there.
pub fn encode(c: &VxlContainer) -> (r: Result<Vec<u8>, VoxError>)
    requires
        c.wf(),
    ensures
        r is Ok,
        r matches Ok(b) ==> encodes(*c, b@),
{
    let tail = match gzip_compress(&c.grid) {
        Some(v) => v,
        None => {
            return Err(VoxError::PersistenceFailure);
        },
    };
    let pal = crate::palette::pack_rgb(&c.palette);
    let n = c.name.len();
    let p = c.palette.len();
    let ghost nn = n as int;
    let ghost pp = p as int;

    let mut out: Vec<u8> = Vec::new();
    out.push(0x56);
    out.push(0x58);
    out.push(0x4c);
    out.push(0x20);
    out.push(n as u8);
    let ghost a = seq![0x56u8, 0x58u8, 0x4cu8, 0x20u8, (n as u8)];
    proof {
        assert(out@ =~= a);
    }
    push_bytes(&mut out, &c.name);
    out.push(0);
    out.push(0x30);
    out.push(0x30);
    out.push(0x30);
    out.push(0x31);
    out.push(p as u8);
    out.push((c.size_x % 256) as u8);
    out.push((c.size_x / 256) as u8);
    out.push((c.size_y % 256) as u8);
    out.push((c.size_y / 256) as u8);
    out.push((c.size_z % 256) as u8);
    out.push((c.size_z / 256) as u8);
    let ghost mid = seq![
        0u8, 0x30u8, 0x30u8, 0x30u8, 0x31u8, (p as u8),
        le16_lo(c.size_x), le16_hi(c.size_x),
        le16_lo(c.size_y), le16_hi(c.size_y),
        le16_lo(c.size_z), le16_hi(c.size_z),
    ];
    proof {
        assert(out@ =~= a + c.name@ + mid);
    }
    push_bytes(&mut out, &pal);
    push_bytes(&mut out, &tail);
    proof {
        let b = out@;
        assert(b =~= a + c.name@ + mid + pal@ + tail@);
        assert(b.len() == 17 + nn + 3 * pp + tail@.len());
        assert(b.subrange(0, 4) =~= magic_bytes());
        assert(b[4] == nn as u8);
        assert forall|i: int| 0 <= i < nn implies b.subrange(5, 5 + nn)[i] == c.name@[i] by {
            assert(b[5 + i] == c.name@[i]);
        }
        assert(b.subrange(5, 5 + nn) =~= c.name@);
        assert forall|i: int| 0 <= i < 4
            implies b.subrange(6 + nn, 10 + nn)[i] == version_bytes()[i] by {
            assert(b[6 + nn + i] == mid[1 + i]);
        }
        assert(b.subrange(6 + nn, 10 + nn) =~= version_bytes());
        assert(b[10 + nn] == mid[5]);
        assert(b[11 + nn] == mid[6] && b[12 + nn] == mid[7]);
        assert(b[13 + nn] == mid[8] && b[14 + nn] == mid[9]);
        assert(b[15 + nn] == mid[10] && b[16 + nn] == mid[11]);
        assert forall|i: int| 0 <= i < pp implies {
            &&& b[17 + nn + 3 * i] == (#[trigger] c.palette@[i]).0
            &&& b[17 + nn + 3 * i + 1] == c.palette@[i].1
            &&& b[17 + nn + 3 * i + 2] == c.palette@[i].2
        } by {
            assert(b[17 + nn + 3 * i] == pal@[3 * i]);
            assert(b[17 + nn + 3 * i + 1] == pal@[3 * i + 1]);
            assert(b[17 + nn + 3 * i + 2] == pal@[3 * i + 2]);
        }
        assert forall|i: int| 0 <= i < tail@.len()
            implies b.subrange(17 + nn + 3 * pp, b.len() as int)[i] == tail@[i] by {
            assert(b[17 + nn + 3 * pp + i] == tail@[i]);
        }
        assert(b.subrange(17 + nn + 3 * pp, b.len() as int) =~= tail@);
        assert(gunzip_of(b.subrange(17 + nn + 3 * pp, b.len() as int)) == Some(c.grid@));
    }
    Ok(out)
}

/// Reads a container back from its byte form; a wrong magic, a wrong
/// version tag, a short header, a broken gzip tail or a grid that does
/// not fill the declared box is corrupt.
pub fn decode(bytes: &Vec<u8>) -> (r: Result<VxlContainer, VoxError>)
    ensures
        r is Ok <==> vxl_valid(bytes@),
        r matches Ok(c) ==> encodes(c, bytes@),
        r matches Err(e) ==> e == VoxError::CorruptFormat,
{
    let ghost b = bytes@;
    let len = bytes.len();
    if len < 5 {
        return Err(VoxError::CorruptFormat);
    }
    if !(bytes[0] == 0x56 && bytes[1] == 0x58 && bytes[2] == 0x4c && bytes[3] == 0x20) {
        proof {
            if vxl_valid(b) {
                assert(b.subrange(0, 4)[0] == b[0]);
                assert(b.subrange(0, 4)[1] == b[1]);
                assert(b.subrange(0, 4)[2] == b[2]);
                assert(b.subrange(0, 4)[3] == b[3]);
            }
        }
        return Err(VoxError::CorruptFormat);
    }
    proof {
        assert(b.subrange(0, 4) =~= magic_bytes());
    }
    let n = bytes[4] as usize;
    if len < 17 + n {
        return Err(VoxError::CorruptFormat);
    }
    if !(bytes[6 + n] == 0x30 && bytes[7 + n] == 0x30 && bytes[8 + n] == 0x30
        && bytes[9 + n] == 0x31) {
        proof {
            if vxl_valid(b) {
                let nn = b[4] as int;
                assert(b.subrange(6 + nn, 10 + nn)[0] == b[6 + nn]);
                assert(b.subrange(6 + nn, 10 + nn)[1] == b[7 + nn]);
                assert(b.subrange(6 + nn, 10 + nn)[2] == b[8 + nn]);
                assert(b.subrange(6 + nn, 10 + nn)[3] == b[9 + nn]);
            }
        }
        return Err(VoxError::CorruptFormat);
    }
    proof {
        assert(b.subrange(6 + n as int, 10 + n as int) =~= version_bytes());
    }
    let p = bytes[10 + n] as usize;
    if len < 17 + n + 3 * p {
        return Err(VoxError::CorruptFormat);
    }
    let size_x = le16_join(bytes[11 + n], bytes[12 + n]);
    let size_y = le16_join(bytes[13 + n], bytes[14 + n]);
    let size_z = le16_join(bytes[15 + n], bytes[16 + n]);

    let mut name: Vec<u8> = Vec::new();
    let mut i: usize = 0;
    while i < n
        invariant
            5 + n <= bytes@.len(),
            bytes@.len() <= usize::MAX,
            i <= n,
            name@.len() == i,
            forall|j: int| 0 <= j < i ==> #[trigger] name@[j] == bytes@[5 + j],
        decreases n - i,
    {
        name.push(bytes[5 + i]);
        i = i + 1;
    }
    proof {
        assert(name@ =~= b.subrange(5, 5 + n as int));
    }

    let mut palette: Vec<(u8, u8, u8)> = Vec::new();
    let mut i: usize = 0;
    while i < p
        invariant
            17 + n + 3 * p <= bytes@.len(),
            bytes@.len() <= usize::MAX,
            i <= p,
            palette@.len() == i,
            forall|j: int| 0 <= j < i ==> #[trigger] palette@[j]
                == (bytes@[17 + n + 3 * j], bytes@[17 + n + 3 * j + 1],
                    bytes@[17 + n + 3 * j + 2]),
        decreases p - i,
    {
        palette.push((bytes[17 + n + 3 * i], bytes[17 + n + 3 * i + 1],
            bytes[17 + n + 3 * i + 2]));
        i = i + 1;
    }

    let start = 17 + n + 3 * p;
    let mut tail: Vec<u8> = Vec::new();
    let mut i: usize = start;
    while i < len
        invariant
            start <= i <= len,
            len == bytes@.len(),
            tail@.len() == i - start,
            forall|j: int| 0 <= j < i - start ==> #[trigger] tail@[j] == bytes@[start + j],
        decreases len - i,
    {
        tail.push(bytes[i]);
        i = i + 1;
    }
    proof {
        assert(tail@ =~= b.subrange(start as int, b.len() as int));
    }

    let grid = match gzip_decompress(&tail) {
        Some(g) => g,
        None => {
            return Err(VoxError::CorruptFormat);
        },
    };
    proof {
        lemma_u48_product(size_x as int, size_y as int, size_z as int);
    }
    let cells = (size_x as u64) * (size_y as u64) * (size_z as u64);
    if grid.len() as u64 != cells {
        return Err(VoxError::CorruptFormat);
    }
    let c = VxlContainer { name, palette, size_x, size_y, size_z, grid };
    proof {
        assert(c.wf());
        assert(encodes(c, b));
        lemma_encodes_valid(c, b);
    }
    Ok(c)
}

/// The product of three 16-bit values stays far below 2^64.
proof fn lemma_u48_product(x: int, y: int, z: int)
    by (nonlinear_arith)
    requires
        0 <= x < 0x10000,
        0 <= y < 0x10000,
        0 <= z < 0x10000,
    ensures
        x * y < 0x100000000,
        x * y * z < 0x1000000000000,
{
}

/// Joins two little-endian bytes into their 16-bit value.
fn le16_join(lo: u8, hi: u8) -> (r: u16)
    ensures
        r == lo + 256 * hi,
        le16_lo(r) == lo,
        le16_hi(r) == hi,
{
    let r: u16 = lo as u16 + 256 * (hi as u16);
    proof {
        assert(le16_lo(r) == lo && le16_hi(r) == hi) by (nonlinear_arith)
            requires r == lo + 256 * hi;
    }
    r
}

impl VoxelCanvas {
    /// The stored-row form of the grid: the bare gzip stream kept in
    /// the durable canvas row. Always succeeds: the compressor writes
    /// into memory.
    pub fn snapshot_blob(&self) -> (r: Option<Vec<u8>>)
        ensures
            r is Some,
            r matches Some(b) ==> gunzip_of(b@) == Some(self.grid@),
    {
        gzip_compress(&self.grid)
    }

    /// Rebuilds a canvas from its durable row: dimensions and metadata
    /// from the columns, cells from the gzip grid blob. A blob that
    /// does not decompress to exactly one byte per cell is corrupt.
    pub fn from_stored(
        id: i64,
        name: String,
        palette_id: i64,
        size_x: usize,
        size_y: usize,
        size_z: usize,
        blob: &Vec<u8>,
        created_at: i64,
        last_modified_at: i64,
    ) -> (r: Result<VoxelCanvas, VoxError>)
        requires
            size_x * size_y * size_z <= usize::MAX,
        ensures
            r is Ok <==> (gunzip_of(blob@) matches Some(g)
                && g.len() == size_x * size_y * size_z),
            r matches Ok(c) ==> {
                &&& c.wf()
                &&& c.id == id
                &&& c.name@ == name@
                &&& c.palette_id == palette_id
                &&& c.size_x == size_x && c.size_y == size_y && c.size_z == size_z
                &&& Some(c.grid@) == gunzip_of(blob@)
                &&& c.created_at == created_at
                &&& c.last_modified_at == last_modified_at
            },
            r matches Err(e) ==> e == VoxError::CorruptFormat,
    {
        let grid = match gzip_decompress(blob) {
            Some(g) => g,
            None => {
                return Err(VoxError::CorruptFormat);
            },
        };
        let cells = box_volume(size_x, size_y, size_z);
        if grid.len() != cells {
            return Err(VoxError::CorruptFormat);
        }
        Ok(VoxelCanvas {
            id,
            name,
            size_x,
            size_y,
            size_z,
            palette_id,
            grid,
            created_at,
            last_modified_at,
        })
    }

    /// Exports the canvas and its palette as a standalone container.
    /// Fails when a dimension, the name or the palette outgrows its
    /// wire field.
    pub fn to_container(&self, palette: &crate::palette::Palette) -> (r: Option<VxlContainer>)
        requires
            self.wf(),
        ensures
            r matches Some(c) ==> {
                &&& c.wf()
                &&& c.name@ == vstd::utf8::encode_utf8(self.name@)
                &&& c.palette@ == palette.colors_view()
                &&& c.size_x == self.size_x && c.size_y == self.size_y
                    && c.size_z == self.size_z
                &&& c.grid@ == self.grid@
            },
            r is None ==> !(self.size_x <= 0xffff && self.size_y <= 0xffff
                && self.size_z <= 0xffff
                && vstd::utf8::encode_utf8(self.name@).len() <= 255
                && palette.colors_view().len() <= 255),
    {
        if !(self.size_x <= 0xffff && self.size_y <= 0xffff && self.size_z <= 0xffff) {
            return None;
        }
        let name = self.name.as_str().as_bytes_vec();
        if name.len() > 255 {
            return None;
        }
        let colors = palette.colors();
        if colors.len() > 255 {
            return None;
        }
        let mut pal: Vec<(u8, u8, u8)> = Vec::new();
        let mut i: usize = 0;
        while i < colors.len()
            invariant
                i <= colors@.len(),
                pal@ =~= colors@.subrange(0, i as int),
            decreases colors@.len() - i,
        {
            pal.push(colors[i]);
            i = i + 1;
        }
        proof {
            assert(pal@ =~= colors@);
        }
        let mut grid: Vec<u8> = Vec::new();
        let mut i: usize = 0;
        while i < self.grid.len()
            invariant
                i <= self.grid@.len(),
                grid@ =~= self.grid@.subrange(0, i as int),
            decreases self.grid@.len() - i,
        {
            grid.push(self.grid[i]);
            i = i + 1;
        }
        proof {
            assert(grid@ =~= self.grid@);
        }
        Some(VxlContainer {
            name,
            palette: pal,
            size_x: self.size_x as u16,
            size_y: self.size_y as u16,
            size_z: self.size_z as u16,
            grid,
        })
    }
}

/// Relies on std's `String::from_utf8`: it succeeds exactly on valid
/// UTF-8 — the byte strings that are the encoding of some character
/// sequence — and then returns the string with that very encoding.
#[verifier::external_body]
fn string_from_utf8(bytes: Vec<u8>) -> (r: Option<String>)
    ensures
        r is Some <==> (exists|cs: Seq<char>| vstd::utf8::encode_utf8(cs) == bytes@),
        r matches Some(s) ==> vstd::utf8::encode_utf8(s@) == bytes@,
{
    String::from_utf8(bytes).ok()
}

/// Turns a decoded container back into a canvas; it succeeds exactly
/// when the stored name is UTF-8, and timestamps are re-derived from
/// the clock.
pub fn canvas_from_container(id: i64, palette_id: i64, c: VxlContainer)
    -> (r: Result<VoxelCanvas, VoxError>)
    requires
        c.wf(),
    ensures
        r is Ok <==> (exists|cs: Seq<char>| vstd::utf8::encode_utf8(cs) == c.name@),
        r matches Ok(v) ==> {
            &&& v.wf()
            &&& v.id == id
            &&& v.palette_id == palette_id
            &&& vstd::utf8::encode_utf8(v.name@) == c.name@
            &&& v.size_x == c.size_x && v.size_y == c.size_y && v.size_z == c.size_z
            &&& v.grid@ == c.grid@
        },
        r matches Err(e) ==> e == VoxError::CorruptFormat,
    {
    let name = match string_from_utf8(c.name) {
        Some(s) => s,
        None => {
            return Err(VoxError::CorruptFormat);
        },
    };
    let now = now_timestamp();
    proof {
        lemma_u48_product(c.size_x as int, c.size_y as int, c.size_z as int);
    }
    Ok(VoxelCanvas {
        id,
        name,
        size_x: c.size_x as usize,
        size_y: c.size_y as usize,
        size_z: c.size_z as usize,
        palette_id,
        grid: c.grid,
        created_at: now,
        last_modified_at: now,
    })
}

/// Compresses a raw flattened grid for its durable row. Always
/// succeeds: the compressor writes into memory.
pub fn compress_stored_grid(grid: &Vec<u8>) -> (r: Option<Vec<u8>>)
    ensures
        r is Some,
        r matches Some(b) ==> gunzip_of(b@) == Some(grid@),
{
    gzip_compress(grid)
}

} // verus!
