//! Color palettes: ordered lists of RGB triples.
//!
//! A grid cell holds a palette index (1-based; 0 means empty), so a
//! palette carries at most 255 usable entries. Palettes travel to and
//! from durable storage packed as three bytes per entry.

use vstd::prelude::*;

verus! {

pub struct Palette {
    palette_id: i64,
    colors: Vec<(u8, u8, u8)>,
}

/// The standard palette: 32 fixed colors.
pub open spec fn default_colors() -> Seq<(u8, u8, u8)> {
    seq![
        (0x6du8, 0x00u8, 0x1au8),
        (0xbeu8, 0x00u8, 0x39u8),
        (0xffu8, 0x45u8, 0x00u8),
        (0xffu8, 0xa8u8, 0x00u8),
        (0xffu8, 0xd6u8, 0x35u8),
        (0xffu8, 0xf8u8, 0xb8u8),
        (0x00u8, 0xa3u8, 0x68u8),
        (0x00u8, 0xccu8, 0x78u8),
        (0x7eu8, 0xedu8, 0x56u8),
        (0x00u8, 0x75u8, 0x6fu8),
        (0x00u8, 0x9eu8, 0xaau8),
        (0x00u8, 0xccu8, 0xc0u8),
        (0x24u8, 0x50u8, 0xa4u8),
        (0x36u8, 0x90u8, 0xeau8),
        (0x51u8, 0xe9u8, 0xf4u8),
        (0x49u8, 0x3au8, 0xc1u8),
        (0x6au8, 0x5cu8, 0xffu8),
        (0x94u8, 0xb3u8, 0xffu8),
        (0x81u8, 0x1eu8, 0x9fu8),
        (0xb4u8, 0x4au8, 0xc0u8),
        (0xe4u8, 0xabu8, 0xffu8),
        (0xdeu8, 0x10u8, 0x7fu8),
        (0xffu8, 0x38u8, 0x81u8),
        (0xffu8, 0x99u8, 0xaau8),
        (0x6du8, 0x48u8, 0x2fu8),
        (0x9cu8, 0x69u8, 0x26u8),
        (0xffu8, 0xb4u8, 0x70u8),
        (0x00u8, 0x00u8, 0x00u8),
        (0x51u8, 0x52u8, 0x52u8),
        (0x89u8, 0x8du8, 0x90u8),
        (0xd4u8, 0xd7u8, 0xd9u8),
        (0xffu8, 0xffu8, 0xffu8),
    ]
}

impl Palette {
    pub closed spec fn spec_palette_id(&self) -> i64 {
        self.palette_id
    }

    pub closed spec fn colors_view(&self) -> Seq<(u8, u8, u8)> {
        self.colors@
    }

    /// A palette with the given colors, or the standard 32-color
    /// palette when none are given.
    pub fn new(palette_id: i64, colors: Option<Vec<(u8, u8, u8)>>) -> (r: Palette)
        ensures
            r.spec_palette_id() == palette_id,
            colors matches Some(c) ==> r.colors_view() == c@,
            colors is None ==> r.colors_view() == default_colors(),
    {
        match colors {
            Some(colors) => Palette { palette_id, colors },
            None => {
                let colors: Vec<(u8, u8, u8)> = vec![
                    (0x6d, 0x00, 0x1a),
                    (0xbe, 0x00, 0x39),
                    (0xff, 0x45, 0x00),
                    (0xff, 0xa8, 0x00),
                    (0xff, 0xd6, 0x35),
                    (0xff, 0xf8, 0xb8),
                    (0x00, 0xa3, 0x68),
                    (0x00, 0xcc, 0x78),
                    (0x7e, 0xed, 0x56),
                    (0x00, 0x75, 0x6f),
                    (0x00, 0x9e, 0xaa),
                    (0x00, 0xcc, 0xc0),
                    (0x24, 0x50, 0xa4),
                    (0x36, 0x90, 0xea),
                    (0x51, 0xe9, 0xf4),
                    (0x49, 0x3a, 0xc1),
                    (0x6a, 0x5c, 0xff),
                    (0x94, 0xb3, 0xff),
                    (0x81, 0x1e, 0x9f),
                    (0xb4, 0x4a, 0xc0),
                    (0xe4, 0xab, 0xff),
                    (0xde, 0x10, 0x7f),
                    (0xff, 0x38, 0x81),
                    (0xff, 0x99, 0xaa),
                    (0x6d, 0x48, 0x2f),
                    (0x9c, 0x69, 0x26),
                    (0xff, 0xb4, 0x70),
                    (0x00, 0x00, 0x00),
                    (0x51, 0x52, 0x52),
                    (0x89, 0x8d, 0x90),
                    (0xd4, 0xd7, 0xd9),
                    (0xff, 0xff, 0xff),
                ];
                proof {
                    assert(colors@ =~= default_colors());
                }
                Palette { palette_id, colors }
            },
        }
    }

    pub fn palette_id(&self) -> (r: i64)
        ensures
            r == self.spec_palette_id(),
    {
        self.palette_id
    }

    pub fn colors(&self) -> (r: &Vec<(u8, u8, u8)>)
        ensures
            r@ == self.colors_view(),
    {
        &self.colors
    }

    /// Packs the colors as three bytes per entry, in order.
    pub fn to_bytes(&self) -> (r: Vec<u8>)
        ensures
            r@.len() == 3 * self.colors_view().len(),
            forall|i: int| 0 <= i < self.colors_view().len() ==> {
                &&& r@[3 * i] == (#[trigger] self.colors_view()[i]).0
                &&& r@[3 * i + 1] == self.colors_view()[i].1
                &&& r@[3 * i + 2] == self.colors_view()[i].2
            },
    {
        pack_rgb(&self.colors)
    }

    /// Unpacks three bytes per entry; a trailing fragment shorter than
    /// one entry is ignored.
    pub fn from_bytes(palette_id: i64, bytes: &Vec<u8>) -> (r: Palette)
        ensures
            r.spec_palette_id() == palette_id,
            r.colors_view().len() == bytes@.len() / 3,
            forall|i: int| 0 <= i < r.colors_view().len()
                ==> #[trigger] r.colors_view()[i]
                    == (bytes@[3 * i], bytes@[3 * i + 1], bytes@[3 * i + 2]),
    {
        let mut colors: Vec<(u8, u8, u8)> = Vec::new();
        let len = bytes.len();
        let n = len / 3;
        proof {
            assert(3 * (bytes@.len() as int / 3) <= bytes@.len()) by (nonlinear_arith);
        }
        let mut i: usize = 0;
        while i < n
            invariant
                n == bytes@.len() / 3,
                3 * (n as int) <= bytes@.len(),
                bytes@.len() <= usize::MAX,
                i <= n,
                colors@.len() == i,
                forall|j: int| 0 <= j < i ==> #[trigger] colors@[j]
                    == (bytes@[3 * j], bytes@[3 * j + 1], bytes@[3 * j + 2]),
            decreases n - i,
        {
            colors.push((bytes[3 * i], bytes[3 * i + 1], bytes[3 * i + 2]));
            i = i + 1;
        }
        Palette { palette_id, colors }
    }
}

/// Packs RGB triples as three bytes per entry, in order.
pub fn pack_rgb(colors: &Vec<(u8, u8, u8)>) -> (r: Vec<u8>)
    ensures
        r@.len() == 3 * colors@.len(),
        forall|j: int| 0 <= j < colors@.len() ==> {
            &&& r@[3 * j] == (#[trigger] colors@[j]).0
            &&& r@[3 * j + 1] == colors@[j].1
            &&& r@[3 * j + 2] == colors@[j].2
        },
{
    let mut out: Vec<u8> = Vec::new();
    let n = colors.len();
    let mut i: usize = 0;
    while i < n
        invariant
            n == colors@.len(),
            i <= n,
            out@.len() == 3 * i,
            forall|j: int| 0 <= j < i ==> {
                &&& out@[3 * j] == (#[trigger] colors@[j]).0
                &&& out@[3 * j + 1] == colors@[j].1
                &&& out@[3 * j + 2] == colors@[j].2
            },
        decreases n - i,
    {
        let c = colors[i];
        out.push(c.0);
        out.push(c.1);
        out.push(c.2);
        i = i + 1;
    }
    out
}

} // verus!
