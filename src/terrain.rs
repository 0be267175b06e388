//! Terrain grids: bit-packed and byte-per-cell images turned into dense
//! row-major byte grids, one per layer kind.
use vstd::prelude::*;

use crate::style::{blend_tile_color, blended, Color, MapConfig};

verus! {

/// The terrain property that a grid describes.
#[derive(Clone, Copy, Debug, PartialEq, Eq, Structural)]
pub enum TerrainLayerKind {
    Pathing,
    Placement,
    Height,
    Creep,
    Energy,
}

/// A grid payload as the engine sends it: a byte buffer with its extent
/// and the number of bits that encode one cell.
#[derive(Clone, Debug)]
pub struct ImageData {
    pub bits_per_pixel: i32,
    pub width: u32,
    pub height: u32,
    pub data: Vec<u8>,
}

/// Why a payload could not be turned into a grid.
#[derive(Clone, Copy, Debug, PartialEq, Eq, Structural)]
pub enum GridError {
    /// Only one and eight bits per cell are understood.
    UnsupportedDepth(i32),
    /// The payload does not hold one value for every cell.
    SizeMismatch { expected: u64, actual: u64 },
}

/// The value of bit `i` of a buffer, most significant bit first in each byte.
pub open spec fn bit_at(bytes: Seq<u8>, i: int) -> bool {
    (bytes[i / 8] >> ((7 - i % 8) as u8)) & 1u8 == 1u8
}

/// Every bit of a buffer, most significant bit first in each byte.
pub open spec fn unpacked(bytes: Seq<u8>) -> Seq<bool> {
    Seq::new((8 * bytes.len()) as nat, |i: int| bit_at(bytes, i))
}

/// The byte value that one decoded bit widens to.
pub open spec fn widen(b: bool) -> u8 {
    if b { 255u8 } else { 0u8 }
}

/// The cells of a one-bit grid of `n` cells.
pub open spec fn one_bit_cells(bytes: Seq<u8>, n: int) -> Seq<u8> {
    Seq::new(n as nat, |i: int| widen(bit_at(bytes, i)))
}

/// Unpacks every bit of `bytes`, most significant bit first within a byte.
pub fn unpack_bits(bytes: &[u8]) -> (bits: Vec<bool>)
    requires
        8 * bytes@.len() <= usize::MAX,
    ensures
        bits@ == unpacked(bytes@),
{
    let mut bits: Vec<bool> = Vec::with_capacity(bytes.len() * 8);
    let mut j: usize = 0;
    while j < bytes.len()
        invariant
            j <= bytes@.len(),
            8 * bytes@.len() <= usize::MAX,
            bits@.len() == 8 * j,
            forall|k: int| 0 <= k < bits@.len() ==> bits@[k] == bit_at(bytes@, k),
        decreases bytes@.len() - j,
    {
        let byte = bytes[j];
        let mut i: u8 = 8;
        while i > 0
            invariant
                j < bytes@.len(),
                byte == bytes@[j as int],
                i <= 8,
                bits@.len() == 8 * j + (8 - i),
                forall|k: int| 0 <= k < bits@.len() ==> bits@[k] == bit_at(bytes@, k),
            decreases i,
        {
            i = i - 1;
            let ghost k = bits@.len() as int;
            assert(k / 8 == j as int && k % 8 == 7 - i) by (nonlinear_arith)
                requires k == 8 * j + (7 - i), 0 <= i < 8;
            bits.push((byte >> i) & 1 == 1);
        }
        j = j + 1;
    }
    assert(bits@ =~= unpacked(bytes@));
    bits
}


/// Packs bits into bytes, most significant bit first; the inverse of
/// `unpacked` on whole bytes.
pub open spec fn packed(bits: Seq<bool>) -> Seq<u8> {
    Seq::new(bits.len() / 8, |j: int| pack_byte(bits.subrange(8 * j, 8 * j + 8)))
}

/// `1` for a set bit, `0` otherwise.
pub open spec fn bit_value(b: bool) -> u8 {
    if b { 1u8 } else { 0u8 }
}

/// The byte whose bits, most significant first, are the eight given ones.
pub open spec fn pack_byte(b: Seq<bool>) -> u8 {
    ((bit_value(b[0]) << 7u8) | (bit_value(b[1]) << 6u8) | (bit_value(b[2]) << 5u8) | (
    bit_value(b[3]) << 4u8) | (bit_value(b[4]) << 3u8) | (bit_value(b[5]) << 2u8) | (bit_value(
        b[6],
    ) << 1u8) | bit_value(b[7])) as u8
}

proof fn lemma_pack_byte_bits(b: Seq<bool>, k: int)
    requires
        b.len() == 8,
        0 <= k < 8,
    ensures
        ((pack_byte(b) >> ((7 - k) as u8)) & 1u8 == 1u8) == b[k],
{
    let x0 = bit_value(b[0]);
    let x1 = bit_value(b[1]);
    let x2 = bit_value(b[2]);
    let x3 = bit_value(b[3]);
    let x4 = bit_value(b[4]);
    let x5 = bit_value(b[5]);
    let x6 = bit_value(b[6]);
    let x7 = bit_value(b[7]);
    let p = pack_byte(b);
    assert(p == ((x0 << 7u8) | (x1 << 6u8) | (x2 << 5u8) | (x3 << 4u8) | (x4 << 3u8) | (x5 << 2u8)
        | (x6 << 1u8) | x7) as u8);
    let s = (7 - k) as u8;
    assert(x0 <= 1 && x1 <= 1 && x2 <= 1 && x3 <= 1 && x4 <= 1 && x5 <= 1 && x6 <= 1 && x7 <= 1);
    assert(s <= 7);
    assert((p >> s) & 1u8 == 1u8 <==> (if s == 7 { x0 } else if s == 6 { x1 } else if s == 5 {
        x2
    } else if s == 4 { x3 } else if s == 3 { x4 } else if s == 2 { x5 } else if s == 1 { x6 } else {
        x7
    }) == 1u8) by (bit_vector)
        requires
            p == ((x0 << 7u8) | (x1 << 6u8) | (x2 << 5u8) | (x3 << 4u8) | (x4 << 3u8) | (x5 << 2u8)
                | (x6 << 1u8) | x7) as u8,
            x0 <= 1 && x1 <= 1 && x2 <= 1 && x3 <= 1 && x4 <= 1 && x5 <= 1 && x6 <= 1 && x7 <= 1,
            s <= 7,
    ;
}

/// Unpacking what was packed gives back the bits, for any whole number of bytes.
pub proof fn lemma_unpack_pack(bits: Seq<bool>)
    requires
        bits.len() % 8 == 0,
    ensures
        unpacked(packed(bits)) == bits,
{
    let p = packed(bits);
    assert(8 * p.len() == bits.len());
    assert forall|i: int| 0 <= i < bits.len() implies #[trigger] unpacked(p)[i] == bits[i] by {
        let j = i / 8;
        let k = i % 8;
        assert(0 <= j < p.len());
        assert(8 * j + k == i);
        let b = bits.subrange(8 * j, 8 * j + 8);
        lemma_pack_byte_bits(b, k);
        assert(b[k] == bits[i]);
    }
    assert(unpacked(p) =~= bits);
}

proof fn lemma_cell_index_bound(width: u32, height: u32, x: u32, y: u32)
    ensures
        width * height <= u64::MAX,
        x < width && y < height ==> y * width + x < width * height,
{
    assert(width * height <= u32::MAX * u32::MAX) by (nonlinear_arith)
        requires width <= u32::MAX, height <= u32::MAX;
    if x < width && y < height {
        assert(y * width + x < width * height) by (nonlinear_arith)
            requires x < width, y < height;
    }
}

/// In row-major order, a cell of an earlier row, or earlier in the same
/// row, comes first.
proof fn lemma_row_major_before(width: u32, xx: u32, yy: u32, x: u32, y: u32)
    requires
        (xx < width && yy < y) || (yy == y && xx < x),
    ensures
        yy * width + xx < y * width + x,
{
    if yy < y {
        assert(yy * width + xx < y * width) by (nonlinear_arith)
            requires xx < width, yy < y;
    }
}

/// A payload decodes when its depth is one bit with a bit for every cell, or
/// eight bits with exactly one byte per cell.
pub open spec fn grid_ok(img: ImageData) -> bool {
    ||| img.bits_per_pixel == 1 && img.width * img.height <= 8 * img.data@.len() && 8 * img.data@.len()
        <= usize::MAX
    ||| img.bits_per_pixel == 8 && img.data@.len() == img.width * img.height
}

/// The cells that a decodable payload gives.
pub open spec fn decoded_cells(img: ImageData) -> Seq<u8> {
    if img.bits_per_pixel == 1 {
        one_bit_cells(img.data@, img.width * img.height)
    } else {
        img.data@
    }
}

/// One terrain property over the map, one byte per cell, row-major.
#[derive(Clone, Debug)]
pub struct TerrainLayer {
    pub kind: TerrainLayerKind,
    pub width: u32,
    pub height: u32,
    pub data: Vec<u8>,
}

/// The value at `(x, y)`: the cell where it lies inside the grid, 0 elsewhere.
pub open spec fn cell_value(width: u32, height: u32, data: Seq<u8>, x: u32, y: u32) -> u8 {
    let idx = y * width + x;
    if x < width && y < height && idx < data.len() {
        data[idx]
    } else {
        0u8
    }
}

impl TerrainLayer {
    /// The grid holds exactly one byte per cell.
    pub open spec fn wf(&self) -> bool {
        self.data@.len() == self.width * self.height
    }

    pub open spec fn value_at(&self, x: u32, y: u32) -> u8 {
        cell_value(self.width, self.height, self.data@, x, y)
    }

    /// The terrain property this grid describes.
    pub fn kind(&self) -> (r: TerrainLayerKind)
        ensures
            r == self.kind,
    {
        self.kind
    }

    /// Decodes a one-bit-per-cell payload: bits are read most significant
    /// first and widen to 255 (set) or 0 (clear); bits past the last cell
    /// are padding.
    pub fn from_image_data1(data: &[u8], kind: TerrainLayerKind, width: u32, height: u32) -> (r:
        Self)
        requires
            width * height <= 8 * data@.len() <= usize::MAX,
        ensures
            r.wf(),
            r.kind == kind,
            r.width == width,
            r.height == height,
            r.data@ == one_bit_cells(data@, width * height),
    {
        let bits = unpack_bits(data);
        proof {
            lemma_cell_index_bound(width, height, 0, 0);
        }
        let n = (width as u64 * height as u64) as usize;
        let mut pixels: Vec<u8> = Vec::with_capacity(n);
        let mut i: usize = 0;
        while i < n
            invariant
                n == width * height,
                n <= bits@.len(),
                bits@ == unpacked(data@),
                i <= n,
                pixels@.len() == i,
                forall|k: int| 0 <= k < i ==> pixels@[k] == widen(bit_at(data@, k)),
            decreases n - i,
        {
            pixels.push(if bits[i] { 255u8 } else { 0u8 });
            i = i + 1;
        }
        assert(pixels@ =~= one_bit_cells(data@, width * height));
        TerrainLayer { kind, width, height, data: pixels }
    }

    /// Takes over a byte-per-cell payload as it stands.
    pub fn from_image_data8(img: &ImageData, kind: TerrainLayerKind) -> (r: Self)
        requires
            img.bits_per_pixel == 8,
            img.data@.len() == img.width * img.height,
        ensures
            r.wf(),
            r.kind == kind,
            r.width == img.width,
            r.height == img.height,
            r.data@ == img.data@,
    {
        let mut data: Vec<u8> = Vec::with_capacity(img.data.len());
        let mut i: usize = 0;
        while i < img.data.len()
            invariant
                i <= img.data@.len(),
                data@ == img.data@.subrange(0, i as int),
            decreases img.data@.len() - i,
        {
            data.push(img.data[i]);
            i = i + 1;
            assert(data@ =~= img.data@.subrange(0, i as int));
        }
        assert(data@ =~= img.data@);
        TerrainLayer { kind, width: img.width, height: img.height, data }
    }

    /// Decodes a payload of one or eight bits per cell; any other depth, or
    /// a payload too short for the grid (one bit), or of another length than
    /// the grid (eight bits), is refused.
    pub fn from_image_data(img: &ImageData, kind: TerrainLayerKind) -> (r: Result<Self, GridError>)
        ensures
            r is Ok <==> grid_ok(*img),
            r matches Ok(layer) ==> layer.data@ == decoded_cells(*img),
            match r {
                Ok(layer) => {
                    &&& layer.wf()
                    &&& layer.kind == kind
                    &&& layer.width == img.width
                    &&& layer.height == img.height
                    &&& img.bits_per_pixel == 1 ==> img.width * img.height <= 8 * img.data@.len()
                        && layer.data@ == one_bit_cells(img.data@, img.width * img.height)
                    &&& img.bits_per_pixel == 8 ==> layer.data@ == img.data@
                    &&& img.bits_per_pixel == 1 || img.bits_per_pixel == 8
                },
                Err(GridError::UnsupportedDepth(d)) => d == img.bits_per_pixel
                    && img.bits_per_pixel != 1 && img.bits_per_pixel != 8,
                Err(GridError::SizeMismatch { expected, actual }) => {
                    &&& expected == img.width * img.height
                    &&& actual == img.data@.len()
                    &&& img.bits_per_pixel == 1 ==> 8 * img.data@.len() < img.width * img.height
                        || 8 * img.data@.len() > usize::MAX
                    &&& img.bits_per_pixel == 8 ==> img.data@.len() != img.width * img.height
                    &&& img.bits_per_pixel == 1 || img.bits_per_pixel == 8
                },
            },
    {
        proof {
            lemma_cell_index_bound(img.width, img.height, 0, 0);
        }
        let cells = img.width as u64 * img.height as u64;
        let len = img.data.len() as u64;
        if img.bits_per_pixel == 1 {
            if img.data.len() > usize::MAX / 8 || cells > 8 * len {
                return Err(GridError::SizeMismatch { expected: cells, actual: len });
            }
            Ok(Self::from_image_data1(img.data.as_slice(), kind, img.width, img.height))
        } else if img.bits_per_pixel == 8 {
            if cells != len {
                return Err(GridError::SizeMismatch { expected: cells, actual: len });
            }
            Ok(Self::from_image_data8(img, kind))
        } else {
            Err(GridError::UnsupportedDepth(img.bits_per_pixel))
        }
    }

    /// The value at `(x, y)`, or 0 where the point lies outside the grid.
    pub fn get_value(&self, x: u32, y: u32) -> (r: u8)
        ensures
            r == self.value_at(x, y),
    {
        proof {
            lemma_cell_index_bound(self.width, self.height, x, y);
        }
        if x < self.width && y < self.height {
            let idx = y as u64 * self.width as u64 + x as u64;
            if idx < self.data.len() as u64 {
                return self.data[idx as usize];
            }
        }
        0
    }
}

/// Reading any point, inside the grid or past its edges, gives the cell or 0.
pub proof fn lemma_get_value_total(layer: TerrainLayer, x: u32, y: u32)
    requires
        layer.wf(),
    ensures
        x >= layer.width || y >= layer.height ==> layer.value_at(x, y) == 0,
        x < layer.width && y < layer.height ==> layer.value_at(x, y) == layer.data@[y
            * layer.width + x],
{
    if x < layer.width && y < layer.height {
        assert(y * layer.width + x < layer.width * layer.height) by (nonlinear_arith)
            requires x < layer.width, y < layer.height;
    }
}

/// At most one grid per terrain property.
#[derive(Clone, Debug)]
pub struct TerrainLayers {
    pub pathing: Option<TerrainLayer>,
    pub placement: Option<TerrainLayer>,
    pub height: Option<TerrainLayer>,
    pub creep: Option<TerrainLayer>,
    pub energy: Option<TerrainLayer>,
}

/// The value of an optional grid at a point, or `absent` without a grid.
pub open spec fn layer_value(layer: Option<TerrainLayer>, x: u32, y: u32, absent: u8) -> u8 {
    match layer {
        Some(l) => l.value_at(x, y),
        None => absent,
    }
}

/// The extent of an optional grid, when there is one.
pub open spec fn extent(layer: Option<TerrainLayer>) -> Option<(u32, u32)> {
    match layer {
        Some(l) => Some((l.width, l.height)),
        None => None,
    }
}

impl TerrainLayers {
    /// Every grid is well formed and sits in the slot of its own kind.
    pub open spec fn wf(&self) -> bool {
        &&& (self.pathing matches Some(l) ==> l.wf() && l.kind == TerrainLayerKind::Pathing)
        &&& (self.placement matches Some(l) ==> l.wf() && l.kind == TerrainLayerKind::Placement)
        &&& (self.height matches Some(l) ==> l.wf() && l.kind == TerrainLayerKind::Height)
        &&& (self.creep matches Some(l) ==> l.wf() && l.kind == TerrainLayerKind::Creep)
        &&& (self.energy matches Some(l) ==> l.wf() && l.kind == TerrainLayerKind::Energy)
    }

    /// The grid held for a kind.
    pub open spec fn slot(&self, kind: TerrainLayerKind) -> Option<TerrainLayer> {
        match kind {
            TerrainLayerKind::Pathing => self.pathing,
            TerrainLayerKind::Placement => self.placement,
            TerrainLayerKind::Height => self.height,
            TerrainLayerKind::Creep => self.creep,
            TerrainLayerKind::Energy => self.energy,
        }
    }

    /// The extent of the first grid present, in the order pathing,
    /// placement, height, creep, energy; `(0, 0)` with none.
    pub open spec fn dimensions(&self) -> (u32, u32) {
        if self.pathing is Some {
            extent(self.pathing).unwrap()
        } else if self.placement is Some {
            extent(self.placement).unwrap()
        } else if self.height is Some {
            extent(self.height).unwrap()
        } else if self.creep is Some {
            extent(self.creep).unwrap()
        } else if self.energy is Some {
            extent(self.energy).unwrap()
        } else {
            (0, 0)
        }
    }

    /// The colour of cell `(x, y)`; a missing grid reads as 0, but for a
    /// missing height, which reads as the middle height 128.
    pub open spec fn tile_color(&self, style: MapConfig, x: u32, y: u32) -> Color {
        blended(
            style,
            layer_value(self.pathing, x, y, 0),
            layer_value(self.placement, x, y, 0),
            layer_value(self.creep, x, y, 0),
            layer_value(self.energy, x, y, 0),
            layer_value(self.height, x, y, 128),
        )
    }

    pub fn new() -> (r: Self)
        ensures
            r.wf(),
            forall|k: TerrainLayerKind| r.slot(k) is None,
    {
        TerrainLayers { pathing: None, placement: None, height: None, creep: None, energy: None }
    }

    /// Puts a grid in the slot of its kind, replacing what was there.
    pub fn add_layer(&mut self, layer: TerrainLayer)
        requires
            old(self).wf(),
            layer.wf(),
        ensures
            final(self).wf(),
            final(self).slot(layer.kind) == Some(layer),
            forall|k: TerrainLayerKind| k != layer.kind ==> final(self).slot(k) == old(self).slot(k),
    {
        match layer.kind {
            TerrainLayerKind::Pathing => self.pathing = Some(layer),
            TerrainLayerKind::Placement => self.placement = Some(layer),
            TerrainLayerKind::Height => self.height = Some(layer),
            TerrainLayerKind::Creep => self.creep = Some(layer),
            TerrainLayerKind::Energy => self.energy = Some(layer),
        }
    }

    /// The extent of the first grid present (see `dimensions`).
    pub fn get_dimensions(&self) -> (r: (u32, u32))
        ensures
            r == self.dimensions(),
    {
        if let Some(layer) = &self.pathing {
            return (layer.width, layer.height);
        }
        if let Some(layer) = &self.placement {
            return (layer.width, layer.height);
        }
        if let Some(layer) = &self.height {
            return (layer.width, layer.height);
        }
        if let Some(layer) = &self.creep {
            return (layer.width, layer.height);
        }
        if let Some(layer) = &self.energy {
            return (layer.width, layer.height);
        }
        (0, 0)
    }

    fn value_or(layer: &Option<TerrainLayer>, x: u32, y: u32, absent: u8) -> (r: u8)
        ensures
            r == layer_value(*layer, x, y, absent),
    {
        match layer {
            Some(l) => l.get_value(x, y),
            None => absent,
        }
    }

    /// The colours of every cell of the map, row by row, over the extent
    /// that `get_dimensions` reports.
    pub fn tile_colors(&self, style: &MapConfig) -> (r: Vec<Color>)
        requires
            self.dimensions().0 * self.dimensions().1 <= usize::MAX,
        ensures
            r@.len() == self.dimensions().0 * self.dimensions().1,
            forall|y: u32, x: u32|
                #![trigger self.tile_color(*style, x, y)]
                x < self.dimensions().0 && y < self.dimensions().1 ==> r@[y * self.dimensions().0
                    + x] == self.tile_color(*style, x, y),
    {
        let (width, height) = self.get_dimensions();
        let mut colors: Vec<Color> = Vec::new();
        let mut y: u32 = 0;
        while y < height
            invariant
                (width, height) == self.dimensions(),
                width * height <= usize::MAX,
                y <= height,
                colors@.len() == y * width,
                forall|yy: u32, xx: u32|
                    #![trigger self.tile_color(*style, xx, yy)]
                    xx < width && yy < y ==> colors@[yy * width + xx] == self.tile_color(
                        *style,
                        xx,
                        yy,
                    ),
            decreases height - y,
        {
            let mut x: u32 = 0;
            while x < width
                invariant
                    (width, height) == self.dimensions(),
                    width * height <= usize::MAX,
                    y < height,
                    x <= width,
                    colors@.len() == y * width + x,
                    forall|yy: u32, xx: u32|
                        #![trigger self.tile_color(*style, xx, yy)]
                        (xx < width && yy < y) || (yy == y && xx < x) ==> colors@[yy * width + xx]
                            == self.tile_color(*style, xx, yy),
                decreases width - x,
            {
                let c = blend_tile_color(
                    Self::value_or(&self.pathing, x, y, 0),
                    Self::value_or(&self.placement, x, y, 0),
                    Self::value_or(&self.creep, x, y, 0),
                    Self::value_or(&self.energy, x, y, 0),
                    Self::value_or(&self.height, x, y, 128),
                    style,
                );
                proof {
                    assert(y * width + x < width * height) by (nonlinear_arith)
                        requires x < width, y < height;
                }
                colors.push(c);
                proof {
                    assert forall|yy: u32, xx: u32|
                        #![trigger self.tile_color(*style, xx, yy)]
                        (xx < width && yy < y) || (yy == y && xx < x + 1) implies colors@[yy * width
                            + xx] == self.tile_color(*style, xx, yy) by {
                        if !(yy == y && xx == x) {
                            lemma_row_major_before(width, xx, yy, x, y);
                        }
                    }
                }
                x = x + 1;
            }
            proof {
                assert((y + 1) * width == y * width + width) by (nonlinear_arith);
                assert forall|yy: u32, xx: u32|
                    #![trigger self.tile_color(*style, xx, yy)]
                    xx < width && yy < y + 1 implies colors@[yy * width + xx] == self.tile_color(
                        *style,
                        xx,
                        yy,
                    ) by {}
            }
            y = y + 1;
        }
        assert(height * width == width * height) by (nonlinear_arith);
        colors
    }
}

} // verus!
