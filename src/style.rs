//! Display colours of terrain cells: a lookup over the layer values of one
//! cell followed by a brightness scale taken from the cell's height.
use vstd::prelude::*;

verus! {

/// Brightness is given in thousandths: 1000 leaves a colour unchanged.
pub const INTENSITY_SCALE: u64 = 1000;

/// A colour with 8-bit channels.
#[derive(Clone, Copy, Debug, PartialEq, Eq, Structural)]
pub struct Color {
    pub red: u8,
    pub green: u8,
    pub blue: u8,
    pub alpha: u8,
}

/// An opaque colour as the style configuration names it.
#[derive(Clone, Copy, Debug, PartialEq, Eq, Structural)]
pub struct Rgb {
    pub red: u8,
    pub green: u8,
    pub blue: u8,
}

/// The style of the terrain view. `height_intensity_min` and
/// `height_intensity_max` are the brightness, in thousandths, of the lowest
/// and of the highest terrain; `tile_size` is the side of one cell in world
/// units.
#[derive(Clone, Copy, Debug, PartialEq, Eq, Structural)]
pub struct MapConfig {
    pub tile_size: u16,
    pub terrain_blocked: Rgb,
    pub terrain_pathable: Rgb,
    pub terrain_placeable: Rgb,
    pub terrain_both: Rgb,
    pub creep: Rgb,
    pub energy: Rgb,
    pub height_intensity_min: u32,
    pub height_intensity_max: u32,
}

pub open spec fn opaque_color(c: Rgb) -> Color {
    Color { red: c.red, green: c.green, blue: c.blue, alpha: 255 }
}

/// A channel scaled by the brightness of height `h`, which runs linearly
/// from `lo` at height 0 to `hi` at height 255; the result saturates at 255.
pub open spec fn scaled_channel(c: u8, h: u8, lo: u32, hi: u32) -> u8 {
    let v = (c as int) * ((lo as int) * (255 - h as int) + (hi as int) * (h as int)) / (255000int);
    if v > 255 {
        255u8
    } else {
        v as u8
    }
}

/// Which of the four terrain colours a cell takes.
pub open spec fn terrain_rgb(style: MapConfig, pathable: bool, placeable: bool) -> Rgb {
    if !pathable && !placeable {
        style.terrain_blocked
    } else if pathable && !placeable {
        style.terrain_pathable
    } else if !pathable && placeable {
        style.terrain_placeable
    } else {
        style.terrain_both
    }
}

pub open spec fn height_scaled(style: MapConfig, color: Color, height: u8) -> Color {
    Color {
        red: scaled_channel(color.red, height, style.height_intensity_min, style.height_intensity_max),
        green: scaled_channel(
            color.green,
            height,
            style.height_intensity_min,
            style.height_intensity_max,
        ),
        blue: scaled_channel(
            color.blue,
            height,
            style.height_intensity_min,
            style.height_intensity_max,
        ),
        alpha: color.alpha,
    }
}

/// The colour before the height scale: creep first, then energy, then the
/// terrain colour of the pathable/placeable pair.
pub open spec fn base_color(style: MapConfig, pathing: u8, placement: u8, creep: u8, energy: u8) -> Color {
    if creep > 0 {
        opaque_color(style.creep)
    } else if energy > 0 {
        opaque_color(style.energy)
    } else {
        opaque_color(terrain_rgb(style, pathing > 0, placement > 0))
    }
}

/// The display colour of a cell.
pub open spec fn blended(
    style: MapConfig,
    pathing: u8,
    placement: u8,
    creep: u8,
    energy: u8,
    height: u8,
) -> Color {
    height_scaled(style, base_color(style, pathing, placement, creep, energy), height)
}

fn scale_channel(c: u8, h: u8, lo: u32, hi: u32) -> (r: u8)
    ensures
        r == scaled_channel(c, h, lo, hi),
{
    let lo64 = lo as u64;
    let hi64 = hi as u64;
    let h64 = h as u64;
    let c64 = c as u64;
    assert(lo64 * (255 - h64) <= u32::MAX as u64 * 255) by (nonlinear_arith)
        requires lo64 <= u32::MAX, h64 <= 255;
    assert(hi64 * h64 <= u32::MAX as u64 * 255) by (nonlinear_arith)
        requires hi64 <= u32::MAX, h64 <= 255;
    let weight = lo64 * (255 - h64) + hi64 * h64;
    assert(c64 * weight <= 255 * (u32::MAX as u64 * 510)) by (nonlinear_arith)
        requires c64 <= 255, weight <= u32::MAX as u64 * 510;
    let v = c64 * weight / (255 * INTENSITY_SCALE);
    if v > 255 {
        255
    } else {
        v as u8
    }
}

impl MapConfig {
    /// One of the four terrain colours, keyed by the pathable/placeable pair.
    pub fn get_terrain_color(&self, pathable: bool, placeable: bool) -> (r: Color)
        ensures
            r == opaque_color(terrain_rgb(*self, pathable, placeable)),
    {
        let rgb = match (pathable, placeable) {
            (false, false) => self.terrain_blocked,
            (true, false) => self.terrain_pathable,
            (false, true) => self.terrain_placeable,
            (true, true) => self.terrain_both,
        };
        Color { red: rgb.red, green: rgb.green, blue: rgb.blue, alpha: 255 }
    }

    pub fn get_creep_color(&self) -> (r: Color)
        ensures
            r == opaque_color(self.creep),
    {
        Color { red: self.creep.red, green: self.creep.green, blue: self.creep.blue, alpha: 255 }
    }

    pub fn get_energy_color(&self) -> (r: Color)
        ensures
            r == opaque_color(self.energy),
    {
        Color { red: self.energy.red, green: self.energy.green, blue: self.energy.blue, alpha: 255 }
    }

    /// Scales the colour channels by the brightness of `height`; alpha is kept.
    pub fn apply_height_intensity(&self, color: Color, height: u8) -> (r: Color)
        ensures
            r == height_scaled(*self, color, height),
    {
        let lo = self.height_intensity_min;
        let hi = self.height_intensity_max;
        Color {
            red: scale_channel(color.red, height, lo, hi),
            green: scale_channel(color.green, height, lo, hi),
            blue: scale_channel(color.blue, height, lo, hi),
            alpha: color.alpha,
        }
    }
}

impl Default for MapConfig {
    /// A dark theme: near-black blocked ground, greys for walkable and
    /// buildable ground, purple creep, blue energy, and heights from 60% to
    /// full brightness, on 16-unit tiles.
    fn default() -> (r: Self)
        ensures
            r.tile_size == 16,
            r.terrain_blocked == (Rgb { red: 13, green: 13, blue: 13 }),
            r.terrain_pathable == (Rgb { red: 31, green: 31, blue: 33 }),
            r.terrain_placeable == (Rgb { red: 46, green: 46, blue: 51 }),
            r.terrain_both == (Rgb { red: 56, green: 56, blue: 61 }),
            r.creep == (Rgb { red: 102, green: 26, blue: 128 }),
            r.energy == (Rgb { red: 26, green: 77, blue: 153 }),
            r.height_intensity_min == 600,
            r.height_intensity_max == 1000,
    {
        MapConfig {
            tile_size: 16,
            terrain_blocked: Rgb { red: 13, green: 13, blue: 13 },
            terrain_pathable: Rgb { red: 31, green: 31, blue: 33 },
            terrain_placeable: Rgb { red: 46, green: 46, blue: 51 },
            terrain_both: Rgb { red: 56, green: 56, blue: 61 },
            creep: Rgb { red: 102, green: 26, blue: 128 },
            energy: Rgb { red: 26, green: 77, blue: 153 },
            height_intensity_min: 600,
            height_intensity_max: 1000,
        }
    }
}

/// The display colour of one cell from its five layer values.
pub fn blend_tile_color(
    pathing: u8,
    placement: u8,
    creep: u8,
    energy: u8,
    height: u8,
    style: &MapConfig,
) -> (r: Color)
    ensures
        r == blended(*style, pathing, placement, creep, energy, height),
        creep > 0 ==> r == height_scaled(*style, opaque_color(style.creep), height),
        creep == 0 && energy > 0 ==> r == height_scaled(*style, opaque_color(style.energy), height),
{
    let base = if creep > 0 {
        style.get_creep_color()
    } else if energy > 0 {
        style.get_energy_color()
    } else {
        style.get_terrain_color(pathing > 0, placement > 0)
    };
    style.apply_height_intensity(base, height)
}

/// Creep outranks every other layer: with creep present, the pathing,
/// placement and energy values do not change the colour.
pub proof fn lemma_creep_overrides(
    style: MapConfig,
    creep: u8,
    height: u8,
    pathing1: u8,
    placement1: u8,
    energy1: u8,
    pathing2: u8,
    placement2: u8,
    energy2: u8,
)
    requires
        creep > 0,
    ensures
        blended(style, pathing1, placement1, creep, energy1, height) == blended(
            style,
            pathing2,
            placement2,
            creep,
            energy2,
            height,
        ),
{
}

/// Without creep, energy outranks the terrain: the pathing and placement
/// values do not change the colour.
pub proof fn lemma_energy_overrides(
    style: MapConfig,
    energy: u8,
    height: u8,
    pathing1: u8,
    placement1: u8,
    pathing2: u8,
    placement2: u8,
)
    requires
        energy > 0,
    ensures
        blended(style, pathing1, placement1, 0, energy, height) == blended(
            style,
            pathing2,
            placement2,
            0,
            energy,
            height,
        ),
{
}

} // verus!
