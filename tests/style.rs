use aiurgaze::style::{blend_tile_color, Color, MapConfig, Rgb};
use aiurgaze::terrain::{ImageData, TerrainLayer, TerrainLayerKind, TerrainLayers};

fn style() -> MapConfig {
    MapConfig::default()
}

#[test]
fn creep_overrides_everything() {
    let s = style();
    let a = blend_tile_color(0, 0, 1, 0, 255, &s);
    let b = blend_tile_color(255, 255, 7, 200, 255, &s);
    assert_eq!(a, Color { red: 102, green: 26, blue: 128, alpha: 255 });
    assert_eq!(a, b);
}

#[test]
fn energy_overrides_terrain_without_creep() {
    let s = style();
    let a = blend_tile_color(255, 0, 0, 3, 255, &s);
    let b = blend_tile_color(0, 255, 0, 3, 255, &s);
    assert_eq!(a, Color { red: 26, green: 77, blue: 153, alpha: 255 });
    assert_eq!(a, b);
}

#[test]
fn terrain_colours_follow_the_pair() {
    let s = style();
    assert_eq!(blend_tile_color(0, 0, 0, 0, 255, &s), Color { red: 13, green: 13, blue: 13, alpha: 255 });
    assert_eq!(blend_tile_color(1, 0, 0, 0, 255, &s), Color { red: 31, green: 31, blue: 33, alpha: 255 });
    assert_eq!(blend_tile_color(0, 1, 0, 0, 255, &s), Color { red: 46, green: 46, blue: 51, alpha: 255 });
    assert_eq!(blend_tile_color(9, 9, 0, 0, 255, &s), Color { red: 56, green: 56, blue: 61, alpha: 255 });
}

#[test]
fn height_scales_channels() {
    let s = style();
    assert_eq!(blend_tile_color(0, 0, 1, 0, 0, &s), Color { red: 61, green: 15, blue: 76, alpha: 255 });
    assert_eq!(blend_tile_color(0, 0, 1, 0, 128, &s), Color { red: 81, green: 20, blue: 102, alpha: 255 });
}

#[test]
fn intensity_keeps_alpha_and_saturates() {
    let mut s = style();
    s.height_intensity_min = 2000;
    s.height_intensity_max = 2000;
    let c = s.apply_height_intensity(Color { red: 200, green: 100, blue: 0, alpha: 7 }, 50);
    assert_eq!(c, Color { red: 255, green: 200, blue: 0, alpha: 7 });
}

#[test]
fn config_colours() {
    let s = MapConfig { creep: Rgb { red: 1, green: 2, blue: 3 }, ..style() };
    assert_eq!(s.get_creep_color(), Color { red: 1, green: 2, blue: 3, alpha: 255 });
    assert_eq!(s.get_energy_color(), Color { red: 26, green: 77, blue: 153, alpha: 255 });
    assert_eq!(s.get_terrain_color(true, false), Color { red: 31, green: 31, blue: 33, alpha: 255 });
}

#[test]
fn tile_colours_cover_the_map_row_by_row() {
    let mut layers = TerrainLayers::new();
    let img = ImageData { bits_per_pixel: 1, width: 2, height: 2, data: vec![0b1000_0000] };
    layers.add_layer(TerrainLayer::from_image_data(&img, TerrainLayerKind::Pathing).unwrap());
    let s = style();
    let colors = layers.tile_colors(&s);
    assert_eq!(colors.len(), 4);
    assert_eq!(colors[0], blend_tile_color(255, 0, 0, 0, 128, &s));
    assert_eq!(colors[1], blend_tile_color(0, 0, 0, 0, 128, &s));
    assert_eq!(colors[3], blend_tile_color(0, 0, 0, 0, 128, &s));
    assert_ne!(colors[0], colors[1]);
}
