use aiurgaze::terrain::{unpack_bits, GridError, ImageData, TerrainLayer, TerrainLayerKind, TerrainLayers};

fn pack(bits: &[bool]) -> Vec<u8> {
    bits.chunks(8)
        .map(|c| c.iter().enumerate().fold(0u8, |acc, (i, &b)| if b { acc | (1 << (7 - i)) } else { acc }))
        .collect()
}

fn image(bits: i32, width: u32, height: u32, data: Vec<u8>) -> ImageData {
    ImageData { bits_per_pixel: bits, width, height, data }
}

#[test]
fn unpack_reads_most_significant_bit_first() {
    let bits = unpack_bits(&[0b1011_0000]);
    assert_eq!(bits, vec![true, false, true, true, false, false, false, false]);
}

#[test]
fn unpack_of_pack_round_trips() {
    let bits: Vec<bool> = (0..24).map(|i| (i * 7 + 3) % 5 < 2).collect();
    assert_eq!(unpack_bits(&pack(&bits)), bits);
}

#[test]
fn one_bit_pattern_widens_to_bytes() {
    let layer = TerrainLayer::from_image_data(&image(1, 8, 1, vec![0b1011_0000]), TerrainLayerKind::Pathing).unwrap();
    assert_eq!(layer.data, vec![255, 0, 255, 255, 0, 0, 0, 0]);
}

#[test]
fn game_info_pathing_grid_scenario() {
    let layer = TerrainLayer::from_image_data(&image(1, 4, 1, vec![0b1010_0000]), TerrainLayerKind::Pathing).unwrap();
    assert_eq!(layer.data, vec![255, 0, 255, 0]);
    let mut layers = TerrainLayers::new();
    layers.add_layer(layer);
    assert_eq!(layers.get_dimensions(), (4, 1));
}

#[test]
fn one_bit_payload_too_short_is_refused() {
    let r = TerrainLayer::from_image_data(&image(1, 4, 3, vec![0xff]), TerrainLayerKind::Placement);
    assert_eq!(r.unwrap_err(), GridError::SizeMismatch { expected: 12, actual: 1 });
}

#[test]
fn eight_bit_payload_is_kept() {
    let layer = TerrainLayer::from_image_data(&image(8, 2, 2, vec![1, 2, 3, 4]), TerrainLayerKind::Height).unwrap();
    assert_eq!(layer.data, vec![1, 2, 3, 4]);
    assert_eq!(layer.kind(), TerrainLayerKind::Height);
    assert_eq!(layer.get_value(1, 1), 4);
    assert_eq!(layer.get_value(0, 1), 3);
}

#[test]
fn eight_bit_length_mismatch_is_refused() {
    let r = TerrainLayer::from_image_data(&image(8, 2, 2, vec![1, 2, 3]), TerrainLayerKind::Height);
    assert_eq!(r.unwrap_err(), GridError::SizeMismatch { expected: 4, actual: 3 });
}

#[test]
fn other_depths_are_refused() {
    let r = TerrainLayer::from_image_data(&image(4, 2, 2, vec![1, 2]), TerrainLayerKind::Creep);
    assert_eq!(r.unwrap_err(), GridError::UnsupportedDepth(4));
}

#[test]
fn get_value_outside_the_grid_is_zero() {
    let layer = TerrainLayer::from_image_data(&image(8, 2, 2, vec![9, 9, 9, 9]), TerrainLayerKind::Height).unwrap();
    assert_eq!(layer.get_value(2, 0), 0);
    assert_eq!(layer.get_value(0, 2), 0);
    assert_eq!(layer.get_value(u32::MAX, u32::MAX), 0);
    assert_eq!(layer.get_value(1, 0), 9);
}

#[test]
fn add_layer_replaces_by_kind() {
    let mut layers = TerrainLayers::new();
    assert_eq!(layers.get_dimensions(), (0, 0));
    layers.add_layer(TerrainLayer::from_image_data(&image(8, 3, 1, vec![1, 1, 1]), TerrainLayerKind::Creep).unwrap());
    assert_eq!(layers.get_dimensions(), (3, 1));
    layers.add_layer(TerrainLayer::from_image_data(&image(8, 1, 2, vec![5, 6]), TerrainLayerKind::Creep).unwrap());
    assert_eq!(layers.creep.as_ref().unwrap().data, vec![5, 6]);
    layers.add_layer(TerrainLayer::from_image_data(&image(8, 2, 1, vec![0, 0]), TerrainLayerKind::Pathing).unwrap());
    assert_eq!(layers.get_dimensions(), (2, 1));
}
