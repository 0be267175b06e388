use aiurgaze::controller::{GameMessage, Observer};
use aiurgaze::style::{blend_tile_color, MapConfig};
use aiurgaze::terrain::ImageData;
use aiurgaze::units::{Point, SyncEffect, UnitRecord};

fn grid(bits: i32, width: u32, height: u32, data: Vec<u8>) -> ImageData {
    ImageData { bits_per_pixel: bits, width, height, data }
}

fn unit(tag: u64) -> UnitRecord {
    UnitRecord {
        tag: Some(tag),
        unit_type: Some(41),
        pos: Some(Point { x: 1000, y: 0 }),
        health: Some(50_000),
        health_max: Some(100_000),
        shield: None,
        shield_max: None,
        build_progress: Some(1000),
        alliance: None,
        first_order_ability: Some(16),
    }
}

#[test]
fn game_info_then_observations() {
    let style = MapConfig::default();
    let mut obs = Observer::new(style);
    let info = GameMessage::GameInfo {
        pathing: grid(1, 4, 1, vec![0b1010_0000]),
        placement: grid(1, 4, 1, vec![0]),
        terrain_height: grid(8, 4, 1, vec![0, 0, 255, 255]),
    };
    let up = obs.on_message(&info);
    let tiles = up.tiles.unwrap();
    assert_eq!(tiles.len(), 4);
    assert_eq!(tiles[0], blend_tile_color(255, 0, 0, 0, 0, &style));
    assert_eq!(tiles[3], blend_tile_color(0, 0, 0, 0, 255, &style));

    let creep = grid(8, 4, 1, vec![0, 1, 0, 0]);
    let up = obs.on_message(&GameMessage::Observation { units: vec![unit(7)], creep: Some(creep.clone()) });
    assert_eq!(up.effects, vec![SyncEffect::Spawned(7)]);
    let tiles = up.tiles.unwrap();
    assert_eq!(tiles[1], blend_tile_color(0, 0, 1, 0, 0, &style));
    assert_eq!(obs.registry.get(7).unwrap().world_x, (1000 - 4 * 500) * 16);

    let up = obs.on_message(&GameMessage::Observation { units: vec![], creep: Some(creep) });
    assert!(up.tiles.is_none());
    assert_eq!(up.effects, vec![SyncEffect::Despawned(7)]);
    assert!(obs.registry.get(7).is_none());
}

#[test]
fn bad_grid_is_reported() {
    let mut obs = Observer::new(MapConfig::default());
    let info = GameMessage::GameInfo {
        pathing: grid(2, 4, 1, vec![0]),
        placement: grid(1, 4, 1, vec![0]),
        terrain_height: grid(8, 4, 1, vec![0, 0, 0, 0]),
    };
    let up = obs.on_message(&info);
    assert!(up.grid_error.is_some());
    assert!(obs.map.is_none());
    let up = obs.on_message(&GameMessage::Other);
    assert!(up.tiles.is_none() && up.effects.is_empty());
}
