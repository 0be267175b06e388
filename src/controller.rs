//! What the observer does with each decoded response: a game-info message
//! builds the static terrain and its colours, an observation refreshes the
//! creep overlay when it changed and synchronises the units.
use vstd::prelude::*;

use crate::style::{Color, MapConfig};
use crate::terrain::{
    decoded_cells, grid_ok, GridError, ImageData, TerrainLayer, TerrainLayerKind, TerrainLayers,
};
use crate::units::{
    despawns, seen_tags, spawned_tags, synced, upsert_effects, SyncEffect, UnitRecord, UnitRegistry,
    WorldFrame,
};

verus! {

/// The parts of a decoded response that the observer reads.
#[derive(Clone, Debug)]
pub enum GameMessage {
    GameInfo { pathing: ImageData, placement: ImageData, terrain_height: ImageData },
    Observation { units: Vec<UnitRecord>, creep: Option<ImageData> },
    /// A create-game acknowledgement or any other response.
    Other,
}

/// The terrain of the running game: its static grids (and the creep grid
/// last drawn), and whether the overlay has been drawn yet.
pub struct MapResource {
    pub static_layers: TerrainLayers,
    pub overlay_drawn: bool,
}

/// What the view has to apply after one message.
pub struct ObserverUpdate {
    /// The colour of every cell, row by row, when the map needs repainting.
    pub tiles: Option<Vec<Color>>,
    /// The registry changes of an observation.
    pub effects: Vec<SyncEffect>,
    /// A grid of the message that could not be decoded.
    pub grid_error: Option<GridError>,
}

/// Whether two optional grids hold the same cells.
pub open spec fn same_grid(a: Option<TerrainLayer>, b: Option<TerrainLayer>) -> bool {
    match (a, b) {
        (Some(x), Some(y)) => x.width == y.width && x.height == y.height && x.data@ == y.data@,
        (None, None) => true,
        _ => false,
    }
}

fn same_cells(a: &Option<TerrainLayer>, b: &Option<TerrainLayer>) -> (r: bool)
    ensures
        r == same_grid(*a, *b),
{
    let (x, y) = match a {
        Some(x) => match b {
            Some(y) => (x, y),
            None => return false,
        },
        None => return b.is_none(),
    };
    if x.width != y.width || x.height != y.height || x.data.len() != y.data.len() {
        return false;
    }
    let mut i: usize = 0;
    while i < x.data.len()
        invariant
            *a == Some(*x),
            *b == Some(*y),
            x.data@.len() == y.data@.len(),
            i <= x.data@.len(),
            forall|k: int| 0 <= k < i ==> x.data@[k] == y.data@[k],
        decreases x.data@.len() - i,
    {
        if x.data[i] != y.data[i] {
            assert(x.data@[i as int] != y.data@[i as int]);
            return false;
        }
        i = i + 1;
    }
    assert(x.data@ =~= y.data@);
    true
}

/// The observer: the terrain once a game is known, the unit registry, and
/// the style that colours the terrain and places the units.
pub struct Observer {
    pub map: Option<MapResource>,
    pub registry: UnitRegistry,
    pub style: MapConfig,
}

impl Observer {
    pub open spec fn wf(&self) -> bool {
        &&& self.registry.wf()
        &&& (self.map matches Some(m) ==> m.static_layers.wf() && m.static_layers.pathing is Some)
    }

    /// The frame that unit positions are placed in: the style's tile size
    /// over the extent of the known map, or of an empty map before any.
    pub open spec fn frame(&self) -> WorldFrame {
        let dims = match self.map {
            Some(m) => m.static_layers.dimensions(),
            None => (0u32, 0u32),
        };
        WorldFrame { tile_size: self.style.tile_size, map_width: dims.0, map_height: dims.1 }
    }

    pub fn new(style: MapConfig) -> (r: Self)
        ensures
            r.wf(),
            r.map is None,
            r.style == style,
            r.registry.entities().len() == 0,
    {
        Observer { map: None, registry: UnitRegistry::new(), style }
    }

    fn colors_of(layers: &TerrainLayers, style: &MapConfig) -> (r: Option<Vec<Color>>)
        ensures
            match r {
                Some(c) => c@.len() == layers.dimensions().0 * layers.dimensions().1
                    && (forall|y: u32, x: u32| #![trigger layers.tile_color(*style, x, y)]
                    x < layers.dimensions().0 && y < layers.dimensions().1 ==> c@[y * layers.dimensions().0 + x]
                        == layers.tile_color(*style, x, y)),
                None => layers.dimensions().0 * layers.dimensions().1 > usize::MAX,
            },
    {
        let (w, h) = layers.get_dimensions();
        assert(w * h <= u32::MAX * u32::MAX) by (nonlinear_arith)
            requires w <= u32::MAX, h <= u32::MAX;
        if w as u64 * h as u64 > usize::MAX as u64 {
            None
        } else {
            Some(layers.tile_colors(style))
        }
    }

    /// Starts a game's map from its three static grids; every cell is
    /// coloured. A grid that cannot be decoded leaves the observer as it was.
    pub fn on_game_info(&mut self, pathing: &ImageData, placement: &ImageData, terrain_height: &ImageData) -> (r: ObserverUpdate)
        requires
            old(self).wf(),
        ensures
            final(self).wf(),
            final(self).registry.entities() == old(self).registry.entities(),
            final(self).style == old(self).style,
            r.effects@.len() == 0,
            r.grid_error is None <==> grid_ok(*pathing) && grid_ok(*placement) && grid_ok(*terrain_height),
            match r.grid_error {
                Some(_) => r.tiles is None && final(self).map == old(self).map,
                None => (final(self).map matches Some(m) && {
                    &&& m.static_layers.pathing matches Some(l) && l.kind == TerrainLayerKind::Pathing && l.width == pathing.width && l.height == pathing.height
                        && l.data@ == decoded_cells(*pathing)
                    &&& m.static_layers.placement matches Some(l) && l.kind == TerrainLayerKind::Placement && l.width == placement.width && l.height == placement.height
                        && l.data@ == decoded_cells(*placement)
                    &&& m.static_layers.height matches Some(l) && l.kind == TerrainLayerKind::Height && l.width == terrain_height.width && l.height == terrain_height.height
                        && l.data@ == decoded_cells(*terrain_height)
                    &&& m.static_layers.creep is None
                    &&& m.static_layers.energy is None
                    &&& !m.overlay_drawn
                    &&& match r.tiles {
                        Some(c) => c@.len() == m.static_layers.dimensions().0 * m.static_layers.dimensions().1
                            && forall|y: u32, x: u32| #![trigger m.static_layers.tile_color(final(self).style, x, y)]
                            x < m.static_layers.dimensions().0 && y < m.static_layers.dimensions().1 ==> c@[y * m.static_layers.dimensions().0 + x]
                                == m.static_layers.tile_color(final(self).style, x, y),
                        None => m.static_layers.dimensions().0 * m.static_layers.dimensions().1 > usize::MAX,
                    }
                }),
            },
    {
        let path_layer = match TerrainLayer::from_image_data(pathing, TerrainLayerKind::Pathing) {
            Ok(l) => l,
            Err(e) => return ObserverUpdate { tiles: None, effects: Vec::new(), grid_error: Some(e) },
        };
        let placement_layer = match TerrainLayer::from_image_data(placement, TerrainLayerKind::Placement) {
            Ok(l) => l,
            Err(e) => return ObserverUpdate { tiles: None, effects: Vec::new(), grid_error: Some(e) },
        };
        let height_layer = match TerrainLayer::from_image_data(terrain_height, TerrainLayerKind::Height) {
            Ok(l) => l,
            Err(e) => return ObserverUpdate { tiles: None, effects: Vec::new(), grid_error: Some(e) },
        };
        let mut layers = TerrainLayers::new();
        assert(layers.slot(TerrainLayerKind::Creep) is None);
        assert(layers.slot(TerrainLayerKind::Energy) is None);
        layers.add_layer(path_layer);
        layers.add_layer(placement_layer);
        layers.add_layer(height_layer);
        assert(layers.slot(TerrainLayerKind::Pathing) == Some(path_layer));
        assert(layers.slot(TerrainLayerKind::Placement) == Some(placement_layer));
        assert(layers.slot(TerrainLayerKind::Creep) is None);
        assert(layers.slot(TerrainLayerKind::Energy) is None);
        let tiles = Self::colors_of(&layers, &self.style);
        self.map = Some(MapResource { static_layers: layers, overlay_drawn: false });
        ObserverUpdate { tiles, effects: Vec::new(), grid_error: None }
    }

    /// Handles one tick's observation. With a map known, a creep grid that
    /// differs from the one drawn last (or the first one) replaces it and
    /// every cell is recoloured. Then the units are synchronised.
    pub fn on_observation(&mut self, units: &[UnitRecord], creep: &Option<ImageData>) -> (r: ObserverUpdate)
        requires
            old(self).wf(),
        ensures
            final(self).wf(),
            final(self).style == old(self).style,
            final(self).registry.entities() == synced(old(self).registry.entities(), units@, old(self).frame()),
            r.effects@ == upsert_effects(old(self).registry.entities(), units@, old(self).frame()) + despawns(
                old(self).registry.tag_order() + spawned_tags(old(self).registry.entities(), units@, old(self).frame()),
                seen_tags(units@),
            ),
            old(self).map is None ==> final(self).map is None && r.tiles is None && r.grid_error is None,
            r.grid_error is Some <==> (old(self).map is Some && (*creep matches Some(img) && !grid_ok(img))),
            r.grid_error is Some ==> r.tiles is None,
            (old(self).map matches Some(m0) && !m0.overlay_drawn && r.grid_error is None
                && m0.static_layers.dimensions().0 * m0.static_layers.dimensions().1 <= usize::MAX) ==> r.tiles is Some,
            r.tiles matches Some(c) ==> (final(self).map matches Some(m) && {
                &&& m.overlay_drawn
                &&& old(self).map matches Some(m0) && m.static_layers.dimensions() == m0.static_layers.dimensions()
                &&& c@.len() == m.static_layers.dimensions().0 * m.static_layers.dimensions().1
                &&& forall|y: u32, x: u32| #![trigger m.static_layers.tile_color(final(self).style, x, y)]
                    x < m.static_layers.dimensions().0 && y < m.static_layers.dimensions().1 ==> c@[y * m.static_layers.dimensions().0 + x]
                        == m.static_layers.tile_color(final(self).style, x, y)
            }),
    {
        let mut tiles: Option<Vec<Color>> = None;
        let mut grid_error: Option<GridError> = None;
        let frame = match &self.map {
            Some(m) => {
                let (w, h) = m.static_layers.get_dimensions();
                WorldFrame { tile_size: self.style.tile_size, map_width: w, map_height: h }
            },
            None => WorldFrame { tile_size: self.style.tile_size, map_width: 0, map_height: 0 },
        };
        let style = self.style;
        match &mut self.map {
            Some(m) => {
                let new_creep = match creep {
                    Some(img) => match TerrainLayer::from_image_data(img, TerrainLayerKind::Creep) {
                        Ok(l) => Some(l),
                        Err(e) => {
                            grid_error = Some(e);
                            None
                        },
                    },
                    None => None,
                };
                if grid_error.is_none() && (!m.overlay_drawn || !same_cells(&new_creep, &m.static_layers.creep)) {
                    m.static_layers.creep = new_creep;
                    m.overlay_drawn = true;
                    tiles = Self::colors_of(&m.static_layers, &style);
                }
            },
            None => {},
        }
        let effects = self.registry.handle_observation(units, &frame);
        ObserverUpdate { tiles, effects, grid_error }
    }

    /// Dispatches a message to the handler of its kind.
    pub fn on_message(&mut self, msg: &GameMessage) -> (r: ObserverUpdate)
        requires
            old(self).wf(),
        ensures
            final(self).wf(),
            final(self).style == old(self).style,
            match msg {
                GameMessage::Observation { units, .. } => final(self).registry.entities() == synced(
                    old(self).registry.entities(),
                    units@,
                    old(self).frame(),
                ),
                _ => final(self).registry.entities() == old(self).registry.entities(),
            },
            msg is Other ==> final(self).map == old(self).map && r.tiles is None && r.effects@.len() == 0,
    {
        match msg {
            GameMessage::GameInfo { pathing, placement, terrain_height } => self.on_game_info(pathing, placement, terrain_height),
            GameMessage::Observation { units, creep } => self.on_observation(units.as_slice(), creep),
            GameMessage::Other => ObserverUpdate { tiles: None, effects: Vec::new(), grid_error: None },
        }
    }
}

} // verus!
