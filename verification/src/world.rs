use vstd::prelude::*;

use crate::text::same_text;

verus! {

/// A tile layer read from a map file: its name and, row by row, the local
/// tile id placed on each cell (none where the cell is empty).
pub struct TileLayerData {
    pub name: String,
    pub tiles: Vec<Option<u32>>,
}

/// The layers the game draws and checks: "Ground", "Collision" (drawn as
/// obstacles) and "Canopy"; other layers are ignored.
pub open spec fn is_map_layer(name: Seq<char>) -> bool {
    name == "Ground"@ || name == "Collision"@ || name == "Canopy"@
}

/// The tile shown on cell `c` of the layers named `name`: a later layer's
/// tile covers an earlier one's.
pub open spec fn layer_cell(layers: Seq<TileLayerData>, name: Seq<char>, c: int) -> Option<u32>
    decreases layers.len(),
{
    if layers.len() == 0 {
        None
    } else if layers.last().name@ == name && layers.last().tiles@[c] is Some {
        layers.last().tiles@[c]
    } else {
        layer_cell(layers.drop_last(), name, c)
    }
}

spec fn distinct_layer_names() -> bool {
    &&& "Ground"@ != "Collision"@
    &&& "Ground"@ != "Canopy"@
    &&& "Collision"@ != "Canopy"@
}

/// Cell `c` blocks movement: some drawn layer has a tile there that sits on
/// the "Collision" layer or is marked collidable.
pub open spec fn collision_cell(layers: Seq<TileLayerData>, collidable: Seq<u32>, c: int) -> bool
    decreases layers.len(),
{
    if layers.len() == 0 {
        false
    } else {
        let l = layers.last();
        collision_cell(layers.drop_last(), collidable, c) || (is_map_layer(l.name@) && l.tiles@[c] is Some
            && (l.name@ == "Collision"@ || collidable.contains(l.tiles@[c]->0)))
    }
}

/// Cell `c` can trigger wild encounters: some "Ground" layer has a tile
/// there that is marked as an encounter zone.
pub open spec fn encounter_cell(layers: Seq<TileLayerData>, encounter: Seq<u32>, c: int) -> bool
    decreases layers.len(),
{
    if layers.len() == 0 {
        false
    } else {
        let l = layers.last();
        encounter_cell(layers.drop_last(), encounter, c) || (l.name@ == "Ground"@ && l.tiles@[c] is Some
            && encounter.contains(l.tiles@[c]->0))
    }
}

/// Adding layer `i` to the first `i` layers changes cell `c` only by that layer's tile.
proof fn lemma_add_layer(layers: Seq<TileLayerData>, i: int, collidable: Seq<u32>, encounter: Seq<u32>, c: int)
    requires
        0 <= i < layers.len(),
    ensures
        forall|name: Seq<char>| #[trigger] layer_cell(layers.take(i + 1), name, c) == (
            if layers[i].name@ == name && layers[i].tiles@[c] is Some {
                layers[i].tiles@[c]
            } else {
                layer_cell(layers.take(i), name, c)
            }),
        collision_cell(layers.take(i + 1), collidable, c) == (collision_cell(layers.take(i), collidable, c) || (
            is_map_layer(layers[i].name@) && layers[i].tiles@[c] is Some && (layers[i].name@ == "Collision"@
                || collidable.contains(layers[i].tiles@[c]->0)))),
        encounter_cell(layers.take(i + 1), encounter, c) == (encounter_cell(layers.take(i), encounter, c) || (
            layers[i].name@ == "Ground"@ && layers[i].tiles@[c] is Some && encounter.contains(layers[i].tiles@[c]->0))),
{
    assert(layers.take(i + 1).drop_last() =~= layers.take(i));
    assert(layers.take(i + 1).last() == layers[i]);
}

/// Whether `ids` holds `id`.
pub fn contains_id(ids: &[u32], id: u32) -> (found: bool)
    ensures
        found == ids@.contains(id),
{
    let n = ids.len();
    let mut i: usize = 0;
    while i < n
        invariant
            n == ids@.len(),
            i <= n,
            forall|j: int| 0 <= j < i ==> ids@[j] != id,
        decreases n - i,
    {
        if ids[i] == id {
            assert(ids@[i as int] == id);
            return true;
        }
        i = i + 1;
    }
    false
}

/// A tile map: its size, the drawn layers and, per cell, whether it blocks
/// movement and whether it is an encounter zone.
pub struct GameMap {
    width: u32,
    height: u32,
    tile_size: u32,
    tileset_cols: u32,
    ground: Vec<Option<u32>>,
    obstacles: Vec<Option<u32>>,
    canopy: Vec<Option<u32>>,
    collision: Vec<bool>,
    encounter_tiles: Vec<bool>,
}

impl GameMap {
    /// Cell `(x, y)` is on the map (the size taken as `i32`).
    pub open spec fn in_bounds(self, x: i32, y: i32) -> bool {
        !(x < 0 || y < 0 || x >= (self.spec_width() as i32) || y >= (self.spec_height() as i32))
    }

    /// The index of cell `(x, y)` in the row-by-row order.
    pub open spec fn cell(self, x: int, y: int) -> int {
        y * self.spec_width() + x
    }

    pub closed spec fn spec_width(self) -> u32 {
        self.width
    }

    pub closed spec fn spec_height(self) -> u32 {
        self.height
    }

    pub closed spec fn spec_tile_size(self) -> u32 {
        self.tile_size
    }

    /// The map's width in tiles.
    pub fn width(&self) -> (w: u32)
        ensures
            w == self.spec_width(),
    {
        self.width
    }

    /// The map's height in tiles.
    pub fn height(&self) -> (h: u32)
        ensures
            h == self.spec_height(),
    {
        self.height
    }

    /// The size of a tile in pixels.
    pub fn tile_size(&self) -> (s: u32)
        ensures
            s == self.spec_tile_size(),
    {
        self.tile_size
    }

    /// The grids have one entry per cell.
    #[verifier::type_invariant]
    closed spec fn well_formed(self) -> bool {
        let n = self.width * self.height;
        &&& n <= u32::MAX
        &&& self.ground@.len() == n
        &&& self.obstacles@.len() == n
        &&& self.canopy@.len() == n
        &&& self.collision@.len() == n
        &&& self.encounter_tiles@.len() == n
    }

    /// Whether cell `c` (row by row) blocks movement.
    pub closed spec fn blocked(self, c: int) -> bool {
        self.collision@[c]
    }

    /// Whether cell `c` (row by row) is an encounter zone.
    pub closed spec fn encounter(self, c: int) -> bool {
        self.encounter_tiles@[c]
    }

    /// The tile of cell `c` on layer `layer` (0: ground, 1: obstacles, 2: canopy).
    pub closed spec fn tile(self, layer: int, c: int) -> Option<u32> {
        if layer == 0 {
            self.ground@[c]
        } else if layer == 1 {
            self.obstacles@[c]
        } else {
            self.canopy@[c]
        }
    }

    /// The number of tile columns of the tileset image.
    pub closed spec fn spec_tileset_cols(self) -> u32 {
        self.tileset_cols
    }

    /// Builds a map from its tile layers and the ids of the tileset's tiles
    /// marked collidable and encounter zone. A cell's drawn tile is the last
    /// layer's with a tile there; a cell blocks when some drawn layer's tile
    /// there is on "Collision" or collidable; it is an encounter zone when
    /// some "Ground" tile there is marked so.
    pub fn from_layers(
        width: u32,
        height: u32,
        tile_size: u32,
        tileset_cols: u32,
        layers: &[TileLayerData],
        collidable_ids: &[u32],
        encounter_ids: &[u32],
    ) -> (map: GameMap)
        requires
            width * height <= u32::MAX,
            forall|i: int| 0 <= i < layers@.len() ==> #[trigger] layers@[i].tiles@.len() == width * height,
        ensures
            map.spec_width() == width,
            map.spec_height() == height,
            map.spec_tile_size() == tile_size,
            map.spec_tileset_cols() == tileset_cols,
            forall|c: int|
                0 <= c < width * height ==> {
                    &&& #[trigger] map.tile(0, c) == layer_cell(layers@, "Ground"@, c)
                    &&& map.tile(1, c) == layer_cell(layers@, "Collision"@, c)
                    &&& map.tile(2, c) == layer_cell(layers@, "Canopy"@, c)
                    &&& map.blocked(c) == collision_cell(layers@, collidable_ids@, c)
                    &&& map.encounter(c) == encounter_cell(layers@, encounter_ids@, c)
                },
    {
        proof {
            reveal_strlit("Ground");
            reveal_strlit("Collision");
            reveal_strlit("Canopy");
            assert("Ground"@.len() != "Collision"@.len());
            assert("Canopy"@.len() != "Collision"@.len());
            assert("Ground"@[0] != "Canopy"@[0]);
            assert(distinct_layer_names());
        }
        let n = (width * height) as usize;
        let mut ground: Vec<Option<u32>> = Vec::new();
        let mut obstacles: Vec<Option<u32>> = Vec::new();
        let mut canopy: Vec<Option<u32>> = Vec::new();
        let mut collision: Vec<bool> = Vec::new();
        let mut encounter_tiles: Vec<bool> = Vec::new();
        let mut c: usize = 0;
        while c < n
            invariant
                c <= n,
                n == width * height,
                ground@.len() == c,
                obstacles@.len() == c,
                canopy@.len() == c,
                collision@.len() == c,
                encounter_tiles@.len() == c,
                forall|j: int| 0 <= j < c ==> ground@[j] is None && obstacles@[j] is None && canopy@[j] is None,
                forall|j: int| 0 <= j < c ==> !collision@[j] && !encounter_tiles@[j],
            decreases n - c,
        {
            ground.push(None);
            obstacles.push(None);
            canopy.push(None);
            collision.push(false);
            encounter_tiles.push(false);
            c = c + 1;
        }

        let n_layers = layers.len();
        let mut i: usize = 0;
        while i < n_layers
            invariant
                i <= n_layers,
                n_layers == layers@.len(),
                distinct_layer_names(),
                n == width * height,
                forall|k: int| 0 <= k < layers@.len() ==> #[trigger] layers@[k].tiles@.len() == n,
                ground@.len() == n,
                obstacles@.len() == n,
                canopy@.len() == n,
                collision@.len() == n,
                encounter_tiles@.len() == n,
                forall|j: int| 0 <= j < n ==> #[trigger] ground@[j] == layer_cell(layers@.take(i as int), "Ground"@, j),
                forall|j: int| 0 <= j < n ==> #[trigger] obstacles@[j] == layer_cell(layers@.take(i as int), "Collision"@, j),
                forall|j: int| 0 <= j < n ==> #[trigger] canopy@[j] == layer_cell(layers@.take(i as int), "Canopy"@, j),
                forall|j: int| 0 <= j < n ==> #[trigger] collision@[j] == collision_cell(layers@.take(i as int), collidable_ids@, j),
                forall|j: int| 0 <= j < n ==> #[trigger] encounter_tiles@[j] == encounter_cell(layers@.take(i as int), encounter_ids@, j),
            decreases n_layers - i,
        {
            let layer = &layers[i];
            let is_ground = same_text(layer.name.as_str(), "Ground");
            let is_collision = same_text(layer.name.as_str(), "Collision");
            let is_canopy = same_text(layer.name.as_str(), "Canopy");
            proof {
                assert(layers@.take(i + 1).drop_last() =~= layers@.take(i as int));
                assert(layers@.take(i + 1).last() == layers@[i as int]);
            }
            if is_ground || is_collision || is_canopy {
                let mut c: usize = 0;
                while c < n
                    invariant
                        c <= n,
                        n == width * height,
                        distinct_layer_names(),
                        i < layers@.len(),
                        layer == &layers@[i as int],
                        layer.tiles@.len() == n,
                        is_ground == (layer.name@ == "Ground"@),
                        is_collision == (layer.name@ == "Collision"@),
                        is_canopy == (layer.name@ == "Canopy"@),
                        is_ground || is_collision || is_canopy,
                        layers@.take(i + 1).drop_last() == layers@.take(i as int),
                        layers@.take(i + 1).last() == layers@[i as int],
                        ground@.len() == n,
                        obstacles@.len() == n,
                        canopy@.len() == n,
                        collision@.len() == n,
                        encounter_tiles@.len() == n,
                        forall|j: int| 0 <= j < c ==> #[trigger] ground@[j] == layer_cell(layers@.take(i + 1), "Ground"@, j),
                        forall|j: int| 0 <= j < c ==> #[trigger] obstacles@[j] == layer_cell(layers@.take(i + 1), "Collision"@, j),
                        forall|j: int| 0 <= j < c ==> #[trigger] canopy@[j] == layer_cell(layers@.take(i + 1), "Canopy"@, j),
                        forall|j: int| 0 <= j < c ==> #[trigger] collision@[j] == collision_cell(layers@.take(i + 1), collidable_ids@, j),
                        forall|j: int| 0 <= j < c ==> #[trigger] encounter_tiles@[j] == encounter_cell(layers@.take(i + 1), encounter_ids@, j),
                        forall|j: int| c <= j < n ==> #[trigger] ground@[j] == layer_cell(layers@.take(i as int), "Ground"@, j),
                        forall|j: int| c <= j < n ==> #[trigger] obstacles@[j] == layer_cell(layers@.take(i as int), "Collision"@, j),
                        forall|j: int| c <= j < n ==> #[trigger] canopy@[j] == layer_cell(layers@.take(i as int), "Canopy"@, j),
                        forall|j: int| c <= j < n ==> #[trigger] collision@[j] == collision_cell(layers@.take(i as int), collidable_ids@, j),
                        forall|j: int| c <= j < n ==> #[trigger] encounter_tiles@[j] == encounter_cell(layers@.take(i as int), encounter_ids@, j),
                    decreases n - c,
                {
                    let ghost g0 = ground@;
                    let ghost o0 = obstacles@;
                    let ghost k0 = canopy@;
                    let ghost col0 = collision@;
                    let ghost enc0 = encounter_tiles@;
                    proof {
                        lemma_add_layer(layers@, i as int, collidable_ids@, encounter_ids@, c as int);
                    }
                    if let Some(local_id) = layer.tiles[c] {
                        if is_ground {
                            ground.set(c, Some(local_id));
                        } else if is_collision {
                            obstacles.set(c, Some(local_id));
                        } else {
                            canopy.set(c, Some(local_id));
                        }
                        if is_collision || contains_id(collidable_ids, local_id) {
                            collision.set(c, true);
                        }
                        if is_ground && contains_id(encounter_ids, local_id) {
                            encounter_tiles.set(c, true);
                        }
                    }
                    proof {
                        assert(forall|j: int| 0 <= j < n && j != c ==> ground@[j] == g0[j] && obstacles@[j] == o0[j]
                            && canopy@[j] == k0[j] && collision@[j] == col0[j] && encounter_tiles@[j] == enc0[j]);
                        let ci = c as int;
                        assert(ground@[ci] == layer_cell(layers@.take(i + 1), "Ground"@, ci));
                        assert(obstacles@[ci] == layer_cell(layers@.take(i + 1), "Collision"@, ci));
                        assert(canopy@[ci] == layer_cell(layers@.take(i + 1), "Canopy"@, ci));
                        assert(collision@[ci] == collision_cell(layers@.take(i + 1), collidable_ids@, ci));
                        assert(encounter_tiles@[ci] == encounter_cell(layers@.take(i + 1), encounter_ids@, ci));
                    }
                    c = c + 1;
                }
            } else {
                assert forall|j: int| 0 <= j < n implies {
                    &&& #[trigger] ground@[j] == layer_cell(layers@.take(i + 1), "Ground"@, j)
                    &&& obstacles@[j] == layer_cell(layers@.take(i + 1), "Collision"@, j)
                    &&& canopy@[j] == layer_cell(layers@.take(i + 1), "Canopy"@, j)
                    &&& collision@[j] == collision_cell(layers@.take(i + 1), collidable_ids@, j)
                    &&& encounter_tiles@[j] == encounter_cell(layers@.take(i + 1), encounter_ids@, j)
                } by {
                    lemma_add_layer(layers@, i as int, collidable_ids@, encounter_ids@, j);
                }
            }
            i = i + 1;
        }
        assert(layers@.take(n_layers as int) =~= layers@);
        GameMap { width, height, tile_size, tileset_cols, ground, obstacles, canopy, collision, encounter_tiles }
    }

    /// The number of tile columns of the tileset image.
    pub fn tileset_cols(&self) -> (cols: u32)
        ensures
            cols == self.spec_tileset_cols(),
    {
        self.tileset_cols
    }

    /// The tile drawn on cell `(x, y)` of layer `layer` (0: ground, 1: obstacles, 2: canopy).
    pub fn tile_at(&self, layer: usize, x: u32, y: u32) -> (t: Option<u32>)
        requires
            layer < 3,
            x < self.spec_width(),
            y < self.spec_height(),
        ensures
            t == self.tile(layer as int, self.cell(x as int, y as int)),
    {
        proof {
            use_type_invariant(self);
            vstd::arithmetic::mul::lemma_mul_inequality(y as int + 1, self.height as int, self.width as int);
            assert((y as int + 1) * self.width == y * self.width + self.width) by (nonlinear_arith);
            assert(self.height * self.width == self.width * self.height) by (nonlinear_arith);
        }
        let c = (y as usize) * (self.width as usize) + (x as usize);
        if layer == 0 {
            self.ground[c]
        } else if layer == 1 {
            self.obstacles[c]
        } else {
            self.canopy[c]
        }
    }

    /// Cell `(x, y)` is on the map and does not block movement.
    pub fn is_walkable(&self, tile_x: i32, tile_y: i32) -> (walkable: bool)
        ensures
            walkable == (self.in_bounds(tile_x, tile_y) && !self.blocked(self.cell(tile_x as int, tile_y as int))),
    {
        if tile_x < 0 || tile_y < 0 || tile_x >= self.width as i32 || tile_y >= self.height as i32 {
            return false;
        }
        let c = self.cell_index(tile_x, tile_y);
        !self.collision[c]
    }

    /// Cell `(x, y)` is on the map and is an encounter zone.
    pub fn is_encounter_tile(&self, tile_x: i32, tile_y: i32) -> (zone: bool)
        ensures
            zone == (self.in_bounds(tile_x, tile_y) && self.encounter(self.cell(tile_x as int, tile_y as int))),
    {
        if tile_x < 0 || tile_y < 0 || tile_x >= self.width as i32 || tile_y >= self.height as i32 {
            return false;
        }
        let c = self.cell_index(tile_x, tile_y);
        self.encounter_tiles[c]
    }

    fn cell_index(&self, tile_x: i32, tile_y: i32) -> (c: usize)
        requires
            self.in_bounds(tile_x, tile_y),
        ensures
            c == self.cell(tile_x as int, tile_y as int),
            c < self.collision@.len(),
            c < self.encounter_tiles@.len(),
    {
        proof {
            use_type_invariant(self);
        }
        let x = tile_x as u32;
        let y = tile_y as u32;
        assert(x < self.width && y < self.height) by {
            let w = self.width;
            let h = self.height;
            assert(w as i32 >= 0 ==> w as i32 == w) by (bit_vector);
            assert(h as i32 >= 0 ==> h as i32 == h) by (bit_vector);
        }
        proof {
            vstd::arithmetic::mul::lemma_mul_inequality(y as int + 1, self.height as int, self.width as int);
            assert((y as int + 1) * self.width == y * self.width + self.width) by (nonlinear_arith);
            assert(self.height * self.width == self.width * self.height) by (nonlinear_arith);
        }
        (y as usize) * (self.width as usize) + (x as usize)
    }
}

} // verus!
