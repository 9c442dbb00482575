//! The objects of the world that the lights fall on.
//!
//! The scene is a square field of tiles around the world's origin. Every
//! tile wears the compositing material, so that each shows the light map
//! over its own texture.

use vstd::prelude::*;
use crate::geometry::Point;
use crate::shadow_material::ShadowMaterial;

verus! {

/// The edge length of a tile, in world units.
pub const TILE_SIZE: u32 = 150;

/// The distance from one tile to the next, in world units.
pub const TILE_SPACING: i32 = 160;

/// How many tiles lie along each side of the field.
pub const TILES_PER_SIDE: usize = 10;

/// The column and the row of the first tile, counted from the origin.
pub const FIRST_TILE: i32 = -5;

/// One object of the world: a square of `size` centred at `position`,
/// wearing `material`.
#[derive(Clone, Copy, Debug, PartialEq, Eq, Structural)]
pub struct Tile {
    pub position: Point,
    pub size: u32,
    pub material: ShadowMaterial,
}

/// Tile number `k` of the field: the tiles are counted column by column,
/// and within a column from the lowest row up.
pub open spec fn tile_at(k: int, material: ShadowMaterial) -> Tile {
    Tile {
        position: Point {
            x: (TILE_SPACING * (FIRST_TILE + k / (TILES_PER_SIDE as int))) as i32,
            y: (TILE_SPACING * (FIRST_TILE + k % (TILES_PER_SIDE as int))) as i32,
        },
        size: TILE_SIZE,
        material,
    }
}

/// The field of tiles, all with the material of the given texture and light
/// map.
pub open spec fn tile_field(material: ShadowMaterial) -> Seq<Tile> {
    Seq::new((TILES_PER_SIDE * TILES_PER_SIDE) as nat, |k: int| tile_at(k, material))
}

/// Lays out the objects of the world: ten columns of ten tiles around the
/// origin, each showing `texture` under the light map `shadow_map`.
pub fn setup(texture: u64, shadow_map: u64) -> (tiles: Vec<Tile>)
    ensures
        tiles@ == tile_field(ShadowMaterial { texture, shadow_map }),
{
    let material = ShadowMaterial::new(texture, shadow_map);
    let mut tiles: Vec<Tile> = Vec::new();
    let mut column: usize = 0;
    while column < TILES_PER_SIDE
        invariant
            0 <= column <= TILES_PER_SIDE,
            material == (ShadowMaterial { texture, shadow_map }),
            tiles@.len() == column * TILES_PER_SIDE,
            forall|k: int| 0 <= k < tiles@.len() ==> tiles@[k] == tile_at(k, material),
        decreases TILES_PER_SIDE - column,
    {
        let mut row: usize = 0;
        while row < TILES_PER_SIDE
            invariant
                0 <= column < TILES_PER_SIDE,
                0 <= row <= TILES_PER_SIDE,
                tiles@.len() == column * TILES_PER_SIDE + row,
                forall|k: int| 0 <= k < tiles@.len() ==> tiles@[k] == tile_at(k, material),
            decreases TILES_PER_SIDE - row,
        {
            let x: i32 = TILE_SPACING * (FIRST_TILE + column as i32);
            let y: i32 = TILE_SPACING * (FIRST_TILE + row as i32);
            tiles.push(Tile { position: Point { x, y }, size: TILE_SIZE, material });
            row = row + 1;
        }
        column = column + 1;
    }
    assert(tiles@ =~= tile_field(material));
    tiles
}

} // verus!
