use shadowcast::geometry::Point;
use shadowcast::scene::setup;
use shadowcast::scene::Tile;
use shadowcast::scene::TILE_SIZE;
use shadowcast::scene::TILE_SPACING;
use shadowcast::shadow_material::ShadowMaterial;

#[test]
fn field_has_ten_by_ten_tiles() {
    let tiles = setup(4, 9);
    assert_eq!(tiles.len(), 100);
    assert_eq!(TILE_SIZE, 150);
    assert_eq!(TILE_SPACING, 160);
    let material = ShadowMaterial { texture: 4, shadow_map: 9 };
    assert!(tiles.iter().all(|t| t.size == 150 && t.material == material));
}

#[test]
fn tiles_run_column_by_column() {
    let tiles = setup(0, 1);
    let material = ShadowMaterial { texture: 0, shadow_map: 1 };
    assert_eq!(tiles[0], Tile { position: Point::new(-800, -800), size: 150, material });
    assert_eq!(tiles[1].position, Point::new(-800, -640));
    assert_eq!(tiles[9].position, Point::new(-800, 640));
    assert_eq!(tiles[10].position, Point::new(-640, -800));
    assert_eq!(tiles[55].position, Point::new(0, 0));
    assert_eq!(tiles[99].position, Point::new(640, 640));
    let mut expected = Vec::new();
    for i in -5..5i32 {
        for j in -5..5i32 {
            expected.push(Point::new(160 * i, 160 * j));
        }
    }
    let got: Vec<Point> = tiles.iter().map(|t| t.position).collect();
    assert_eq!(got, expected);
}
