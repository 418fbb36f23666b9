use parallax::{
    children_count_system, count_children, desired_children_count, desired_tile_count,
    reconcile_tile_count, Camera, Layer, LayerComponents, Scene, Sprite, Tile, Transform, Vec3,
    WindowSize, UNIT,
};

fn camera(width: u32) -> Camera {
    Camera {
        window: 0,
        transform: Transform::identity(),
        size: WindowSize { height: 576, width },
    }
}

fn layer(parent: usize, width: u32, material: u64) -> LayerComponents {
    LayerComponents {
        layer: Layer { speed: UNIT },
        parent,
        transform: Transform::identity(),
        material,
        sprite: Sprite { width, height: 576 },
    }
}

#[test]
fn test_desired_children_count() {
    let cases: Vec<(u32, u32, i64, u64)> =
        vec![(1024, 100, UNIT, 12), (1024, 1025, UNIT, 2), (1024, 800, UNIT, 3), (1024, 0, UNIT, 0)];
    for (screen, texture, scale, expected) in cases {
        let window = WindowSize { height: 576, width: screen };
        let transform = Transform { scale, ..Default::default() };
        let texture = Sprite { width: texture, height: window.height };
        assert_eq!(expected, desired_children_count(&window, &texture, &transform));
    }
}

#[test]
fn desired_children_count_follows_the_scale() {
    let window = WindowSize { height: 576, width: 1024 };
    let sprite = Sprite { width: 100, height: 576 };
    let doubled = Transform { scale: 2 * UNIT, ..Default::default() };
    assert_eq!(7, desired_children_count(&window, &sprite, &doubled));
    let flat = Transform { scale: 0, ..Default::default() };
    assert_eq!(0, desired_children_count(&window, &sprite, &flat));
    let mirrored = Transform { scale: -UNIT, ..Default::default() };
    assert_eq!(0, desired_children_count(&window, &sprite, &mirrored));
}

#[test]
fn desired_children_count_divides_by_the_width_as_it_is_scaled() {
    let narrow = WindowSize { height: 576, width: 9 };
    let sprite = Sprite { width: 3, height: 576 };
    let halved = Transform { scale: UNIT / 2, ..Default::default() };
    assert_eq!(8, desired_children_count(&narrow, &sprite, &halved));
    let half_more = Transform { scale: UNIT + UNIT / 2, ..Default::default() };
    assert_eq!(4, desired_children_count(&narrow, &sprite, &half_more));
    let window = WindowSize { height: 576, width: 1024 };
    let tenth = Transform { scale: 6554, ..Default::default() };
    assert_eq!(3415, desired_children_count(&window, &sprite, &tenth));
    let least = Transform { scale: 1, ..Default::default() };
    assert_eq!(22369623, desired_children_count(&window, &sprite, &least));
}

fn wide(pixels: i64) -> i128 {
    (pixels * UNIT) as i128
}

#[test]
fn desired_tile_count_is_the_quotient_and_two() {
    assert_eq!(12, desired_tile_count(1024, wide(100)));
    assert_eq!(2, desired_tile_count(1024, wide(1025)));
    assert_eq!(3, desired_tile_count(1024, wide(1024)));
    assert_eq!(1026, desired_tile_count(1024, wide(1)));
    assert_eq!(2, desired_tile_count(0, wide(1)));
    assert_eq!(4294967297, desired_tile_count(u32::MAX, wide(1)));
    assert_eq!(3, desired_tile_count(u32::MAX, wide(u32::MAX as i64)));
    for viewport in [0u32, 1, 99, 100, 101, 1024, 65535] {
        for tile in [1u32, 2, 3, 100, 1024, 70000] {
            assert_eq!((viewport / tile) as u64 + 2, desired_tile_count(viewport, wide(tile as i64)));
        }
    }
}

#[test]
fn desired_tile_count_of_a_width_that_is_no_whole_pixel() {
    assert_eq!(8, desired_tile_count(9, 98304));
    assert_eq!(4, desired_tile_count(9, 3 * 98304));
    assert_eq!(3, desired_tile_count(9, 9 * 65536 - 1));
    assert_eq!(2, desired_tile_count(9, 9 * 65536 + 1));
    assert_eq!(12, desired_tile_count(1024, wide(100) + 65535));
    assert_eq!(11, desired_tile_count(1024, wide(102) + 26215));
    assert_eq!(281474976645122, desired_tile_count(u32::MAX, 1));
    assert_eq!(2, desired_tile_count(u32::MAX, i128::MAX));
}

#[test]
fn desired_tile_count_without_a_tile_width_is_zero() {
    for viewport in [0u32, 1, 1024, u32::MAX] {
        assert_eq!(0, desired_tile_count(viewport, 0));
        assert_eq!(0, desired_tile_count(viewport, -1));
        assert_eq!(0, desired_tile_count(viewport, wide(-100)));
        assert_eq!(0, desired_tile_count(viewport, i128::MIN));
    }
}

#[test]
fn count_children_counts_one_layer_only() {
    let tile = |parent: usize| Tile { parent, material: 0, transform: None };
    let tiles = vec![tile(0), tile(1), tile(0), tile(2), tile(0)];
    assert_eq!(3, count_children(&tiles, 0));
    assert_eq!(1, count_children(&tiles, 1));
    assert_eq!(1, count_children(&tiles, 2));
    assert_eq!(0, count_children(&tiles, 3));
    assert_eq!(0, count_children(&Vec::new(), 0));
}

#[test]
fn reconcile_spawns_the_missing_tiles_once() {
    let mut scene = Scene::new();
    let cam = scene.spawn_camera(camera(1024));
    let id = scene.spawn_layer(layer(cam, 100, 42));
    let before = scene.clone();
    assert_eq!(12, reconcile_tile_count(&mut scene, id));
    assert_eq!(before.cameras, scene.cameras);
    assert_eq!(before.layers, scene.layers);
    assert_eq!(12, scene.tiles.len());
    for tile in &scene.tiles {
        assert_eq!(Tile { parent: id, material: 42, transform: Some(Transform::identity()) }, *tile);
        assert_eq!(Some(Vec3 { x: 0, y: 0, z: 0 }), tile.transform.map(|transform| transform.translation));
    }
    assert_eq!(0, reconcile_tile_count(&mut scene, id));
    assert_eq!(12, scene.tiles.len());
}

#[test]
fn reconcile_adds_only_what_is_lacking_and_keeps_what_is_there() {
    let mut scene = Scene::new();
    let cam = scene.spawn_camera(camera(1024));
    let id = scene.spawn_layer(layer(cam, 800, 1));
    let other = scene.spawn_layer(layer(cam, 100, 2));
    let kept = Tile {
        parent: id,
        material: 99,
        transform: Some(Transform { translation: Vec3 { x: 5, y: 6, z: 7 }, scale: 3 }),
    };
    let foreign = Tile { parent: other, material: 2, transform: None };
    scene.tiles.push(kept);
    scene.tiles.push(foreign);
    assert_eq!(2, reconcile_tile_count(&mut scene, id));
    assert_eq!(4, scene.tiles.len());
    assert_eq!(kept, scene.tiles[0]);
    assert_eq!(foreign, scene.tiles[1]);
    let fresh = Tile { parent: id, material: 1, transform: Some(Transform::identity()) };
    assert_eq!(fresh, scene.tiles[2]);
    assert_eq!(fresh, scene.tiles[3]);
    assert_eq!(3, count_children(&scene.tiles, id));
}

#[test]
fn reconcile_never_removes_tiles() {
    let mut scene = Scene::new();
    let cam = scene.spawn_camera(camera(1024));
    let id = scene.spawn_layer(layer(cam, 100, 1));
    assert_eq!(12, reconcile_tile_count(&mut scene, id));
    scene.cameras[cam].size.width = 300;
    let before = scene.clone();
    assert_eq!(0, reconcile_tile_count(&mut scene, id));
    assert_eq!(before, scene);
    scene.cameras[cam].size.width = 1300;
    assert_eq!(3, reconcile_tile_count(&mut scene, id));
    assert_eq!(15, scene.tiles.len());
    assert_eq!(before.tiles[..], scene.tiles[..12]);
}

#[test]
fn reconcile_skips_a_layer_without_a_camera_or_a_width() {
    let mut scene = Scene::new();
    let cam = scene.spawn_camera(camera(1024));
    let orphan = scene.spawn_layer(layer(cam + 1, 100, 1));
    let flat = scene.spawn_layer(layer(cam, 0, 1));
    let before = scene.clone();
    assert_eq!(0, reconcile_tile_count(&mut scene, orphan));
    assert_eq!(0, reconcile_tile_count(&mut scene, flat));
    assert_eq!(0, reconcile_tile_count(&mut scene, 17));
    assert_eq!(before, scene);
}

#[test]
fn count_system_fills_every_layer_in_turn() {
    let mut scene = Scene::new();
    let wide = scene.spawn_camera(camera(1024));
    let narrow = scene.spawn_camera(camera(250));
    let a = scene.spawn_layer(layer(wide, 512, 10));
    let orphan = scene.spawn_layer(layer(5, 512, 11));
    let b = scene.spawn_layer(layer(narrow, 100, 12));
    let c = scene.spawn_layer(layer(wide, 1025, 13));
    scene.tiles.push(Tile { parent: b, material: 12, transform: None });
    let before = scene.clone();
    children_count_system(&mut scene);
    assert_eq!(before.cameras, scene.cameras);
    assert_eq!(before.layers, scene.layers);
    let owners: Vec<usize> = scene.tiles.iter().map(|tile| tile.parent).collect();
    assert_eq!(vec![b, a, a, a, a, b, b, b, c, c], owners);
    let materials: Vec<u64> = scene.tiles.iter().map(|tile| tile.material).collect();
    assert_eq!(vec![12, 10, 10, 10, 10, 12, 12, 12, 13, 13], materials);
    assert_eq!(4, count_children(&scene.tiles, a));
    assert_eq!(0, count_children(&scene.tiles, orphan));
    assert_eq!(4, count_children(&scene.tiles, b));
    assert_eq!(2, count_children(&scene.tiles, c));
    let once = scene.clone();
    children_count_system(&mut scene);
    assert_eq!(once, scene);
}
