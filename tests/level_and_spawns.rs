use zombie_tasks::{
    clamp_to_tilemap, wall_colliders, LevelGrid, LevelObject, Point, WallCollider, ZombieSpawns,
    MAX_GRID_DIM,
};
use LevelObject::{Floor, LeftWall, ShatteredGlass};

fn floor_grid(w: usize, h: usize) -> LevelGrid {
    LevelGrid::new(w, h, 1, vec![Floor; w * h]).unwrap()
}

#[test]
fn grid_rejects_bad_shapes() {
    assert!(LevelGrid::new(0, 1, 1, vec![]).is_none());
    assert!(LevelGrid::new(2, 2, 1, vec![Floor; 3]).is_none());
    assert!(LevelGrid::new(MAX_GRID_DIM + 1, 1, 1, vec![Floor; MAX_GRID_DIM + 1]).is_none());
    assert!(LevelGrid::new(2, 2, 2, vec![Floor; 8]).is_some());
}

#[test]
fn cells_map_to_centred_world_positions() {
    let g = floor_grid(3, 2);
    assert_eq!(g.idx_to_world_pos(0, 0), Point::new(-64, 32));
    assert_eq!(g.idx_to_world_pos(2, 1), Point::new(64, -32));
}

#[test]
fn lookup_returns_first_match_in_scan_order() {
    // Two layers of 2 x 2; the tag is in layer 1 first cell, and layer 0 row 1.
    let mut cells = vec![Floor; 8];
    cells[4] = LevelObject::UShapedWall;
    cells[3] = LevelObject::UShapedWall;
    let g = LevelGrid::new(2, 2, 2, cells).unwrap();
    assert_eq!(g.position_of(LevelObject::UShapedWall), Some(Point::new(32, -32)));
    assert_eq!(g.position_of(LevelObject::LeftWall), None);
}

#[test]
fn border_of_three_by_three() {
    let g = floor_grid(3, 3);
    let b = g.border_positions();
    let expected: Vec<Point> = vec![
        (-64, 64), (0, 64), (64, 64),
        (-64, 0), (64, 0),
        (-64, -64), (0, -64), (64, -64),
    ]
    .into_iter()
    .map(|(x, y)| Point::new(x, y))
    .collect();
    assert_eq!(b, expected);
    assert_eq!(floor_grid(5, 4).border_positions().len(), 5 * 2 + 4 * 2 - 4);
    assert_eq!(floor_grid(1, 1).border_positions(), vec![Point::new(0, 0)]);
}

#[test]
fn wave_at_thirty_seconds_has_two_agents() {
    let g = floor_grid(3, 3);
    let mut spawns = ZombieSpawns::new(&g);
    let points = g.border_positions();
    let wave = spawns.spawn_zombie(30);
    assert_eq!(wave.len(), 2);
    assert!(wave.iter().all(|p| points.contains(p)));
}

#[test]
fn waves_grow_and_come_once_per_second() {
    let g = floor_grid(3, 3);
    let mut spawns = ZombieSpawns::new(&g);
    assert_eq!(spawns.agents_to_spawn(0), 0);
    assert_eq!(spawns.agents_to_spawn(7), 0);
    assert_eq!(spawns.agents_to_spawn(15), 1);
    assert_eq!(spawns.agents_to_spawn(15), 0);
    assert_eq!(spawns.agents_to_spawn(16), 0);
    assert_eq!(spawns.agents_to_spawn(30), 2);
    assert_eq!(spawns.agents_to_spawn(45), 3);
    assert_eq!(spawns.agents_to_spawn(150), 10);
    let mut total = 0;
    let mut fresh = ZombieSpawns::new(&g);
    let mut prev_total = 0;
    for t in 0..=300u64 {
        total += fresh.agents_to_spawn(t);
        assert!(total >= prev_total);
        prev_total = total;
    }
    assert_eq!(total, (1..=20).sum::<u64>());
    assert_eq!(fresh.spawn_points(), &g.border_positions());
}

#[test]
fn camera_stays_inside_the_level() {
    // 10 x 10 tiles: 640 units each way, centred on the origin.
    let g = floor_grid(10, 10);
    assert_eq!(clamp_to_tilemap(Point::new(1000, -1000), 200, 100, &g), Point::new(220, -270));
    assert_eq!(clamp_to_tilemap(Point::new(5, 5), 200, 100, &g), Point::new(5, 5));
    // A viewport wider than the level leaves that axis alone.
    assert_eq!(clamp_to_tilemap(Point::new(1000, 1000), 800, 100, &g), Point::new(1000, 270));
}

#[test]
fn build_flattens_a_nested_layout() {
    let layout = vec![
        vec![vec![Floor, LeftWall, Floor], vec![Floor, Floor, Floor]],
        vec![vec![Floor, Floor, Floor], vec![ShatteredGlass, Floor, Floor]],
    ];
    let g = LevelGrid::build(&layout).unwrap();
    assert_eq!((g.width_cells(), g.height_cells()), (3, 2));
    assert_eq!(g.position_of(LeftWall), Some(Point::new(0, 32)));
    assert_eq!(g.position_of(ShatteredGlass), Some(Point::new(-64, -32)));
    let same = LevelGrid::new(
        3,
        2,
        2,
        vec![
            Floor, LeftWall, Floor, Floor, Floor, Floor, Floor, Floor, Floor, ShatteredGlass,
            Floor, Floor,
        ],
    )
    .unwrap();
    assert_eq!(same.position_of(ShatteredGlass), g.position_of(ShatteredGlass));
}

#[test]
fn build_rejects_ragged_or_empty_layouts() {
    assert!(LevelGrid::build(&vec![]).is_none());
    assert!(LevelGrid::build(&vec![vec![]]).is_none());
    assert!(LevelGrid::build(&vec![vec![vec![]]]).is_none());
    assert!(LevelGrid::build(&vec![vec![vec![Floor, Floor], vec![Floor]]]).is_none());
    assert!(LevelGrid::build(&vec![vec![vec![Floor]], vec![vec![Floor], vec![Floor]]]).is_none());
    assert!(LevelGrid::build(&vec![vec![vec![Floor]]]).is_some());
}

fn wc(offset_x: i32, offset_y: i32, half_width: i32, half_height: i32) -> WallCollider {
    WallCollider { offset_x, offset_y, half_width, half_height }
}

#[test]
fn wall_tiles_get_their_colliders() {
    let left = wc(-49, 0, 15, 64);
    let right = wc(49, 0, 15, 64);
    let top = wc(0, 49, 64, 15);
    let bottom = wc(0, -49, 64, 15);
    assert_eq!(wall_colliders(LevelObject::LeftWall), vec![left]);
    assert_eq!(wall_colliders(LevelObject::RightWall), vec![right]);
    assert_eq!(wall_colliders(LevelObject::TopWall), vec![top]);
    assert_eq!(wall_colliders(LevelObject::BottomWall), vec![bottom]);
    assert_eq!(wall_colliders(LevelObject::TopLeftWall), vec![left, top]);
    assert_eq!(wall_colliders(LevelObject::TopRightWall), vec![right, top]);
    assert_eq!(wall_colliders(LevelObject::BottomLeftWall), vec![left, bottom]);
    assert_eq!(wall_colliders(LevelObject::BottomRightWall), vec![right, bottom]);
    assert_eq!(wall_colliders(LevelObject::UShapedWall), vec![left, right, bottom]);
    assert_eq!(wall_colliders(LevelObject::TopLeftCorner), vec![wc(-49, 49, 15, 15)]);
    assert_eq!(wall_colliders(LevelObject::TopRightCorner), vec![wc(49, 49, 15, 15)]);
    assert_eq!(wall_colliders(LevelObject::BottomLeftCorner), vec![wc(-49, -49, 15, 15)]);
    assert_eq!(wall_colliders(LevelObject::BottomRightCorner), vec![wc(49, -49, 15, 15)]);
    assert!(wall_colliders(Floor).is_empty());
    assert!(wall_colliders(ShatteredGlass).is_empty());
    assert!(wall_colliders(LevelObject::Empty).is_empty());
}

#[test]
fn session_brings_each_wave_once() {
    let g = floor_grid(3, 3);
    let mut spawns = ZombieSpawns::new(&g);
    // Several steps per second, every second from 0 to 90.
    let mut total = 0;
    let mut totals_at_waves = Vec::new();
    for t in 0..=90u64 {
        for _ in 0..3 {
            total += spawns.agents_to_spawn(t);
        }
        if t % 15 == 0 {
            totals_at_waves.push(total);
        }
    }
    assert_eq!(totals_at_waves, vec![0, 1, 3, 6, 10, 15, 21]);
}
