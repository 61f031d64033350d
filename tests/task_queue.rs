use zombie_tasks::{
    LevelGrid, LevelObject, PlayerHealthBar, Point, Task, TaskList, TaskTimer, MAX_TASKS,
    TASK_LIFETIME_MS,
};

fn glass_grid() -> LevelGrid {
    // 3 x 3, one layer; the glass sits in column 2 of row 0.
    let mut cells = vec![LevelObject::Floor; 9];
    cells[2] = LevelObject::ShatteredGlass;
    LevelGrid::new(3, 3, 1, cells).unwrap()
}

const ALL_KINDS: [Task; 4] = [
    Task::PatchLeak,
    Task::ExtinguishFire,
    Task::PowerGenerator,
    Task::BoardWindow,
];

#[test]
fn spawn_once_into_empty_queue() {
    let grid = glass_grid();
    let mut list = TaskList::new();
    let id = list.spawn_task(&grid);
    assert_eq!(id, Some(0));
    assert_eq!(list.len(), 1);
    let t = list.get(0).unwrap();
    assert!(ALL_KINDS.contains(&t.kind));
    assert_eq!(t.timer.remaining_ms, 60_000);
    assert_eq!(t.pos, Point::new(64, 64));
    assert!(list.get(1).is_none());
}

#[test]
fn capacity_is_never_exceeded() {
    let grid = glass_grid();
    let mut list = TaskList::new();
    for _ in 0..10 {
        list.spawn_task(&grid);
        assert!(list.len() <= MAX_TASKS);
    }
    assert_eq!(list.len(), 3);
    assert_eq!(list.spawn_task(&grid), None);
}

#[test]
fn active_kinds_are_distinct() {
    let grid = glass_grid();
    for _ in 0..20 {
        let mut list = TaskList::new();
        for _ in 0..3 {
            list.spawn_task(&grid);
        }
        let kinds: Vec<Task> = (0..3).map(|i| list.get(i).unwrap().kind).collect();
        assert_ne!(kinds[0], kinds[1]);
        assert_ne!(kinds[0], kinds[2]);
        assert_ne!(kinds[1], kinds[2]);
        let free = list.free_kinds();
        assert_eq!(free.len(), 1);
        assert!(!kinds.contains(&free[0]));
    }
}

#[test]
fn spawn_of_active_kind_is_refused() {
    let grid = glass_grid();
    let mut list = TaskList::new();
    assert_eq!(list.spawn_task_of_kind(&grid, Task::BoardWindow), Some(0));
    assert_eq!(list.spawn_task_of_kind(&grid, Task::BoardWindow), None);
    assert_eq!(list.len(), 1);
    assert!(list.has_kind(Task::BoardWindow));
    assert!(!list.has_kind(Task::PatchLeak));
    assert_eq!(
        list.free_kinds(),
        vec![Task::PatchLeak, Task::ExtinguishFire, Task::PowerGenerator]
    );
}

#[test]
fn expiry_evicts_and_debits_one_unit() {
    let grid = glass_grid();
    let mut list = TaskList::new();
    let mut health = PlayerHealthBar::new();
    let id = list.spawn_task(&grid).unwrap();
    let expired = list.update_task_timers(&mut health, 60_000);
    assert_eq!(expired, vec![id]);
    assert_eq!(list.len(), 0);
    assert_eq!(health.0.len(), 2);
}

#[test]
fn partial_tick_counts_down() {
    let grid = glass_grid();
    let mut list = TaskList::new();
    let mut health = PlayerHealthBar::new();
    list.spawn_task(&grid);
    let expired = list.update_task_timers(&mut health, 16);
    assert!(expired.is_empty());
    assert_eq!(list.get(0).unwrap().timer.remaining_ms, TASK_LIFETIME_MS - 16);
    assert_eq!(health.0, vec![2, 2, 2]);
}

#[test]
fn oldest_task_is_evicted_first() {
    let grid = glass_grid();
    let mut list = TaskList::new();
    let mut health = PlayerHealthBar::new();
    let a = list.spawn_task(&grid).unwrap();
    list.update_task_timers(&mut health, 1_000);
    let b = list.spawn_task(&grid).unwrap();
    list.update_task_timers(&mut health, 1_000);
    let c = list.spawn_task(&grid).unwrap();
    assert!(a < b && b < c);
    let expired = list.update_task_timers(&mut health, 58_000);
    assert_eq!(expired, vec![a]);
    assert_eq!(list.get(0).unwrap().id, b);
    assert_eq!(list.get(1).unwrap().id, c);
    let expired = list.update_task_timers(&mut health, 1_000);
    assert_eq!(expired, vec![b]);
    let expired = list.update_task_timers(&mut health, 1_000);
    assert_eq!(expired, vec![c]);
    assert_eq!(list.len(), 0);
    assert!(health.0.is_empty());
}

#[test]
fn each_expiry_debits_once() {
    let grid = glass_grid();
    let mut list = TaskList::new();
    let mut health = PlayerHealthBar::new();
    list.spawn_task(&grid);
    assert_eq!(list.update_task_timers(&mut health, 70_000).len(), 1);
    assert_eq!(health.0.len(), 2);
    // Later steps find nothing left to expire.
    assert!(list.update_task_timers(&mut health, 70_000).is_empty());
    assert!(list.update_task_timers(&mut health, 0).is_empty());
    assert_eq!(health.0.len(), 2);
}

#[test]
fn health_stops_at_empty() {
    let grid = glass_grid();
    let mut list = TaskList::new();
    let mut health = PlayerHealthBar(vec![1]);
    for _ in 0..3 {
        list.spawn_task(&grid);
    }
    let expired = list.update_task_timers(&mut health, TASK_LIFETIME_MS);
    assert_eq!(expired.len(), 3);
    assert!(health.0.is_empty());
    let mut empty = PlayerHealthBar(Vec::new());
    list.spawn_task(&grid);
    assert_eq!(list.update_task_timers(&mut empty, TASK_LIFETIME_MS).len(), 1);
    assert!(empty.0.is_empty());
}

#[test]
fn eviction_on_empty_queue_is_noop() {
    let mut list = TaskList::new();
    let mut health = PlayerHealthBar::new();
    assert!(list.update_task_timers(&mut health, u64::MAX).is_empty());
    assert_eq!(health.0.len(), 3);
}

#[test]
fn task_names_and_indices() {
    assert_eq!(Task::PatchLeak.name(), "Patch leak");
    assert_eq!(Task::ExtinguishFire.name(), "Extinguish fire");
    assert_eq!(Task::PowerGenerator.name(), "Power generator");
    assert_eq!(Task::BoardWindow.name(), "Board window");
    assert_eq!(Task::try_from(0), Ok(Task::PatchLeak));
    assert_eq!(Task::try_from(3), Ok(Task::BoardWindow));
    assert_eq!(Task::try_from(4), Err(()));
    assert_eq!(Task::PowerGenerator.level_object(), LevelObject::ShatteredGlass);
}

#[test]
fn task_placement_falls_back_to_origin() {
    let grid = LevelGrid::new(2, 2, 1, vec![LevelObject::Floor; 4]).unwrap();
    assert_eq!(Task::PatchLeak.pos(&grid), Point::new(0, 0));
    assert_eq!(Task::PatchLeak.pos(&glass_grid()), Point::new(64, 64));
}

#[test]
fn remaining_seconds_round_to_nearest() {
    assert_eq!(TaskTimer { remaining_ms: 60_000 }.remaining_secs(), 60);
    assert_eq!(TaskTimer { remaining_ms: 59_499 }.remaining_secs(), 59);
    assert_eq!(TaskTimer { remaining_ms: 59_500 }.remaining_secs(), 60);
    assert_eq!(TaskTimer { remaining_ms: 0 }.remaining_secs(), 0);
}

#[test]
fn health_sprites_follow_unit_levels() {
    let bar = PlayerHealthBar(vec![2, 1, 0]);
    assert_eq!(bar.sprite_index(0), 0);
    assert_eq!(bar.sprite_index(1), 1);
    assert_eq!(bar.sprite_index(2), 2);
    assert_eq!(bar.sprite_index(3), 2);
    assert_eq!(PlayerHealthBar::new().0, vec![2, 2, 2]);
}
