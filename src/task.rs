use crate::geometry::{dist2, Point};
use crate::level::{LevelGrid, LevelObject, AVG_TILE_DIMENSION};
use crate::player::PlayerHealthBar;
use crate::random::random_below;
use std::collections::VecDeque;
use vstd::prelude::*;

verus! {

/// How many tasks may be active at once.
pub const MAX_TASKS: usize = 3;

/// How many kinds of task there are.
pub const TASK_KIND_COUNT: usize = 4;

/// How long a task stays active before it expires, in milliseconds.
pub const TASK_LIFETIME_MS: u64 = 60_000;

/// The kind of a timed objective.
#[derive(Clone, Copy, Debug, PartialEq, Eq, Structural)]
pub enum Task {
    PatchLeak,
    ExtinguishFire,
    PowerGenerator,
    BoardWindow,
}

/// Position of a kind in the enumeration.
pub open spec fn kind_index(k: Task) -> nat {
    match k {
        Task::PatchLeak => 0,
        Task::ExtinguishFire => 1,
        Task::PowerGenerator => 2,
        Task::BoardWindow => 3,
    }
}

/// The level tag at which a task of kind `k` is placed.
pub open spec fn level_object_of(k: Task) -> LevelObject {
    LevelObject::ShatteredGlass
}

/// Where a task of kind `k` is placed: the first cell carrying its tag, or
/// the origin when the grid has none.
pub open spec fn task_position(grid: LevelGrid, k: Task) -> Point {
    match grid.placement(level_object_of(k)) {
        Some(p) => p,
        None => Point { x: 0, y: 0 },
    }
}

impl Task {
    /// The name shown to the player.
    pub fn name(&self) -> (r: &'static str)
        ensures
            r@ == match *self {
                Task::PatchLeak => "Patch leak"@,
                Task::ExtinguishFire => "Extinguish fire"@,
                Task::PowerGenerator => "Power generator"@,
                Task::BoardWindow => "Board window"@,
            },
    {
        match self {
            Task::PatchLeak => "Patch leak",
            Task::ExtinguishFire => "Extinguish fire",
            Task::PowerGenerator => "Power generator",
            Task::BoardWindow => "Board window",
        }
    }

    /// The level tag that marks where tasks of kind `self` go.
    pub fn level_object(&self) -> (r: LevelObject)
        ensures
            r == level_object_of(*self),
    {
        LevelObject::ShatteredGlass
    }

    /// The world position of tasks of kind `self` in `grid`.
    pub fn pos(&self, grid: &LevelGrid) -> (r: Point)
        requires
            grid.wf(),
        ensures
            r == task_position(*grid, *self),
    {
        match grid.position_of(self.level_object()) {
            Some(p) => p,
            None => Point::origin(),
        }
    }

    /// The kind at position `val` of the enumeration.
    pub fn try_from(val: usize) -> (r: Result<Task, ()>)
        ensures
            r.is_ok() <==> val < TASK_KIND_COUNT,
            r matches Ok(k) ==> kind_index(k) == val,
    {
        match val {
            0 => Ok(Task::PatchLeak),
            1 => Ok(Task::ExtinguishFire),
            2 => Ok(Task::PowerGenerator),
            3 => Ok(Task::BoardWindow),
            _ => Err(()),
        }
    }
}

/// The countdown of one task.
#[derive(Clone, Copy, Debug, PartialEq, Eq, Structural)]
pub struct TaskTimer {
    pub remaining_ms: u64,
}

impl TaskTimer {
    /// Remaining time in whole seconds, rounded to the nearest.
    pub fn remaining_secs(&self) -> (r: u64)
        ensures
            r == (self.remaining_ms + 500) / 1000,
    {
        self.remaining_ms / 1000 + (if self.remaining_ms % 1000 >= 500 { 1 } else { 0 })
    }
}

/// One active task.
#[derive(Clone, Copy, Debug, PartialEq, Eq, Structural)]
pub struct TaskInstance {
    /// Handle of the task; handles grow in the order tasks are spawned.
    pub id: u64,
    pub kind: Task,
    pub pos: Point,
    pub timer: TaskTimer,
}

/// Whether some instance in `s` has kind `k`.
pub open spec fn has_kind(s: Seq<TaskInstance>, k: Task) -> bool {
    exists|i: int| 0 <= i < s.len() && s[i].kind == k
}

/// The invariant of the task queue: bounded, one instance per kind, oldest
/// first, and the oldest closest to expiry.
pub open spec fn valid_queue(s: Seq<TaskInstance>) -> bool {
    &&& s.len() <= MAX_TASKS
    &&& forall|i: int, j: int| 0 <= i < j < s.len() ==> s[i].kind != s[j].kind
    &&& forall|i: int, j: int| 0 <= i < j < s.len() ==> s[i].id < s[j].id
    &&& forall|i: int, j: int|
        0 <= i < j < s.len() ==> s[i].timer.remaining_ms <= s[j].timer.remaining_ms
    &&& forall|i: int|
        0 <= i < s.len() ==> 0 < #[trigger] s[i].timer.remaining_ms <= TASK_LIFETIME_MS
}

/// A fresh instance of kind `k` with handle `id`, placed in `grid`.
pub open spec fn fresh_instance(grid: LevelGrid, id: u64, k: Task) -> TaskInstance {
    TaskInstance {
        id,
        kind: k,
        pos: task_position(grid, k),
        timer: TaskTimer { remaining_ms: TASK_LIFETIME_MS },
    }
}

/// Instance `t` after `d` milliseconds, with its countdown floored at zero.
pub open spec fn ticked(t: TaskInstance, d: u64) -> TaskInstance {
    TaskInstance {
        id: t.id,
        kind: t.kind,
        pos: t.pos,
        timer: TaskTimer {
            remaining_ms: if t.timer.remaining_ms > d {
                (t.timer.remaining_ms - d) as u64
            } else {
                0
            },
        },
    }
}

/// The queue `s` after a step of `d` milliseconds in which its first `k`
/// tasks expired: the others, with their countdowns advanced.
pub open spec fn survivors(s: Seq<TaskInstance>, d: u64, k: nat) -> Seq<TaskInstance> {
    s.skip(k as int).map_values(|t: TaskInstance| ticked(t, d))
}

/// The health pool `h` after `k` units were taken off its back, stopping at
/// empty.
pub open spec fn after_losses(h: Seq<u8>, k: nat) -> Seq<u8> {
    if k >= h.len() {
        Seq::empty()
    } else {
        h.take(h.len() - k)
    }
}

/// The bounded FIFO queue of active tasks.
pub struct TaskList {
    tasks: VecDeque<TaskInstance>,
    next_id: u64,
}

impl TaskList {
    /// The active tasks, oldest first.
    pub closed spec fn tasks(&self) -> Seq<TaskInstance> {
        self.tasks@
    }

    /// The handle that the next spawned task receives.
    pub closed spec fn next_id(&self) -> u64 {
        self.next_id
    }

    pub open spec fn wf(&self) -> bool {
        &&& valid_queue(self.tasks())
        &&& forall|i: int| 0 <= i < self.tasks().len() ==> #[trigger] self.tasks()[i].id < self.next_id()
    }

    /// An empty queue.
    pub fn new() -> (r: TaskList)
        ensures
            r.wf(),
            r.tasks() == Seq::<TaskInstance>::empty(),
            r.next_id() == 0,
    {
        TaskList { tasks: VecDeque::with_capacity(MAX_TASKS), next_id: 0 }
    }

    pub fn len(&self) -> (r: usize)
        ensures
            r == self.tasks().len(),
    {
        self.tasks.len()
    }

    /// The task at position `idx`, counting from the oldest.
    pub fn get(&self, idx: usize) -> (r: Option<&TaskInstance>)
        ensures
            idx < self.tasks().len() ==> r == Some(&self.tasks()[idx as int]),
            idx >= self.tasks().len() ==> r is None,
    {
        if idx < self.tasks.len() {
            Some(&self.tasks[idx])
        } else {
            None
        }
    }

    /// Whether a task of kind `kind` is active.
    pub fn has_kind(&self, kind: Task) -> (r: bool)
        ensures
            r == has_kind(self.tasks(), kind),
    {
        let n: usize = self.tasks.len();
        let mut i: usize = 0;
        while i < n
            invariant
                n == self.tasks@.len(),
                i <= n,
                forall|j: int| 0 <= j < i ==> self.tasks@[j].kind != kind,
            decreases n - i,
        {
            if self.tasks[i].kind == kind {
                return true;
            }
            i += 1;
        }
        false
    }

    /// The kinds of which no task is active, in enumeration order.
    pub fn free_kinds(&self) -> (r: Vec<Task>)
        ensures
            forall|k: Task| r@.contains(k) <==> !has_kind(self.tasks(), k),
            forall|i: int, j: int|
                0 <= i < j < r@.len() ==> kind_index(r@[i]) < kind_index(r@[j]),
    {
        let mut r: Vec<Task> = Vec::new();
        let mut v: usize = 0;
        while v < TASK_KIND_COUNT
            invariant
                v <= TASK_KIND_COUNT,
                forall|k: Task|
                    r@.contains(k) <==> (kind_index(k) < v && !has_kind(self.tasks(), k)),
                forall|i: int, j: int|
                    0 <= i < j < r@.len() ==> kind_index(r@[i]) < kind_index(r@[j]),
                forall|i: int| 0 <= i < r@.len() ==> kind_index(#[trigger] r@[i]) < v,
            decreases TASK_KIND_COUNT - v,
        {
            let k = match Task::try_from(v) {
                Ok(k) => k,
                Err(()) => {
                    return r;
                },
            };
            let ghost before = r@;
            if !self.has_kind(k) {
                r.push(k);
                assert forall|q: Task|
                    r@.contains(q) <==> (kind_index(q) < v + 1 && !has_kind(
                        self.tasks(),
                        q,
                    )) by {
                    if r@.contains(q) && q != k {
                        let i = choose|i: int| 0 <= i < r@.len() && r@[i] == q;
                        assert(before[i] == q);
                    }
                    if kind_index(q) < v + 1 && !has_kind(self.tasks(), q) && q != k {
                        assert(before.contains(q));
                        let i = choose|i: int| 0 <= i < before.len() && before[i] == q;
                        assert(r@[i] == q);
                    }
                    if q == k {
                        assert(r@[r@.len() - 1] == k);
                    }
                }
            } else {
                assert forall|q: Task|
                    r@.contains(q) <==> (kind_index(q) < v + 1 && !has_kind(
                        self.tasks(),
                        q,
                    )) by {
                    if kind_index(q) == v {
                        assert(q == k);
                    }
                }
            }
            v += 1;
        }
        r
    }

    /// Appends a fresh task of kind `kind`, placed in `grid`, and returns its
    /// handle. Does nothing and returns `None` when the queue is full, a task
    /// of that kind is active, or the handles are used up.
    pub fn spawn_task_of_kind(&mut self, grid: &LevelGrid, kind: Task) -> (r: Option<u64>)
        requires
            old(self).wf(),
            grid.wf(),
        ensures
            final(self).wf(),
            r.is_some() <==> (old(self).tasks().len() < MAX_TASKS && !has_kind(
                old(self).tasks(),
                kind,
            ) && old(self).next_id() < u64::MAX),
            r is None ==> final(self).tasks() == old(self).tasks() && final(self).next_id()
                == old(self).next_id(),
            r matches Some(id) ==> id == old(self).next_id() && final(self).next_id() == id + 1
                && final(self).tasks() == old(self).tasks().push(fresh_instance(*grid, id, kind)),
    {
        if self.tasks.len() >= MAX_TASKS || self.has_kind(kind) || self.next_id == u64::MAX {
            return None;
        }
        let id = self.next_id;
        let inst = TaskInstance {
            id,
            kind,
            pos: kind.pos(grid),
            timer: TaskTimer { remaining_ms: TASK_LIFETIME_MS },
        };
        self.tasks.push_back(inst);
        self.next_id = id + 1;
        Some(id)
    }

    /// Spawns a task of a kind drawn uniformly among those not active, placed
    /// in `grid`, and returns its handle. Does nothing and returns `None` when
    /// the queue is full or the handles are used up.
    pub fn spawn_task(&mut self, grid: &LevelGrid) -> (r: Option<u64>)
        requires
            old(self).wf(),
            grid.wf(),
        ensures
            final(self).wf(),
            r.is_some() <==> (old(self).tasks().len() < MAX_TASKS && old(self).next_id()
                < u64::MAX),
            r is None ==> final(self).tasks() == old(self).tasks() && final(self).next_id()
                == old(self).next_id(),
            r matches Some(id) ==> id == old(self).next_id() && final(self).next_id() == id + 1
                && exists|k: Task|
                !has_kind(old(self).tasks(), k) && final(self).tasks() == old(self).tasks().push(
                    fresh_instance(*grid, id, k),
                ),
    {
        if self.tasks.len() >= MAX_TASKS || self.next_id == u64::MAX {
            return None;
        }
        let free = self.free_kinds();
        proof {
            lemma_some_kind_free(self.tasks());
            let k = choose|k: Task| !has_kind(self.tasks(), k);
            assert(free@.contains(k));
        }
        let pick = random_below(free.len());
        let kind = free[pick];
        assert(free@.contains(kind));
        self.spawn_task_of_kind(grid, kind)
    }
}

impl TaskList {
    /// Advances every countdown by `delta_ms`, floored at zero. Each task whose
    /// countdown reaches zero is popped from the front of the queue, and for
    /// each one the last unit of `health` is taken off (none once it is empty).
    /// Returns the handles of the expired tasks, oldest first.
    pub fn update_task_timers(&mut self, health: &mut PlayerHealthBar, delta_ms: u64) -> (r: Vec<
        u64,
    >)
        requires
            old(self).wf(),
        ensures
            final(self).wf(),
            final(self).next_id() == old(self).next_id(),
            r@.len() <= old(self).tasks().len(),
            forall|i: int|
                0 <= i < r@.len() ==> #[trigger] old(self).tasks()[i].timer.remaining_ms
                    <= delta_ms,
            forall|i: int|
                r@.len() <= i < old(self).tasks().len() ==> #[trigger] old(
                    self,
                ).tasks()[i].timer.remaining_ms > delta_ms,
            r@ == old(self).tasks().take(r@.len() as int).map_values(|t: TaskInstance| t.id),
            final(self).tasks() == survivors(old(self).tasks(), delta_ms, r@.len()),
            final(health).0@ == after_losses(old(health).0@, r@.len()),
    {
        let ghost s0 = self.tasks@;
        let ghost h0 = health.0@;
        let ghost nid = self.next_id;
        let mut expired: Vec<u64> = Vec::new();
        while self.tasks.len() > 0 && self.tasks[0].timer.remaining_ms <= delta_ms
            invariant
                valid_queue(s0),
                self.next_id == nid,
                forall|i: int| 0 <= i < s0.len() ==> #[trigger] s0[i].id < nid,
                expired@.len() <= s0.len(),
                self.tasks@ == s0.skip(expired@.len() as int),
                expired@ == s0.take(expired@.len() as int).map_values(|t: TaskInstance| t.id),
                forall|i: int|
                    0 <= i < expired@.len() ==> #[trigger] s0[i].timer.remaining_ms <= delta_ms,
                health.0@ == after_losses(h0, expired@.len()),
            decreases self.tasks@.len(),
        {
            let ghost k = expired@.len() as int;
            let front = self.tasks.pop_front();
            match front {
                Some(t) => {
                    assert(t == s0[k]);
                    expired.push(t.id);
                    health.0.pop();
                    assert(self.tasks@ =~= s0.skip(k + 1));
                    assert(expired@ =~= s0.take(k + 1).map_values(|t: TaskInstance| t.id));
                    assert(health.0@ =~= after_losses(h0, (k + 1) as nat));
                },
                None => {},
            }
        }
        let ghost k = expired@.len() as int;
        assert forall|i: int| k <= i < s0.len() implies #[trigger] s0[i].timer.remaining_ms
            > delta_ms by {
            assert(s0[k].timer.remaining_ms <= s0[i].timer.remaining_ms);
        }
        let n: usize = self.tasks.len();
        let mut rest: VecDeque<TaskInstance> = VecDeque::with_capacity(n);
        let mut i: usize = 0;
        while i < n
            invariant
                n == self.tasks@.len(),
                self.next_id == nid,
                self.tasks@ == s0.skip(k),
                0 <= k <= s0.len(),
                i <= n,
                forall|j: int| k <= j < s0.len() ==> #[trigger] s0[j].timer.remaining_ms > delta_ms,
                rest@ == s0.skip(k).take(i as int).map_values(
                    |t: TaskInstance| ticked(t, delta_ms),
                ),
            decreases n - i,
        {
            let t = self.tasks[i];
            assert(t == s0[k + i]);
            let nt = TaskInstance {
                id: t.id,
                kind: t.kind,
                pos: t.pos,
                timer: TaskTimer { remaining_ms: t.timer.remaining_ms - delta_ms },
            };
            rest.push_back(nt);
            assert(rest@ =~= s0.skip(k).take(i + 1).map_values(
                |t: TaskInstance| ticked(t, delta_ms),
            ));
            i += 1;
        }
        assert(s0.skip(k).take(n as int) =~= s0.skip(k));
        self.tasks = rest;
        let ghost s1 = self.tasks@;
        assert forall|i: int, j: int| 0 <= i < j < s1.len() implies s1[i].kind != s1[j].kind
            && s1[i].id < s1[j].id && s1[i].timer.remaining_ms <= s1[j].timer.remaining_ms by {
            assert(s1[i] == ticked(s0[k + i], delta_ms));
            assert(s1[j] == ticked(s0[k + j], delta_ms));
        }
        assert forall|i: int| 0 <= i < s1.len() implies 0 < #[trigger] s1[i].timer.remaining_ms
            <= TASK_LIFETIME_MS && s1[i].id < self.next_id by {
            assert(s1[i] == ticked(s0[k + i], delta_ms));
            assert(s0[k + i].timer.remaining_ms > delta_ms);
        }
        expired
    }
}

/// Whether `s[i]` is the task nearest to `p`, the first one on a tie.
pub open spec fn is_nearest(s: Seq<TaskInstance>, p: Point, i: int) -> bool {
    &&& 0 <= i < s.len()
    &&& forall|j: int| 0 <= j < s.len() ==> dist2(s[i].pos, p) <= dist2(#[trigger] s[j].pos, p)
    &&& forall|j: int| 0 <= j < i ==> dist2(s[i].pos, p) < dist2(#[trigger] s[j].pos, p)
}

/// Whether task `t` may be highlighted: it is within interaction range of
/// both the pointer at `mouse` and the player at `player_pos`.
pub open spec fn highlightable(t: TaskInstance, mouse: Point, player_pos: Point) -> bool {
    in_reach(t.pos, mouse) && in_reach(t.pos, player_pos)
}

/// Whether `s[i]` is, among the highlightable tasks of `s`, the one nearest
/// to `mouse`, the first one on a tie.
pub open spec fn is_nearest_highlightable(
    s: Seq<TaskInstance>,
    mouse: Point,
    player_pos: Point,
    i: int,
) -> bool {
    &&& 0 <= i < s.len()
    &&& highlightable(s[i], mouse, player_pos)
    &&& forall|j: int|
        0 <= j < s.len() && highlightable(#[trigger] s[j], mouse, player_pos) ==> dist2(
            s[i].pos,
            mouse,
        ) <= dist2(s[j].pos, mouse)
    &&& forall|j: int|
        0 <= j < i && highlightable(#[trigger] s[j], mouse, player_pos) ==> dist2(s[i].pos, mouse)
            < dist2(s[j].pos, mouse)
}

/// Whether `a` and `b` are within interaction range of each other.
pub open spec fn in_reach(a: Point, b: Point) -> bool {
    dist2(a, b) <= AVG_TILE_DIMENSION * AVG_TILE_DIMENSION
}

impl TaskList {
    /// Position in the queue of the task nearest to `p` (the oldest on a
    /// tie); `None` when no task is active.
    pub fn nearest_to(&self, p: Point) -> (r: Option<usize>)
        ensures
            r is None <==> self.tasks().len() == 0,
            r matches Some(i) ==> is_nearest(self.tasks(), p, i as int),
    {
        let n: usize = self.tasks.len();
        if n == 0 {
            return None;
        }
        let mut best: usize = 0;
        let mut best_d: i128 = self.tasks[0].pos.distance_squared(&p);
        let mut i: usize = 1;
        while i < n
            invariant
                n == self.tasks@.len(),
                1 <= i <= n,
                best < i,
                best_d == dist2(self.tasks@[best as int].pos, p),
                forall|j: int|
                    0 <= j < i ==> best_d <= dist2(#[trigger] self.tasks@[j].pos, p),
                forall|j: int| 0 <= j < best ==> best_d < dist2(#[trigger] self.tasks@[j].pos, p),
            decreases n - i,
        {
            let d = self.tasks[i].pos.distance_squared(&p);
            if d < best_d {
                best = i;
                best_d = d;
            }
            i += 1;
        }
        Some(best)
    }

    /// Position of the task to highlight: among the tasks within interaction
    /// range of both the pointer at `mouse` and the player at `player_pos`,
    /// the one nearest to the pointer (the oldest on a tie); `None`, and no
    /// task is highlighted, when no task is in range of both.
    pub fn mouse_highlight_task(&self, mouse: Point, player_pos: Point) -> (r: Option<usize>)
        ensures
            r is None <==> !(exists|i: int|
                0 <= i < self.tasks().len() && highlightable(
                    #[trigger] self.tasks()[i],
                    mouse,
                    player_pos,
                )),
            r matches Some(i) ==> is_nearest_highlightable(self.tasks(), mouse, player_pos, i as int),
    {
        let n: usize = self.tasks.len();
        let mut best: Option<usize> = None;
        let mut best_d: i128 = 0;
        let mut i: usize = 0;
        while i < n
            invariant
                n == self.tasks@.len(),
                i <= n,
                best is None ==> forall|j: int|
                    0 <= j < i ==> !highlightable(#[trigger] self.tasks@[j], mouse, player_pos),
                best matches Some(b) ==> b < i && best_d == dist2(self.tasks@[b as int].pos, mouse)
                    && highlightable(self.tasks@[b as int], mouse, player_pos) && (forall|j: int|
                    0 <= j < i && highlightable(#[trigger] self.tasks@[j], mouse, player_pos)
                        ==> best_d <= dist2(self.tasks@[j].pos, mouse)) && (forall|j: int|
                    0 <= j < b && highlightable(#[trigger] self.tasks@[j], mouse, player_pos)
                        ==> best_d < dist2(self.tasks@[j].pos, mouse)),
            decreases n - i,
        {
            let pos = self.tasks[i].pos;
            if pos.within(&mouse, AVG_TILE_DIMENSION) && pos.within(&player_pos, AVG_TILE_DIMENSION) {
                let d = pos.distance_squared(&mouse);
                match best {
                    None => {
                        best = Some(i);
                        best_d = d;
                    },
                    Some(_) => {
                        if d < best_d {
                            best = Some(i);
                            best_d = d;
                        }
                    },
                }
            }
            i += 1;
        }
        proof {
            if let Some(b) = best {
                assert(highlightable(self.tasks()[b as int], mouse, player_pos));
            } else {
                assert forall|j: int| 0 <= j < self.tasks().len() implies !highlightable(
                    #[trigger] self.tasks()[j],
                    mouse,
                    player_pos,
                ) by {
                    assert(!highlightable(self.tasks@[j], mouse, player_pos));
                }
            }
        }
        best
    }
}

/// A queue that meets the invariant leaves some kind free.
pub proof fn lemma_some_kind_free(s: Seq<TaskInstance>)
    requires
        valid_queue(s),
    ensures
        exists|k: Task| !has_kind(s, k),
{
    if forall|k: Task| has_kind(s, k) {
        assert(has_kind(s, Task::PatchLeak));
        assert(has_kind(s, Task::ExtinguishFire));
        assert(has_kind(s, Task::PowerGenerator));
        assert(has_kind(s, Task::BoardWindow));
        let a = choose|i: int| 0 <= i < s.len() && s[i].kind == Task::PatchLeak;
        let b = choose|i: int| 0 <= i < s.len() && s[i].kind == Task::ExtinguishFire;
        let c = choose|i: int| 0 <= i < s.len() && s[i].kind == Task::PowerGenerator;
        let d = choose|i: int| 0 <= i < s.len() && s[i].kind == Task::BoardWindow;
        assert(a != b && a != c && a != d && b != c && b != d && c != d);
        assert(false);
    }
}

/// Every well-formed queue holds at most `MAX_TASKS` tasks, no two of one
/// kind. `new` establishes this and every operation keeps it, so it holds
/// after any sequence of spawns and expiries.
pub proof fn lemma_queue_bounded_and_distinct(list: TaskList)
    requires
        list.wf(),
    ensures
        list.tasks().len() <= MAX_TASKS,
        forall|i: int, j: int|
            0 <= i < j < list.tasks().len() ==> list.tasks()[i].kind != list.tasks()[j].kind,
{
}

/// Expiry goes in spawn order. Given a queue and a step of `d` milliseconds
/// in which the first `k` tasks expire and the rest do not (what
/// `update_task_timers` reports), every evicted task was spawned before every
/// surviving one, a task never expires after a younger one, and if any task
/// expires the oldest is among those evicted.
pub proof fn lemma_fifo_eviction(s: Seq<TaskInstance>, d: u64, k: nat)
    requires
        valid_queue(s),
        k <= s.len(),
        forall|i: int| 0 <= i < k ==> #[trigger] s[i].timer.remaining_ms <= d,
        forall|i: int| k <= i < s.len() ==> #[trigger] s[i].timer.remaining_ms > d,
    ensures
        forall|i: int, j: int| 0 <= i < k <= j < s.len() ==> s[i].id < s[j].id,
        forall|i: int, j: int|
            0 <= i < j < s.len() && s[j].timer.remaining_ms <= d ==> s[i].timer.remaining_ms
                <= d,
        (exists|i: int| 0 <= i < s.len() && s[i].timer.remaining_ms <= d) ==> k > 0,
{
}

/// One expiry, one unit of health. A step in which `k` tasks expire takes
/// exactly `k` units off the pool (all of them when it holds fewer) and
/// leaves the rest in place; the expired tasks are gone from the queue, so no
/// later step can debit them again.
pub proof fn lemma_one_unit_per_expiry(s: Seq<TaskInstance>, h: Seq<u8>, d: u64, k: nat)
    requires
        valid_queue(s),
        k <= s.len(),
        forall|i: int| 0 <= i < k ==> #[trigger] s[i].timer.remaining_ms <= d,
        forall|i: int| k <= i < s.len() ==> #[trigger] s[i].timer.remaining_ms > d,
    ensures
        after_losses(h, k).len() == if k <= h.len() {
            h.len() - k
        } else {
            0
        },
        after_losses(h, k) == h.take(after_losses(h, k).len() as int),
        forall|i: int, j: int|
            0 <= i < k && 0 <= j < survivors(s, d, k).len() ==> #[trigger] s[i].id
                != #[trigger] survivors(s, d, k)[j].id,
{
    if k >= h.len() {
        assert(h.take(0) =~= Seq::<u8>::empty());
    }
    let after = survivors(s, d, k);
    assert forall|i: int, j: int| 0 <= i < k && 0 <= j < after.len() implies s[i].id
        != after[j].id by {
        assert(after[j].id == s[k + j].id);
    }
}

} // verus!
