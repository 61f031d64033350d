use crate::geometry::{dist2, Offset, Point};
use crate::level::AVG_TILE_DIMENSION;
use crate::task::{in_reach, is_nearest, TaskList};
use vstd::prelude::*;

verus! {

/// How many units the health pool starts with.
pub const MAX_HEALTH_UNITS: usize = 3;

/// The level of an undamaged health unit.
pub const FULL_HEALTH_LEVEL: u8 = 2;

/// The player's health pool: one level per unit, 2 full, 1 cracked, 0
/// damaged. Losing a unit takes the last one off.
pub struct PlayerHealthBar(pub Vec<u8>);

impl PlayerHealthBar {
    /// A full pool of `MAX_HEALTH_UNITS` undamaged units.
    pub fn new() -> (r: PlayerHealthBar)
        ensures
            r.0@.len() == MAX_HEALTH_UNITS,
            forall|i: int| 0 <= i < MAX_HEALTH_UNITS ==> r.0@[i] == FULL_HEALTH_LEVEL,
    {
        PlayerHealthBar(vec![FULL_HEALTH_LEVEL; MAX_HEALTH_UNITS])
    }

    /// The sprite the HUD shows in slot `i`: 0 for a full unit, 1 for a
    /// cracked one, 2 for a damaged or lost one.
    pub fn sprite_index(&self, i: usize) -> (r: usize)
        ensures
            r == if i < self.0@.len() && self.0@[i as int] == 2 {
                0usize
            } else if i < self.0@.len() && self.0@[i as int] == 1 {
                1usize
            } else {
                2usize
            },
    {
        if i < self.0.len() {
            if self.0[i] == 2 {
                return 0;
            } else if self.0[i] == 1 {
                return 1;
            }
        }
        2
    }
}

/// The player's interaction state: while doing a task, movement is
/// suspended.
pub struct Player {
    doing_task: bool,
}

/// The player's actions, as the input layer names them.
#[derive(Clone, Copy, Debug, PartialEq, Eq, Structural)]
pub enum PlayerAction {
    MoveLeft,
    MoveRight,
    MoveUp,
    MoveDown,
    EnterTask,
    ExitTask,
}

impl Player {
    /// Whether the player is engaged with a task.
    pub closed spec fn engaged(&self) -> bool {
        self.doing_task
    }

    /// A player who is not doing a task.
    pub fn new() -> (r: Player)
        ensures
            !r.engaged(),
    {
        Player { doing_task: false }
    }

    pub fn is_doing_task(&self) -> (r: bool)
        ensures
            r == self.engaged(),
    {
        self.doing_task
    }
}

/// Whether some active task is within interaction range of `p`.
pub open spec fn task_in_reach(tasks: TaskList, p: Point) -> bool {
    exists|i: int| 0 <= i < tasks.tasks().len() && in_reach(#[trigger] tasks.tasks()[i].pos, p)
}

/// The engagement state after one step: an engaged player leaves on `exit`
/// and ignores everything else; an idle player engages on `enter` when the
/// nearest task is within reach.
pub open spec fn next_engaged(engaged: bool, in_reach_now: bool, enter: bool, exit: bool) -> bool {
    if engaged {
        !exit
    } else {
        enter && in_reach_now
    }
}

/// One step of the task interaction state machine for the player at
/// `player_pos`; `enter` and `exit` say whether those actions were pressed
/// this step.
pub fn player_task_input(
    player: &mut Player,
    tasks: &TaskList,
    player_pos: Point,
    enter: bool,
    exit: bool,
)
    ensures
        final(player).engaged() == next_engaged(
            old(player).engaged(),
            task_in_reach(*tasks, player_pos),
            enter,
            exit,
        ),
{
    if player.doing_task {
        if exit {
            player.doing_task = false;
        }
        return;
    }
    let closest = match tasks.nearest_to(player_pos) {
        Some(i) => i,
        None => {
            return;
        },
    };
    let pos = match tasks.get(closest) {
        Some(t) => t.pos,
        None => {
            return;
        },
    };
    proof {
        if task_in_reach(*tasks, player_pos) {
            let j = choose|j: int|
                0 <= j < tasks.tasks().len() && in_reach(#[trigger] tasks.tasks()[j].pos, player_pos);
            assert(dist2(pos, player_pos) <= dist2(tasks.tasks()[j].pos, player_pos));
        }
    }
    if enter && pos.within(&player_pos, AVG_TILE_DIMENSION) {
        player.doing_task = true;
    }
}

/// The player's displacement this step: `step` units along each axis that
/// is pressed, opposite directions cancelling; nothing while engaged.
pub fn player_movement(
    player: &Player,
    left: bool,
    right: bool,
    up: bool,
    down: bool,
    step: u16,
) -> (r: Offset)
    ensures
        player.engaged() ==> r.dx == 0 && r.dy == 0,
        !player.engaged() ==> r.dx == (if right { step as int } else { 0 }) - (if left {
            step as int
        } else {
            0
        }) && r.dy == (if up { step as int } else { 0 }) - (if down { step as int } else { 0 }),
{
    if player.doing_task {
        return Offset { dx: 0, dy: 0 };
    }
    let s: i32 = step as i32;
    let mut dx: i32 = 0;
    let mut dy: i32 = 0;
    if left {
        dx = dx - s;
    }
    if right {
        dx = dx + s;
    }
    if up {
        dy = dy + s;
    }
    if down {
        dy = dy - s;
    }
    Offset { dx, dy }
}

} // verus!
