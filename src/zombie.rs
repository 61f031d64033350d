use crate::geometry::Point;
use crate::level::LevelGrid;
use crate::random::random_below;
use vstd::prelude::*;

verus! {

/// Seconds between two waves of hostile agents.
pub const WAVE_PERIOD_SECS: u64 = 15;

/// How many agents the wave at whole second `secs` brings: one per elapsed
/// period on a multiple of the period, none otherwise.
pub open spec fn wave_size(secs: nat) -> nat {
    if secs % (WAVE_PERIOD_SECS as nat) == 0 {
        secs / (WAVE_PERIOD_SECS as nat)
    } else {
        0
    }
}

/// How many agents a session has brought by whole second `secs`, each wave
/// counted once.
pub open spec fn agents_by(secs: nat) -> nat
    decreases secs,
{
    if secs == 0 {
        wave_size(0)
    } else {
        agents_by((secs - 1) as nat) + wave_size(secs)
    }
}

/// One step of the spawner at whole second `secs`, after the wave of second
/// `last` (if any): the new last wave second and the number of agents.
pub open spec fn wave_step(last: Option<u64>, secs: u64) -> (Option<u64>, nat) {
    if secs % WAVE_PERIOD_SECS == 0 {
        (Some(secs), if last == Some(secs) { 0 } else { wave_size(secs as nat) })
    } else {
        (last, 0)
    }
}

/// A fresh spawner stepped at each second of `s` in turn: the last wave
/// second and the number of agents brought in all.
pub open spec fn session(s: Seq<u64>) -> (Option<u64>, nat)
    decreases s.len(),
{
    if s.len() == 0 {
        (None, 0)
    } else {
        let before = session(s.drop_last());
        let step = wave_step(before.0, s.last());
        (step.0, before.1 + step.1)
    }
}

/// The spawner of hostile agents: the perimeter points they appear at, and
/// the last second at which a wave came, so that each wave comes once.
pub struct ZombieSpawns {
    points: Vec<Point>,
    last_wave: Option<u64>,
}

impl ZombieSpawns {
    /// The points at which agents appear.
    pub closed spec fn points(&self) -> Seq<Point> {
        self.points@
    }

    pub fn spawn_points(&self) -> (r: &Vec<Point>)
        ensures
            r@ == self.points(),
    {
        &self.points
    }

    /// The second of the last wave, if any came.
    pub closed spec fn last_wave(&self) -> Option<u64> {
        self.last_wave
    }

    /// A spawner at the outer ring of `grid`, before any wave.
    pub fn new(grid: &LevelGrid) -> (r: ZombieSpawns)
        requires
            grid.wf(),
        ensures
            r.points() == grid.border(),
            r.last_wave() is None,
    {
        ZombieSpawns { points: grid.border_positions(), last_wave: None }
    }

    /// How many agents to spawn at whole second `elapsed_secs`: the wave size
    /// on the first step within a second that is a multiple of the period,
    /// and 0 on every other step.
    pub fn agents_to_spawn(&mut self, elapsed_secs: u64) -> (r: u64)
        ensures
            final(self).points() == old(self).points(),
            (final(self).last_wave(), r as nat) == wave_step(old(self).last_wave(), elapsed_secs),
    {
        if elapsed_secs % WAVE_PERIOD_SECS != 0 {
            return 0;
        }
        if self.last_wave == Some(elapsed_secs) {
            return 0;
        }
        self.last_wave = Some(elapsed_secs);
        elapsed_secs / WAVE_PERIOD_SECS
    }

    /// The spawn points of the agents that come at whole second
    /// `elapsed_secs`, each drawn uniformly from `points`; none when there
    /// are no points.
    pub fn spawn_zombie(&mut self, elapsed_secs: u64) -> (r: Vec<Point>)
        ensures
            final(self).points() == old(self).points(),
            final(self).last_wave() == wave_step(old(self).last_wave(), elapsed_secs).0,
            r@.len() == if old(self).points().len() == 0 {
                0
            } else {
                wave_step(old(self).last_wave(), elapsed_secs).1
            },
            forall|i: int| 0 <= i < r@.len() ==> old(self).points().contains(#[trigger] r@[i]),
    {
        let count = self.agents_to_spawn(elapsed_secs);
        let mut r: Vec<Point> = Vec::new();
        let n: usize = self.points.len();
        if n == 0 {
            return r;
        }
        let mut k: u64 = 0;
        while k < count
            invariant
                n == self.points@.len(),
                n > 0,
                k <= count,
                r@.len() == k,
                forall|i: int| 0 <= i < r@.len() ==> self.points@.contains(#[trigger] r@[i]),
            decreases count - k,
        {
            let j = random_below(n);
            let p = self.points[j];
            r.push(p);
            assert(self.points@[j as int] == p);
            k += 1;
        }
        r
    }
}

/// Waves grow with time: for seconds `e1 <= e2` that are both multiples of
/// the period, the wave at `e2` is at least as large as the wave at `e1`, and
/// so is the number of agents brought so far (`agents_by`, which is what a
/// session brings: see `lemma_session_brings_all_waves`).
pub proof fn lemma_spawn_scaling_monotonic(e1: nat, e2: nat)
    requires
        e1 <= e2,
        e1 % (WAVE_PERIOD_SECS as nat) == 0,
        e2 % (WAVE_PERIOD_SECS as nat) == 0,
    ensures
        wave_size(e1) <= wave_size(e2),
        agents_by(e1) <= agents_by(e2),
{
    assert(e1 / 15 <= e2 / 15) by (nonlinear_arith)
        requires
            e1 <= e2,
    ;
    lemma_agents_by_grows(e1, e2);
}

/// The number of agents brought so far never falls.
pub proof fn lemma_agents_by_grows(e1: nat, e2: nat)
    requires
        e1 <= e2,
    ensures
        agents_by(e1) <= agents_by(e2),
    decreases e2,
{
    if e1 < e2 {
        lemma_agents_by_grows(e1, (e2 - 1) as nat);
    }
}

/// Between two seconds with no multiple of the period strictly between
/// them, the agents brought so far grow by the wave of the later one alone.
proof fn lemma_agents_by_gap(y: nat, x: nat)
    requires
        y <= x,
        forall|m: nat| y < m < x ==> #[trigger] (m % (WAVE_PERIOD_SECS as nat)) != 0,
    ensures
        agents_by(x) == agents_by(y) + if x > y {
            wave_size(x)
        } else {
            0
        },
    decreases x,
{
    if x > y {
        lemma_agents_by_gap(y, (x - 1) as nat);
        if x - 1 > y {
            assert(((x - 1) as nat) % (WAVE_PERIOD_SECS as nat) != 0);
        }
    }
}

/// Over a session, each wave comes once and in full. A fresh spawner stepped
/// at the seconds of `s`, which never go back and pass through every
/// multiple of the period up to the last of them, brings exactly
/// `agents_by` of that last second; the last wave it records is at most that
/// second, and is that second when it is a multiple of the period.
pub proof fn lemma_session_brings_all_waves(s: Seq<u64>)
    requires
        s.len() > 0,
        forall|i: int, j: int| 0 <= i <= j < s.len() ==> s[i] <= s[j],
        forall|m: u64| m <= s.last() && m % WAVE_PERIOD_SECS == 0 ==> s.contains(m),
    ensures
        session(s).1 == agents_by(s.last() as nat),
        session(s).0 matches Some(m) ==> m <= s.last(),
        s.last() % WAVE_PERIOD_SECS == 0 ==> session(s).0 == Some(s.last()),
    decreases s.len(),
{
    let x = s.last();
    let p = s.drop_last();
    if s.len() == 1 {
        assert(s.contains(0u64));
        assert(x == 0);
        assert(p =~= Seq::<u64>::empty());
    } else {
        let y = p.last();
        assert(y == s[s.len() - 2]);
        assert forall|m: u64| m <= p.last() && m % WAVE_PERIOD_SECS == 0 implies p.contains(m) by {
            assert(s.contains(m));
            let i = choose|i: int| 0 <= i < s.len() && s[i] == m;
            if i == s.len() - 1 {
                assert(p[p.len() - 1] == m);
            } else {
                assert(p[i] == m);
            }
        }
        lemma_session_brings_all_waves(p);
        assert forall|m: nat| y < m < x implies #[trigger] (m % (WAVE_PERIOD_SECS as nat)) != 0 by {
            if m % (WAVE_PERIOD_SECS as nat) == 0 {
                assert(s.contains(m as u64));
                let i = choose|i: int| 0 <= i < s.len() && s[i] == m as u64;
                assert(s[i] <= s[s.len() - 2]);
            }
        }
        lemma_agents_by_gap(y as nat, x as nat);
    }
}

} // verus!
