use vstd::prelude::*;
use crate::command_queue::{command_views, Command, CommandView};

verus! {

/// A recorded command with the tick it was produced on.
#[derive(Debug, Clone)]
pub struct TimedCommand {
    pub tick: u32,
    pub command: Command,
}

/// A disagreement between the recording and the replay at `tick`: what was expected and
/// what was produced.
#[derive(Debug, Clone)]
pub struct Mismatch {
    pub tick: u32,
    pub expected: Vec<Command>,
    pub got: Vec<Command>,
}

/// What a mismatch says.
pub open spec fn mismatch_view(m: Mismatch) -> (u32, Seq<CommandView>, Seq<CommandView>) {
    (m.tick, command_views(m.expected@), command_views(m.got@))
}

/// The commands of one recorded tick that are only partly matched so far.
struct InFlight {
    tick: u32,
    commands: Vec<Command>,
    consumed: usize,
}

/// A partly matched tick: its number, its commands and how many were matched.
pub struct InFlightView {
    pub tick: u32,
    pub commands: Seq<CommandView>,
    pub consumed: int,
}

/// The state of a replay: recorded ticks not yet reached, in order, and the tick being
/// matched, if any.
pub struct SessionView {
    pub expected: Seq<(u32, Seq<CommandView>)>,
    pub inflight: Option<InFlightView>,
}

/// Result of matching one tick: the next state and the mismatch found, if any.
pub type StepResult = (SessionView, Option<(u32, Seq<CommandView>, Seq<CommandView>)>);

/// Matching a tick against the next recorded tick, with nothing in flight.
pub open spec fn step_expected(expected: Seq<(u32, Seq<CommandView>)>, tick: u32, cmds: Seq<CommandView>) -> StepResult {
    let idle = SessionView { expected, inflight: None };
    if expected.len() > 0 && expected[0].0 < tick {
        (SessionView { expected: expected.drop_first(), inflight: None }, Some((expected[0].0, expected[0].1, Seq::empty())))
    } else if expected.len() > 0 && expected[0].0 == tick {
        let (et, ecmds) = expected[0];
        let rest = expected.drop_first();
        if cmds.len() > ecmds.len() {
            (SessionView { expected: rest, inflight: None }, Some((et, ecmds, cmds)))
        } else if ecmds.take(cmds.len() as int) != cmds {
            (SessionView { expected: rest, inflight: None }, Some((et, ecmds, cmds)))
        } else if cmds.len() < ecmds.len() {
            (
                SessionView {
                    expected: rest,
                    inflight: Some(InFlightView { tick: et, commands: ecmds, consumed: cmds.len() as int }),
                },
                None,
            )
        } else {
            (SessionView { expected: rest, inflight: None }, None)
        }
    } else if cmds.len() == 0 {
        (idle, None)
    } else {
        (idle, Some((tick, Seq::empty(), cmds)))
    }
}

/// Matching the commands produced on `tick` against the recording.
pub open spec fn replay_step(s: SessionView, tick: u32, cmds: Seq<CommandView>) -> StepResult {
    match s.inflight {
        Some(cur) => {
            let dropped = SessionView { expected: s.expected, inflight: None };
            if tick > cur.tick && cur.consumed < cur.commands.len() {
                (dropped, Some((cur.tick, cur.commands.skip(cur.consumed), Seq::empty())))
            } else if tick < cur.tick {
                if cmds.len() == 0 {
                    (s, None)
                } else {
                    (dropped, Some((tick, Seq::empty(), cmds)))
                }
            } else if tick == cur.tick {
                let remaining = cur.commands.len() - cur.consumed;
                if cmds.len() > remaining {
                    (dropped, Some((cur.tick, cur.commands.skip(cur.consumed), cmds)))
                } else if cur.commands.subrange(cur.consumed, cur.consumed + cmds.len()) != cmds {
                    (dropped, Some((cur.tick, cur.commands, cmds)))
                } else if cur.consumed + cmds.len() < cur.commands.len() {
                    (
                        SessionView {
                            expected: s.expected,
                            inflight: Some(InFlightView { consumed: cur.consumed + cmds.len(), ..cur }),
                        },
                        None,
                    )
                } else {
                    (dropped, None)
                }
            } else {
                step_expected(s.expected, tick, cmds)
            }
        },
        None => step_expected(s.expected, tick, cmds),
    }
}

/// Whether the views of `a[start..start + b.len()]` are those of `b`.
fn commands_match(a: &Vec<Command>, start: usize, b: &[Command]) -> (r: bool)
    requires
        start + b@.len() <= a@.len(),
    ensures
        r == (command_views(a@).subrange(start as int, start + b@.len()) == command_views(b@)),
{
    let mut i: usize = 0;
    while i < b.len()
        invariant
            i <= b@.len(),
            start + b@.len() <= a.len(),
            forall|j: int| 0 <= j < i ==> a@[start + j]@ == #[trigger] b@[j]@,
        decreases b.len() - i,
    {
        if !a[start + i].same_as(&b[i]) {
            assert(command_views(a@).subrange(start as int, start + b@.len())[i as int] != command_views(b@)[i as int]);
            return false;
        }
        i = i + 1;
    }
    assert(command_views(a@).subrange(start as int, start + b@.len()) =~= command_views(b@));
    true
}

/// Copies of `v[from..]`.
fn copy_from(v: &Vec<Command>, from: usize) -> (r: Vec<Command>)
    requires
        from <= v@.len(),
    ensures
        command_views(r@) == command_views(v@).skip(from as int),
{
    let mut out: Vec<Command> = Vec::new();
    let mut i: usize = from;
    while i < v.len()
        invariant
            from <= i <= v@.len(),
            command_views(out@) == command_views(v@).subrange(from as int, i as int),
        decreases v.len() - i,
    {
        let c = v[i].duplicate();
        let ghost before = out@;
        out.push(c);
        assert(command_views(out@) =~= command_views(before).push(c@));
        assert(command_views(v@).subrange(from as int, i + 1) =~= command_views(v@).subrange(
            from as int,
            i as int,
        ).push(v@[i as int]@));
        i = i + 1;
    }
    assert(command_views(v@).subrange(from as int, v@.len() as int) =~= command_views(v@).skip(from as int));
    out
}

/// Copies of a slice of commands.
fn copy_slice(v: &[Command]) -> (r: Vec<Command>)
    ensures
        command_views(r@) == command_views(v@),
{
    let mut out: Vec<Command> = Vec::new();
    let mut i: usize = 0;
    while i < v.len()
        invariant
            i <= v@.len(),
            command_views(out@) == command_views(v@).take(i as int),
        decreases v.len() - i,
    {
        let c = v[i].duplicate();
        let ghost before = out@;
        out.push(c);
        assert(command_views(out@) =~= command_views(before).push(c@));
        assert(command_views(v@).take(i + 1) =~= command_views(v@).take(i as int).push(v@[i as int]@));
        i = i + 1;
    }
    assert(command_views(v@).take(v@.len() as int) =~= command_views(v@));
    out
}

fn mismatch(tick: u32, expected: Vec<Command>, got: Vec<Command>) -> (r: Option<Mismatch>)
    ensures
        r is Some,
        mismatch_view(r->0) == (tick, command_views(expected@), command_views(got@)),
{
    Some(Mismatch { tick, expected, got })
}

/// How a finished replay went: the mismatches still to report and whether it failed.
#[derive(Debug)]
pub struct ReplayReport {
    pub mismatches: Vec<Mismatch>,
    pub failed: bool,
}

/// What a list of mismatches says.
pub open spec fn reported_views(ms: Seq<Mismatch>) -> Seq<(u32, Seq<CommandView>, Seq<CommandView>)> {
    ms.map_values(|m: Mismatch| mismatch_view(m))
}

/// Recorded ticks never produced, as mismatches with nothing produced.
pub open spec fn pending_views(groups: Seq<(u32, Vec<Command>)>) -> Seq<(u32, Seq<CommandView>, Seq<CommandView>)> {
    groups.map_values(|g: (u32, Vec<Command>)| (g.0, command_views(g.1@), Seq::<CommandView>::empty()))
}

/// Everything recorded that is still owed: the rest of the tick in flight, then each
/// recorded tick left, each as a mismatch with nothing produced.
pub open spec fn leftovers(s: SessionView) -> Seq<(u32, Seq<CommandView>, Seq<CommandView>)> {
    let head: Seq<(u32, Seq<CommandView>, Seq<CommandView>)> = match s.inflight {
        Some(f) => seq![(f.tick, f.commands.skip(f.consumed), Seq::<CommandView>::empty())],
        None => Seq::empty(),
    };
    head + s.expected.map_values(|g: (u32, Seq<CommandView>)| (g.0, g.1, Seq::<CommandView>::empty()))
}

/// Replays a recording tick by tick and reports where the produced commands differ.
pub struct ReplaySession {
    expected: Vec<(u32, Vec<Command>)>,
    next: usize,
    inflight: Option<InFlight>,
    continue_after_mismatch: bool,
    mismatched: bool,
    logs_enabled: bool,
}

/// The view of a recorded tick.
pub open spec fn group_view(g: (u32, Vec<Command>)) -> (u32, Seq<CommandView>) {
    (g.0, command_views(g.1@))
}

impl ReplaySession {
    /// The replay state.
    pub closed spec fn view_state(&self) -> SessionView {
        SessionView {
            expected: self.expected@.skip(self.next as int).map_values(|g: (u32, Vec<Command>)| group_view(g)),
            inflight: match self.inflight {
                Some(f) => Some(InFlightView { tick: f.tick, commands: command_views(f.commands@), consumed: f.consumed as int }),
                None => None,
            },
        }
    }

    /// The internal positions are consistent.
    pub closed spec fn wf(&self) -> bool {
        &&& self.next <= self.expected@.len()
        &&& match self.inflight {
            Some(f) => f.consumed < f.commands@.len(),
            None => true,
        }
    }

    /// Whether a mismatch has been seen.
    pub closed spec fn has_mismatched(&self) -> bool {
        self.mismatched
    }

    /// Whether the replay goes on after a mismatch.
    pub closed spec fn continues(&self) -> bool {
        self.continue_after_mismatch
    }

    /// Whether mismatches are logged.
    pub closed spec fn logs(&self) -> bool {
        self.logs_enabled
    }

    /// A session for recorded ticks `groups` (in increasing tick order), nothing in flight.
    pub fn from_groups(groups: Vec<(u32, Vec<Command>)>, continue_after_mismatch: bool, logs_enabled: bool) -> (r: Self)
        ensures
            r.wf(),
            r.view_state().expected == groups@.map_values(|g: (u32, Vec<Command>)| group_view(g)),
            r.view_state().inflight.is_none(),
            !r.has_mismatched(),
            r.continues() == continue_after_mismatch,
            r.logs() == logs_enabled,
    {
        let r = ReplaySession {
            expected: groups,
            next: 0,
            inflight: None,
            continue_after_mismatch,
            mismatched: false,
            logs_enabled,
        };
        assert(r.expected@.skip(0) == r.expected@);
        r
    }

    /// Matches the commands produced on `tick` against the recording; returns the first
    /// disagreement found, if any.
    pub fn compute_mismatch(&mut self, tick: u32, commands: &[Command]) -> (r: Option<Mismatch>)
        requires
            old(self).wf(),
        ensures
            final(self).wf(),
            (final(self).view_state(), match r {
                Some(m) => Some(mismatch_view(m)),
                None => None,
            }) == replay_step(old(self).view_state(), tick, command_views(commands@)),
            final(self).has_mismatched() == old(self).has_mismatched(),
            final(self).continues() == old(self).continues(),
            final(self).logs() == old(self).logs(),
    {
        let ghost s0 = self.view_state();
        let ghost cv = command_views(commands@);
        let taken = match self.inflight {
            Some(_) => {
                let mut t: Option<InFlight> = None;
                std::mem::swap(&mut t, &mut self.inflight);
                t
            },
            None => None,
        };
        match taken {
            Some(current) => {
                if tick > current.tick && current.consumed < current.commands.len() {
                    let rest = copy_from(&current.commands, current.consumed);
                    return mismatch(current.tick, rest, Vec::new());
                }
                if tick < current.tick {
                    if commands.len() == 0 {
                        self.inflight = Some(current);
                        return None;
                    }
                    return mismatch(tick, Vec::new(), copy_slice(commands));
                }
                if tick == current.tick {
                    let remaining = current.commands.len() - current.consumed;
                    if commands.len() > remaining {
                        let rest = copy_from(&current.commands, current.consumed);
                        return mismatch(current.tick, rest, copy_slice(commands));
                    }
                    if !commands_match(&current.commands, current.consumed, commands) {
                        let all = copy_from(&current.commands, 0);
                        assert(command_views(current.commands@).skip(0) =~= command_views(current.commands@));
                        return mismatch(current.tick, all, copy_slice(commands));
                    }
                    let consumed = current.consumed + commands.len();
                    if consumed < current.commands.len() {
                        self.inflight = Some(InFlight { tick: current.tick, commands: current.commands, consumed });
                    }
                    return None;
                }
            },
            None => {},
        }
        self.match_expected(tick, commands)
    }

    fn match_expected(&mut self, tick: u32, commands: &[Command]) -> (r: Option<Mismatch>)
        requires
            old(self).wf(),
            old(self).inflight.is_none(),
        ensures
            final(self).wf(),
            (final(self).view_state(), match r {
                Some(m) => Some(mismatch_view(m)),
                None => None,
            }) == step_expected(old(self).view_state().expected, tick, command_views(commands@)),
            final(self).mismatched == old(self).mismatched,
            final(self).continue_after_mismatch == old(self).continue_after_mismatch,
            final(self).logs_enabled == old(self).logs_enabled,
    {
        let ghost exp = self.view_state().expected;
        if self.next < self.expected.len() {
            proof {
                assert(self.expected@.skip(self.next + 1) =~= self.expected@.skip(self.next as int).drop_first());
                assert(self.expected@.skip(self.next + 1).map_values(|g: (u32, Vec<Command>)| group_view(g))
                    =~= exp.drop_first());
            }
            let et = self.expected[self.next].0;
            assert(exp[0] == group_view(self.expected@[self.next as int]));
            if et < tick {
                let cmds = copy_from(&self.expected[self.next].1, 0);
                assert(command_views(self.expected@[self.next as int].1@).skip(0) =~= command_views(self.expected@[self.next as int].1@));
                self.next = self.next + 1;
                return mismatch(et, cmds, Vec::new());
            }
            if et == tick {
                let ecmds = copy_from(&self.expected[self.next].1, 0);
                assert(command_views(self.expected@[self.next as int].1@).skip(0) =~= command_views(self.expected@[self.next as int].1@));
                self.next = self.next + 1;
                if commands.len() > ecmds.len() {
                    return mismatch(et, ecmds, copy_slice(commands));
                }
                if !commands_match(&ecmds, 0, commands) {
                    assert(command_views(ecmds@).subrange(0, commands@.len() as int) =~= command_views(ecmds@).take(commands@.len() as int));
                    return mismatch(et, ecmds, copy_slice(commands));
                }
                assert(command_views(ecmds@).subrange(0, commands@.len() as int) =~= command_views(ecmds@).take(commands@.len() as int));
                let consumed = commands.len();
                if consumed < ecmds.len() {
                    self.inflight = Some(InFlight { tick: et, commands: ecmds, consumed });
                }
                return None;
            }
        }
        if commands.len() == 0 {
            None
        } else {
            mismatch(tick, Vec::new(), copy_slice(commands))
        }
    }

    /// Records that a mismatch was reported; fails unless the replay goes on after one.
    pub fn note_mismatch(&mut self) -> (r: Result<(), ()>)
        ensures
            final(self).has_mismatched(),
            final(self).view_state() == old(self).view_state(),
            final(self).wf() == old(self).wf(),
            final(self).continues() == old(self).continues(),
            final(self).logs() == old(self).logs(),
            r is Ok <==> old(self).continues(),
    {
        self.mismatched = true;
        if self.continue_after_mismatch {
            Ok(())
        } else {
            Err(())
        }
    }

    /// Ends the replay: whatever recorded commands were never produced are mismatches
    /// (the rest of the tick in flight first, then each recorded tick left). Unless the
    /// replay goes on after a mismatch, reporting stops at the first one and the replay
    /// fails if any mismatch was ever seen.
    pub fn finalize(&mut self) -> (r: ReplayReport)
        requires
            old(self).wf(),
        ensures
            r.failed == (!old(self).continues() && (old(self).has_mismatched()
                || old(self).view_state().inflight.is_some() || old(self).view_state().expected.len() > 0)),
            old(self).continues() ==> reported_views(r.mismatches@) == leftovers(old(self).view_state()),
            !old(self).continues() ==> reported_views(r.mismatches@) == (if leftovers(
                old(self).view_state(),
            ).len() > 0 {
                seq![leftovers(old(self).view_state())[0]]
            } else {
                Seq::empty()
            }),
            final(self).view_state().expected.len() == 0,
            final(self).view_state().inflight.is_none(),
    {
        let ghost s0 = self.view_state();
        let ghost head: Seq<(u32, Seq<CommandView>, Seq<CommandView>)> = match s0.inflight {
            Some(f) => seq![(f.tick, f.commands.skip(f.consumed), Seq::<CommandView>::empty())],
            None => Seq::empty(),
        };
        let mut reported: Vec<Mismatch> = Vec::new();
        let had = self.inflight.is_some();
        let mut t: Option<InFlight> = None;
        std::mem::swap(&mut t, &mut self.inflight);
        match t {
            Some(current) => {
                let rest = copy_from(&current.commands, current.consumed);
                let m = Mismatch { tick: current.tick, expected: rest, got: Vec::new() };
                assert(command_views(m.got@) =~= Seq::<CommandView>::empty());
                reported.push(m);
                assert(reported_views(reported@) =~= seq![mismatch_view(m)]);
                assert(reported_views(reported@) =~= head);
                self.mismatched = true;
                if !self.continue_after_mismatch {
                    self.next = self.expected.len();
                    assert(self.expected@.skip(self.next as int).len() == 0);
                    return ReplayReport { mismatches: reported, failed: true };
                }
            },
            None => {
                assert(reported_views(reported@) =~= head);
            },
        }
        let ghost start = self.next;
        while self.next < self.expected.len()
            invariant
                start <= self.next <= self.expected@.len(),
                self.inflight.is_none(),
                self.continue_after_mismatch == old(self).continue_after_mismatch,
                self.continue_after_mismatch ==> reported_views(reported@) == head + pending_views(
                    self.expected@.subrange(start as int, self.next as int),
                ),
                !self.continue_after_mismatch ==> reported@.len() == 0 && self.next == start && !had,
                had == old(self).inflight.is_some(),
                start == old(self).next,
                self.expected == old(self).expected,
                self.mismatched == (old(self).mismatched || had || self.next > start),
                s0 == old(self).view_state(),
            decreases self.expected.len() - self.next,
        {
            let tick = self.expected[self.next].0;
            let cmds = copy_from(&self.expected[self.next].1, 0);
            assert(command_views(self.expected@[self.next as int].1@).skip(0) =~= command_views(
                self.expected@[self.next as int].1@,
            ));
            let ghost before = reported@;
            let m = Mismatch { tick, expected: cmds, got: Vec::new() };
            assert(command_views(m.got@) =~= Seq::<CommandView>::empty());
            reported.push(m);
            assert(reported_views(reported@) =~= reported_views(before).push(
                (tick, command_views(self.expected@[self.next as int].1@), Seq::<CommandView>::empty()),
            ));
            assert(self.expected@.subrange(start as int, self.next + 1) =~= self.expected@.subrange(
                start as int,
                self.next as int,
            ).push(self.expected@[self.next as int]));
            assert(pending_views(self.expected@.subrange(start as int, self.next + 1)) =~= pending_views(
                self.expected@.subrange(start as int, self.next as int),
            ).push((tick, command_views(self.expected@[self.next as int].1@), Seq::<CommandView>::empty())));
            self.next = self.next + 1;
            self.mismatched = true;
            if !self.continue_after_mismatch {
                proof {
                    assert(pending_views(self.expected@.subrange(start as int, start as int)) =~= Seq::<
                        (u32, Seq<CommandView>, Seq<CommandView>),
                    >::empty());
                    assert(s0.expected.len() > 0);
                    assert(s0.expected[0] == group_view(self.expected@[start as int]));
                    assert(leftovers(s0)[0] == (tick, command_views(self.expected@[start as int].1@), Seq::<CommandView>::empty()));
                }
                self.next = self.expected.len();
                assert(self.expected@.skip(self.next as int).len() == 0);
                return ReplayReport { mismatches: reported, failed: true };
            }
        }
        proof {
            assert(self.expected@.subrange(start as int, self.expected@.len() as int) =~= self.expected@.skip(start as int));
            assert(pending_views(self.expected@.skip(start as int)) =~= s0.expected.map_values(
                |g: (u32, Seq<CommandView>)| (g.0, g.1, Seq::<CommandView>::empty()),
            ));
            if !self.continue_after_mismatch {
                assert(leftovers(s0) =~= Seq::<(u32, Seq<CommandView>, Seq<CommandView>)>::empty());
                assert(reported_views(reported@) =~= Seq::<(u32, Seq<CommandView>, Seq<CommandView>)>::empty());
            }
        }
        assert(self.expected@.skip(self.next as int).len() == 0);
        let failed = self.mismatched && !self.continue_after_mismatch;
        ReplayReport { mismatches: reported, failed }
    }
}

/// The commands recorded on tick `t`, in recording order.
pub open spec fn commands_at(record: Seq<TimedCommand>, t: u32) -> Seq<CommandView>
    decreases record.len(),
{
    if record.len() == 0 {
        Seq::empty()
    } else {
        let prev = commands_at(record.drop_last(), t);
        if record.last().tick == t {
            prev.push(record.last().command@)
        } else {
            prev
        }
    }
}

/// Some command was recorded on tick `t`.
pub open spec fn recorded_tick(record: Seq<TimedCommand>, t: u32) -> bool {
    exists|i: int| 0 <= i < record.len() && #[trigger] record[i].tick == t
}

/// Ticks strictly increase along the sequence.
pub open spec fn strictly_increasing(s: Seq<u32>) -> bool {
    forall|i: int, j: int| 0 <= i < j < s.len() ==> #[trigger] s[i] < #[trigger] s[j]
}

fn insert_tick(ticks: &mut Vec<u32>, t: u32)
    requires
        strictly_increasing(old(ticks)@),
    ensures
        strictly_increasing(final(ticks)@),
        forall|x: u32| #[trigger] final(ticks)@.contains(x) <==> (old(ticks)@.contains(x) || x == t),
{
    let mut p: usize = 0;
    while p < ticks.len() && ticks[p] < t
        invariant
            p <= ticks@.len(),
            forall|j: int| 0 <= j < p ==> #[trigger] ticks@[j] < t,
        decreases ticks@.len() - p,
    {
        p = p + 1;
    }
    if p < ticks.len() && ticks[p] == t {
        assert(ticks@.contains(t) && ticks@[p as int] == t);
        return;
    }
    let ghost s = ticks@;
    ticks.insert(p, t);
    assert forall|i: int, j: int| 0 <= i < j < ticks@.len() implies #[trigger] ticks@[i] < #[trigger] ticks@[j] by {
        if j < p {
        } else if j == p {
            assert(ticks@[i] == s[i]);
        } else if i < p {
            assert(ticks@[j] == s[j - 1]);
        } else if i == p {
            assert(ticks@[j] == s[j - 1]);
        } else {
            assert(ticks@[i] == s[i - 1]);
            assert(ticks@[j] == s[j - 1]);
        }
    }
    assert forall|x: u32| #[trigger] ticks@.contains(x) <==> (s.contains(x) || x == t) by {
        if ticks@.contains(x) {
            let k = choose|k: int| 0 <= k < ticks@.len() && ticks@[k] == x;
            if k < p {
                assert(s[k] == x);
            } else if k > p {
                assert(s[k - 1] == x);
            }
        }
        if s.contains(x) {
            let k = choose|k: int| 0 <= k < s.len() && s[k] == x;
            if k < p {
                assert(ticks@[k] == x);
            } else {
                assert(ticks@[k + 1] == x);
            }
        }
        if x == t {
            assert(ticks@[p as int] == t);
        }
    }
}

fn collect_at(record: &Vec<TimedCommand>, t: u32) -> (r: Vec<Command>)
    ensures
        command_views(r@) == commands_at(record@, t),
{
    let mut out: Vec<Command> = Vec::new();
    let mut i: usize = 0;
    while i < record.len()
        invariant
            i <= record@.len(),
            command_views(out@) == commands_at(record@.take(i as int), t),
        decreases record.len() - i,
    {
        assert(record@.take(i + 1).drop_last() =~= record@.take(i as int));
        if record[i].tick == t {
            let c = record[i].command.duplicate();
            let ghost before = out@;
            out.push(c);
            assert(command_views(out@) =~= command_views(before).push(c@));
        }
        i = i + 1;
    }
    assert(record@.take(record@.len() as int) =~= record@);
    out
}

impl ReplaySession {
    /// A session over a recording: its commands grouped by tick, ticks in increasing
    /// order, each group in recording order.
    pub fn replay(record: &Vec<TimedCommand>, continue_after_mismatch: bool, logs_enabled: bool) -> (r: Self)
        ensures
            r.wf(),
            r.view_state().inflight.is_none(),
            !r.has_mismatched(),
            r.continues() == continue_after_mismatch,
            r.logs() == logs_enabled,
            strictly_increasing(r.view_state().expected.map_values(|g: (u32, Seq<CommandView>)| g.0)),
            forall|i: int|
                0 <= i < r.view_state().expected.len() ==> #[trigger] r.view_state().expected[i].1
                    == commands_at(record@, r.view_state().expected[i].0),
            forall|i: int|
                0 <= i < r.view_state().expected.len() ==> recorded_tick(
                    record@,
                    #[trigger] r.view_state().expected[i].0,
                ),
            forall|t: u32|
                recorded_tick(record@, t) ==> exists|i: int|
                    0 <= i < r.view_state().expected.len() && #[trigger] r.view_state().expected[i].0 == t,
    {
        let mut ticks: Vec<u32> = Vec::new();
        let mut i: usize = 0;
        while i < record.len()
            invariant
                i <= record@.len(),
                strictly_increasing(ticks@),
                forall|x: u32| #[trigger] ticks@.contains(x) <==> recorded_tick(record@.take(i as int), x),
            decreases record.len() - i,
        {
            let t = record[i].tick;
            insert_tick(&mut ticks, t);
            assert forall|x: u32| #[trigger] ticks@.contains(x) <==> recorded_tick(record@.take(i + 1), x) by {
                if recorded_tick(record@.take(i + 1), x) {
                    let k = choose|k: int| 0 <= k < i + 1 && #[trigger] record@.take(i + 1)[k].tick == x;
                    if k < i {
                        assert(record@.take(i as int)[k].tick == x);
                    }
                }
                if recorded_tick(record@.take(i as int), x) {
                    let k = choose|k: int| 0 <= k < i && #[trigger] record@.take(i as int)[k].tick == x;
                    assert(record@.take(i + 1)[k].tick == x);
                }
                if x == t {
                    assert(record@.take(i + 1)[i as int].tick == x);
                }
            }
            i = i + 1;
        }
        assert(record@.take(record@.len() as int) =~= record@);
        let mut groups: Vec<(u32, Vec<Command>)> = Vec::new();
        let mut j: usize = 0;
        while j < ticks.len()
            invariant
                j <= ticks@.len(),
                groups@.len() == j,
                forall|k: int| 0 <= k < j ==> #[trigger] groups@[k].0 == ticks@[k],
                forall|k: int| 0 <= k < j ==> command_views(#[trigger] groups@[k].1@) == commands_at(record@, ticks@[k]),
            decreases ticks.len() - j,
        {
            let t = ticks[j];
            let cmds = collect_at(record, t);
            groups.push((t, cmds));
            j = j + 1;
        }
        let r = ReplaySession {
            expected: groups,
            next: 0,
            inflight: None,
            continue_after_mismatch,
            mismatched: false,
            logs_enabled,
        };
        assert(r.expected@.skip(0) == r.expected@);
        let ghost exp = r.view_state().expected;
        assert(exp.map_values(|g: (u32, Seq<CommandView>)| g.0) =~= ticks@);
        assert forall|k: int| 0 <= k < exp.len() implies recorded_tick(record@, #[trigger] exp[k].0) by {
            assert(ticks@.contains(ticks@[k]));
        }
        assert forall|t: u32| recorded_tick(record@, t) implies exists|k: int|
            0 <= k < exp.len() && #[trigger] exp[k].0 == t by {
            assert(ticks@.contains(t));
            let k = choose|k: int| 0 <= k < ticks@.len() && ticks@[k] == t;
            assert(exp[k].0 == t);
        }
        r
    }

    /// Matches the commands produced on `tick`; a mismatch is recorded and, unless the
    /// replay goes on after one, turns into an error.
    pub fn push_commands(&mut self, tick: u32, commands: &[Command]) -> (r: Result<Option<Mismatch>, Mismatch>)
        requires
            old(self).wf(),
        ensures
            final(self).wf(),
            final(self).view_state() == replay_step(old(self).view_state(), tick, command_views(commands@)).0,
            match r {
                Ok(None) => replay_step(old(self).view_state(), tick, command_views(commands@)).1.is_none()
                    && final(self).has_mismatched() == old(self).has_mismatched(),
                Ok(Some(m)) => replay_step(old(self).view_state(), tick, command_views(commands@)).1
                    == Some(mismatch_view(m)) && old(self).continues() && final(self).has_mismatched(),
                Err(m) => replay_step(old(self).view_state(), tick, command_views(commands@)).1
                    == Some(mismatch_view(m)) && !old(self).continues() && final(self).has_mismatched(),
            },
            final(self).continues() == old(self).continues(),
            final(self).logs() == old(self).logs(),
    {
        match self.compute_mismatch(tick, commands) {
            None => Ok(None),
            Some(m) => {
                match self.note_mismatch() {
                    Ok(()) => Ok(Some(m)),
                    Err(()) => Err(m),
                }
            },
        }
    }
}

/// Producing exactly the commands recorded for the next recorded tick, on that tick,
/// matches them all: no mismatch, and the tick is done.
pub proof fn lemma_faithful_tick_matches(expected: Seq<(u32, Seq<CommandView>)>)
    requires
        expected.len() > 0,
    ensures
        replay_step(SessionView { expected, inflight: None }, expected[0].0, expected[0].1) == (
        SessionView { expected: expected.drop_first(), inflight: None },
        None::<(u32, Seq<CommandView>, Seq<CommandView>)>),
{
    assert(expected[0].1.take(expected[0].1.len() as int) =~= expected[0].1);
}

/// Producing nothing on a tick before the next recorded one (or after the last) is no
/// mismatch and changes nothing.
pub proof fn lemma_quiet_tick_matches(expected: Seq<(u32, Seq<CommandView>)>, tick: u32)
    requires
        expected.len() == 0 || tick < expected[0].0,
    ensures
        replay_step(SessionView { expected, inflight: None }, tick, Seq::empty()) == (
        SessionView { expected, inflight: None },
        None::<(u32, Seq<CommandView>, Seq<CommandView>)>),
{
}

/// Producing on a tick commands that were never recorded for it is always a mismatch.
pub proof fn lemma_unrecorded_commands_mismatch(expected: Seq<(u32, Seq<CommandView>)>, tick: u32, cmds: Seq<CommandView>)
    requires
        cmds.len() > 0,
        expected.len() == 0 || tick < expected[0].0,
    ensures
        replay_step(SessionView { expected, inflight: None }, tick, cmds).1 == Some((tick, Seq::<CommandView>::empty(), cmds)),
{
}

/// The state after matching the produced ticks `produced` in order, and whether any of
/// them was a mismatch.
pub open spec fn run_ticks(s: SessionView, produced: Seq<(u32, Seq<CommandView>)>) -> (SessionView, bool)
    decreases produced.len(),
{
    if produced.len() == 0 {
        (s, false)
    } else {
        let (next, found) = replay_step(s, produced[0].0, produced[0].1);
        let (last, later) = run_ticks(next, produced.drop_first());
        (last, found.is_some() || later)
    }
}

/// Producing exactly the recorded ticks, in order, matches the whole recording: no
/// mismatch is found and nothing recorded is left over.
pub proof fn lemma_faithful_replay(expected: Seq<(u32, Seq<CommandView>)>)
    ensures
        run_ticks(SessionView { expected, inflight: None }, expected) == (
        SessionView { expected: Seq::<(u32, Seq<CommandView>)>::empty(), inflight: None },
        false),
    decreases expected.len(),
{
    if expected.len() > 0 {
        lemma_faithful_tick_matches(expected);
        lemma_faithful_replay(expected.drop_first());
    } else {
        assert(expected =~= Seq::<(u32, Seq<CommandView>)>::empty());
    }
}

} // verus!
