use vstd::prelude::*;
use crate::command_queue::CommandView;
use crate::replay::{replay_step, run_ticks, SessionView};

verus! {

/// The commands a list of ticks holds for tick `t` (none when `t` is not in it).
pub open spec fn stream_at(s: Seq<(u32, Seq<CommandView>)>, t: u32) -> Seq<CommandView>
    decreases s.len(),
{
    if s.len() == 0 {
        Seq::empty()
    } else if s[0].0 == t {
        s[0].1
    } else {
        stream_at(s.drop_first(), t)
    }
}

/// The ticks of `s` strictly increase.
pub open spec fn ticks_increase(s: Seq<(u32, Seq<CommandView>)>) -> bool {
    forall|i: int, j: int| 0 <= i < j < s.len() ==> #[trigger] s[i].0 < #[trigger] s[j].0
}

/// Every tick of `s` holds at least one command.
pub open spec fn ticks_nonempty(s: Seq<(u32, Seq<CommandView>)>) -> bool {
    forall|i: int| 0 <= i < s.len() ==> (#[trigger] s[i]).1.len() > 0
}

proof fn lemma_stream_before(s: Seq<(u32, Seq<CommandView>)>, t: u32)
    requires
        ticks_increase(s),
        s.len() == 0 || t < s[0].0,
    ensures
        stream_at(s, t) == Seq::<CommandView>::empty(),
    decreases s.len(),
{
    if s.len() > 0 {
        let r = s.drop_first();
        assert forall|i: int, j: int| 0 <= i < j < r.len() implies #[trigger] r[i].0 < #[trigger] r[j].0 by {
            assert(r[i] == s[i + 1] && r[j] == s[j + 1]);
        }
        if r.len() > 0 {
            assert(r[0] == s[1]);
        }
        lemma_stream_before(r, t);
    }
}

proof fn lemma_drop_first_increase(s: Seq<(u32, Seq<CommandView>)>)
    requires
        ticks_increase(s),
        ticks_nonempty(s),
        s.len() > 0,
    ensures
        ticks_increase(s.drop_first()),
        ticks_nonempty(s.drop_first()),
        s.drop_first().len() > 0 ==> s[0].0 < s.drop_first()[0].0,
{
    let r = s.drop_first();
    assert forall|i: int, j: int| 0 <= i < j < r.len() implies #[trigger] r[i].0 < #[trigger] r[j].0 by {
        assert(r[i] == s[i + 1] && r[j] == s[j + 1]);
    }
    assert forall|i: int| 0 <= i < r.len() implies (#[trigger] r[i]).1.len() > 0 by {
        assert(r[i] == s[i + 1]);
    }
    if r.len() > 0 {
        assert(r[0] == s[1]);
    }
}

/// A replay matches in full exactly when the commands produced are the recorded ones:
/// producing the ticks of `produced` (strictly increasing, one entry per tick) against the
/// recorded ticks `expected` (strictly increasing, none empty) finds no mismatch and leaves
/// nothing recorded over if and only if, on every tick, the produced commands are the
/// recorded ones, in order (none on a tick that recorded none).
pub proof fn lemma_replay_matches_iff_same_stream(
    expected: Seq<(u32, Seq<CommandView>)>,
    produced: Seq<(u32, Seq<CommandView>)>,
)
    requires
        ticks_increase(expected),
        ticks_nonempty(expected),
        ticks_increase(produced),
    ensures
        (run_ticks(SessionView { expected, inflight: None }, produced) == (
        SessionView { expected: Seq::<(u32, Seq<CommandView>)>::empty(), inflight: None },
        false)) <==> (forall|t: u32| #[trigger] stream_at(expected, t) == stream_at(produced, t)),
    decreases produced.len(),
{
    let start = SessionView { expected, inflight: None };
    let done = SessionView { expected: Seq::<(u32, Seq<CommandView>)>::empty(), inflight: None };
    if produced.len() == 0 {
        if expected.len() > 0 {
            let t0 = expected[0].0;
            assert(stream_at(expected, t0) == expected[0].1);
            assert(stream_at(produced, t0) == Seq::<CommandView>::empty());
            assert(expected[0].1.len() > 0);
            assert(start != done);
        } else {
            assert(expected =~= Seq::<(u32, Seq<CommandView>)>::empty());
        }
    } else {
        let (t, c) = produced[0];
        let rest = produced.drop_first();
        assert forall|i: int, j: int| 0 <= i < j < rest.len() implies #[trigger] rest[i].0 < #[trigger] rest[j].0 by {
            assert(rest[i] == produced[i + 1] && rest[j] == produced[j + 1]);
        }
        if rest.len() > 0 {
            assert(rest[0] == produced[1]);
            assert(t < rest[0].0);
        }
        lemma_stream_before(rest, t);
        assert(stream_at(produced, t) == c);
        let (next, found) = replay_step(start, t, c);
        assert(run_ticks(start, produced) == (
            run_ticks(next, rest).0,
            found.is_some() || run_ticks(next, rest).1,
        ));
        if expected.len() > 0 && expected[0].0 < t {
            let t0 = expected[0].0;
            assert(found.is_some());
            assert(stream_at(expected, t0) == expected[0].1);
            assert(t0 != t);
            lemma_stream_before(rest, t0);
            assert(stream_at(produced, t0) == Seq::<CommandView>::empty());
        } else if expected.len() > 0 && expected[0].0 == t {
            let ecmds = expected[0].1;
            let erest = expected.drop_first();
            lemma_drop_first_increase(expected);
            assert(stream_at(expected, t) == ecmds);
            if c.len() > ecmds.len() || ecmds.take(c.len() as int) != c {
                assert(found.is_some());
                assert(c != ecmds) by {
                    if c == ecmds {
                        assert(ecmds.take(c.len() as int) =~= c);
                    }
                }
            } else if c.len() < ecmds.len() {
                assert(c != ecmds);
                assert(found.is_none());
                assert(next.inflight.is_some());
                if rest.len() > 0 {
                    assert(replay_step(next, rest[0].0, rest[0].1).1.is_some());
                } else {
                    assert(run_ticks(next, rest) == (next, false));
                }
            } else {
                assert(ecmds.take(c.len() as int) =~= ecmds);
                assert(c == ecmds);
                assert(next == SessionView { expected: erest, inflight: None });
                assert(found.is_none());
                lemma_replay_matches_iff_same_stream(erest, rest);
                lemma_stream_before(erest, t);
                assert forall|u: u32| u != t implies #[trigger] stream_at(expected, u) == stream_at(erest, u)
                    && stream_at(produced, u) == stream_at(rest, u) by {
                }
                if forall|u: u32| #[trigger] stream_at(expected, u) == stream_at(produced, u) {
                    assert forall|u: u32| #[trigger] stream_at(erest, u) == stream_at(rest, u) by {
                        if u != t {
                            assert(stream_at(expected, u) == stream_at(produced, u));
                        }
                    }
                }
                if forall|u: u32| #[trigger] stream_at(erest, u) == stream_at(rest, u) {
                    assert forall|u: u32| #[trigger] stream_at(expected, u) == stream_at(produced, u) by {
                        if u != t {
                            assert(stream_at(erest, u) == stream_at(rest, u));
                        }
                    }
                }
            }
        } else {
            lemma_stream_before(expected, t);
            if c.len() == 0 {
                assert(next == start);
                assert(found.is_none());
                lemma_replay_matches_iff_same_stream(expected, rest);
                assert forall|u: u32| u != t implies #[trigger] stream_at(produced, u) == stream_at(rest, u) by {
                }
                if forall|u: u32| #[trigger] stream_at(expected, u) == stream_at(produced, u) {
                    assert forall|u: u32| #[trigger] stream_at(expected, u) == stream_at(rest, u) by {
                        if u != t {
                            assert(stream_at(expected, u) == stream_at(produced, u));
                        } else {
                            assert(c =~= Seq::<CommandView>::empty());
                        }
                    }
                }
                if forall|u: u32| #[trigger] stream_at(expected, u) == stream_at(rest, u) {
                    assert forall|u: u32| #[trigger] stream_at(expected, u) == stream_at(produced, u) by {
                        if u != t {
                            assert(stream_at(expected, u) == stream_at(rest, u));
                        } else {
                            assert(c =~= Seq::<CommandView>::empty());
                        }
                    }
                }
            } else {
                assert(found.is_some());
                assert(stream_at(expected, t) != c);
            }
        }
    }
}

} // verus!
