use vstd::prelude::*;

verus! {

/// A modification time, in nanoseconds relative to the Unix epoch (negative
/// before it). Only its order matters.
#[derive(Debug, Clone, Copy, PartialEq, Eq, Structural)]
pub struct Timestamp {
    pub nanos: i128,
}

/// The outcome of the staleness check: whether to run the command, and why.
#[derive(Debug)]
pub struct Decision {
    pub run: bool,
    /// A human-facing justification; nothing parses it.
    pub reason: String,
}

/// Whether input `i` was modified strictly after `out`.
pub open spec fn newer_than(entries: Seq<(String, Timestamp)>, i: int, out: Timestamp) -> bool {
    out.nanos < entries[i].1.nanos
}

/// Whether some input was modified strictly after `out`.
pub open spec fn some_newer(entries: Seq<(String, Timestamp)>, out: Timestamp) -> bool {
    exists|i: int| 0 <= i < entries.len() && #[trigger] newer_than(entries, i, out)
}

/// Whether the output, whose probe gave `out` (`None`: absent), must be
/// rebuilt from the resolved inputs `entries`: it is absent, or some input is
/// strictly newer. Equal times never make it stale.
pub open spec fn stale(entries: Seq<(String, Timestamp)>, out: Option<Timestamp>) -> bool {
    match out {
        None => true,
        Some(o) => some_newer(entries, o),
    }
}

/// `i` is the first input, in resolution order, that is strictly newer than `out`.
pub open spec fn is_first_newer(entries: Seq<(String, Timestamp)>, out: Timestamp, i: int) -> bool {
    &&& 0 <= i < entries.len()
    &&& newer_than(entries, i, out)
    &&& forall|j: int| 0 <= j < i ==> !#[trigger] newer_than(entries, j, out)
}

/// The first input, in resolution order, that is strictly newer than `out`.
pub open spec fn first_newer(entries: Seq<(String, Timestamp)>, out: Timestamp) -> int {
    choose|i: int| is_first_newer(entries, out, i)
}

/// The justification given with the decision.
pub open spec fn reason_text(
    entries: Seq<(String, Timestamp)>,
    output: Seq<char>,
    out: Option<Timestamp>,
) -> Seq<char> {
    match out {
        None => output + " not found"@,
        Some(o) => if stale(entries, out) {
            entries[first_newer(entries, o)].0@ + " is newer than "@ + output
        } else {
            output + " is newer than all input files"@
        },
    }
}

/// The latest modification time among the inputs (meaningful when there is one).
pub open spec fn latest(entries: Seq<(String, Timestamp)>) -> int
    decreases entries.len(),
{
    if entries.len() <= 1 {
        entries[0].1.nanos as int
    } else {
        let m = latest(entries.drop_last());
        let l = entries.last().1.nanos as int;
        if m < l {
            l
        } else {
            m
        }
    }
}

proof fn lemma_first_newer_is(entries: Seq<(String, Timestamp)>, out: Timestamp, i: int)
    requires
        is_first_newer(entries, out, i),
    ensures
        first_newer(entries, out) == i,
{
    let k = first_newer(entries, out);
    assert(is_first_newer(entries, out, k));
    if k < i {
        assert(!newer_than(entries, k, out));
    } else if i < k {
        assert(!newer_than(entries, i, out));
    }
}

proof fn lemma_latest_bounds(entries: Seq<(String, Timestamp)>)
    requires
        entries.len() > 0,
    ensures
        forall|i: int| 0 <= i < entries.len() ==> entries[i].1.nanos <= latest(entries),
        exists|i: int| 0 <= i < entries.len() && entries[i].1.nanos == latest(entries),
    decreases entries.len(),
{
    if entries.len() > 1 {
        let init = entries.drop_last();
        lemma_latest_bounds(init);
        assert(forall|i: int| 0 <= i < init.len() ==> init[i] == entries[i]);
        let w = choose|i: int| 0 <= i < init.len() && init[i].1.nanos == latest(init);
        if latest(init) < entries.last().1.nanos {
            assert(entries[entries.len() - 1].1.nanos == latest(entries));
        } else {
            assert(entries[w].1.nanos == latest(entries));
        }
    } else {
        assert(entries[0].1.nanos == latest(entries));
    }
}

/// The staleness decider: decides from the resolved inputs, in resolution
/// order with their modification times, and from the output's probe
/// (`None`: the output is absent). When several inputs are newer, the reason
/// names the first of them.
pub fn should_run(input_times: &Vec<(String, Timestamp)>, output: &str, output_time: Option<
    Timestamp,
>) -> (d: Decision)
    ensures
        d.run == stale(input_times@, output_time),
        d.reason@ == reason_text(input_times@, output@, output_time),
{
    match output_time {
        None => {
            let mut reason = output.to_owned();
            reason.append(" not found");
            Decision { run: true, reason }
        },
        Some(o) => {
            let mut i: usize = 0;
            while i < input_times.len()
                invariant
                    i <= input_times.len(),
                    output_time == Some(o),
                    forall|j: int| 0 <= j < i ==> !#[trigger] newer_than(input_times@, j, o),
                decreases input_times.len() - i,
            {
                if o.nanos < input_times[i].1.nanos {
                    proof {
                        assert(newer_than(input_times@, i as int, o));
                        assert(some_newer(input_times@, o));
                        lemma_first_newer_is(input_times@, o, i as int);
                    }
                    let mut reason = input_times[i].0.clone();
                    reason.append(" is newer than ");
                    reason.append(output);
                    return Decision { run: true, reason };
                }
                i = i + 1;
            }
            let mut reason = output.to_owned();
            reason.append(" is newer than all input files");
            Decision { run: false, reason }
        },
    }
}

/// An absent output is always stale, whatever the inputs.
pub proof fn lemma_absent_output_runs(entries: Seq<(String, Timestamp)>)
    ensures
        stale(entries, None),
{
}

/// With at least one input, a present output is stale exactly when the
/// latest input time is strictly after the output's time.
pub proof fn lemma_stale_iff_latest_is_newer(entries: Seq<(String, Timestamp)>, out: Timestamp)
    requires
        entries.len() > 0,
    ensures
        stale(entries, Some(out)) <==> out.nanos < latest(entries),
{
    lemma_latest_bounds(entries);
    if out.nanos < latest(entries) {
        let w = choose|i: int| 0 <= i < entries.len() && entries[i].1.nanos == latest(entries);
        assert(newer_than(entries, w, out));
        assert(some_newer(entries, out));
    }
    if stale(entries, Some(out)) {
        let i = choose|i: int| 0 <= i < entries.len() && #[trigger] newer_than(entries, i, out);
    }
}

/// When the latest input and the output carry the same time, the command
/// does not run: ties favour skipping.
pub proof fn lemma_tie_skips(entries: Seq<(String, Timestamp)>, out: Timestamp)
    requires
        entries.len() > 0,
        latest(entries) == out.nanos,
    ensures
        !stale(entries, Some(out)),
{
    lemma_stale_iff_latest_is_newer(entries, out);
}

/// A second run over unchanged inputs skips: after the first run the output
/// is present, either untouched because the first run skipped, or (the
/// command having run and written it) no older than any input.
pub proof fn lemma_second_run_skips(
    entries: Seq<(String, Timestamp)>,
    first: Option<Timestamp>,
    second: Timestamp,
)
    requires
        !stale(entries, first) ==> first == Some(second),
        stale(entries, first) ==> forall|i: int|
            0 <= i < entries.len() ==> entries[i].1.nanos <= second.nanos,
    ensures
        !stale(entries, Some(second)),
{
    if stale(entries, first) {
        assert forall|i: int| 0 <= i < entries.len() implies !newer_than(entries, i, second) by {}
    }
}

} // verus!
