//! Properties of running a pass sequence, proved over the events that a run
//! hands to its sink.

use vstd::prelude::*;
use crate::config::Config;
use crate::pass::{
    events_of, executions_in, lines_in, pass_events, run_events, step_line, Event, PassSequence,
};
use crate::report::LineModel;

verus! {

/// The lines of a run: the header, then one line per pass saying whether it
/// ran or was ignored.
pub open spec fn trace_of(
    ty: Seq<char>,
    text: Seq<char>,
    names: Seq<Seq<char>>,
    ignored: Seq<Seq<char>>,
) -> Seq<LineModel> {
    seq![LineModel::Found { ty, text }] + names.map_values(
        |n: Seq<char>| step_line(n, Config::ignores(ignored, n)),
    )
}

/// The positions of the passes that a run executes, in order.
pub open spec fn executed_of(names: Seq<Seq<char>>, ignored: Seq<Seq<char>>) -> Seq<int>
    decreases names.len(),
{
    if names.len() == 0 {
        Seq::empty()
    } else {
        let before = executed_of(names.drop_last(), ignored);
        if Config::ignores(ignored, names.last()) {
            before
        } else {
            before.push(names.len() - 1)
        }
    }
}

proof fn lemma_lines_in_concat(a: Seq<Event>, b: Seq<Event>)
    ensures
        lines_in(a + b) == lines_in(a) + lines_in(b),
    decreases b.len(),
{
    if b.len() == 0 {
        assert(a + b =~= a);
        assert(lines_in(a) + lines_in(b) =~= lines_in(a));
    } else {
        lemma_lines_in_concat(a, b.drop_last());
        assert((a + b).drop_last() =~= a + b.drop_last());
        assert((a + b).last() == b.last());
        match b.last() {
            Event::Line(l) => {
                assert(lines_in(a) + lines_in(b.drop_last()).push(l) =~= (lines_in(a) + lines_in(
                    b.drop_last(),
                )).push(l));
            },
            Event::Executed(_) => {},
        }
    }
}

proof fn lemma_executions_in_concat(a: Seq<Event>, b: Seq<Event>)
    ensures
        executions_in(a + b) == executions_in(a) + executions_in(b),
    decreases b.len(),
{
    if b.len() == 0 {
        assert(a + b =~= a);
        assert(executions_in(a) + executions_in(b) =~= executions_in(a));
    } else {
        lemma_executions_in_concat(a, b.drop_last());
        assert((a + b).drop_last() =~= a + b.drop_last());
        assert((a + b).last() == b.last());
        match b.last() {
            Event::Line(_) => {},
            Event::Executed(k) => {
                assert(executions_in(a) + executions_in(b.drop_last()).push(k) =~= (executions_in(
                    a,
                ) + executions_in(b.drop_last())).push(k));
            },
        }
    }
}

proof fn lemma_pass_events_parts(index: int, name: Seq<char>, ignored: bool)
    ensures
        lines_in(pass_events(index, name, ignored)) == seq![step_line(name, ignored)],
        executions_in(pass_events(index, name, ignored)) == (if ignored {
            Seq::<int>::empty()
        } else {
            seq![index]
        }),
{
    reveal_with_fuel(lines_in, 3);
    reveal_with_fuel(executions_in, 3);
    let e = pass_events(index, name, ignored);
    if ignored {
        assert(e.drop_last() =~= Seq::<Event>::empty());
        assert(lines_in(e) =~= seq![step_line(name, ignored)]);
    } else {
        assert(e.drop_last() =~= seq![Event::Line(step_line(name, false))]);
        assert(e.drop_last().drop_last() =~= Seq::<Event>::empty());
        assert(lines_in(e) =~= seq![step_line(name, ignored)]);
        assert(executions_in(e) =~= seq![index]);
    }
}

proof fn lemma_events_of_parts(names: Seq<Seq<char>>, ignored: Seq<Seq<char>>)
    ensures
        lines_in(events_of(names, ignored)) == names.map_values(
            |n: Seq<char>| step_line(n, Config::ignores(ignored, n)),
        ),
        executions_in(events_of(names, ignored)) == executed_of(names, ignored),
    decreases names.len(),
{
    if names.len() == 0 {
        assert(names.map_values(|n: Seq<char>| step_line(n, Config::ignores(ignored, n))) =~= Seq::<
            LineModel,
        >::empty());
    } else {
        let prefix = names.drop_last();
        let last = names.last();
        let skip = Config::ignores(ignored, last);
        lemma_events_of_parts(prefix, ignored);
        let tail = pass_events(names.len() - 1, last, skip);
        lemma_lines_in_concat(events_of(prefix, ignored), tail);
        lemma_executions_in_concat(events_of(prefix, ignored), tail);
        lemma_pass_events_parts(names.len() - 1, last, skip);
        assert(names.map_values(|n: Seq<char>| step_line(n, Config::ignores(ignored, n))) =~= prefix.map_values(
            |n: Seq<char>| step_line(n, Config::ignores(ignored, n)),
        ) + seq![step_line(last, skip)]);
        if skip {
            assert(executed_of(prefix, ignored) + Seq::<int>::empty() =~= executed_of(prefix, ignored));
        } else {
            assert(executed_of(prefix, ignored) + seq![names.len() - 1] =~= executed_of(
                prefix,
                ignored,
            ).push(names.len() - 1));
        }
    }
}

/// The lines that a run hands to its sink form its trace, and the passes it
/// executes are those at the positions given by `executed_of`.
pub proof fn lemma_run_events_parts(
    ty: Seq<char>,
    text: Seq<char>,
    names: Seq<Seq<char>>,
    ignored: Seq<Seq<char>>,
)
    ensures
        lines_in(run_events(ty, text, names, ignored)) == trace_of(ty, text, names, ignored),
        executions_in(run_events(ty, text, names, ignored)) == executed_of(names, ignored),
{
    reveal_with_fuel(lines_in, 2);
    reveal_with_fuel(executions_in, 2);
    let header = seq![Event::Line(LineModel::Found { ty, text })];
    lemma_lines_in_concat(header, events_of(names, ignored));
    lemma_executions_in_concat(header, events_of(names, ignored));
    lemma_events_of_parts(names, ignored);
    assert(header.drop_last() =~= Seq::<Event>::empty());
    assert(lines_in(header) =~= seq![LineModel::Found { ty, text }]);
    assert(executions_in(header) =~= Seq::<int>::empty());
    assert(Seq::<int>::empty() + executed_of(names, ignored) =~= executed_of(names, ignored));
}

proof fn lemma_executed_of_facts(
    names: Seq<Seq<char>>,
    ignored: Seq<Seq<char>>,
)
    ensures
        forall|k: int|
            0 <= k < executed_of(names, ignored).len() ==> {
                let p = #[trigger] executed_of(names, ignored)[k];
                0 <= p < names.len() && !Config::ignores(ignored, names[p])
            },
        forall|i: int|
            0 <= i < names.len() && !Config::ignores(ignored, #[trigger] names[i])
                ==> executed_of(names, ignored).contains(i),
        forall|j: int, k: int|
            0 <= j < k < executed_of(names, ignored).len()
                ==> executed_of(names, ignored)[j] < executed_of(names, ignored)[k],
    decreases names.len(),
{
    if names.len() > 0 {
        let prefix = names.drop_last();
        lemma_executed_of_facts(prefix, ignored);
        let before = executed_of(prefix, ignored);
        let e = executed_of(names, ignored);
        assert forall|k: int| 0 <= k < e.len() implies {
            let p = #[trigger] e[k];
            0 <= p < names.len() && !Config::ignores(ignored, names[p])
        } by {
            if k < before.len() {
                assert(e[k] == before[k]);
                assert(names[before[k]] == prefix[before[k]]);
            }
        }
        assert forall|i: int|
            0 <= i < names.len() && !Config::ignores(ignored, #[trigger] names[i]) implies e.contains(i) by {
            if i < names.len() - 1 {
                assert(prefix[i] == names[i]);
                let w = choose|w: int| 0 <= w < before.len() && before[w] == i;
                assert(e[w] == i);
            } else {
                assert(e[e.len() - 1] == i);
            }
        }
        assert forall|j: int, k: int| 0 <= j < k < e.len() implies e[j] < e[k] by {
            if k < before.len() {
            } else {
                assert(before[j] < prefix.len());
            }
        }
    }
}

/// In a run, every pass that the configuration does not ignore is executed
/// exactly once, the executions follow registration order, and no ignored
/// pass is executed.
pub proof fn lemma_unignored_passes_run_once_in_order(
    ty: Seq<char>,
    text: Seq<char>,
    names: Seq<Seq<char>>,
    ignored: Seq<Seq<char>>,
)
    ensures
        ({
            let e = executions_in(run_events(ty, text, names, ignored));
            &&& forall|k: int|
                0 <= k < e.len() ==> 0 <= #[trigger] e[k] < names.len() && !Config::ignores(
                    ignored,
                    names[e[k]],
                )
            &&& forall|i: int|
                0 <= i < names.len() && !Config::ignores(ignored, #[trigger] names[i])
                    ==> e.contains(i)
            &&& forall|j: int, k: int| 0 <= j < k < e.len() ==> e[j] < e[k]
        }),
{
    lemma_run_events_parts(ty, text, names, ignored);
    lemma_executed_of_facts(names, ignored);
}

/// Whatever the configuration ignores, a run hands its sink one header line
/// and one line per pass, `1 + len(P)` lines, the line of a pass saying
/// whether it ran or was ignored.
pub proof fn lemma_trace_has_one_line_per_pass(
    ty: Seq<char>,
    text: Seq<char>,
    names: Seq<Seq<char>>,
    ignored: Seq<Seq<char>>,
)
    ensures
        lines_in(run_events(ty, text, names, ignored)).len() == 1 + names.len(),
        lines_in(run_events(ty, text, names, ignored))[0] == (LineModel::Found { ty, text }),
        forall|i: int|
            0 <= i < names.len() ==> #[trigger] lines_in(run_events(ty, text, names, ignored))[i + 1]
                == step_line(names[i], Config::ignores(ignored, names[i])),
{
    lemma_run_events_parts(ty, text, names, ignored);
}

/// Two runs of the same sequence on inputs that render to the same text hand
/// their sinks the same events: a run keeps no state.
pub proof fn lemma_runs_repeat<'a, T>(
    seq: &PassSequence<'a, T>,
    text1: Seq<char>,
    text2: Seq<char>,
    first: Seq<Event>,
    second: Seq<Event>,
)
    requires
        text1 == text2,
        first == run_events(seq.ty(), text1, seq.names(), seq.ignored()),
        second == run_events(seq.ty(), text2, seq.names(), seq.ignored()),
    ensures
        first == second,
{
}

/// Under two configurations, a pass is executed in exactly the runs whose
/// configuration does not ignore it.
pub proof fn lemma_ignore_toggle(
    ty: Seq<char>,
    text: Seq<char>,
    names: Seq<Seq<char>>,
    first: Seq<Seq<char>>,
    second: Seq<Seq<char>>,
    i: int,
)
    requires
        0 <= i < names.len(),
    ensures
        executions_in(run_events(ty, text, names, first)).contains(i) <==> !Config::ignores(
            first,
            names[i],
        ),
        executions_in(run_events(ty, text, names, second)).contains(i) <==> !Config::ignores(
            second,
            names[i],
        ),
{
    lemma_unignored_passes_run_once_in_order(ty, text, names, first);
    lemma_unignored_passes_run_once_in_order(ty, text, names, second);
}

/// The line of a pass and whether it is executed depend on its own name and
/// the configuration alone, not on the passes around it.
pub proof fn lemma_decision_is_per_pass(
    ty: Seq<char>,
    text: Seq<char>,
    names1: Seq<Seq<char>>,
    names2: Seq<Seq<char>>,
    ignored: Seq<Seq<char>>,
    i: int,
    j: int,
)
    requires
        0 <= i < names1.len(),
        0 <= j < names2.len(),
        names1[i] == names2[j],
    ensures
        lines_in(run_events(ty, text, names1, ignored))[i + 1] == lines_in(
            run_events(ty, text, names2, ignored),
        )[j + 1],
        executions_in(run_events(ty, text, names1, ignored)).contains(i) <==> executions_in(
            run_events(ty, text, names2, ignored),
        ).contains(j),
{
    lemma_trace_has_one_line_per_pass(ty, text, names1, ignored);
    lemma_trace_has_one_line_per_pass(ty, text, names2, ignored);
    lemma_unignored_passes_run_once_in_order(ty, text, names1, ignored);
    lemma_unignored_passes_run_once_in_order(ty, text, names2, ignored);
}

/// Passes that share a name are executed together or skipped together.
pub proof fn lemma_same_name_same_fate(
    ty: Seq<char>,
    text: Seq<char>,
    names: Seq<Seq<char>>,
    ignored: Seq<Seq<char>>,
    i: int,
    j: int,
)
    requires
        0 <= i < names.len(),
        0 <= j < names.len(),
        names[i] == names[j],
    ensures
        executions_in(run_events(ty, text, names, ignored)).contains(i) <==> executions_in(
            run_events(ty, text, names, ignored),
        ).contains(j),
{
    lemma_decision_is_per_pass(ty, text, names, names, ignored, i, j);
}

} // verus!
