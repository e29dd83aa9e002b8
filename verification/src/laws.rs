//! Laws of the nodes over whole runs: how frames compose, where the end of a
//! run falls among the signals, and what `inference_done` carries.
use vstd::prelude::*;
use crate::events::Event;
use crate::nodes::{
    engine_signal_terminal, engine_signals, engine_tick, has_terminal, llm_run,
    llm_signal_terminal, llm_tick, tokens_text, ClawEngineView, CLLawMView, EngineSignalView,
    LlmSignalView,
};

verus! {

proof fn lemma_has_terminal_append(a: Seq<Event>, b: Seq<Event>)
    ensures
        has_terminal(a + b) == (has_terminal(a) || has_terminal(b)),
    decreases b.len(),
{
    if b.len() == 0 {
        assert(a + b =~= a);
    } else {
        assert((a + b).drop_last() =~= a + b.drop_last());
        assert((a + b).last() == b.last());
        lemma_has_terminal_append(a, b.drop_last());
    }
}

proof fn lemma_engine_signals_append(a: Seq<Event>, b: Seq<Event>)
    ensures
        engine_signals(a + b) == engine_signals(a) + engine_signals(b),
    decreases b.len(),
{
    if b.len() == 0 {
        assert(a + b =~= a);
        assert(engine_signals(a) + engine_signals(b) =~= engine_signals(a));
    } else {
        assert((a + b).drop_last() =~= a + b.drop_last());
        assert((a + b).last() == b.last());
        lemma_engine_signals_append(a, b.drop_last());
        let x = engine_signals(a);
        let y = engine_signals(b.drop_last());
        assert forall|g: EngineSignalView| (x + y).push(g) == x + y.push(g) by {
            assert((x + y).push(g) =~= x + y.push(g));
        }
    }
}

proof fn lemma_llm_run_append(acc: Seq<char>, a: Seq<Event>, b: Seq<Event>)
    ensures
        ({
            let (acc1, sigs1) = llm_run(acc, a);
            let (acc2, sigs2) = llm_run(acc1, b);
            llm_run(acc, a + b) == (acc2, sigs1 + sigs2)
        }),
    decreases b.len(),
{
    let (acc1, sigs1) = llm_run(acc, a);
    if b.len() == 0 {
        assert(a + b =~= a);
        assert(sigs1 + Seq::<LlmSignalView>::empty() =~= sigs1);
    } else {
        assert((a + b).drop_last() =~= a + b.drop_last());
        assert((a + b).last() == b.last());
        lemma_llm_run_append(acc, a, b.drop_last());
        let (acc3, sigs3) = llm_run(acc1, b.drop_last());
        assert forall|s: LlmSignalView| (sigs1 + sigs3).push(s) == sigs1 + sigs3.push(s) by {
            assert((sigs1 + sigs3).push(s) =~= sigs1 + sigs3.push(s));
        }
    }
}

proof fn lemma_engine_no_terminal_signals(evs: Seq<Event>)
    requires
        !has_terminal(evs),
    ensures
        forall|i: int|
            0 <= i < engine_signals(evs).len() ==> !engine_signal_terminal(
                #[trigger] engine_signals(evs)[i],
            ),
    decreases evs.len(),
{
    if evs.len() > 0 {
        lemma_engine_no_terminal_signals(evs.drop_last());
        let prev = engine_signals(evs.drop_last());
        let sigs = engine_signals(evs);
        assert forall|i: int| 0 <= i < sigs.len() implies !engine_signal_terminal(
            #[trigger] sigs[i],
        ) by {
            if i < prev.len() {
                assert(sigs[i] == prev[i]);
            }
        }
    }
}

proof fn lemma_llm_no_terminal(acc: Seq<char>, evs: Seq<Event>)
    requires
        !has_terminal(evs),
    ensures
        llm_run(acc, evs).0 == acc + tokens_text(llm_run(acc, evs).1),
        forall|i: int|
            0 <= i < llm_run(acc, evs).1.len() ==> !llm_signal_terminal(
                #[trigger] llm_run(acc, evs).1[i],
            ),
    decreases evs.len(),
{
    if evs.len() == 0 {
        assert(acc + Seq::<char>::empty() =~= acc);
    } else {
        lemma_llm_no_terminal(acc, evs.drop_last());
        let (a, sigs) = llm_run(acc, evs.drop_last());
        match evs.last() {
            Event::StdoutChunk(c) => {
                let s2 = sigs.push(LlmSignalView::TokenGenerated(c@));
                assert(s2.drop_last() =~= sigs);
                assert(a + c@ =~= acc + (tokens_text(sigs) + c@));
            },
            Event::Stderr(l) => {
                let s2 = sigs.push(LlmSignalView::InferenceStderr(l@));
                assert(s2.drop_last() =~= sigs);
            },
            _ => {},
        }
    }
}

/// Frames compose on a `ClawEngine` node: as long as no run ends before the
/// last frame, handing the events over in two frames gives the state and the
/// signals that handing them over in one frame gives.
pub proof fn law_engine_frames_compose(s: ClawEngineView, first: Seq<Event>, second: Seq<Event>)
    requires
        !has_terminal(first),
    ensures
        ({
            let (s1, sigs1) = engine_tick(s, first);
            let (s2, sigs2) = engine_tick(s1, second);
            engine_tick(s, first + second) == (s2, sigs1 + sigs2)
        }),
{
    lemma_has_terminal_append(first, second);
    lemma_engine_signals_append(first, second);
    if !s.active {
        assert(Seq::<EngineSignalView>::empty() + Seq::<EngineSignalView>::empty() =~= Seq::<
            EngineSignalView,
        >::empty());
    }
}

/// On a `ClawEngine` node, `finished` (or `failed`) comes once per run and
/// after every `stdout_line` and `stderr_line` of it: when a run's events end
/// with its one terminal event, the last signal is the only terminal one,
/// and `finished` carries the exit code. The runner is released afterwards.
pub proof fn law_engine_end_is_last(s: ClawEngineView, evs: Seq<Event>)
    requires
        s.active,
        evs.len() > 0,
        evs.last().terminal(),
        !has_terminal(evs.drop_last()),
    ensures
        ({
            let (s1, sigs) = engine_tick(s, evs);
            &&& !s1.active
            &&& sigs.len() > 0
            &&& engine_signal_terminal(sigs.last())
            &&& forall|i: int| 0 <= i < sigs.len() - 1 ==> !engine_signal_terminal(#[trigger] sigs[i])
            &&& evs.last() matches Event::Finished(c) ==> sigs.last() == EngineSignalView::Finished(
                c as i64,
            )
        }),
{
    lemma_engine_no_terminal_signals(evs.drop_last());
    let sigs = engine_signals(evs);
    assert(sigs.drop_last() =~= engine_signals(evs.drop_last()));
    assert forall|i: int| 0 <= i < sigs.len() - 1 implies !engine_signal_terminal(
        #[trigger] sigs[i],
    ) by {
        assert(sigs[i] == engine_signals(evs.drop_last())[i]);
    }
}

/// Once a frame ends a run on a `ClawEngine` node, later frames emit
/// nothing until a new run starts.
pub proof fn law_engine_silent_after_end(s: ClawEngineView, ending: Seq<Event>, later: Seq<Event>)
    requires
        has_terminal(ending),
    ensures
        engine_tick(engine_tick(s, ending).0, later).1.len() == 0,
{
}

/// Frames compose on a `CLLawM` node: as long as no run ends before the last
/// frame, handing the events over in two frames gives the state and the
/// signals that handing them over in one frame gives.
pub proof fn law_llm_frames_compose(s: CLLawMView, first: Seq<Event>, second: Seq<Event>)
    requires
        !has_terminal(first),
    ensures
        ({
            let (s1, sigs1) = llm_tick(s, first);
            let (s2, sigs2) = llm_tick(s1, second);
            llm_tick(s, first + second) == (s2, sigs1 + sigs2)
        }),
{
    lemma_has_terminal_append(first, second);
    lemma_llm_run_append(s.accumulated, first, second);
    if !s.active {
        assert(Seq::<LlmSignalView>::empty() + Seq::<LlmSignalView>::empty() =~= Seq::<
            LlmSignalView,
        >::empty());
    }
}

/// While a `CLLawM` run goes on, the accumulated text grows by exactly the
/// text of the `token_generated` signals emitted.
pub proof fn law_llm_accumulates_tokens(s: CLLawMView, evs: Seq<Event>)
    requires
        s.active,
        !has_terminal(evs),
    ensures
        ({
            let (s1, sigs) = llm_tick(s, evs);
            s1.active && s1.accumulated == s.accumulated + tokens_text(sigs)
        }),
{
    lemma_llm_no_terminal(s.accumulated, evs);
}

/// Concatenating all chunks yields the full response: when a `CLLawM` run
/// that started with nothing accumulated ends with `Finished(code)`, the
/// last signal is `inference_done` with the concatenated text of every
/// `token_generated` before it and the exit code; no earlier signal ends the
/// run, and the node is left idle with nothing accumulated.
pub proof fn law_llm_done_carries_all_tokens(s: CLLawMView, evs: Seq<Event>, code: i32)
    requires
        s.active,
        s.accumulated.len() == 0,
        evs.len() > 0,
        evs.last() == Event::Finished(code),
        !has_terminal(evs.drop_last()),
    ensures
        ({
            let (s1, sigs) = llm_tick(s, evs);
            &&& sigs.len() > 0
            &&& sigs.last() == LlmSignalView::InferenceDone(
                tokens_text(sigs.drop_last()),
                code as i64,
            )
            &&& forall|i: int| 0 <= i < sigs.len() - 1 ==> !llm_signal_terminal(#[trigger] sigs[i])
            &&& !s1.active
            &&& s1.accumulated.len() == 0
        }),
{
    lemma_llm_no_terminal(s.accumulated, evs.drop_last());
    let (a, prev) = llm_run(s.accumulated, evs.drop_last());
    assert(s.accumulated + tokens_text(prev) =~= tokens_text(prev));
    let sigs = llm_run(s.accumulated, evs).1;
    assert(sigs.drop_last() =~= prev);
    assert forall|i: int| 0 <= i < sigs.len() - 1 implies !llm_signal_terminal(
        #[trigger] sigs[i],
    ) by {
        assert(sigs[i] == prev[i]);
    }
}

/// Once a frame ends a run on a `CLLawM` node, later frames emit nothing
/// until a new generation starts.
pub proof fn law_llm_silent_after_end(s: CLLawMView, ending: Seq<Event>, later: Seq<Event>)
    requires
        has_terminal(ending),
    ensures
        llm_tick(llm_tick(s, ending).0, later).1.len() == 0,
{
}


/// The events of consecutive frames, in order.
pub open spec fn flatten(frames: Seq<Seq<Event>>) -> Seq<Event>
    decreases frames.len(),
{
    if frames.len() == 0 {
        Seq::empty()
    } else {
        flatten(frames.drop_last()) + frames.last()
    }
}

/// Consecutive frames of a `ClawEngine` node: the final state and every
/// signal emitted, in order.
pub open spec fn engine_frames(s: ClawEngineView, frames: Seq<Seq<Event>>) -> (ClawEngineView, Seq<
    EngineSignalView,
>)
    decreases frames.len(),
{
    if frames.len() == 0 {
        (s, Seq::empty())
    } else {
        let (s1, sigs1) = engine_frames(s, frames.drop_last());
        let (s2, sigs2) = engine_tick(s1, frames.last());
        (s2, sigs1 + sigs2)
    }
}

/// Consecutive frames of a `CLLawM` node: the final state and every signal
/// emitted, in order.
pub open spec fn llm_frames(s: CLLawMView, frames: Seq<Seq<Event>>) -> (CLLawMView, Seq<
    LlmSignalView,
>)
    decreases frames.len(),
{
    if frames.len() == 0 {
        (s, Seq::empty())
    } else {
        let (s1, sigs1) = llm_frames(s, frames.drop_last());
        let (s2, sigs2) = llm_tick(s1, frames.last());
        (s2, sigs1 + sigs2)
    }
}

/// No event but possibly the last one ends a run.
pub open spec fn ends_only_at_last(evs: Seq<Event>) -> bool {
    evs.len() == 0 || !has_terminal(evs.drop_last())
}

proof fn lemma_no_terminal_prefix(evs: Seq<Event>)
    requires
        !has_terminal(evs),
    ensures
        ends_only_at_last(evs),
{
}

proof fn lemma_engine_frames_flatten(s: ClawEngineView, frames: Seq<Seq<Event>>)
    requires
        ends_only_at_last(flatten(frames)),
    ensures
        engine_frames(s, frames) == engine_tick(s, flatten(frames)),
    decreases frames.len(),
{
    if frames.len() == 0 {
        assert(engine_signals(Seq::<Event>::empty()) =~= Seq::<EngineSignalView>::empty());
    } else {
        let rest = flatten(frames.drop_last());
        let last = frames.last();
        let (s1, sigs1) = engine_tick(s, rest);
        if last.len() == 0 {
            assert(rest + last =~= rest);
            lemma_engine_frames_flatten(s, frames.drop_last());
            assert(sigs1 + Seq::<EngineSignalView>::empty() =~= sigs1);
        } else {
            assert((rest + last).drop_last() =~= rest + last.drop_last());
            lemma_has_terminal_append(rest, last.drop_last());
            lemma_no_terminal_prefix(rest);
            lemma_engine_frames_flatten(s, frames.drop_last());
            law_engine_frames_compose(s, rest, last);
        }
    }
}

proof fn lemma_llm_frames_flatten(s: CLLawMView, frames: Seq<Seq<Event>>)
    requires
        ends_only_at_last(flatten(frames)),
    ensures
        llm_frames(s, frames) == llm_tick(s, flatten(frames)),
    decreases frames.len(),
{
    if frames.len() == 0 {
    } else {
        let rest = flatten(frames.drop_last());
        let last = frames.last();
        let (s1, sigs1) = llm_tick(s, rest);
        if last.len() == 0 {
            assert(rest + last =~= rest);
            lemma_llm_frames_flatten(s, frames.drop_last());
            assert(sigs1 + Seq::<LlmSignalView>::empty() =~= sigs1);
        } else {
            assert((rest + last).drop_last() =~= rest + last.drop_last());
            lemma_has_terminal_append(rest, last.drop_last());
            lemma_no_terminal_prefix(rest);
            lemma_llm_frames_flatten(s, frames.drop_last());
            law_llm_frames_compose(s, rest, last);
        }
    }
}

/// A whole `ClawEngine` run, however its events are spread over frames:
/// when the runner delivers the run's one terminal event last, the signals
/// are those of the events in order (`stdout_line`/`stderr_line` with each
/// line's text), the last one is the run's only `finished` (with the exit
/// code) or `failed`, and the runner is released afterwards.
pub proof fn law_engine_whole_run(s: ClawEngineView, frames: Seq<Seq<Event>>)
    requires
        s.active,
        flatten(frames).len() > 0,
        flatten(frames).last().terminal(),
        !has_terminal(flatten(frames).drop_last()),
    ensures
        ({
            let evs = flatten(frames);
            let (s1, sigs) = engine_frames(s, frames);
            &&& sigs == engine_signals(evs)
            &&& !s1.active
            &&& sigs.len() > 0
            &&& engine_signal_terminal(sigs.last())
            &&& forall|i: int| 0 <= i < sigs.len() - 1 ==> !engine_signal_terminal(#[trigger] sigs[i])
            &&& evs.last() matches Event::Finished(c) ==> sigs.last() == EngineSignalView::Finished(
                c as i64,
            )
        }),
{
    lemma_engine_frames_flatten(s, frames);
    law_engine_end_is_last(s, flatten(frames));
}

/// A whole `CLLawM` generation, however its events are spread over frames:
/// starting active with nothing accumulated, when the runner delivers the
/// run's one terminal event last, the signals are those of the events in
/// order (one `token_generated` per chunk, with its text), and the last one
/// is the run's only end: `inference_done` with the concatenated text of
/// every `token_generated` and the exit code, or `inference_failed` with the
/// runner's message. Afterwards the node is idle with nothing accumulated.
pub proof fn law_llm_whole_run(s: CLLawMView, frames: Seq<Seq<Event>>)
    requires
        s.active,
        s.accumulated.len() == 0,
        flatten(frames).len() > 0,
        flatten(frames).last().terminal(),
        !has_terminal(flatten(frames).drop_last()),
    ensures
        ({
            let evs = flatten(frames);
            let (s1, sigs) = llm_frames(s, frames);
            &&& sigs == llm_run(Seq::empty(), evs).1
            &&& sigs.len() > 0
            &&& forall|i: int| 0 <= i < sigs.len() - 1 ==> !llm_signal_terminal(#[trigger] sigs[i])
            &&& evs.last() matches Event::Finished(code) ==> sigs.last()
                == LlmSignalView::InferenceDone(tokens_text(sigs.drop_last()), code as i64)
            &&& evs.last() matches Event::Failed(m) ==> sigs.last()
                == LlmSignalView::InferenceFailed(m@)
            &&& !s1.active
            &&& s1.accumulated.len() == 0
        }),
{
    let evs = flatten(frames);
    lemma_llm_frames_flatten(s, frames);
    lemma_llm_no_terminal(s.accumulated, evs.drop_last());
    let (a, prev) = llm_run(s.accumulated, evs.drop_last());
    assert(s.accumulated + tokens_text(prev) =~= tokens_text(prev));
    let sigs = llm_run(s.accumulated, evs).1;
    assert(s.accumulated =~= Seq::<char>::empty());
    assert(sigs.drop_last() =~= prev);
    assert forall|i: int| 0 <= i < sigs.len() - 1 implies !llm_signal_terminal(
        #[trigger] sigs[i],
    ) by {
        assert(sigs[i] == prev[i]);
    }
}


/// The text of the stdout chunks among `evs`, concatenated in order.
pub open spec fn chunks_text(evs: Seq<Event>) -> Seq<char>
    decreases evs.len(),
{
    if evs.len() == 0 {
        Seq::empty()
    } else {
        match evs.last() {
            Event::StdoutChunk(c) => chunks_text(evs.drop_last()) + c@,
            _ => chunks_text(evs.drop_last()),
        }
    }
}

/// Lines reach a `ClawEngine` node's signals unchanged: while a run goes on,
/// a frame of stdout and stderr lines gives one signal per line, in order,
/// `stdout_line` or `stderr_line` with exactly the line's text.
pub proof fn law_engine_lines_verbatim(s: ClawEngineView, evs: Seq<Event>)
    requires
        s.active,
        forall|i: int| 0 <= i < evs.len() ==> (#[trigger] evs[i] is Stdout || evs[i] is Stderr),
    ensures
        ({
            let (s1, sigs) = engine_tick(s, evs);
            &&& s1.active
            &&& sigs.len() == evs.len()
            &&& forall|i: int|
                0 <= i < evs.len() ==> (#[trigger] evs[i] matches Event::Stdout(l) ==> sigs[i]
                    == EngineSignalView::StdoutLine(l@))
            &&& forall|i: int|
                0 <= i < evs.len() ==> (#[trigger] evs[i] matches Event::Stderr(l) ==> sigs[i]
                    == EngineSignalView::StderrLine(l@))
        }),
    decreases evs.len(),
{
    if evs.len() > 0 {
        let rest = evs.drop_last();
        assert forall|i: int| 0 <= i < rest.len() implies (#[trigger] rest[i] is Stdout
            || rest[i] is Stderr) by {
            assert(rest[i] == evs[i]);
        }
        law_engine_lines_verbatim(s, rest);
        let prev = engine_signals(rest);
        let sigs = engine_signals(evs);
        let n = evs.len() - 1;
        assert(evs.last() == evs[n]);
        assert(evs[n] is Stdout || evs[n] is Stderr);
        assert(!has_terminal(rest));
        assert(!has_terminal(evs));
        assert(sigs.len() == prev.len() + 1);
        assert forall|i: int| 0 <= i < evs.len() implies (#[trigger] evs[i] matches Event::Stdout(
            l,
        ) ==> sigs[i] == EngineSignalView::StdoutLine(l@)) by {
            if i < n {
                assert(rest[i] == evs[i]);
                assert(sigs[i] == prev[i]);
            }
        }
        assert forall|i: int| 0 <= i < evs.len() implies (#[trigger] evs[i] matches Event::Stderr(
            l,
        ) ==> sigs[i] == EngineSignalView::StderrLine(l@)) by {
            if i < n {
                assert(rest[i] == evs[i]);
                assert(sigs[i] == prev[i]);
            }
        }
    }
}

/// The end of a run reaches a `ClawEngine` node's signals as it came: a
/// frame holding just `Finished(c)` gives `finished(c)`, just `Failed(m)`
/// gives `failed(m)`, and a stdout chunk gives nothing.
pub proof fn law_engine_end_signal(s: ClawEngineView, ev: Event)
    requires
        s.active,
    ensures
        ev matches Event::Finished(c) ==> engine_tick(s, seq![ev]).1 == seq![
            EngineSignalView::Finished(c as i64),
        ],
        ev matches Event::Failed(m) ==> engine_tick(s, seq![ev]).1 == seq![
            EngineSignalView::Failed(m@),
        ],
        ev is StdoutChunk ==> engine_tick(s, seq![ev]).1.len() == 0,
{
    let evs = seq![ev];
    assert(evs.drop_last() =~= Seq::<Event>::empty());
    assert(evs.last() == ev);
    assert(engine_signals(Seq::<Event>::empty()) =~= Seq::<EngineSignalView>::empty());
    assert(Seq::<EngineSignalView>::empty().push(EngineSignalView::Failed(Seq::empty())) =~= seq![
        EngineSignalView::Failed(Seq::empty()),
    ]);
    match ev {
        Event::Finished(c) => {
            assert(Seq::<EngineSignalView>::empty().push(EngineSignalView::Finished(c as i64))
                =~= seq![EngineSignalView::Finished(c as i64)]);
        },
        Event::Failed(m) => {
            assert(Seq::<EngineSignalView>::empty().push(EngineSignalView::Failed(m@)) =~= seq![
                EngineSignalView::Failed(m@),
            ]);
        },
        _ => {},
    }
}

/// Chunks reach a `CLLawM` node's signals unchanged: while a run goes on, a
/// frame of stdout chunks gives one `token_generated` per chunk, in order,
/// with exactly the chunk's text, and the accumulated text grows by the
/// chunks' texts concatenated.
pub proof fn law_llm_chunks_verbatim(s: CLLawMView, evs: Seq<Event>)
    requires
        s.active,
        forall|i: int| 0 <= i < evs.len() ==> #[trigger] evs[i] is StdoutChunk,
    ensures
        ({
            let (s1, sigs) = llm_tick(s, evs);
            &&& s1.active
            &&& s1.accumulated == s.accumulated + chunks_text(evs)
            &&& sigs.len() == evs.len()
            &&& forall|i: int|
                0 <= i < evs.len() ==> (#[trigger] evs[i] matches Event::StdoutChunk(c) ==> sigs[i]
                    == LlmSignalView::TokenGenerated(c@))
        }),
    decreases evs.len(),
{
    if evs.len() == 0 {
        assert(s.accumulated + Seq::<char>::empty() =~= s.accumulated);
    } else {
        let rest = evs.drop_last();
        assert forall|i: int| 0 <= i < rest.len() implies #[trigger] rest[i] is StdoutChunk by {
            assert(rest[i] == evs[i]);
        }
        law_llm_chunks_verbatim(s, rest);
        let n = evs.len() - 1;
        assert(evs.last() == evs[n]);
        assert(evs[n] is StdoutChunk);
        let (a, prev) = llm_run(s.accumulated, rest);
        let sigs = llm_run(s.accumulated, evs).1;
        assert(!has_terminal(rest));
        assert(!has_terminal(evs));
        let c = evs[n]->StdoutChunk_0;
        assert(sigs == prev.push(LlmSignalView::TokenGenerated(c@)));
        assert(a + c@ =~= s.accumulated + (chunks_text(rest) + c@));
        assert forall|i: int| 0 <= i < evs.len() implies (#[trigger] evs[i] matches Event::StdoutChunk(
            c,
        ) ==> sigs[i] == LlmSignalView::TokenGenerated(c@)) by {
            if i < n {
                assert(rest[i] == evs[i]);
                assert(sigs[i] == prev[i]);
            }
        }
    }
}

proof fn lemma_llm_acc_is_chunks(acc: Seq<char>, evs: Seq<Event>)
    requires
        !has_terminal(evs),
    ensures
        llm_run(acc, evs).0 == acc + chunks_text(evs),
    decreases evs.len(),
{
    if evs.len() == 0 {
        assert(acc + Seq::<char>::empty() =~= acc);
    } else {
        lemma_llm_acc_is_chunks(acc, evs.drop_last());
        let a = llm_run(acc, evs.drop_last()).0;
        match evs.last() {
            Event::StdoutChunk(c) => {
                assert(a + c@ =~= acc + (chunks_text(evs.drop_last()) + c@));
            },
            _ => {},
        }
    }
}

/// `inference_done` carries the plain concatenation of the chunks received:
/// when a `CLLawM` run that started with nothing accumulated ends with
/// `Finished(code)` after events without an end, the last signal is
/// `inference_done` whose text is the chunk texts of those events joined
/// in order, with the exit code.
pub proof fn law_llm_done_is_concatenation(s: CLLawMView, evs: Seq<Event>, code: i32)
    requires
        s.active,
        s.accumulated.len() == 0,
        !has_terminal(evs),
    ensures
        ({
            let sigs = llm_tick(s, evs.push(Event::Finished(code))).1;
            &&& sigs.len() > 0
            &&& sigs.last() == LlmSignalView::InferenceDone(chunks_text(evs), code as i64)
        }),
{
    lemma_llm_acc_is_chunks(s.accumulated, evs);
    let all = evs.push(Event::Finished(code));
    assert(all.drop_last() =~= evs);
    assert(s.accumulated + chunks_text(evs) =~= chunks_text(evs));
}


/// Other events reach a `CLLawM` node's signals as they came: while a run
/// goes on, a frame holding just a stderr line gives `inference_stderr` with
/// exactly its text and keeps the accumulated text, `Failed(m)` gives
/// `inference_failed(m)` and clears it, and a line-based stdout event gives
/// nothing.
pub proof fn law_llm_event_signal(s: CLLawMView, ev: Event)
    requires
        s.active,
    ensures
        ev matches Event::Stderr(l) ==> llm_tick(s, seq![ev]).1 == seq![
            LlmSignalView::InferenceStderr(l@),
        ] && llm_tick(s, seq![ev]).0.accumulated == s.accumulated,
        ev matches Event::Failed(m) ==> llm_tick(s, seq![ev]).1 == seq![
            LlmSignalView::InferenceFailed(m@),
        ] && llm_tick(s, seq![ev]).0.accumulated.len() == 0,
        ev is Stdout ==> llm_tick(s, seq![ev]).1.len() == 0,
{
    let evs = seq![ev];
    assert(evs.drop_last() =~= Seq::<Event>::empty());
    assert(evs.last() == ev);
    assert(llm_run(s.accumulated, Seq::<Event>::empty()) == (
        s.accumulated,
        Seq::<LlmSignalView>::empty(),
    ));
    assert(llm_run(s.accumulated, evs) == llm_run(s.accumulated, seq![ev]));
    match ev {
        Event::Stderr(l) => {
            assert(Seq::<LlmSignalView>::empty().push(LlmSignalView::InferenceStderr(l@)) =~= seq![
                LlmSignalView::InferenceStderr(l@),
            ]);
        },
        Event::Failed(m) => {
            assert(Seq::<LlmSignalView>::empty().push(LlmSignalView::InferenceFailed(m@)) =~= seq![
                LlmSignalView::InferenceFailed(m@),
            ]);
        },
        _ => {},
    }
}

} // verus!
