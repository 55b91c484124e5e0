//! When an adapter passes: each case of the suite, in terms of the frames that came
//! and the frames that were scripted.

use vstd::prelude::*;

use crate::conformance::adapter_suite::{
    alignment_outcome, emitted, first_finish, first_usage,
    nothing_collected, ownership_findings, payload_findings, stream_plan, tool_deltas, tool_ends,
    usage_count, usages, Claim, CollectedView, Scenario, StepView, RAW_TOOL_ARGS,
};
use crate::conformance::executor_suite::PlanView;
use crate::conformance::report::clean;
use crate::json::JsonView;
use crate::seam::error::ErrorCode;
use crate::seam::llm::{
    frames_view, BlockKind, ContentBlock, EventView, FrameView, StreamFrame, Usage,
};
use crate::text::joined;

verus! {

/// Whether a case is over with nothing failed.
pub open spec fn passes(plan: Option<PlanView<()>>) -> bool {
    plan matches Some(PlanView::Done(out)) && out.failures.len() == 0
}

/// Whether a case is over with something failed.
pub open spec fn fails(plan: Option<PlanView<()>>) -> bool {
    plan matches Some(PlanView::Done(out)) && out.failures.len() > 0
}

/// The names of the cases are told apart by their lengths.
proof fn lemma_case_names()
    ensures
        "usage_before_finish"@.len() == 19,
        "nothing_after_finish"@.len() == 20,
        "raw_json_tool_arguments"@.len() == 23,
        "sanctioned_failure_paths"@.len() == 24,
        "in_band_failure_is_terminal"@.len() == 27,
        "empty_completion_is_retryable_failure"@.len() == 37,
        "context_overflow_canonical_code"@.len() == 31,
        "disjoint_usage"@.len() == 14,
        "replay_alignment_is_emission_order"@.len() == 34,
{
    reveal_strlit("usage_before_finish");
    reveal_strlit("nothing_after_finish");
    reveal_strlit("raw_json_tool_arguments");
    reveal_strlit("sanctioned_failure_paths");
    reveal_strlit("in_band_failure_is_terminal");
    reveal_strlit("empty_completion_is_retryable_failure");
    reveal_strlit("context_overflow_canonical_code");
    reveal_strlit("disjoint_usage");
    reveal_strlit("replay_alignment_is_emission_order");
}

// ---------------------------------------------------------------------------
// What is looked for in frames
// ---------------------------------------------------------------------------

proof fn lemma_first_finish(frames: Seq<FrameView>)
    ensures
        match first_finish(frames) {
            Some(i) => i < frames.len() && frames[i as int] is Finish && forall|k: int|
                0 <= k < i ==> !(#[trigger] frames[k] is Finish),
            None => forall|k: int| 0 <= k < frames.len() ==> !(#[trigger] frames[k] is Finish),
        },
    decreases frames.len(),
{
    if frames.len() > 0 {
        let head = frames.drop_last();
        lemma_first_finish(head);
        assert forall|k: int| 0 <= k < head.len() implies frames[k] == #[trigger] head[k] by {
        }
        assert forall|k: int| 0 <= k < head.len() implies #[trigger] frames[k] == head[k] by {
        }
    }
}

proof fn lemma_first_usage(frames: Seq<FrameView>)
    ensures
        match first_usage(frames) {
            Some(i) => i < frames.len() && frames[i as int] is Usage && forall|k: int|
                0 <= k < i ==> !(#[trigger] frames[k] is Usage),
            None => forall|k: int| 0 <= k < frames.len() ==> !(#[trigger] frames[k] is Usage),
        },
    decreases frames.len(),
{
    if frames.len() > 0 {
        let head = frames.drop_last();
        lemma_first_usage(head);
        assert forall|k: int| 0 <= k < head.len() implies #[trigger] frames[k] == head[k] by {
        }
    }
}

proof fn lemma_usage_count(frames: Seq<FrameView>)
    ensures
        usage_count(frames) == 0 <==> forall|k: int|
            0 <= k < frames.len() ==> !(#[trigger] frames[k] is Usage),
        usage_count(frames) == usages(frames).len(),
        usage_count(frames) > 1 <==> exists|i: int, j: int|
            0 <= i < j < frames.len() && #[trigger] frames[i] is Usage && #[trigger] frames[j] is Usage,
    decreases frames.len(),
{
    if frames.len() > 0 {
        let head = frames.drop_last();
        let n = frames.len() - 1;
        lemma_usage_count(head);
        assert forall|k: int| 0 <= k < n implies #[trigger] frames[k] == head[k] by {
        }
        if usage_count(frames) > 1 {
            if usage_count(head) > 1 {
                let (i, j) = choose|i: int, j: int|
                    0 <= i < j < head.len() && #[trigger] head[i] is Usage
                        && #[trigger] head[j] is Usage;
                assert(frames[i] is Usage && frames[j] is Usage);
            } else {
                assert(usage_count(head) != 0);
                let i = choose|i: int| 0 <= i < head.len() && #[trigger] head[i] is Usage;
                assert(frames[i] is Usage && frames[n] is Usage);
            }
        }
        if exists|i: int, j: int|
            0 <= i < j < frames.len() && #[trigger] frames[i] is Usage && #[trigger] frames[j] is Usage {
            let (i, j) = choose|i: int, j: int|
                0 <= i < j < frames.len() && #[trigger] frames[i] is Usage
                    && #[trigger] frames[j] is Usage;
            assert(head[i] is Usage);
            if j < n {
                assert(head[j] is Usage);
            }
        }
        if usage_count(frames) == 0 {
            assert(!(frames[n] is Usage));
        } else if forall|k: int| 0 <= k < frames.len() ==> !(#[trigger] frames[k] is Usage) {
            assert(!(frames[n] is Usage));
            assert forall|k: int| 0 <= k < head.len() implies !(#[trigger] head[k] is Usage) by {
                assert(!(frames[k] is Usage));
            }
        }
    }
}

/// Whether exactly one frame is accounting, and it is this one.
pub open spec fn only_usage(frames: Seq<FrameView>, u: int) -> bool {
    &&& 0 <= u < frames.len()
    &&& frames[u] is Usage
    &&& forall|k: int| 0 <= k < frames.len() && k != u ==> !(#[trigger] frames[k] is Usage)
}

/// Whether the first `Finish` frame is this one.
pub open spec fn finishes_at(frames: Seq<FrameView>, f: int) -> bool {
    &&& 0 <= f < frames.len()
    &&& frames[f] is Finish
    &&& forall|k: int| 0 <= k < f ==> !(#[trigger] frames[k] is Finish)
}

/// Taking the parts of a stream that matter loses none and invents none: what is
/// taken of two streams in a row is what is taken of each, in order.
pub proof fn law_nothing_is_lost_between_streams(a: Seq<FrameView>, b: Seq<FrameView>)
    ensures
        tool_deltas(a + b) == tool_deltas(a) + tool_deltas(b),
        tool_ends(a + b) == tool_ends(a) + tool_ends(b),
        emitted(a + b) == emitted(a) + emitted(b),
        usages(a + b) == usages(a) + usages(b),
    decreases b.len(),
{
    if b.len() == 0 {
        assert(a + b =~= a);
        assert(tool_deltas(a) + tool_deltas(b) =~= tool_deltas(a));
        assert(tool_ends(a) + tool_ends(b) =~= tool_ends(a));
        assert(emitted(a) + emitted(b) =~= emitted(a));
        assert(usages(a) + usages(b) =~= usages(a));
    } else {
        let head = b.drop_last();
        law_nothing_is_lost_between_streams(a, head);
        assert((a + b).drop_last() =~= a + head);
        assert((a + b).last() == b.last());
        assert(tool_deltas(a + b) =~= tool_deltas(a) + tool_deltas(b));
        assert(tool_ends(a + b) =~= tool_ends(a) + tool_ends(b));
        assert(emitted(a + b) =~= emitted(a) + emitted(b));
        assert(usages(a + b) =~= usages(a) + usages(b));
    }
}

/// What is taken of a single frame: a tool-call fragment, a completed tool call, a
/// completed block, an accounting, each from the frame of its kind alone.
pub proof fn law_each_frame_gives_its_part(frame: FrameView)
    ensures
        tool_deltas(seq![frame]) == (match frame {
            FrameView::ToolCallDelta { json, .. } => seq![json],
            _ => Seq::empty(),
        }),
        tool_ends(seq![frame]) == (match frame {
            FrameView::BlockEnd { index, assembled } => if assembled.kind == BlockKind::ToolCall {
                seq![(index, assembled.text)]
            } else {
                Seq::empty()
            },
            _ => Seq::empty(),
        }),
        emitted(seq![frame]) == (match frame {
            FrameView::BlockEnd { index, .. } => seq![index],
            _ => Seq::empty(),
        }),
        usages(seq![frame]) == (match frame {
            FrameView::Usage(usage) => seq![usage],
            _ => Seq::empty(),
        }),
{
    let one = seq![frame];
    assert(one.drop_last() =~= Seq::empty());
    assert(one.last() == frame);
    assert(tool_deltas(one.drop_last()) =~= Seq::empty());
    assert(tool_ends(one.drop_last()) =~= Seq::empty());
    assert(emitted(one.drop_last()) =~= Seq::empty());
    assert(usages(one.drop_last()) =~= Seq::empty());
    match frame {
        FrameView::ToolCallDelta { json, .. } => {
            assert(tool_deltas(one) =~= seq![json]);
        },
        FrameView::BlockEnd { index, assembled } => {
            assert(emitted(one) =~= seq![index]);
            if assembled.kind == BlockKind::ToolCall {
                assert(tool_ends(one) =~= seq![(index, assembled.text)]);
            }
        },
        FrameView::Usage(usage) => {
            assert(usages(one) =~= seq![usage]);
        },
        _ => {},
    }
}

/// Two frames that say the same are alike in everything: their kind, their block and
/// their text.
pub proof fn law_frames_say_all_they_hold(a: StreamFrame, b: StreamFrame)
    requires
        a@ == b@,
    ensures
        match (a, b) {
            (
                StreamFrame::BlockStart { index: i, kind: k },
                StreamFrame::BlockStart { index: j, kind: l },
            ) => i == j && k == l,
            (
                StreamFrame::TextDelta { index: i, text: s },
                StreamFrame::TextDelta { index: j, text: t },
            ) => i == j && s@ == t@,
            (
                StreamFrame::ReasoningDelta { index: i, text: s },
                StreamFrame::ReasoningDelta { index: j, text: t },
            ) => i == j && s@ == t@,
            (
                StreamFrame::ToolCallDelta { index: i, call_id: c, json: s },
                StreamFrame::ToolCallDelta { index: j, call_id: d, json: t },
            ) => i == j && c == d && s@ == t@,
            (
                StreamFrame::BlockEnd { index: i, assembled: x },
                StreamFrame::BlockEnd { index: j, assembled: y },
            ) => i == j && x.kind == y.kind && x.text@ == y.text@,
            (StreamFrame::Usage(u), StreamFrame::Usage(v)) => u == v,
            (StreamFrame::Finish, StreamFrame::Finish) => true,
            _ => false,
        },
{
}

// ---------------------------------------------------------------------------
// Collecting
// ---------------------------------------------------------------------------

/// What a run of steps comes to.
pub open spec fn collected(steps: Seq<StepView>) -> CollectedView
    decreases steps.len(),
{
    if steps.len() == 0 {
        nothing_collected()
    } else {
        collected(steps.drop_last()).fed(steps.last())
    }
}

/// The steps of a stream of frames.
pub open spec fn streamed(frames: Seq<FrameView>) -> Seq<StepView> {
    frames.map_values(|f: FrameView| StepView::Event(EventView::Frame(f)))
}

/// Every frame up to the terminal one is collected, in order and as it came; nothing
/// is counted as late, failed, stalled or panicked.
pub proof fn law_a_stream_is_collected_whole(frames: Seq<FrameView>)
    requires
        forall|k: int| 0 <= k < frames.len() - 1 ==> !(#[trigger] frames[k] is Finish),
    ensures
        ({
            let c = collected(streamed(frames));
            &&& c.frames == frames
            &&& c.failure is None
            &&& c.after_terminal.len() == 0
            &&& c.threw is None
            &&& !c.stalled
            &&& !c.panicked
            &&& c.terminal_seen <==> frames.len() > 0 && frames.last() is Finish
        }),
    decreases frames.len(),
{
    if frames.len() > 0 {
        let head = frames.drop_last();
        assert forall|k: int| 0 <= k < head.len() - 1 implies !(#[trigger] head[k] is Finish) by {
            assert(frames[k] == head[k]);
        }
        law_a_stream_is_collected_whole(head);
        assert(streamed(frames).drop_last() =~= streamed(head));
        if head.len() > 0 {
            assert(!(frames[head.len() - 1] is Finish));
        }
        assert(head.push(frames.last()) =~= frames);
    } else {
        assert(streamed(frames) =~= Seq::empty());
        assert(nothing_collected().frames =~= frames);
    }
}

/// Every event after the terminal one is kept as evidence, in order, and changes
/// nothing else; a failure ends the stream as it was given.
pub proof fn law_late_events_are_kept_as_evidence(c: CollectedView, event: EventView)
    ensures
        c.terminal_seen ==> c.fed(StepView::Event(event)) == (CollectedView {
            after_terminal: c.after_terminal.push(event.described()),
            ..c
        }),
        !c.terminal_seen ==> (event matches EventView::Failed(f) ==> c.fed(StepView::Event(event))
            == (CollectedView { failure: Some(f), terminal_seen: true, ..c })),
        c.fed(StepView::End) == c,
        c.fed(StepView::TimedOut) == (CollectedView { stalled: true, ..c }),
        c.fed(StepView::Panicked) == (CollectedView { panicked: true, ..c }),
{
}

// ---------------------------------------------------------------------------
// The cases
// ---------------------------------------------------------------------------

/// A panic is a failure of every case; a refusal at the entry is none of the cases
/// that script a success.
pub proof fn law_a_panic_fails_every_case(case: Seq<char>, scenario: Scenario, c: CollectedView)
    requires
        c.panicked,
        stream_plan(case, scenario, c) is Some,
    ensures
        fails(stream_plan(case, scenario, c)),
{
    lemma_case_names();
}

/// A provider that refused the scenario passes the cases that script a success.
pub proof fn law_a_refusal_is_skipped_where_success_is_scripted(
    case: Seq<char>,
    scenario: Scenario,
    c: CollectedView,
)
    requires
        !c.panicked,
        c.threw is Some,
        case == "usage_before_finish"@ || case == "nothing_after_finish"@ || case
            == "raw_json_tool_arguments"@ || case == "in_band_failure_is_terminal"@ || case
            == "disjoint_usage"@ || case == "replay_alignment_is_emission_order"@,
    ensures
        passes(stream_plan(case, scenario, c)),
        stream_plan(case, scenario, c) matches Some(PlanView::Done(out)) && out.skips.len() == 1,
{
    lemma_case_names();
}

/// The usage-order case passes exactly where one accounting frame, and one only,
/// stands before the first `Finish`, and nothing came after.
pub proof fn law_usage_comes_once_before_finish(scenario: Scenario, c: CollectedView)
    requires
        !c.panicked,
        c.threw is None,
    ensures
        passes(stream_plan("usage_before_finish"@, scenario, c)) <==> (exists|u: int, f: int|
            #[trigger] finishes_at(c.frames, f) && #[trigger] only_usage(c.frames.take(f), u))
            && c.after_terminal.len() == 0,
        !passes(stream_plan("usage_before_finish"@, scenario, c)) ==> fails(
            stream_plan("usage_before_finish"@, scenario, c),
        ),
{
    lemma_case_names();
    lemma_first_finish(c.frames);
    lemma_first_usage(c.frames);
    if let Some(f) = first_finish(c.frames) {
        let before = c.frames.take(f as int);
        lemma_usage_count(before);
        assert(finishes_at(c.frames, f as int));
        if let Some(u) = first_usage(c.frames) {
            if u < f {
                assert(before[u as int] is Usage);
                if usage_count(before) <= 1 {
                    assert forall|k: int| 0 <= k < before.len() && k != u implies !(
                    #[trigger] before[k] is Usage) by {
                        if before[k] is Usage {
                            if k < u {
                                assert(before[k] is Usage && before[u as int] is Usage);
                            } else {
                                assert(before[u as int] is Usage && before[k] is Usage);
                            }
                        }
                    }
                    assert(only_usage(before, u as int));
                }
            }
        }
    }
    if exists|u: int, f: int|
        #[trigger] finishes_at(c.frames, f) && #[trigger] only_usage(c.frames.take(f), u) {
        let (u, f) = choose|u: int, f: int|
            #[trigger] finishes_at(c.frames, f) && #[trigger] only_usage(c.frames.take(f), u);
        let before = c.frames.take(f);
        assert(c.frames[f] is Finish);
        let g = first_finish(c.frames)->Some_0;
        assert(g == f);
        assert(c.frames[u] == before[u]);
        let first = first_usage(c.frames)->Some_0;
        assert(first <= u);
        lemma_usage_count(before);
        if usage_count(before) > 1 {
            let (i, j) = choose|i: int, j: int|
                0 <= i < j < before.len() && #[trigger] before[i] is Usage
                    && #[trigger] before[j] is Usage;
            assert(i == u && j == u);
        }
    }
}

/// Whether two streams are one, frame by frame.
pub open spec fn same_stream(a: Seq<FrameView>, b: Seq<FrameView>) -> bool {
    &&& a.len() == b.len()
    &&& forall|i: int| 0 <= i < a.len() ==> #[trigger] a[i] == b[i]
}

/// The terminal-frame case is frame-for-frame identity: a successful stream that the
/// provider must replay passes exactly where it ends in its one `Finish`, in time and
/// with nothing behind it, and every frame is the scripted one. Where drift is
/// tolerated, only the frames are let go.
pub proof fn law_a_replayed_stream_is_the_scripted_one(scenario: Scenario, c: CollectedView)
    requires
        !c.panicked,
        c.threw is None,
        scenario.failure is None,
    ensures
        passes(stream_plan("nothing_after_finish"@, scenario, c)) <==> {
            &&& !c.stalled
            &&& c.after_terminal.len() == 0
            &&& finishes_at(c.frames, c.frames.len() - 1)
            &&& scenario.frame_drift_tolerated || same_stream(
                c.frames,
                frames_view(scenario.expected@),
            )
        },
        !passes(stream_plan("nothing_after_finish"@, scenario, c)) ==> fails(
            stream_plan("nothing_after_finish"@, scenario, c),
        ),
{
    lemma_case_names();
    lemma_first_finish(c.frames);
    let expected = frames_view(scenario.expected@);
    if same_stream(c.frames, expected) {
        assert(c.frames =~= expected);
    }
    if first_finish(c.frames) is Some && finishes_at(c.frames, c.frames.len() - 1) {
        assert(first_finish(c.frames)->Some_0 == c.frames.len() - 1);
    }
}

/// A frame that differs from the scripted one, in anything, is a failure of the
/// terminal-frame case.
pub proof fn law_any_differing_frame_is_a_failure(scenario: Scenario, c: CollectedView, i: int)
    requires
        !c.panicked,
        c.threw is None,
        scenario.failure is None,
        !scenario.frame_drift_tolerated,
        0 <= i < c.frames.len(),
        i < scenario.expected@.len(),
        c.frames[i] != scenario.expected@[i]@,
    ensures
        fails(stream_plan("nothing_after_finish"@, scenario, c)),
        c.failure is Some ==> fails(stream_plan("in_band_failure_is_terminal"@, scenario, c)),
        !passes(stream_plan("replay_alignment_is_emission_order"@, scenario, c)),
{
    lemma_case_names();
    let expected = frames_view(scenario.expected@);
    assert(expected[i] == scenario.expected@[i]@);
    assert(c.frames != expected);
    law_a_replayed_stream_is_the_scripted_one(scenario, c);
    if c.failure is Some {
        law_a_failure_in_band_ends_the_stream(scenario, c);
    }
}

/// The in-band case passes exactly where the stream failed in-band, emitted no
/// `Finish`, nothing came after the failure, and every frame before it is the scripted
/// one, unless drift is tolerated.
pub proof fn law_a_failure_in_band_ends_the_stream(scenario: Scenario, c: CollectedView)
    requires
        !c.panicked,
        c.threw is None,
    ensures
        passes(stream_plan("in_band_failure_is_terminal"@, scenario, c)) <==> {
            &&& c.failure is Some
            &&& c.after_terminal.len() == 0
            &&& forall|k: int| 0 <= k < c.frames.len() ==> !(#[trigger] c.frames[k] is Finish)
            &&& scenario.frame_drift_tolerated || same_stream(
                c.frames,
                frames_view(scenario.expected@),
            )
        },
        !passes(stream_plan("in_band_failure_is_terminal"@, scenario, c)) ==> fails(
            stream_plan("in_band_failure_is_terminal"@, scenario, c),
        ),
{
    lemma_case_names();
    lemma_first_finish(c.frames);
    let expected = frames_view(scenario.expected@);
    if same_stream(c.frames, expected) {
        assert(c.frames =~= expected);
    }
}

/// Whether every completed tool call carries the scripted bytes, and there is one.
pub open spec fn calls_are_raw(frames: Seq<FrameView>) -> bool {
    &&& exists|i: int| 0 <= i < frames.len() && is_call(#[trigger] frames[i])
    &&& forall|i: int|
        0 <= i < frames.len() && is_call(#[trigger] frames[i])
            ==> frames[i]->BlockEnd_assembled.text == RAW_TOOL_ARGS@
}

/// Whether a frame completes a tool call.
pub open spec fn is_call(frame: FrameView) -> bool {
    frame matches FrameView::BlockEnd { assembled, .. } && assembled.kind == BlockKind::ToolCall
}

proof fn lemma_calls(frames: Seq<FrameView>)
    ensures
        tool_ends(frames).len() == 0 <==> forall|i: int|
            0 <= i < frames.len() ==> !is_call(#[trigger] frames[i]),
        payload_findings(tool_ends(frames)).len() == 0 <==> forall|i: int|
            0 <= i < frames.len() && is_call(#[trigger] frames[i])
                ==> frames[i]->BlockEnd_assembled.text == RAW_TOOL_ARGS@,
    decreases frames.len(),
{
    if frames.len() > 0 {
        let head = frames.drop_last();
        let n = frames.len() - 1;
        lemma_calls(head);
        assert forall|k: int| 0 <= k < n implies #[trigger] frames[k] == head[k] by {
        }
        assert(frames[n] == frames.last());
        if is_call(frames.last()) {
            let done = tool_ends(head);
            let all = tool_ends(frames);
            assert(all.drop_last() =~= done);
        }
        if tool_ends(frames).len() == 0 {
            assert forall|i: int| 0 <= i < frames.len() implies !is_call(#[trigger] frames[i]) by {
                if i < n {
                    assert(!is_call(head[i]));
                }
            }
        } else if forall|i: int| 0 <= i < frames.len() ==> !is_call(#[trigger] frames[i]) {
            assert forall|i: int| 0 <= i < head.len() implies !is_call(#[trigger] head[i]) by {
                assert(!is_call(frames[i]));
            }
        }
        if payload_findings(tool_ends(frames)).len() == 0 {
            assert forall|i: int| 0 <= i < frames.len() && is_call(#[trigger] frames[i]) implies (
            frames[i]->BlockEnd_assembled.text == RAW_TOOL_ARGS@) by {
                if i < n {
                    assert(is_call(head[i]));
                }
            }
        } else if forall|i: int|
            0 <= i < frames.len() && is_call(#[trigger] frames[i])
                ==> frames[i]->BlockEnd_assembled.text == RAW_TOOL_ARGS@ {
            assert forall|i: int| 0 <= i < head.len() && is_call(#[trigger] head[i]) implies (
            head[i]->BlockEnd_assembled.text == RAW_TOOL_ARGS@) by {
                assert(is_call(frames[i]));
            }
        }
    }
}

/// The raw-arguments case passes exactly where every completed tool call carries the
/// scripted bytes unchanged, at least one was completed and, where fragments are
/// scripted, the fragments together are those bytes, and one by one the scripted
/// fragments, unless drift is tolerated.
pub proof fn law_tool_arguments_arrive_unchanged(scenario: Scenario, c: CollectedView)
    requires
        !c.panicked,
        c.threw is None,
    ensures
        ({
            let scripted = tool_deltas(frames_view(scenario.expected@));
            let observed = tool_deltas(c.frames);
            passes(stream_plan("raw_json_tool_arguments"@, scenario, c)) <==> {
                &&& calls_are_raw(c.frames)
                &&& scripted.len() > 0 ==> joined(observed, Seq::empty()) == RAW_TOOL_ARGS@
                &&& scripted.len() > 0 && !scenario.frame_drift_tolerated ==> observed == scripted
            }
        }),
        !passes(stream_plan("raw_json_tool_arguments"@, scenario, c)) ==> fails(
            stream_plan("raw_json_tool_arguments"@, scenario, c),
        ),
{
    lemma_case_names();
    lemma_calls(c.frames);
    if calls_are_raw(c.frames) {
        let i = choose|i: int| 0 <= i < c.frames.len() && is_call(#[trigger] c.frames[i]);
        assert(is_call(c.frames[i]));
    }
}

/// The failure-paths case passes exactly where the provider threw the scripted code,
/// or failed in-band with it and sent nothing more.
pub proof fn law_a_failure_keeps_its_code(scenario: Scenario, c: CollectedView, code: ErrorCode)
    requires
        !c.panicked,
        scenario.failure matches Some(f) && f.code == code,
    ensures
        passes(stream_plan("sanctioned_failure_paths"@, scenario, c)) <==> {
            ||| c.threw == Some(code)
            ||| c.threw is None && c.after_terminal.len() == 0 && (c.failure matches Some(f)
                && f.code == code)
        },
        !passes(stream_plan("sanctioned_failure_paths"@, scenario, c)) ==> fails(
            stream_plan("sanctioned_failure_paths"@, scenario, c),
        ),
{
    lemma_case_names();
}

/// The empty-completion case passes exactly where the provider failed with the
/// empty-completion code on either path, without content and in time.
pub proof fn law_an_empty_completion_is_a_failure(scenario: Scenario, c: CollectedView)
    requires
        !c.panicked,
    ensures
        passes(stream_plan("empty_completion_is_retryable_failure"@, scenario, c)) <==> {
            ||| c.threw == Some(ErrorCode::EmptyCompletion)
            ||| c.threw is None && !c.stalled && (c.failure matches Some(f) && f.code
                == ErrorCode::EmptyCompletion) && forall|i: int|
                0 <= i < c.frames.len() ==> (#[trigger] c.frames[i] is Usage
                    || c.frames[i] is Finish)
        },
        !passes(stream_plan("empty_completion_is_retryable_failure"@, scenario, c)) ==> fails(
            stream_plan("empty_completion_is_retryable_failure"@, scenario, c),
        ),
{
    lemma_case_names();
    if exists|i: int|
        0 <= i < c.frames.len() && crate::conformance::adapter_suite::is_content(
            #[trigger] c.frames[i],
        ) {
        let i = choose|i: int|
            0 <= i < c.frames.len() && crate::conformance::adapter_suite::is_content(
                #[trigger] c.frames[i],
            );
        assert(!(c.frames[i] is Usage) && !(c.frames[i] is Finish));
    } else {
        assert forall|i: int| 0 <= i < c.frames.len() implies (#[trigger] c.frames[i] is Usage
            || c.frames[i] is Finish) by {
            assert(!crate::conformance::adapter_suite::is_content(c.frames[i]));
        }
    }
}

/// The overflow case passes exactly where the provider failed with the one canonical
/// code, on either path, and sent nothing after it.
pub proof fn law_an_overflow_has_one_code(scenario: Scenario, c: CollectedView)
    requires
        !c.panicked,
    ensures
        passes(stream_plan("context_overflow_canonical_code"@, scenario, c)) <==> {
            ||| c.threw == Some(ErrorCode::ContextOverflow)
            ||| c.threw is None && c.after_terminal.len() == 0 && (c.failure matches Some(f)
                && f.code == ErrorCode::ContextOverflow)
        },
        !passes(stream_plan("context_overflow_canonical_code"@, scenario, c)) ==> fails(
            stream_plan("context_overflow_canonical_code"@, scenario, c),
        ),
{
    lemma_case_names();
}

/// The accounting case passes exactly where one accounting was reported, its reasoning
/// is within its output, it is the scripted one unless drift is tolerated, and its
/// output is not the scripted output with the reasoning added again.
pub proof fn law_accounting_is_reported_once_and_as_scripted(
    scenario: Scenario,
    c: CollectedView,
    usage: Usage,
)
    requires
        !c.panicked,
        c.threw is None,
        usages(c.frames) == seq![usage],
    ensures
        ({
            let scripted = usages(frames_view(scenario.expected@));
            passes(stream_plan("disjoint_usage"@, scenario, c)) <==> {
                &&& usage.reasoning <= usage.output
                &&& scripted.len() > 0 && !scenario.frame_drift_tolerated ==> usage == scripted[0]
                &&& scripted.len() > 0 && usage.reasoning > 0 ==> usage.output
                    != scripted[0].output + usage.reasoning
            }
        }),
{
    lemma_case_names();
}

/// No accounting, or more than one, fails the accounting case.
pub proof fn law_accounting_is_owed_exactly_once(scenario: Scenario, c: CollectedView)
    requires
        !c.panicked,
        c.threw is None,
        usages(c.frames).len() != 1,
    ensures
        fails(stream_plan("disjoint_usage"@, scenario, c)),
{
    lemma_case_names();
}

/// The ownership case passes exactly where the adapter claims its own state, and
/// neither another's nor one without an owner.
pub proof fn law_an_adapter_claims_its_own_state_only(own: Claim, foreign: Claim, bare: Claim)
    ensures
        ownership_findings(own, foreign, bare).len() == 0 <==> own == Claim::Claimed && foreign
            == Claim::Refused && bare == Claim::Refused,
{
}

/// The alignment case goes on to the alignment itself exactly where the stream is the
/// scripted one, or drift is tolerated, its blocks are emitted once each and not in
/// the order of their indices, and the provider published one entry for each.
pub proof fn law_alignment_is_looked_at_where_it_can_be_seen(scenario: Scenario, c: CollectedView)
    requires
        !c.panicked,
        c.threw is None,
    ensures
        ({
            let order = emitted(c.frames);
            stream_plan("replay_alignment_is_emission_order"@, scenario, c) == Some(
                PlanView::<()>::Ask(()),
            ) <==> {
                &&& scenario.frame_drift_tolerated || same_stream(
                    c.frames,
                    frames_view(scenario.expected@),
                )
                &&& order.len() == scenario.block_metadata@.len()
                &&& order.no_duplicates()
                &&& exists|i: int|
                    0 <= i && i + 1 < order.len() && (#[trigger] order[i]) > order[i + 1]
                &&& scenario.provider_publishes_metadata
            }
        }),
{
    lemma_case_names();
    let expected = frames_view(scenario.expected@);
    if same_stream(c.frames, expected) {
        assert(c.frames =~= expected);
    }
}

/// The alignment is clean only where every stored entry has a stored block and
/// describes the block that was emitted at its slot, and a stream that was cut short
/// kept no tool call.
pub proof fn law_metadata_describes_what_was_emitted(
    order: Seq<usize>,
    aligned: Seq<JsonView>,
    blocks: Seq<ContentBlock>,
    truncated: bool,
)
    requires
        alignment_outcome(clean(), order, aligned, blocks, truncated).failures.len() == 0,
    ensures
        aligned.len() == blocks.len(),
        forall|i: int|
            0 <= i < aligned.len()
                ==> crate::conformance::adapter_suite::described_block(#[trigger] aligned[i])
                == Some(order[i] as u64),
        truncated ==> forall|i: int|
            0 <= i < blocks.len() ==> (#[trigger] blocks[i]).kind != BlockKind::ToolCall,
{
    let n = aligned.len() as int;
    lemma_no_findings(order, aligned, n);
    if crate::conformance::adapter_suite::pairing_stops(aligned, n) {
        let i = choose|i: int|
            0 <= i < n && crate::conformance::adapter_suite::described_block(
                #[trigger] aligned[i],
            ) is None;
        assert(crate::conformance::adapter_suite::described_block(aligned[i]) is Some);
    }
}

proof fn lemma_no_findings(order: Seq<usize>, aligned: Seq<JsonView>, n: int)
    requires
        0 <= n <= aligned.len(),
        crate::conformance::adapter_suite::pairing_findings(aligned, order, n).len() == 0,
    ensures
        forall|i: int|
            0 <= i < n ==> crate::conformance::adapter_suite::described_block(#[trigger] aligned[i])
                == Some(order[i] as u64),
    decreases n,
{
    if n > 0 {
        lemma_no_findings(order, aligned, n - 1);
        if crate::conformance::adapter_suite::pairing_stops(aligned, n - 1) {
            let i = choose|i: int|
                0 <= i < n - 1 && crate::conformance::adapter_suite::described_block(
                    #[trigger] aligned[i],
                ) is None;
            assert(crate::conformance::adapter_suite::described_block(aligned[i]) is Some);
        }
    }
}

} // verus!
