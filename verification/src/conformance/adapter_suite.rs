//! The model-adapter conformance suite.
//!
//! Every obligation is about a stream. The caller owns the corpus (a
//! [`Scenario`] says what to ask the adapter for and what it must hand back)
//! and drives the stream; the suite observes the events and judges them.
//! Comparison is frame for frame, unless the provider declared that it
//! re-frames.
//!
//! A scenario the provider refuses at the stream entry is skipped, not failed:
//! throwing there is a sanctioned failure path.

use vstd::prelude::*;

use crate::conformance::executor_suite::{Plan, PlanView, Span};
use crate::conformance::report::{
    clean, failed, finding, skipped, Cx, CxView, Violation, ViolationView,
};
use crate::json::{field_map, fields_view, jsons_view, Json, JsonView};
use crate::seam::error::{ErrorCode, SeamErrorView};
use crate::seam::llm::{
    describe, failure_opt, frames_view, summary, BlockKind, ContentBlock, EventView, FrameView,
    Message, ProviderFailure, ReplayState, ReplayStateView, StreamEvent, StreamFrame, ToolSchema,
    Usage,
};
use crate::text::{
    cat, cat3, cat4, cat5, cat7, debug_text, debug_texts, decimal, decimal_text, join, joined, owned,
    quoted, quoted_list, same, texts,
};

verus! {

/// Every adapter conformance case, in suite order.
pub const ADAPTER_CONFORMANCE_CASES: [&'static str; 10] = [
    "usage_before_finish",
    "nothing_after_finish",
    "raw_json_tool_arguments",
    "sanctioned_failure_paths",
    "in_band_failure_is_terminal",
    "empty_completion_is_retryable_failure",
    "context_overflow_canonical_code",
    "disjoint_usage",
    "replay_state_ownership",
    "replay_alignment_is_emission_order",
];

/// The response-metadata key the ownership cases stamp replay state with.
pub const OWNED_MARKER_KEY: &'static str = "harnless_conformance_owned";

/// The awkward tool-argument payload the raw-JSON case scripts: keys out of
/// order, nested arrays, unicode, escaped quotes, an integer past double
/// precision, a negative zero and an empty object, all of which a
/// parse-then-reserialize round trip changes.
pub const RAW_TOOL_ARGS: &'static str =
    "{\"z\":1,\"a\":{\"deep\":[3,1,2]},\"\u{540d}\":\"\u{6f22}\u{5b57}\",\"q\":\"say \\\"hi\\\"\",\"big\":123456789012345678901234567890,\"neg\":-0.0,\"empty\":{},\"arr\":[[1],[2]]}";

/// The marker key a harness declares as the adapter's own replay owner.
pub const OWNED_STATE_KEY: &'static str = "harnless-conformance-self";

/// The value paired with [`OWNED_STATE_KEY`].
pub const OWNED_STATE_VALUE: &'static str = "adapter-under-test";

/// The marker key a harness declares as another provider's replay owner.
pub const FOREIGN_STATE_KEY: &'static str = "harnless-conformance-other";

/// The value paired with [`FOREIGN_STATE_KEY`].
pub const FOREIGN_STATE_VALUE: &'static str = "someone-else";

// ---------------------------------------------------------------------------
// Scenarios
// ---------------------------------------------------------------------------

/// One scripted turn: what to ask the adapter for, and what it must give back.
pub struct Scenario {
    /// The conversation handed to the adapter.
    pub messages: Vec<Message>,
    /// The request-time tool set.
    pub tools: Vec<ToolSchema>,
    /// The replay state handed over, if any.
    pub replay: Option<ReplayState>,
    /// The frames the adapter must emit, in order.
    pub expected: Vec<StreamFrame>,
    /// The response-level metadata the adapter should stamp its reply with.
    pub response_metadata: Option<Json>,
    /// The per-block metadata entries, in emission order.
    pub block_metadata: Vec<Json>,
    /// Whether the block metadata is what the provider itself publishes.
    pub provider_publishes_metadata: bool,
    /// The terminal failure this scenario scripts instead of a `Finish`.
    pub failure: Option<ProviderFailure>,
    /// Whether frame-identity assertions may degrade for this provider.
    pub frame_drift_tolerated: bool,
    /// How long to wait for the provider's next event.
    pub stall_timeout: Span,
}

/// The marker document the ownership cases key on.
pub open spec fn marker_document(key: Seq<char>, value: Seq<char>) -> JsonView {
    JsonView::Object(
        Map::empty().insert(
            OWNED_MARKER_KEY@,
            JsonView::Object(
                Map::empty().insert("key"@, JsonView::Text(key)).insert(
                    "value"@,
                    JsonView::Text(value),
                ),
            ),
        ),
    )
}

fn marker_metadata(key: &str, value: &str) -> (r: Json)
    ensures
        r@ == marker_document(key@, value@),
{
    let mut inner: Vec<(String, Json)> = Vec::new();
    inner.push((owned("key"), Json::text(key)));
    inner.push((owned("value"), Json::text(value)));
    proof {
        let all = fields_view(inner@);
        assert(all.drop_last().drop_last() =~= Seq::empty());
        assert(all.drop_last().last() == ("key"@, JsonView::Text(key@)));
        reveal_with_fuel(field_map, 3);
    }
    let pair = Json::Object(inner);
    let mut outer: Vec<(String, Json)> = Vec::new();
    outer.push((owned(OWNED_MARKER_KEY), pair));
    proof {
        let all = fields_view(outer@);
        assert(all.drop_last() =~= Seq::empty());
        reveal_with_fuel(field_map, 2);
    }
    Json::Object(outer)
}

impl Scenario {
    /// A scenario asking for `messages`, with no tools and no replay state.
    pub fn new(messages: Vec<Message>) -> (r: Scenario)
        ensures
            r.messages == messages,
            r.tools@.len() == 0,
            r.replay is None,
            r.expected@.len() == 0,
            r.response_metadata is None,
            r.block_metadata@.len() == 0,
            !r.provider_publishes_metadata,
            r.failure is None,
            !r.frame_drift_tolerated,
            r.stall_timeout == (Span { secs: 10, nanos: 0 }),
    {
        Scenario {
            messages,
            tools: Vec::new(),
            replay: None,
            expected: Vec::new(),
            response_metadata: None,
            block_metadata: Vec::new(),
            provider_publishes_metadata: false,
            failure: None,
            frame_drift_tolerated: false,
            stall_timeout: Span::from_secs(10),
        }
    }

    /// Set the request-time tool set.
    #[must_use]
    pub fn tools(self, tools: Vec<ToolSchema>) -> (r: Scenario)
        ensures
            r == (Scenario { tools, ..self }),
    {
        let mut scenario = self;
        scenario.tools = tools;
        scenario
    }

    /// Set the replay state handed over.
    #[must_use]
    pub fn replay(self, replay: Option<ReplayState>) -> (r: Scenario)
        ensures
            r == (Scenario { replay, ..self }),
    {
        let mut scenario = self;
        scenario.replay = replay;
        scenario
    }

    /// Set the frames the adapter must emit, in order.
    #[must_use]
    pub fn expected(self, expected: Vec<StreamFrame>) -> (r: Scenario)
        ensures
            r == (Scenario { expected, ..self }),
    {
        let mut scenario = self;
        scenario.expected = expected;
        scenario
    }

    /// Set the response-level metadata the adapter should carry on its reply.
    #[must_use]
    pub fn response_metadata(self, response: Json) -> (r: Scenario)
        ensures
            r == (Scenario { response_metadata: Some(response), ..self }),
    {
        let mut scenario = self;
        scenario.response_metadata = Some(response);
        scenario
    }

    /// Set the per-block metadata entries the scenario expects, in emission
    /// order.
    #[must_use]
    pub fn block_metadata(self, blocks: Vec<Json>) -> (r: Scenario)
        ensures
            r == (Scenario { block_metadata: blocks, ..self }),
    {
        let mut scenario = self;
        scenario.block_metadata = blocks;
        scenario
    }

    /// Declare the metadata this provider itself appends for this scenario, in
    /// the order it appends it.
    #[must_use]
    pub fn published_metadata(self, blocks: Vec<Json>) -> (r: Scenario)
        ensures
            r == (Scenario { block_metadata: blocks, provider_publishes_metadata: true, ..self }),
    {
        let mut scenario = self;
        scenario.block_metadata = blocks;
        scenario.provider_publishes_metadata = true;
        scenario
    }

    /// Script this scenario as a failed stream ending in `failure`.
    #[must_use]
    pub fn failure(self, failure: ProviderFailure) -> (r: Scenario)
        ensures
            r == (Scenario { failure: Some(failure), ..self }),
    {
        let mut scenario = self;
        scenario.failure = Some(failure);
        scenario
    }

    /// Declare that this provider may answer with equivalent frames.
    #[must_use]
    pub fn tolerate_frame_drift(self) -> (r: Scenario)
        ensures
            r == (Scenario { frame_drift_tolerated: true, ..self }),
    {
        let mut scenario = self;
        scenario.frame_drift_tolerated = true;
        scenario
    }

    /// Override the per-event stall bound.
    #[must_use]
    pub fn stall_timeout(self, stall_timeout: Span) -> (r: Scenario)
        ensures
            r == (Scenario { stall_timeout, ..self }),
    {
        let mut scenario = self;
        scenario.stall_timeout = stall_timeout;
        scenario
    }

    /// Response metadata declaring replay state to be this adapter's own.
    #[must_use]
    pub fn owned_response_metadata() -> (r: Json)
        ensures
            r@ == marker_document(OWNED_STATE_KEY@, OWNED_STATE_VALUE@),
    {
        marker_metadata(OWNED_STATE_KEY, OWNED_STATE_VALUE)
    }

    /// Response metadata declaring replay state to be another provider's.
    #[must_use]
    pub fn foreign_response_metadata() -> (r: Json)
        ensures
            r@ == marker_document(FOREIGN_STATE_KEY@, FOREIGN_STATE_VALUE@),
    {
        marker_metadata(FOREIGN_STATE_KEY, FOREIGN_STATE_VALUE)
    }

    /// The state that is the adapter's own.
    #[must_use]
    pub fn owned_replay_state() -> (r: ReplayState)
        ensures
            r@ == (ReplayStateView {
                response: Some(marker_document(OWNED_STATE_KEY@, OWNED_STATE_VALUE@)),
                blocks: Seq::empty(),
            }),
    {
        let r = ReplayState {
            response: Some(Scenario::owned_response_metadata()),
            blocks: Vec::new(),
        };
        assert(r@.blocks =~= Seq::<JsonView>::empty());
        r
    }

    /// The state that belongs to another provider.
    #[must_use]
    pub fn foreign_replay_state() -> (r: ReplayState)
        ensures
            r@ == (ReplayStateView {
                response: Some(marker_document(FOREIGN_STATE_KEY@, FOREIGN_STATE_VALUE@)),
                blocks: Seq::empty(),
            }),
    {
        let r = ReplayState {
            response: Some(Scenario::foreign_response_metadata()),
            blocks: Vec::new(),
        };
        assert(r@.blocks =~= Seq::<JsonView>::empty());
        r
    }

    /// Hand the adapter the state that is its own.
    #[must_use]
    pub fn with_owned_replay(self) -> (r: Scenario)
        ensures
            r.replay matches Some(state) && state@ == (ReplayStateView {
                response: Some(marker_document(OWNED_STATE_KEY@, OWNED_STATE_VALUE@)),
                blocks: Seq::empty(),
            }) && r == (Scenario { replay: Some(state), ..self }),
    {
        let mut scenario = self;
        scenario.replay = Some(Scenario::owned_replay_state());
        scenario
    }
}

/// The two ownership markers differ.
pub proof fn law_ownership_markers_are_distinguishable()
    ensures
        marker_document(OWNED_STATE_KEY@, OWNED_STATE_VALUE@) != marker_document(
            FOREIGN_STATE_KEY@,
            FOREIGN_STATE_VALUE@,
        ),
{
    reveal_strlit("harnless-conformance-self");
    reveal_strlit("harnless-conformance-other");
    let a = marker_document(OWNED_STATE_KEY@, OWNED_STATE_VALUE@);
    let b = marker_document(FOREIGN_STATE_KEY@, FOREIGN_STATE_VALUE@);
    assert(OWNED_STATE_KEY@.len() == 25);
    assert(FOREIGN_STATE_KEY@.len() == 26);
    reveal_strlit("key");
    reveal_strlit("value");
    assert("key"@.len() == 3 && "value"@.len() == 5);
    let x = a->Object_0[OWNED_MARKER_KEY@]->Object_0["key"@];
    let y = b->Object_0[OWNED_MARKER_KEY@]->Object_0["key"@];
    assert(x == JsonView::Text(OWNED_STATE_KEY@));
    assert(y == JsonView::Text(FOREIGN_STATE_KEY@));
}

// ---------------------------------------------------------------------------
// What is observed
// ---------------------------------------------------------------------------

/// One step of a driven stream.
pub enum Step {
    Event(StreamEvent),
    /// The stream ended.
    End,
    /// The provider panicked, or the driver lost it.
    Panicked,
    /// Nothing came inside the bound.
    TimedOut,
}

/// What a [`Step`] says.
pub enum StepView {
    Event(EventView),
    End,
    Panicked,
    TimedOut,
}

impl View for Step {
    type V = StepView;

    open spec fn view(&self) -> StepView {
        match *self {
            Step::Event(e) => StepView::Event(e@),
            Step::End => StepView::End,
            Step::Panicked => StepView::Panicked,
            Step::TimedOut => StepView::TimedOut,
        }
    }
}

/// Everything observed from one stream, normalised across the two sanctioned
/// failure paths.
pub struct Collected {
    /// Frames emitted up to the terminal event.
    pub frames: Vec<StreamFrame>,
    /// The in-band terminal failure, when the stream ended in one.
    pub failure: Option<ProviderFailure>,
    /// Events observed after the terminal event.
    pub after_terminal: Vec<String>,
    /// The provider threw at the stream entry.
    pub threw: Option<ErrorCode>,
    /// The stream neither yielded a terminal event nor ended in time.
    pub stalled: bool,
    /// The provider panicked.
    pub panicked: bool,
    /// Whether the terminal event was seen.
    pub terminal_seen: bool,
}

/// What a [`Collected`] says.
#[verifier::ext_equal]
pub struct CollectedView {
    pub frames: Seq<FrameView>,
    pub failure: Option<SeamErrorView>,
    pub after_terminal: Seq<Seq<char>>,
    pub threw: Option<ErrorCode>,
    pub stalled: bool,
    pub panicked: bool,
    pub terminal_seen: bool,
}

impl View for Collected {
    type V = CollectedView;

    open spec fn view(&self) -> CollectedView {
        CollectedView {
            frames: frames_view(self.frames@),
            failure: failure_opt(self.failure),
            after_terminal: texts(self.after_terminal@),
            threw: self.threw,
            stalled: self.stalled,
            panicked: self.panicked,
            terminal_seen: self.terminal_seen,
        }
    }
}

/// Nothing observed yet.
pub open spec fn nothing_collected() -> CollectedView {
    CollectedView {
        frames: Seq::empty(),
        failure: None,
        after_terminal: Seq::empty(),
        threw: None,
        stalled: false,
        panicked: false,
        terminal_seen: false,
    }
}

impl CollectedView {
    /// The observation after one more step: frames up to and with `Finish`, or
    /// the failure that ended them; whatever comes later is evidence against
    /// the provider.
    pub open spec fn fed(self, step: StepView) -> CollectedView {
        match step {
            StepView::Event(event) => if self.terminal_seen {
                CollectedView {
                    after_terminal: self.after_terminal.push(event.described()),
                    ..self
                }
            } else {
                match event {
                    EventView::Frame(frame) => CollectedView {
                        frames: self.frames.push(frame),
                        terminal_seen: frame is Finish,
                        ..self
                    },
                    EventView::Failed(f) => CollectedView {
                        failure: Some(f),
                        terminal_seen: true,
                        ..self
                    },
                }
            },
            StepView::End => self,
            StepView::Panicked => CollectedView { panicked: true, ..self },
            StepView::TimedOut => CollectedView { stalled: true, ..self },
        }
    }

    /// How the stream ended, phrased for a violation message.
    pub open spec fn ending(self) -> Seq<char> {
        if self.panicked {
            "panicked while producing the stream"@
        } else if self.threw is Some {
            "threw from `stream()` with `"@ + self.threw->Some_0.spelling() + "`"@
        } else if self.failure is Some {
            "ended in-band with `"@ + self.failure->Some_0.code.spelling() + "`"@
        } else if first_finish(self.frames) is Some {
            "ended with a `Finish` frame"@
        } else if self.stalled {
            "stalled: no terminal event before the watchdog bound"@
        } else {
            "ended with no terminal event"@
        }
    }
}

/// The position of the first `Finish` frame.
pub open spec fn first_finish(frames: Seq<FrameView>) -> Option<nat>
    decreases frames.len(),
{
    if frames.len() == 0 {
        None
    } else {
        match first_finish(frames.drop_last()) {
            Some(i) => Some(i),
            None => if frames.last() is Finish {
                Some((frames.len() - 1) as nat)
            } else {
                None
            },
        }
    }
}

/// The position of the first `Usage` frame.
pub open spec fn first_usage(frames: Seq<FrameView>) -> Option<nat>
    decreases frames.len(),
{
    if frames.len() == 0 {
        None
    } else {
        match first_usage(frames.drop_last()) {
            Some(i) => Some(i),
            None => if frames.last() is Usage {
                Some((frames.len() - 1) as nat)
            } else {
                None
            },
        }
    }
}

/// The accounting frames, in order.
pub open spec fn usages(frames: Seq<FrameView>) -> Seq<Usage>
    decreases frames.len(),
{
    if frames.len() == 0 {
        Seq::empty()
    } else {
        match frames.last() {
            FrameView::Usage(usage) => usages(frames.drop_last()).push(usage),
            _ => usages(frames.drop_last()),
        }
    }
}

/// The completed tool calls, in order: block index and payload.
pub open spec fn tool_ends(frames: Seq<FrameView>) -> Seq<(usize, Seq<char>)>
    decreases frames.len(),
{
    if frames.len() == 0 {
        Seq::empty()
    } else {
        match frames.last() {
            FrameView::BlockEnd { index, assembled } => if assembled.kind == BlockKind::ToolCall {
                tool_ends(frames.drop_last()).push((index, assembled.text))
            } else {
                tool_ends(frames.drop_last())
            },
            _ => tool_ends(frames.drop_last()),
        }
    }
}

/// The streamed tool-call fragments, in order.
pub open spec fn tool_deltas(frames: Seq<FrameView>) -> Seq<Seq<char>>
    decreases frames.len(),
{
    if frames.len() == 0 {
        Seq::empty()
    } else {
        match frames.last() {
            FrameView::ToolCallDelta { index: _, call_id: _, json } => tool_deltas(
                frames.drop_last(),
            ).push(json),
            _ => tool_deltas(frames.drop_last()),
        }
    }
}

/// The indices of the completed blocks, in emission order.
pub open spec fn emitted(frames: Seq<FrameView>) -> Seq<usize>
    decreases frames.len(),
{
    if frames.len() == 0 {
        Seq::empty()
    } else {
        match frames.last() {
            FrameView::BlockEnd { index, assembled: _ } => emitted(frames.drop_last()).push(index),
            _ => emitted(frames.drop_last()),
        }
    }
}

/// Whether a frame carries content.
pub open spec fn is_content(frame: FrameView) -> bool {
    !(frame is Usage) && !(frame is Finish)
}

fn finish_position(frames: &Vec<StreamFrame>) -> (r: Option<usize>)
    ensures
        match r {
            Some(i) => first_finish(frames_view(frames@)) == Some(i as nat),
            None => first_finish(frames_view(frames@)) is None,
        },
{
    let ghost all = frames_view(frames@);
    let mut found: Option<usize> = None;
    for i in 0..frames.len()
        invariant
            all == frames_view(frames@),
            match found {
                Some(k) => first_finish(all.take(i as int)) == Some(k as nat),
                None => first_finish(all.take(i as int)) is None,
            },
    {
        assert(all.take(i + 1).drop_last() =~= all.take(i as int));
        assert(all.take(i + 1).last() == frames@[i as int]@);
        if found.is_none() {
            if let StreamFrame::Finish = &frames[i] {
                found = Some(i);
            }
        }
    }
    assert(all.take(all.len() as int) =~= all);
    found
}

fn usage_position(frames: &Vec<StreamFrame>) -> (r: Option<usize>)
    ensures
        match r {
            Some(i) => first_usage(frames_view(frames@)) == Some(i as nat),
            None => first_usage(frames_view(frames@)) is None,
        },
{
    let ghost all = frames_view(frames@);
    let mut found: Option<usize> = None;
    for i in 0..frames.len()
        invariant
            all == frames_view(frames@),
            match found {
                Some(k) => first_usage(all.take(i as int)) == Some(k as nat),
                None => first_usage(all.take(i as int)) is None,
            },
    {
        assert(all.take(i + 1).drop_last() =~= all.take(i as int));
        assert(all.take(i + 1).last() == frames@[i as int]@);
        if found.is_none() {
            if let StreamFrame::Usage(_) = &frames[i] {
                found = Some(i);
            }
        }
    }
    assert(all.take(all.len() as int) =~= all);
    found
}

fn usages_of(frames: &Vec<StreamFrame>) -> (r: Vec<Usage>)
    ensures
        r@ == usages(frames_view(frames@)),
{
    let ghost all = frames_view(frames@);
    let mut out: Vec<Usage> = Vec::new();
    for i in 0..frames.len()
        invariant
            all == frames_view(frames@),
            out@ == usages(all.take(i as int)),
    {
        assert(all.take(i + 1).drop_last() =~= all.take(i as int));
        assert(all.take(i + 1).last() == frames@[i as int]@);
        if let StreamFrame::Usage(usage) = &frames[i] {
            out.push(*usage);
        }
    }
    assert(all.take(all.len() as int) =~= all);
    out
}

/// The values of a list of completed tool calls.
pub open spec fn ends_view(v: Seq<(usize, String)>) -> Seq<(usize, Seq<char>)> {
    v.map_values(|p: (usize, String)| (p.0, p.1@))
}

fn tool_ends_of(frames: &Vec<StreamFrame>) -> (r: Vec<(usize, String)>)
    ensures
        ends_view(r@) == tool_ends(frames_view(frames@)),
{
    let ghost all = frames_view(frames@);
    let mut out: Vec<(usize, String)> = Vec::new();
    assert(ends_view(out@) =~= tool_ends(all.take(0)));
    for i in 0..frames.len()
        invariant
            all == frames_view(frames@),
            ends_view(out@) == tool_ends(all.take(i as int)),
    {
        let ghost before = out@;
        assert(all.take(i + 1).drop_last() =~= all.take(i as int));
        assert(all.take(i + 1).last() == frames@[i as int]@);
        if let StreamFrame::BlockEnd { index, assembled } = &frames[i] {
            if assembled.kind == BlockKind::ToolCall {
                out.push((*index, assembled.text.clone()));
                assert(ends_view(out@) =~= ends_view(before).push((*index, assembled.text@)));
            }
        }
    }
    assert(all.take(all.len() as int) =~= all);
    out
}

fn tool_deltas_of(frames: &Vec<StreamFrame>) -> (r: Vec<String>)
    ensures
        texts(r@) == tool_deltas(frames_view(frames@)),
{
    let ghost all = frames_view(frames@);
    let mut out: Vec<String> = Vec::new();
    assert(texts(out@) =~= tool_deltas(all.take(0)));
    for i in 0..frames.len()
        invariant
            all == frames_view(frames@),
            texts(out@) == tool_deltas(all.take(i as int)),
    {
        let ghost before = out@;
        assert(all.take(i + 1).drop_last() =~= all.take(i as int));
        assert(all.take(i + 1).last() == frames@[i as int]@);
        if let StreamFrame::ToolCallDelta { index, call_id, json } = &frames[i] {
            out.push(json.clone());
            assert(texts(out@) =~= texts(before).push(json@));
        }
    }
    assert(all.take(all.len() as int) =~= all);
    out
}

fn emitted_of(frames: &Vec<StreamFrame>) -> (r: Vec<usize>)
    ensures
        r@ == emitted(frames_view(frames@)),
{
    let ghost all = frames_view(frames@);
    let mut out: Vec<usize> = Vec::new();
    for i in 0..frames.len()
        invariant
            all == frames_view(frames@),
            out@ == emitted(all.take(i as int)),
    {
        assert(all.take(i + 1).drop_last() =~= all.take(i as int));
        assert(all.take(i + 1).last() == frames@[i as int]@);
        if let StreamFrame::BlockEnd { index, assembled } = &frames[i] {
            out.push(*index);
        }
    }
    assert(all.take(all.len() as int) =~= all);
    out
}

fn has_content(frames: &Vec<StreamFrame>) -> (r: bool)
    ensures
        r == exists|i: int| 0 <= i < frames@.len() && is_content(#[trigger] frames_view(frames@)[i]),
{
    for i in 0..frames.len()
        invariant
            forall|k: int| 0 <= k < i ==> !is_content(#[trigger] frames_view(frames@)[k]),
    {
        assert(frames_view(frames@)[i as int] == frames@[i as int]@);
        match &frames[i] {
            StreamFrame::Usage(_) => {},
            StreamFrame::Finish => {},
            _ => {
                assert(is_content(frames_view(frames@)[i as int]));
                return true;
            },
        }
    }
    false
}

fn same_frames(a: &Vec<StreamFrame>, b: &Vec<StreamFrame>) -> (r: bool)
    ensures
        r == (frames_view(a@) == frames_view(b@)),
{
    if a.len() != b.len() {
        assert(frames_view(a@).len() != frames_view(b@).len());
        return false;
    }
    for i in 0..a.len()
        invariant
            a@.len() == b@.len(),
            forall|k: int| 0 <= k < i ==> (#[trigger] frames_view(a@)[k]) == frames_view(b@)[k],
    {
        if !a[i].same(&b[i]) {
            assert(frames_view(a@)[i as int] != frames_view(b@)[i as int]);
            return false;
        }
    }
    assert(frames_view(a@) =~= frames_view(b@));
    true
}

impl Collected {
    /// Nothing observed yet.
    pub fn empty() -> (r: Collected)
        ensures
            r@ == nothing_collected(),
    {
        let r = Collected {
            frames: Vec::new(),
            failure: None,
            after_terminal: Vec::new(),
            threw: None,
            stalled: false,
            panicked: false,
            terminal_seen: false,
        };
        assert(r@ =~= nothing_collected());
        r
    }

    /// The provider threw at the stream entry, with this code.
    pub fn thrown(code: ErrorCode) -> (r: Collected)
        ensures
            r@ == (CollectedView { threw: Some(code), ..nothing_collected() }),
    {
        let mut r = Collected::empty();
        r.threw = Some(code);
        r
    }

    /// The provider panicked at the stream entry.
    pub fn panicked_at_entry() -> (r: Collected)
        ensures
            r@ == (CollectedView { panicked: true, ..nothing_collected() }),
    {
        let mut r = Collected::empty();
        r.panicked = true;
        r
    }

    /// How long to wait for the next step: past the terminal event a
    /// conforming stream ends at once.
    pub fn bound(&self, stall_timeout: Span) -> (r: Span)
        ensures
            r == (if self@.terminal_seen {
                Span { secs: 2, nanos: 0 }
            } else {
                stall_timeout
            }),
    {
        if self.terminal_seen {
            Span::from_secs(2)
        } else {
            stall_timeout
        }
    }

    /// Take in one step, telling whether to go on polling.
    pub fn collect_stream(&mut self, step: Step) -> (go_on: bool)
        ensures
            final(self)@ == old(self)@.fed(step@),
            go_on == (step is Event),
    {
        let ghost before = self@;
        match step {
            Step::Event(event) => {
                if self.terminal_seen {
                    self.after_terminal.push(describe(&event));
                } else {
                    match event {
                        StreamEvent::Frame(frame) => {
                            if let StreamFrame::Finish = &frame {
                                self.terminal_seen = true;
                            }
                            self.frames.push(frame);
                        },
                        StreamEvent::Failed(cause) => {
                            self.terminal_seen = true;
                            self.failure = Some(cause);
                        },
                    }
                }
                assert(self@ =~= before.fed(step@));
                true
            },
            Step::End => false,
            Step::Panicked => {
                self.panicked = true;
                false
            },
            Step::TimedOut => {
                self.stalled = true;
                false
            },
        }
    }

    /// How the stream ended, phrased for a violation message.
    pub fn ending(&self) -> (r: String)
        ensures
            r@ == self@.ending(),
    {
        if self.panicked {
            return owned("panicked while producing the stream");
        }
        if let Some(code) = self.threw {
            return cat3("threw from `stream()` with `", code.as_str(), "`");
        }
        if let Some(failure) = &self.failure {
            return cat3("ended in-band with `", failure.code.as_str(), "`");
        }
        if finish_position(&self.frames).is_some() {
            return owned("ended with a `Finish` frame");
        }
        if self.stalled {
            return owned("stalled: no terminal event before the watchdog bound");
        }
        owned("ended with no terminal event")
    }
}

/// How a panicking provider is reported.
pub open spec fn panic_detail(label: Seq<char>) -> Seq<char> {
    label
        + ": the provider panicked on this scenario; a misbehaving input must surface as a typed failure, never a crash"@
}

/// How a provider that refused the scenario is noted.
pub open spec fn refusal_note(code: ErrorCode) -> Seq<char> {
    "provider refused the scenario at `stream()` (`"@ + code.spelling() + "`)"@
}

fn panic_cx(label: &str) -> (r: Cx)
    ensures
        r@ == failed(seq![panic_detail(label@)]),
{
    let mut cx = Cx::new();
    cx.fail(
        cat(
            label,
            ": the provider panicked on this scenario; a misbehaving input must surface as a typed failure, never a crash",
        ),
    );
    assert(cx@ =~= failed(seq![panic_detail(label@)]));
    cx
}

fn refused_cx(code: ErrorCode) -> (r: Cx)
    ensures
        r@ == skipped(refusal_note(code)),
{
    let mut cx = Cx::new();
    cx.skip(cat3("provider refused the scenario at `stream()` (`", code.as_str(), "`)"));
    assert(cx@ =~= skipped(refusal_note(code)));
    cx
}

/// What is found of events after the terminal one.
pub open spec fn late_findings(after: Seq<Seq<char>>, middle: Seq<char>) -> Seq<Seq<char>> {
    finding(after.len() > 0, decimal_text(after.len()) + middle + joined(after, ", "@))
}

fn judge_late(cx: &mut Cx, after: &Vec<String>, middle: &str)
    ensures
        final(cx)@ == old(cx)@.and_failed(late_findings(texts(after@), middle@)),
{
    if after.len() > 0 {
        cx.fail(
            cat3(decimal(after.len() as u64).as_str(), middle, join(after, ", ").as_str()),
        );
    }
    assert(cx@ =~= old(cx)@.and_failed(late_findings(texts(after@), middle@)));
}

/// The frames in one line.
pub open spec fn summary_line(frames: Seq<FrameView>) -> Seq<char> {
    if frames.len() == 0 {
        "<none>"@
    } else {
        joined(frames.map_values(|f: FrameView| f.summary()), " "@)
    }
}

/// A compact one-line frame summary for violation messages.
pub fn summarize(frames: &Vec<StreamFrame>) -> (r: String)
    ensures
        r@ == summary_line(frames_view(frames@)),
{
    if frames.len() == 0 {
        return owned("<none>");
    }
    let mut words: Vec<String> = Vec::new();
    for i in 0..frames.len()
        invariant
            words@.len() == i,
            forall|k: int| 0 <= k < i ==> (#[trigger] words@[k])@ == frames@[k]@.summary(),
    {
        words.push(summary(&frames[i]));
    }
    assert(texts(words@) =~= frames_view(frames@).map_values(|f: FrameView| f.summary()));
    join(&words, " ")
}

/// The case after comparing the observed frames with the scripted ones.
pub open spec fn identity_outcome(
    cx: CxView,
    drift: bool,
    observed: Seq<FrameView>,
    expected: Seq<FrameView>,
    label: Seq<char>,
) -> CxView {
    if drift {
        cx.and_skipped(
            label
                + ": provider declared frame-drift tolerance; frame-identity assertions reduced to structural invariants"@,
        )
    } else if observed == expected {
        cx
    } else {
        cx.and_failed(
            seq![
                label + ": provider emitted "@ + decimal_text(observed.len())
                    + " frame(s), scenario scripted "@ + decimal_text(expected.len())
                    + ".\n  expected: "@ + (summary_line(expected) + "\n  observed: "@
                    + summary_line(observed)),
            ],
        )
    }
}

/// Compare observed frames with expected ones, honouring the drift opt-out.
/// Tells whether the rest of the case may go on.
fn frame_identity(
    cx: &mut Cx,
    drift: bool,
    observed: &Vec<StreamFrame>,
    expected: &Vec<StreamFrame>,
    label: &str,
) -> (r: bool)
    ensures
        final(cx)@ == identity_outcome(
            old(cx)@,
            drift,
            frames_view(observed@),
            frames_view(expected@),
            label@,
        ),
        r == (drift || frames_view(observed@) == frames_view(expected@)),
{
    if drift {
        cx.skip(
            cat(
                label,
                ": provider declared frame-drift tolerance; frame-identity assertions reduced to structural invariants",
            ),
        );
        return true;
    }
    if same_frames(observed, expected) {
        return true;
    }
    cx.fail(
        cat7(
            label,
            ": provider emitted ",
            decimal(observed.len() as u64).as_str(),
            " frame(s), scenario scripted ",
            decimal(expected.len() as u64).as_str(),
            ".\n  expected: ",
            cat3(
                summarize(expected).as_str(),
                "\n  observed: ",
                summarize(observed).as_str(),
            ).as_str(),
        ),
    );
    false
}

// ---------------------------------------------------------------------------
// Entering a case
// ---------------------------------------------------------------------------

/// Whether `case` names a case of the suite.
pub open spec fn is_adapter_case(case: Seq<char>) -> bool {
    exists|i: int| 0 <= i < 10 && (#[trigger] ADAPTER_CONFORMANCE_CASES@[i])@ == case
}

/// What stops a case before it starts.
pub open spec fn adapter_gate_failure(case: Seq<char>, scenario_built: bool) -> Option<
    ViolationView,
> {
    if !is_adapter_case(case) {
        Some(ViolationView { case, detail: "unknown conformance case"@ })
    } else if !scenario_built {
        Some(
            ViolationView {
                case,
                detail: "the scenario factory panicked while building this case's fixture"@,
            },
        )
    } else {
        None
    }
}

/// Whether the case may start. `scenario_built` tells whether the harness's
/// factory returned (it is not asked for a name that is no case).
pub fn adapter_gate(case: &str, scenario_built: bool) -> (r: Option<Violation>)
    ensures
        match r {
            Some(v) => adapter_gate_failure(case@, scenario_built) == Some(v@),
            None => adapter_gate_failure(case@, scenario_built) is None,
        },
{
    let mut known = false;
    for i in 0..10usize
        invariant
            known == exists|k: int|
                0 <= k < i && (#[trigger] ADAPTER_CONFORMANCE_CASES@[k])@ == case@,
    {
        if same(ADAPTER_CONFORMANCE_CASES[i], case) {
            assert(ADAPTER_CONFORMANCE_CASES@[i as int]@ == case@);
            known = true;
        }
    }
    if !known {
        Some(Violation::new(case, "unknown conformance case"))
    } else if !scenario_built {
        Some(
            Violation::new(
                case,
                "the scenario factory panicked while building this case's fixture",
            ),
        )
    } else {
        None
    }
}

// ---------------------------------------------------------------------------
// Stream protocol
// ---------------------------------------------------------------------------

/// How many of these frames are `Usage`.
pub open spec fn usage_count(frames: Seq<FrameView>) -> nat
    decreases frames.len(),
{
    if frames.len() == 0 {
        0
    } else {
        usage_count(frames.drop_last()) + if frames.last() is Usage {
            1nat
        } else {
            0nat
        }
    }
}

/// What is found of the order of `Usage` and `Finish`.
pub open spec fn order_findings(c: CollectedView) -> Seq<Seq<char>> {
    match (first_usage(c.frames), first_finish(c.frames)) {
        (Some(u), Some(f)) => if u >= f {
            seq![
                "`Usage` arrived after the terminal `Finish` frame (frame "@ + decimal_text(f)
                    + " is `Finish`); usage must precede finish"@,
            ]
        } else {
            finding(
                usage_count(c.frames.take(f as int)) > 1,
                decimal_text(usage_count(c.frames.take(f as int)))
                    + " `Usage` frames precede the terminal `Finish` frame; usage is reported exactly once"@,
            )
        },
        (None, Some(_)) => seq![
            "stream finished without a `Usage` frame; every successful attempt reports its accounting before the terminal frame"@,
        ],
        (Some(_), None) => seq![
            "stream reported `Usage` but never emitted the terminal `Finish` frame; it ended "@
                + c.ending(),
        ],
        (None, None) => seq!["stream ended "@ + c.ending() + " with neither `Usage` nor `Finish`"@],
    }
}

/// The outcome of the usage-order case.
pub open spec fn usage_order_outcome(c: CollectedView) -> CxView {
    if c.panicked {
        failed(seq![panic_detail("usage before finish"@)])
    } else if c.threw is Some {
        skipped(refusal_note(c.threw->Some_0))
    } else {
        failed(
            order_findings(c) + late_findings(
                c.after_terminal,
                " event(s) followed the terminal frame: "@,
            ),
        )
    }
}

/// How many of the first `n` frames are `Usage`.
fn count_usages(frames: &Vec<StreamFrame>, n: usize) -> (r: usize)
    requires
        n <= frames@.len(),
    ensures
        r == usage_count(frames_view(frames@).take(n as int)),
{
    let ghost all = frames_view(frames@);
    let mut count: usize = 0;
    for i in 0..n
        invariant
            all == frames_view(frames@),
            n <= frames@.len(),
            count == usage_count(all.take(i as int)),
            count <= i,
    {
        assert(all.take(i + 1).drop_last() =~= all.take(i as int));
        assert(all.take(i + 1).last() == frames@[i as int]@);
        if let StreamFrame::Usage(_) = &frames[i] {
            count = count + 1;
        }
    }
    count
}

/// `Usage` comes exactly once before the terminal `Finish`.
pub fn usage_before_finish(c: &Collected) -> (r: Cx)
    ensures
        r@ == usage_order_outcome(c@),
{
    if c.panicked {
        return panic_cx("usage before finish");
    }
    if let Some(code) = c.threw {
        return refused_cx(code);
    }
    let mut cx = Cx::new();
    match (usage_position(&c.frames), finish_position(&c.frames)) {
        (Some(u), Some(f)) => {
            if u >= f {
                cx.fail(
                    cat3(
                        "`Usage` arrived after the terminal `Finish` frame (frame ",
                        decimal(f as u64).as_str(),
                        " is `Finish`); usage must precede finish",
                    ),
                );
            } else {
                proof {
                    lemma_first_finish_bound(c@.frames);
                }
                let count: usize = count_usages(&c.frames, f);
                if count > 1 {
                    cx.fail(
                        cat(
                            decimal(count as u64).as_str(),
                            " `Usage` frames precede the terminal `Finish` frame; usage is reported exactly once",
                        ),
                    );
                }
            }
        },
        (None, Some(_)) => cx.fail_str(
            "stream finished without a `Usage` frame; every successful attempt reports its accounting before the terminal frame",
        ),
        (Some(_), None) => cx.fail(
            cat(
                "stream reported `Usage` but never emitted the terminal `Finish` frame; it ended ",
                c.ending().as_str(),
            ),
        ),
        (None, None) => cx.fail(
            cat3(
                "stream ended ",
                c.ending().as_str(),
                " with neither `Usage` nor `Finish`",
            ),
        ),
    }
    assert(cx@ =~= failed(order_findings(c@)));
    judge_late(&mut cx, &c.after_terminal, " event(s) followed the terminal frame: ");
    cx
}

/// What is found of the terminal frame.
pub open spec fn terminal_findings(c: CollectedView) -> Seq<Seq<char>> {
    match first_finish(c.frames) {
        Some(pos) => finding(
            pos + 1 != c.frames.len(),
            "frame "@ + decimal_text(pos + 2) + " follows the terminal `Finish` frame at "@
                + decimal_text(pos) + "; nothing may follow the terminal frame"@,
        ),
        None => seq![
            "successful stream ended without a terminal `Finish` frame; it ended "@ + c.ending(),
        ],
    }
}

/// The outcome of the terminal-frame case.
pub open spec fn terminal_outcome(
    c: CollectedView,
    expected: Seq<FrameView>,
    scripted_failure: bool,
    drift: bool,
) -> CxView {
    let late = failed(
        late_findings(c.after_terminal, " event(s) followed the terminal frame: "@),
    );
    if c.panicked {
        failed(seq![panic_detail("nothing after finish"@)])
    } else if c.threw is Some {
        skipped(refusal_note(c.threw->Some_0))
    } else if c.stalled {
        late.and_failed(
            seq![
                "stream never terminated within the watchdog bound; a stalled stream is the failure path the transport watchdog exists to bound"@,
            ],
        )
    } else if scripted_failure {
        late.and_skipped(
            "scenario scripts a failed stream; its terminal shape is the failure case's job"@,
        )
    } else {
        identity_outcome(
            late.and_failed(terminal_findings(c)),
            drift,
            c.frames,
            expected,
            "stream replay"@,
        )
    }
}

/// `Finish` is the last frame, and the stream is the scripted one.
pub fn nothing_after_finish(scenario: &Scenario, c: &Collected) -> (r: Cx)
    requires
        c.frames@.len() + 1 <= u64::MAX,
    ensures
        r@ == terminal_outcome(
            c@,
            frames_view(scenario.expected@),
            scenario.failure is Some,
            scenario.frame_drift_tolerated,
        ),
{
    if c.panicked {
        return panic_cx("nothing after finish");
    }
    if let Some(code) = c.threw {
        return refused_cx(code);
    }
    let mut cx = Cx::new();
    judge_late(&mut cx, &c.after_terminal, " event(s) followed the terminal frame: ");
    assert(cx@ =~= failed(
        late_findings(c@.after_terminal, " event(s) followed the terminal frame: "@),
    ));
    if c.stalled {
        cx.fail_str(
            "stream never terminated within the watchdog bound; a stalled stream is the failure path the transport watchdog exists to bound",
        );
        return cx;
    }
    if scenario.failure.is_some() {
        cx.skip(
            owned(
                "scenario scripts a failed stream; its terminal shape is the failure case's job",
            ),
        );
        return cx;
    }
    let ghost before = cx@;
    match finish_position(&c.frames) {
        Some(pos) => {
            proof {
                lemma_first_finish_bound(c@.frames);
            }
            if pos != c.frames.len() - 1 {
                cx.fail(
                    cat5(
                        "frame ",
                        decimal(pos as u64 + 2).as_str(),
                        " follows the terminal `Finish` frame at ",
                        decimal(pos as u64).as_str(),
                        "; nothing may follow the terminal frame",
                    ),
                );
            }
        },
        None => cx.fail(
            cat(
                "successful stream ended without a terminal `Finish` frame; it ended ",
                c.ending().as_str(),
            ),
        ),
    }
    assert(cx@ =~= before.and_failed(terminal_findings(c@)));
    let _ = frame_identity(
        &mut cx,
        scenario.frame_drift_tolerated,
        &c.frames,
        &scenario.expected,
        "stream replay",
    );
    cx
}

proof fn lemma_first_finish_bound(frames: Seq<FrameView>)
    ensures
        first_finish(frames) matches Some(i) ==> i < frames.len() && frames[i as int] is Finish,
    decreases frames.len(),
{
    if frames.len() > 0 {
        lemma_first_finish_bound(frames.drop_last());
    }
}

/// A collection in progress holds at most one `Finish`, as the last frame, and
/// says so: the frames after it are evidence, not frames.
pub open spec fn collected_wf(c: CollectedView) -> bool {
    first_finish(c.frames) matches Some(i) ==> i + 1 == c.frames.len() && c.terminal_seen
}

/// Every step keeps the collection's shape: once a stream is terminal, no
/// later event is ever taken for one of its frames.
pub proof fn law_frames_stop_at_the_terminal_event(c: CollectedView, step: StepView)
    requires
        collected_wf(c),
    ensures
        collected_wf(nothing_collected()),
        collected_wf(c.fed(step)),
        c.terminal_seen ==> c.fed(step).frames == c.frames && c.fed(step).failure == c.failure,
        c.terminal_seen && step is Event ==> c.fed(step).after_terminal.len()
            == c.after_terminal.len() + 1,
{
    let after = c.fed(step);
    if !c.terminal_seen {
        if let StepView::Event(EventView::Frame(frame)) = step {
            assert(after.frames.drop_last() =~= c.frames);
        }
    }
}

// ---------------------------------------------------------------------------
// Lossless tool arguments
// ---------------------------------------------------------------------------

/// What is found of the assembled tool-call payloads.
pub open spec fn payload_findings(ends: Seq<(usize, Seq<char>)>) -> Seq<Seq<char>>
    decreases ends.len(),
{
    if ends.len() == 0 {
        Seq::empty()
    } else {
        payload_findings(ends.drop_last()) + finding(
            ends.last().1 != RAW_TOOL_ARGS@,
            "assembled tool-call arguments for block "@ + decimal_text(ends.last().0 as nat)
                + " are "@ + debug_text(ends.last().1) + ", not the scripted raw JSON "@
                + debug_text(RAW_TOOL_ARGS@)
                + "; the adapter re-serialised the provider's bytes"@,
        )
    }
}

/// The case after comparing the streamed fragments.
pub open spec fn delta_outcome(
    cx: CxView,
    drift: bool,
    observed: Seq<Seq<char>>,
    expected: Seq<Seq<char>>,
) -> CxView {
    let empty = Seq::<char>::empty();
    (if drift {
        cx.and_skipped("frame drift tolerated; delta identity reduced to concatenation"@)
    } else {
        cx.and_failed(
            finding(
                observed != expected,
                "tool-call deltas are "@ + debug_texts(observed) + ", scripted as "@ + debug_texts(
                    expected,
                )
                    + "; a provider that buffers and re-emits whole arguments is re-serialising"@,
            ),
        )
    }).and_failed(
        finding(
            joined(observed, empty) != RAW_TOOL_ARGS@,
            "concatenated tool-call deltas are "@ + debug_text(joined(observed, empty))
                + ", not the scripted raw JSON "@ + debug_text(RAW_TOOL_ARGS@),
        ),
    )
}

/// The outcome of the raw-arguments case.
pub open spec fn raw_outcome(c: CollectedView, expected: Seq<FrameView>, drift: bool) -> CxView {
    let ends = tool_ends(c.frames);
    if c.panicked {
        failed(seq![panic_detail("raw tool arguments"@)])
    } else if c.threw is Some {
        skipped(refusal_note(c.threw->Some_0))
    } else if ends.len() == 0 {
        failed(
            seq![
                "scenario scripted a tool call and the stream assembled none; the tool-call block is the payload this case exists to check"@,
            ],
        )
    } else if tool_deltas(expected).len() == 0 {
        failed(payload_findings(ends)).and_skipped(
            "scenario streams no tool-call deltas; only the assembled payload is checkable"@,
        )
    } else {
        delta_outcome(
            failed(payload_findings(ends)),
            drift,
            tool_deltas(c.frames),
            tool_deltas(expected),
        )
    }
}

fn same_lists(a: &Vec<String>, b: &Vec<String>) -> (r: bool)
    ensures
        r == (texts(a@) == texts(b@)),
{
    if a.len() != b.len() {
        assert(texts(a@).len() != texts(b@).len());
        return false;
    }
    for i in 0..a.len()
        invariant
            a@.len() == b@.len(),
            forall|k: int| 0 <= k < i ==> (#[trigger] texts(a@)[k]) == texts(b@)[k],
    {
        if !same(a[i].as_str(), b[i].as_str()) {
            assert(texts(a@)[i as int] != texts(b@)[i as int]);
            return false;
        }
    }
    assert(texts(a@) =~= texts(b@));
    true
}

/// Tool arguments stay raw JSON end to end: the assembled payload is the
/// scripted bytes, the fragments are the scripted fragments, and they
/// concatenate to the payload.
pub fn raw_json_tool_arguments(scenario: &Scenario, c: &Collected) -> (r: Cx)
    ensures
        r@ == raw_outcome(
            c@,
            frames_view(scenario.expected@),
            scenario.frame_drift_tolerated,
        ),
{
    if c.panicked {
        return panic_cx("raw tool arguments");
    }
    if let Some(code) = c.threw {
        return refused_cx(code);
    }
    let mut cx = Cx::new();
    let ends = tool_ends_of(&c.frames);
    if ends.len() == 0 {
        assert(tool_ends(c@.frames).len() == 0);
        cx.fail_str(
            "scenario scripted a tool call and the stream assembled none; the tool-call block is the payload this case exists to check",
        );
        assert(cx@ =~= raw_outcome(
            c@,
            frames_view(scenario.expected@),
            scenario.frame_drift_tolerated,
        ));
        return cx;
    }
    let ghost all = ends_view(ends@);
    for i in 0..ends.len()
        invariant
            all == ends_view(ends@),
            cx@ == failed(payload_findings(all.take(i as int))),
    {
        assert(all.take(i + 1).drop_last() =~= all.take(i as int));
        assert(all.take(i + 1).last() == (ends@[i as int].0, ends@[i as int].1@));
        if !same(ends[i].1.as_str(), RAW_TOOL_ARGS) {
            cx.fail(
                cat7(
                    "assembled tool-call arguments for block ",
                    decimal(ends[i].0 as u64).as_str(),
                    " are ",
                    quoted(ends[i].1.as_str()).as_str(),
                    ", not the scripted raw JSON ",
                    quoted(RAW_TOOL_ARGS).as_str(),
                    "; the adapter re-serialised the provider's bytes",
                ),
            );
        }
        assert(cx@ =~= failed(payload_findings(all.take(i + 1))));
    }
    assert(all.take(all.len() as int) =~= all);
    assert(tool_ends(c@.frames).len() > 0);
    let expected = tool_deltas_of(&scenario.expected);
    assert(texts(expected@).len() == expected@.len());
    if expected.len() == 0 {
        cx.skip(
            owned(
                "scenario streams no tool-call deltas; only the assembled payload is checkable",
            ),
        );
        return cx;
    }
    let ghost before = cx@;
    let observed = tool_deltas_of(&c.frames);
    if scenario.frame_drift_tolerated {
        cx.skip(owned("frame drift tolerated; delta identity reduced to concatenation"));
    } else if !same_lists(&observed, &expected) {
        cx.fail(
            cat5(
                "tool-call deltas are ",
                quoted_list(&observed).as_str(),
                ", scripted as ",
                quoted_list(&expected).as_str(),
                "; a provider that buffers and re-emits whole arguments is re-serialising",
            ),
        );
    }
    proof {
        reveal_strlit("");
        assert(""@ =~= Seq::<char>::empty());
    }
    let whole = join(&observed, "");
    if !same(whole.as_str(), RAW_TOOL_ARGS) {
        cx.fail(
            cat4(
                "concatenated tool-call deltas are ",
                quoted(whole.as_str()).as_str(),
                ", not the scripted raw JSON ",
                quoted(RAW_TOOL_ARGS).as_str(),
            ),
        );
    }
    assert(cx@ =~= delta_outcome(
        before,
        scenario.frame_drift_tolerated,
        texts(observed@),
        texts(expected@),
    ));
    cx
}

// ---------------------------------------------------------------------------
// Failure paths
// ---------------------------------------------------------------------------

/// The outcome of the failure-paths case, when the scenario scripts the
/// failure `scripted`.
pub open spec fn failure_paths_outcome(c: CollectedView, scripted: Option<ErrorCode>) -> CxView {
    match scripted {
        None => failed(
            seq!["scenario for this case scripts no failure; the harness must script one"@],
        ),
        Some(code) => if c.panicked {
            failed(seq![panic_detail("failure paths"@)])
        } else if c.threw is Some {
            failed(
                finding(
                    c.threw->Some_0 != code,
                    "`stream()` threw `"@ + c.threw->Some_0.spelling()
                        + "` for a scenario scripted as `"@ + code.spelling()
                        + "`; both sanctioned paths normalise to the same provider-neutral code"@,
                ),
            )
        } else {
            failed(
                (match c.failure {
                    Some(f) => finding(
                        f.code != code,
                        "in-band failure carried `"@ + f.code.spelling()
                            + "`, scenario scripted `"@ + code.spelling()
                            + "`; the failure shape must survive the adapter boundary unchanged"@,
                    ),
                    None => seq![
                        "scenario scripted a `"@ + code.spelling()
                            + "` failure and the stream ended "@ + c.ending()
                            + " instead; a failing attempt must surface through one of the two sanctioned paths"@,
                    ],
                }) + late_findings(
                    c.after_terminal,
                    " event(s) followed the terminal failure: "@,
                ),
            )
        },
    }
}

/// The code of a scripted failure.
pub open spec fn scripted_code(failure: Option<ProviderFailure>) -> Option<ErrorCode> {
    match failure {
        Some(f) => Some(f.code),
        None => None,
    }
}

/// Exactly two sanctioned failure paths, normalising to one code.
pub fn sanctioned_failure_paths(scenario: &Scenario, c: &Collected) -> (r: Cx)
    ensures
        r@ == failure_paths_outcome(c@, scripted_code(scenario.failure)),
{
    let mut cx = Cx::new();
    let scripted = match &scenario.failure {
        Some(f) => f.code,
        None => {
            cx.fail_str("scenario for this case scripts no failure; the harness must script one");
            assert(cx@ =~= failure_paths_outcome(c@, None));
            return cx;
        },
    };
    if c.panicked {
        return panic_cx("failure paths");
    }
    if let Some(code) = c.threw {
        if code != scripted {
            cx.fail(
                cat5(
                    "`stream()` threw `",
                    code.as_str(),
                    "` for a scenario scripted as `",
                    scripted.as_str(),
                    "`; both sanctioned paths normalise to the same provider-neutral code",
                ),
            );
        }
        assert(cx@ =~= failure_paths_outcome(c@, Some(scripted)));
        return cx;
    }
    match &c.failure {
        Some(f) => {
            if f.code != scripted {
                cx.fail(
                    cat5(
                        "in-band failure carried `",
                        f.code.as_str(),
                        "`, scenario scripted `",
                        scripted.as_str(),
                        "`; the failure shape must survive the adapter boundary unchanged",
                    ),
                );
            }
        },
        None => cx.fail(
            cat5(
                "scenario scripted a `",
                scripted.as_str(),
                "` failure and the stream ended ",
                c.ending().as_str(),
                " instead; a failing attempt must surface through one of the two sanctioned paths",
            ),
        ),
    }
    judge_late(&mut cx, &c.after_terminal, " event(s) followed the terminal failure: ");
    assert(cx@ =~= failure_paths_outcome(c@, Some(scripted)));
    cx
}

/// The outcome of the in-band failure case.
pub open spec fn in_band_outcome(c: CollectedView, expected: Seq<FrameView>, drift: bool) -> CxView {
    if c.panicked {
        failed(seq![panic_detail("in-band failure"@)])
    } else if c.threw is Some {
        skipped(refusal_note(c.threw->Some_0))
    } else if c.failure is None {
        failed(
            seq![
                "scenario scripted a terminal in-band failure and the stream ended "@ + c.ending()
                    + " instead"@,
            ],
        )
    } else {
        identity_outcome(
            failed(
                finding(
                    c.after_terminal.len() > 0,
                    "in-band `Failed` is not terminal: "@ + decimal_text(c.after_terminal.len())
                        + " event(s) followed it: "@ + joined(c.after_terminal, ", "@),
                ) + finding(
                    first_finish(c.frames) is Some,
                    "stream emitted both a `Finish` frame and an in-band `Failed` event; a stream ends exactly one way"@,
                ),
            ),
            drift,
            c.frames,
            expected,
            "pre-failure frames"@,
        )
    }
}

/// An in-band failure is the terminal event, after exactly the scripted
/// frames.
pub fn in_band_failure_is_terminal(scenario: &Scenario, c: &Collected) -> (r: Cx)
    ensures
        r@ == in_band_outcome(
            c@,
            frames_view(scenario.expected@),
            scenario.frame_drift_tolerated,
        ),
{
    if c.panicked {
        return panic_cx("in-band failure");
    }
    if let Some(code) = c.threw {
        return refused_cx(code);
    }
    let mut cx = Cx::new();
    if c.failure.is_none() {
        cx.fail(
            cat3(
                "scenario scripted a terminal in-band failure and the stream ended ",
                c.ending().as_str(),
                " instead",
            ),
        );
        assert(cx@ =~= in_band_outcome(
            c@,
            frames_view(scenario.expected@),
            scenario.frame_drift_tolerated,
        ));
        return cx;
    }
    if c.after_terminal.len() > 0 {
        cx.fail(
            cat4(
                "in-band `Failed` is not terminal: ",
                decimal(c.after_terminal.len() as u64).as_str(),
                " event(s) followed it: ",
                join(&c.after_terminal, ", ").as_str(),
            ),
        );
    }
    if finish_position(&c.frames).is_some() {
        cx.fail_str(
            "stream emitted both a `Finish` frame and an in-band `Failed` event; a stream ends exactly one way",
        );
    }
    assert(cx@ =~= failed(
        finding(
            c@.after_terminal.len() > 0,
            "in-band `Failed` is not terminal: "@ + decimal_text(c@.after_terminal.len())
                + " event(s) followed it: "@ + joined(c@.after_terminal, ", "@),
        ) + finding(
            first_finish(c@.frames) is Some,
            "stream emitted both a `Finish` frame and an in-band `Failed` event; a stream ends exactly one way"@,
        ),
    ));
    let _ = frame_identity(
        &mut cx,
        scenario.frame_drift_tolerated,
        &c.frames,
        &scenario.expected,
        "pre-failure frames",
    );
    cx
}

/// The outcome of the empty-completion case.
pub open spec fn empty_outcome(c: CollectedView) -> CxView {
    if c.panicked {
        failed(seq![panic_detail("empty completion"@)])
    } else if c.threw is Some {
        failed(
            finding(
                c.threw->Some_0 != ErrorCode::EmptyCompletion,
                "silent completion threw `"@ + c.threw->Some_0.spelling()
                    + "`; an empty completion is the retryable `empty-completion` failure"@,
            ),
        )
    } else if exists|i: int| 0 <= i < c.frames.len() && is_content(#[trigger] c.frames[i]) {
        failed(
            seq![
                "scenario scripted a silent completion and the stream emitted content frames; the provider invented output for an empty response"@,
            ],
        )
    } else {
        failed(
            (match c.failure {
                Some(f) => finding(
                    f.code != ErrorCode::EmptyCompletion,
                    "silent completion failed with `"@ + f.code.spelling()
                        + "`; the contract classifies it as the retryable `empty-completion` failure"@,
                ),
                None => seq![
                    "silent completion was reported as a success ("@ + c.ending()
                        + "); an empty completion is a retryable failure, never a result"@,
                ],
            }) + finding(
                c.stalled,
                "silent completion stalled instead of failing within the watchdog bound"@,
            ),
        )
    }
}

/// An empty completion is a retryable failure, never a success.
pub fn empty_completion_is_retryable_failure(c: &Collected) -> (r: Cx)
    ensures
        r@ == empty_outcome(c@),
{
    if c.panicked {
        return panic_cx("empty completion");
    }
    let mut cx = Cx::new();
    if let Some(code) = c.threw {
        if code != ErrorCode::EmptyCompletion {
            cx.fail(
                cat3(
                    "silent completion threw `",
                    code.as_str(),
                    "`; an empty completion is the retryable `empty-completion` failure",
                ),
            );
        }
        assert(cx@ =~= empty_outcome(c@));
        return cx;
    }
    if has_content(&c.frames) {
        cx.fail_str(
            "scenario scripted a silent completion and the stream emitted content frames; the provider invented output for an empty response",
        );
        assert(cx@ =~= empty_outcome(c@));
        return cx;
    }
    match &c.failure {
        Some(f) => {
            if f.code != ErrorCode::EmptyCompletion {
                cx.fail(
                    cat3(
                        "silent completion failed with `",
                        f.code.as_str(),
                        "`; the contract classifies it as the retryable `empty-completion` failure",
                    ),
                );
            }
        },
        None => cx.fail(
            cat3(
                "silent completion was reported as a success (",
                c.ending().as_str(),
                "); an empty completion is a retryable failure, never a result",
            ),
        ),
    }
    if c.stalled {
        cx.fail_str("silent completion stalled instead of failing within the watchdog bound");
    }
    assert(cx@ =~= empty_outcome(c@));
    cx
}

/// The outcome of the context-overflow case.
pub open spec fn overflow_outcome(c: CollectedView) -> CxView {
    if c.panicked {
        failed(seq![panic_detail("context overflow"@)])
    } else if c.threw is Some {
        failed(
            finding(
                c.threw->Some_0 != ErrorCode::ContextOverflow,
                "context overflow threw `"@ + c.threw->Some_0.spelling()
                    + "`; the seam has exactly one canonical code for it (`"@
                    + ErrorCode::ContextOverflow.spelling() + "`)"@,
            ),
        )
    } else {
        failed(
            (match c.failure {
                Some(f) => finding(
                    f.code != ErrorCode::ContextOverflow,
                    "context overflow arrived in-band as `"@ + f.code.spelling()
                        + "`; consumers route overflow on the canonical `context-overflow` code and nothing else"@,
                ),
                None => seq![
                    "context overflow ended "@ + c.ending()
                        + " instead of failing; an overflow must surface as the canonical failure, never as a truncated success"@,
                ],
            }) + finding(
                c.after_terminal.len() > 0,
                decimal_text(c.after_terminal.len())
                    + " event(s) followed the terminal overflow failure"@,
            ),
        )
    }
}

/// Context overflow classifies to the single canonical code.
pub fn context_overflow_canonical_code(c: &Collected) -> (r: Cx)
    ensures
        r@ == overflow_outcome(c@),
{
    if c.panicked {
        return panic_cx("context overflow");
    }
    let mut cx = Cx::new();
    if let Some(code) = c.threw {
        if code != ErrorCode::ContextOverflow {
            cx.fail(
                cat5(
                    "context overflow threw `",
                    code.as_str(),
                    "`; the seam has exactly one canonical code for it (`",
                    ErrorCode::ContextOverflow.as_str(),
                    "`)",
                ),
            );
        }
        assert(cx@ =~= overflow_outcome(c@));
        return cx;
    }
    match &c.failure {
        Some(f) => {
            if f.code != ErrorCode::ContextOverflow {
                cx.fail(
                    cat3(
                        "context overflow arrived in-band as `",
                        f.code.as_str(),
                        "`; consumers route overflow on the canonical `context-overflow` code and nothing else",
                    ),
                );
            }
        },
        None => cx.fail(
            cat3(
                "context overflow ended ",
                c.ending().as_str(),
                " instead of failing; an overflow must surface as the canonical failure, never as a truncated success",
            ),
        ),
    }
    if c.after_terminal.len() > 0 {
        cx.fail(
            cat(
                decimal(c.after_terminal.len() as u64).as_str(),
                " event(s) followed the terminal overflow failure",
            ),
        );
    }
    assert(cx@ =~= overflow_outcome(c@));
    cx
}

// ---------------------------------------------------------------------------
// Usage accounting
// ---------------------------------------------------------------------------

/// What is found of one reported accounting against the scripted one.
pub open spec fn accounting_findings(usage: Usage, scripted: Option<Usage>, drift: bool) -> Seq<
    Seq<char>,
> {
    (match scripted {
        Some(want) => finding(
            !drift && usage != want,
            "reported usage "@ + usage.shown() + " differs from the scripted accounting "@
                + want.shown()
                + "; the adapter must publish the provider's numbers, not re-derived ones"@,
        ),
        None => Seq::empty(),
    }) + finding(
        usage.reasoning > usage.output,
        "reported reasoning "@ + decimal_text(usage.reasoning as nat) + " exceeds output "@
            + decimal_text(usage.output as nat)
            + "; reasoning tokens are already inside output and must never be added again"@,
    ) + match scripted {
        Some(want) => finding(
            usage.output == want.output + usage.reasoning && usage.reasoning > 0,
            "reported output "@ + decimal_text(usage.output as nat) + " is the honest output "@
                + decimal_text(want.output as nat) + " plus reasoning "@ + decimal_text(
                usage.reasoning as nat,
            ) + " re-added; reasoning is already inside output"@,
        ),
        None => Seq::empty(),
    }
}

/// The outcome of the usage case. The three input parts are disjoint by the
/// seam's own definition of what is billed, so they need no finding.
pub open spec fn accounting_outcome(c: CollectedView, expected: Seq<FrameView>, drift: bool) -> CxView {
    let reported = usages(c.frames);
    if c.panicked {
        failed(seq![panic_detail("disjoint usage"@)])
    } else if c.threw is Some {
        skipped(refusal_note(c.threw->Some_0))
    } else if reported.len() == 0 {
        failed(
            seq![
                "usage accounting: stream ended "@ + c.ending() + " without reporting `Usage`"@,
            ],
        )
    } else if reported.len() > 1 {
        failed(
            seq![
                "usage accounting: stream reported `Usage` "@ + decimal_text(reported.len())
                    + " times; the accounting frame is emitted once per attempt"@,
            ],
        )
    } else {
        failed(
            accounting_findings(
                reported[0],
                if usages(expected).len() > 0 {
                    Some(usages(expected)[0])
                } else {
                    None
                },
                drift,
            ),
        )
    }
}

/// The accounting is published once, as scripted, with reasoning inside output
/// and never added to it again.
pub fn disjoint_usage(scenario: &Scenario, c: &Collected) -> (r: Cx)
    ensures
        r@ == accounting_outcome(
            c@,
            frames_view(scenario.expected@),
            scenario.frame_drift_tolerated,
        ),
{
    if c.panicked {
        return panic_cx("disjoint usage");
    }
    if let Some(code) = c.threw {
        return refused_cx(code);
    }
    let mut cx = Cx::new();
    let reported = usages_of(&c.frames);
    if reported.len() == 0 {
        cx.fail(
            cat3(
                "usage accounting: stream ended ",
                c.ending().as_str(),
                " without reporting `Usage`",
            ),
        );
        assert(cx@ =~= accounting_outcome(
            c@,
            frames_view(scenario.expected@),
            scenario.frame_drift_tolerated,
        ));
        return cx;
    }
    if reported.len() > 1 {
        cx.fail(
            cat3(
                "usage accounting: stream reported `Usage` ",
                decimal(reported.len() as u64).as_str(),
                " times; the accounting frame is emitted once per attempt",
            ),
        );
        assert(cx@ =~= accounting_outcome(
            c@,
            frames_view(scenario.expected@),
            scenario.frame_drift_tolerated,
        ));
        return cx;
    }
    let usage = reported[0];
    let wanted = usages_of(&scenario.expected);
    let scripted: Option<Usage> = if wanted.len() > 0 {
        Some(wanted[0])
    } else {
        None
    };
    if let Some(want) = scripted {
        if !scenario.frame_drift_tolerated && usage != want {
            cx.fail(
                cat5(
                    "reported usage ",
                    usage.display().as_str(),
                    " differs from the scripted accounting ",
                    want.display().as_str(),
                    "; the adapter must publish the provider's numbers, not re-derived ones",
                ),
            );
        }
    }
    if usage.reasoning > usage.output {
        cx.fail(
            cat5(
                "reported reasoning ",
                decimal(usage.reasoning).as_str(),
                " exceeds output ",
                decimal(usage.output).as_str(),
                "; reasoning tokens are already inside output and must never be added again",
            ),
        );
    }
    if let Some(want) = scripted {
        if usage.output as u128 == want.output as u128 + usage.reasoning as u128 && usage.reasoning
            > 0 {
            cx.fail(
                cat7(
                    "reported output ",
                    decimal(usage.output).as_str(),
                    " is the honest output ",
                    decimal(want.output).as_str(),
                    " plus reasoning ",
                    decimal(usage.reasoning).as_str(),
                    " re-added; reasoning is already inside output",
                ),
            );
        }
    }
    assert(cx@ =~= accounting_outcome(
        c@,
        frames_view(scenario.expected@),
        scenario.frame_drift_tolerated,
    ));
    cx
}

// ---------------------------------------------------------------------------
// Replay-state ownership
// ---------------------------------------------------------------------------

/// An adapter's answer to whether a replay state is its own.
#[derive(Debug, Clone, Copy, PartialEq, Eq, Structural)]
pub enum Claim {
    Claimed,
    Refused,
    Panicked,
}

/// What is found of the adapter's claims.
pub open spec fn ownership_findings(own: Claim, foreign: Claim, bare: Claim) -> Seq<Seq<char>> {
    if own == Claim::Panicked {
        seq!["`owns()` panicked on state the harness declares as this adapter's own"@]
    } else {
        finding(
            own == Claim::Refused,
            "`owns()` refused state the harness declares as this adapter's own (`"@
                + OWNED_STATE_KEY@ + "` = `"@ + OWNED_STATE_VALUE@
                + "`); an adapter that cannot claim its own state silently drops it on the next turn"@,
        ) + if foreign == Claim::Panicked {
            seq!["`owns()` panicked on state the harness declares as another provider's"@]
        } else {
            finding(
                foreign == Claim::Claimed,
                "`owns()` claimed state the harness declares as another provider's (`"@
                    + FOREIGN_STATE_KEY@ + "` = `"@ + FOREIGN_STATE_VALUE@
                    + "`); claiming foreign replay state is how an ownership-gated handoff corrupts a conversation with metadata it cannot interpret"@,
            ) + match bare {
                Claim::Panicked => seq![
                    "`owns()` panicked on replay state with no response metadata"@,
                ],
                Claim::Claimed => seq![
                    "`owns()` claimed replay state carrying no response metadata at all; state with no owner marker belongs to nobody"@,
                ],
                Claim::Refused => Seq::empty(),
            }
        }
    }
}

/// An adapter claims only state stamped for it. The three answers are to the
/// adapter's own state, another provider's, and state with no marker at all;
/// an answer after one that panicked is not looked at.
pub fn replay_state_ownership(own: Claim, foreign: Claim, bare: Claim) -> (r: Cx)
    ensures
        r@ == failed(ownership_findings(own, foreign, bare)),
{
    let mut cx = Cx::new();
    if own == Claim::Panicked {
        cx.fail_str("`owns()` panicked on state the harness declares as this adapter's own");
        assert(cx@ =~= failed(ownership_findings(own, foreign, bare)));
        return cx;
    }
    if own == Claim::Refused {
        cx.fail(
            cat5(
                "`owns()` refused state the harness declares as this adapter's own (`",
                OWNED_STATE_KEY,
                "` = `",
                OWNED_STATE_VALUE,
                "`); an adapter that cannot claim its own state silently drops it on the next turn",
            ),
        );
    }
    if foreign == Claim::Panicked {
        cx.fail_str("`owns()` panicked on state the harness declares as another provider's");
        assert(cx@ =~= failed(ownership_findings(own, foreign, bare)));
        return cx;
    }
    if foreign == Claim::Claimed {
        cx.fail(
            cat5(
                "`owns()` claimed state the harness declares as another provider's (`",
                FOREIGN_STATE_KEY,
                "` = `",
                FOREIGN_STATE_VALUE,
                "`); claiming foreign replay state is how an ownership-gated handoff corrupts a conversation with metadata it cannot interpret",
            ),
        );
    }
    match bare {
        Claim::Panicked => cx.fail_str(
            "`owns()` panicked on replay state with no response metadata",
        ),
        Claim::Claimed => cx.fail_str(
            "`owns()` claimed replay state carrying no response metadata at all; state with no owner marker belongs to nobody",
        ),
        Claim::Refused => {},
    }
    assert(cx@ =~= failed(ownership_findings(own, foreign, bare)));
    cx
}

// ---------------------------------------------------------------------------
// Replay alignment
// ---------------------------------------------------------------------------

/// Whether some block is emitted before one of smaller index.
pub open spec fn interleaves(order: Seq<usize>) -> bool {
    exists|i: int| 0 <= i && i + 1 < order.len() && (#[trigger] order[i]) > order[i + 1]
}

fn descends(order: &Vec<usize>) -> (r: bool)
    ensures
        r == interleaves(order@),
{
    let mut i: usize = 0;
    while i < order.len() && i + 1 < order.len()
        invariant
            i <= order@.len(),
            forall|k: int| 0 <= k < i && k + 1 < order@.len() ==> (#[trigger] order@[k]) <= order@[k
                + 1],
        decreases order@.len() - i,
    {
        if order[i] > order[i + 1] {
            assert(order@[i as int] > order@[i + 1]);
            return true;
        }
        i = i + 1;
    }
    false
}

fn distinct(order: &Vec<usize>) -> (r: bool)
    ensures
        r == order@.no_duplicates(),
{
    for i in 0..order.len()
        invariant
            forall|a: int, b: int| 0 <= a < b < i ==> order@[a] != order@[b],
    {
        for j in 0..i
            invariant
                i < order@.len(),
                forall|a: int| 0 <= a < j ==> order@[a] != order@[i as int],
        {
            if order[j] == order[i] {
                assert(!order@.no_duplicates());
                return false;
            }
        }
    }
    true
}

/// The case before the alignment itself is looked at.
pub open spec fn alignment_start(c: CollectedView, expected: Seq<FrameView>, drift: bool) -> CxView {
    identity_outcome(clean(), drift, c.frames, expected, "interleaved stream"@)
}

/// Whether the alignment itself is to be looked at, or how the case ends
/// before that.
pub open spec fn alignment_plan(
    c: CollectedView,
    expected: Seq<FrameView>,
    drift: bool,
    publishes: bool,
    entries: nat,
) -> PlanView<()> {
    let cx = alignment_start(c, expected, drift);
    let order = emitted(c.frames);
    if c.panicked {
        PlanView::Done(failed(seq![panic_detail("replay alignment"@)]))
    } else if c.threw is Some {
        PlanView::Done(skipped(refusal_note(c.threw->Some_0)))
    } else if !drift && c.frames != expected {
        PlanView::Done(
            cx.and_skipped(
                "frame mismatch: alignment assertions would compare the wrong stream"@,
            ),
        )
    } else if order.len() == 0 {
        PlanView::Done(
            cx.and_failed(
                seq!["scenario scripted no completed blocks; alignment has nothing to pair"@],
            ),
        )
    } else if !order.no_duplicates() {
        PlanView::Done(
            cx.and_failed(seq!["scenario scripted the same block index more than once"@]),
        )
    } else if !interleaves(order) {
        PlanView::Done(
            cx.and_failed(
                seq![
                    "scenario does not interleave (emission order equals index order), so it cannot distinguish emission-order alignment from index-order alignment; the harness must script a descending-index stream"@,
                ],
            ),
        )
    } else if !publishes {
        PlanView::Done(
            cx.and_skipped(
                "scenario did not declare what metadata the provider appends (Scenario::published_metadata); the suite will not align entries it invented and call the result the provider's pairing"@,
            ),
        )
    } else if order.len() != entries {
        PlanView::Done(
            cx.and_failed(
                seq![
                    "provider emitted "@ + decimal_text(order.len())
                        + " completed block(s) for a scenario that appended "@ + decimal_text(
                        entries,
                    )
                        + " metadata entry(ies); alignment cannot describe content that was not emitted"@,
                ],
            ),
        )
    } else {
        PlanView::Ask(())
    }
}

/// Plan the alignment case: whether to fold the frames through the consumer's
/// own assembler and align the published metadata.
pub fn plan_alignment(scenario: &Scenario, c: &Collected) -> (r: Plan<()>)
    ensures
        r@ == alignment_plan(
            c@,
            frames_view(scenario.expected@),
            scenario.frame_drift_tolerated,
            scenario.provider_publishes_metadata,
            scenario.block_metadata@.len(),
        ),
{
    if c.panicked {
        return Plan::Done(panic_cx("replay alignment"));
    }
    if let Some(code) = c.threw {
        return Plan::Done(refused_cx(code));
    }
    let mut cx = Cx::new();
    if !frame_identity(
        &mut cx,
        scenario.frame_drift_tolerated,
        &c.frames,
        &scenario.expected,
        "interleaved stream",
    ) {
        cx.skip(owned("frame mismatch: alignment assertions would compare the wrong stream"));
        return Plan::Done(cx);
    }
    let order = emitted_of(&c.frames);
    if order.len() == 0 {
        cx.fail_str("scenario scripted no completed blocks; alignment has nothing to pair");
        return Plan::Done(cx);
    }
    if !distinct(&order) {
        cx.fail_str("scenario scripted the same block index more than once");
        return Plan::Done(cx);
    }
    if !descends(&order) {
        cx.fail_str(
            "scenario does not interleave (emission order equals index order), so it cannot distinguish emission-order alignment from index-order alignment; the harness must script a descending-index stream",
        );
        return Plan::Done(cx);
    }
    if !scenario.provider_publishes_metadata {
        cx.skip(
            owned(
                "scenario did not declare what metadata the provider appends (Scenario::published_metadata); the suite will not align entries it invented and call the result the provider's pairing",
            ),
        );
        return Plan::Done(cx);
    }
    if order.len() != scenario.block_metadata.len() {
        cx.fail(
            cat5(
                "provider emitted ",
                decimal(order.len() as u64).as_str(),
                " completed block(s) for a scenario that appended ",
                decimal(scenario.block_metadata.len() as u64).as_str(),
                " metadata entry(ies); alignment cannot describe content that was not emitted",
            ),
        );
        return Plan::Done(cx);
    }
    Plan::Ask(())
}

/// The block a metadata entry says it describes.
pub open spec fn described_block(entry: JsonView) -> Option<u64> {
    match entry.field("index"@) {
        Some(j) => j.unsigned(),
        None => None,
    }
}

/// What is found of the first `n` aligned entries: entry `i` must describe the
/// block emitted at slot `i`. An entry without a marker ends the look.
pub open spec fn pairing_findings(aligned: Seq<JsonView>, order: Seq<usize>, n: int) -> Seq<
    Seq<char>,
>
    decreases n,
{
    if n <= 0 {
        Seq::empty()
    } else if pairing_stops(aligned, n - 1) {
        pairing_findings(aligned, order, n - 1)
    } else {
        pairing_findings(aligned, order, n - 1) + match described_block(aligned[n - 1]) {
            None => seq![
                "metadata entry "@ + decimal_text((n - 1) as nat)
                    + " carries no `index` marker; the scenario must make the pairing observable"@,
            ],
            Some(block) => finding(
                block != order[n - 1],
                "metadata entry "@ + decimal_text((n - 1) as nat) + " describes block "@
                    + decimal_text(block as nat) + " but was aligned to emitted block "@
                    + decimal_text(order[n - 1] as nat)
                    + "; alignment must consume emission order, never index order"@,
            ),
        }
    }
}

/// Whether one of the first `n` entries carries no marker.
pub open spec fn pairing_stops(aligned: Seq<JsonView>, n: int) -> bool {
    exists|i: int| 0 <= i < n && described_block(#[trigger] aligned[i]) is None
}

/// The outcome of the alignment itself. `aligned` is the metadata the consumer
/// stores, `blocks` the blocks it stores, `truncated` whether it saw the stream
/// end early.
pub open spec fn alignment_outcome(
    cx: CxView,
    order: Seq<usize>,
    aligned: Seq<JsonView>,
    blocks: Seq<ContentBlock>,
    truncated: bool,
) -> CxView {
    if aligned.len() != blocks.len() {
        cx.and_failed(
            seq![
                "aligned replay state carries "@ + decimal_text(aligned.len())
                    + " metadata entries for "@ + decimal_text(blocks.len())
                    + " assembled blocks; stored metadata must describe stored content one-for-one"@,
            ],
        )
    } else {
        let n = aligned.len() as int;
        cx.and_failed(
            pairing_findings(aligned, order, n) + finding(
                !pairing_stops(aligned, n) && truncated && exists|i: int|
                    0 <= i < blocks.len() && (#[trigger] blocks[i]).kind == BlockKind::ToolCall,
                "truncated stream kept tool-call blocks; a partial call is unsafe to execute"@,
            ),
        )
    }
}

/// Metadata is paired with blocks in emission order, never in index order.
pub fn replay_alignment_is_emission_order(
    scenario: &Scenario,
    c: &Collected,
    aligned: &Vec<Json>,
    blocks: &Vec<ContentBlock>,
    truncated: bool,
) -> (r: Cx)
    requires
        aligned@.len() == blocks@.len() ==> aligned@.len() <= emitted(
            frames_view(c.frames@),
        ).len(),
    ensures
        r@ == alignment_outcome(
            alignment_start(
                c@,
                frames_view(scenario.expected@),
                scenario.frame_drift_tolerated,
            ),
            emitted(frames_view(c.frames@)),
            jsons_view(aligned@),
            blocks@,
            truncated,
        ),
{
    let mut cx = Cx::new();
    let _ = frame_identity(
        &mut cx,
        scenario.frame_drift_tolerated,
        &c.frames,
        &scenario.expected,
        "interleaved stream",
    );
    let ghost base = cx@;
    if aligned.len() != blocks.len() {
        cx.fail(
            cat5(
                "aligned replay state carries ",
                decimal(aligned.len() as u64).as_str(),
                " metadata entries for ",
                decimal(blocks.len() as u64).as_str(),
                " assembled blocks; stored metadata must describe stored content one-for-one",
            ),
        );
        return cx;
    }
    let order = emitted_of(&c.frames);
    let ghost all = jsons_view(aligned@);
    let mut stopped = false;
    for slot in 0..aligned.len()
        invariant
            all == jsons_view(aligned@),
            aligned@.len() <= order@.len(),
            stopped == pairing_stops(all, slot as int),
            cx@ == base.and_failed(pairing_findings(all, order@, slot as int)),
    {
        let ghost before = cx@;
        assert(all[slot as int] == aligned@[slot as int]@);
        if !stopped {
            let described: Option<u64> = match aligned[slot].get("index") {
                Some(j) => j.as_u64(),
                None => None,
            };
            assert(described == described_block(all[slot as int]));
            match described {
                None => {
                    cx.fail(
                        cat3(
                            "metadata entry ",
                            decimal(slot as u64).as_str(),
                            " carries no `index` marker; the scenario must make the pairing observable",
                        ),
                    );
                    stopped = true;
                },
                Some(block) => {
                    if block != order[slot] as u64 {
                        cx.fail(
                            cat7(
                                "metadata entry ",
                                decimal(slot as u64).as_str(),
                                " describes block ",
                                decimal(block).as_str(),
                                " but was aligned to emitted block ",
                                decimal(order[slot] as u64).as_str(),
                                "; alignment must consume emission order, never index order",
                            ),
                        );
                    }
                },
            }
        } else {
            proof {
                let i = choose|i: int| 0 <= i < slot && described_block(#[trigger] all[i]) is None;
                assert(described_block(all[i]) is None);
            }
        }
        assert(cx@ =~= base.and_failed(pairing_findings(all, order@, slot + 1)));
    }
    if truncated && !stopped {
        let mut partial = false;
        for i in 0..blocks.len()
            invariant
                partial == exists|k: int|
                    0 <= k < i && (#[trigger] blocks@[k]).kind == BlockKind::ToolCall,
        {
            if blocks[i].kind == BlockKind::ToolCall {
                assert(blocks@[i as int].kind == BlockKind::ToolCall);
                partial = true;
            }
        }
        if partial {
            cx.fail_str(
                "truncated stream kept tool-call blocks; a partial call is unsafe to execute",
            );
        }
    }
    assert(cx@ =~= alignment_outcome(base, order@, all, blocks@, truncated));
    cx
}

/// With every marker present and the stream complete, the alignment is clean
/// exactly when every entry describes the block emitted at its own slot.
pub proof fn law_alignment_is_by_emission_order(
    order: Seq<usize>,
    aligned: Seq<JsonView>,
    blocks: Seq<ContentBlock>,
)
    requires
        aligned.len() == blocks.len(),
        !pairing_stops(aligned, aligned.len() as int),
    ensures
        alignment_outcome(clean(), order, aligned, blocks, false).failures.len() == 0 <==> forall|
            i: int,
        |
            0 <= i < aligned.len() ==> described_block(#[trigger] aligned[i]) == Some(
                order[i] as u64,
            ),
{
    lemma_pairing_clean(order, aligned, aligned.len() as int);
}

proof fn lemma_pairing_clean(order: Seq<usize>, aligned: Seq<JsonView>, n: int)
    requires
        0 <= n <= aligned.len(),
        !pairing_stops(aligned, aligned.len() as int),
    ensures
        pairing_findings(aligned, order, n).len() == 0 <==> forall|i: int|
            0 <= i < n ==> described_block(#[trigger] aligned[i]) == Some(order[i] as u64),
    decreases n,
{
    if n > 0 {
        lemma_pairing_clean(order, aligned, n - 1);
        assert(!pairing_stops(aligned, n - 1)) by {
            if pairing_stops(aligned, n - 1) {
                let i = choose|i: int|
                    0 <= i < n - 1 && described_block(#[trigger] aligned[i]) is None;
                assert(described_block(aligned[i]) is None);
            }
        }
        assert(described_block(aligned[n - 1]) is Some);
    }
}

/// A silent completion passes exactly when it failed, on either sanctioned
/// path, with the empty-completion code.
pub proof fn law_silence_is_never_success(c: CollectedView)
    requires
        !c.panicked,
        !c.stalled,
        forall|i: int| 0 <= i < c.frames.len() ==> !is_content(#[trigger] c.frames[i]),
    ensures
        empty_outcome(c).failures.len() == 0 <==> {
            ||| c.threw == Some(ErrorCode::EmptyCompletion)
            ||| c.threw is None && c.failure is Some && c.failure->Some_0.code
                == ErrorCode::EmptyCompletion
        },
{
}

/// Throwing and failing in-band are judged by one and the same code.
pub proof fn law_both_failure_paths_normalise(
    thrown: CollectedView,
    in_band: CollectedView,
    scripted: ErrorCode,
)
    requires
        !thrown.panicked && !in_band.panicked,
        thrown.threw is Some,
        in_band.threw is None,
        in_band.failure is Some,
        in_band.after_terminal.len() == 0,
        in_band.failure->Some_0.code == thrown.threw->Some_0,
    ensures
        failure_paths_outcome(thrown, Some(scripted)).failures.len() == 0 <==> failure_paths_outcome(
            in_band,
            Some(scripted),
        ).failures.len() == 0,
        failure_paths_outcome(thrown, Some(scripted)).failures.len() == 0 <==> thrown.threw == Some(
            scripted,
        ),
{
}

// ---------------------------------------------------------------------------
// Running a case
// ---------------------------------------------------------------------------

/// What the case makes of the stream: its outcome or, for the alignment case,
/// that the frames are to be folded first. `None` where the case reads no
/// stream.
pub open spec fn stream_plan(case: Seq<char>, scenario: Scenario, c: CollectedView) -> Option<
    PlanView<()>,
> {
    let expected = frames_view(scenario.expected@);
    let drift = scenario.frame_drift_tolerated;
    if case == "usage_before_finish"@ {
        Some(PlanView::Done(usage_order_outcome(c)))
    } else if case == "nothing_after_finish"@ {
        Some(PlanView::Done(terminal_outcome(c, expected, scenario.failure is Some, drift)))
    } else if case == "raw_json_tool_arguments"@ {
        Some(PlanView::Done(raw_outcome(c, expected, drift)))
    } else if case == "sanctioned_failure_paths"@ {
        Some(PlanView::Done(failure_paths_outcome(c, scripted_code(scenario.failure))))
    } else if case == "in_band_failure_is_terminal"@ {
        Some(PlanView::Done(in_band_outcome(c, expected, drift)))
    } else if case == "empty_completion_is_retryable_failure"@ {
        Some(PlanView::Done(empty_outcome(c)))
    } else if case == "context_overflow_canonical_code"@ {
        Some(PlanView::Done(overflow_outcome(c)))
    } else if case == "disjoint_usage"@ {
        Some(PlanView::Done(accounting_outcome(c, expected, drift)))
    } else if case == "replay_alignment_is_emission_order"@ {
        Some(
            alignment_plan(
                c,
                expected,
                drift,
                scenario.provider_publishes_metadata,
                scenario.block_metadata@.len(),
            ),
        )
    } else {
        None
    }
}

/// Run the case on the stream that was collected for it.
pub fn judge_stream(case: &str, scenario: &Scenario, c: &Collected) -> (r: Option<Plan<()>>)
    requires
        c.frames@.len() + 1 <= u64::MAX,
    ensures
        match r {
            Some(plan) => stream_plan(case@, *scenario, c@) == Some(plan@),
            None => stream_plan(case@, *scenario, c@) is None,
        },
{
    if same(case, "usage_before_finish") {
        Some(Plan::Done(usage_before_finish(c)))
    } else if same(case, "nothing_after_finish") {
        Some(Plan::Done(nothing_after_finish(scenario, c)))
    } else if same(case, "raw_json_tool_arguments") {
        Some(Plan::Done(raw_json_tool_arguments(scenario, c)))
    } else if same(case, "sanctioned_failure_paths") {
        Some(Plan::Done(sanctioned_failure_paths(scenario, c)))
    } else if same(case, "in_band_failure_is_terminal") {
        Some(Plan::Done(in_band_failure_is_terminal(scenario, c)))
    } else if same(case, "empty_completion_is_retryable_failure") {
        Some(Plan::Done(empty_completion_is_retryable_failure(c)))
    } else if same(case, "context_overflow_canonical_code") {
        Some(Plan::Done(context_overflow_canonical_code(c)))
    } else if same(case, "disjoint_usage") {
        Some(Plan::Done(disjoint_usage(scenario, c)))
    } else if same(case, "replay_alignment_is_emission_order") {
        Some(plan_alignment(scenario, c))
    } else {
        None
    }
}

} // verus!
