//! The model-adapter suite: a scripted reference passes it, and each case
//! catches the adapter that breaks the obligation it is about.

use harnless::conformance::adapter_suite::{
    adapter_gate, context_overflow_canonical_code, disjoint_usage, judge_stream,
    replay_alignment_is_emission_order, replay_state_ownership, sanctioned_failure_paths, summarize,
    usage_before_finish, Claim, Collected, Scenario, Step, ADAPTER_CONFORMANCE_CASES, RAW_TOOL_ARGS,
};
use harnless::conformance::executor_suite::{Plan, Span};
use harnless::conformance::report::Violation;
use harnless::json::Json;
use harnless::seam::error::ErrorCode;
use harnless::seam::llm::{
    BlockKind, ContentBlock, Message, ProviderFailure, ReplayState, Role, StreamEvent, StreamFrame,
    Usage,
};

fn json(text: &str) -> Json {
    Json::parse(text).unwrap()
}

fn zero() -> Usage {
    Usage { uncached_input: 0, cached_reads: 0, cached_writes: 0, output: 0, reasoning: 0 }
}

fn start(index: usize, kind: BlockKind) -> StreamFrame {
    StreamFrame::BlockStart { index, kind }
}

fn end(index: usize, kind: BlockKind, text: &str) -> StreamFrame {
    StreamFrame::BlockEnd { index, assembled: ContentBlock { kind, text: text.to_string() } }
}

struct Corpus {
    frames: Vec<StreamFrame>,
    response: Option<Json>,
    blocks: Vec<Json>,
    failure: Option<ProviderFailure>,
    silent: bool,
}

impl Corpus {
    fn text_turn() -> Self {
        Self {
            frames: vec![
                start(0, BlockKind::Text),
                StreamFrame::TextDelta { index: 0, text: "hello".into() },
                end(0, BlockKind::Text, "hello"),
                StreamFrame::Usage(Usage {
                    uncached_input: 100,
                    cached_reads: 30,
                    cached_writes: 5,
                    output: 40,
                    reasoning: 12,
                }),
                StreamFrame::Finish,
            ],
            response: Some(json("{\"id\": \"resp-1\"}")),
            blocks: vec![json("{\"index\": 0}")],
            failure: None,
            silent: false,
        }
    }

    fn tool_turn() -> Self {
        let raw = RAW_TOOL_ARGS;
        let (head, tail) = raw.split_at(24);
        Self {
            frames: vec![
                start(0, BlockKind::ToolCall),
                StreamFrame::ToolCallDelta { index: 0, call_id: 7, json: head.to_string() },
                StreamFrame::ToolCallDelta { index: 0, call_id: 7, json: tail.to_string() },
                end(0, BlockKind::ToolCall, raw),
                StreamFrame::Usage(zero()),
                StreamFrame::Finish,
            ],
            response: None,
            blocks: vec![json("{\"index\": 0}")],
            failure: None,
            silent: false,
        }
    }

    fn failed_turn(code: ErrorCode) -> Self {
        Self {
            frames: vec![start(0, BlockKind::Text), end(0, BlockKind::Text, "partial")],
            response: None,
            blocks: vec![json("{\"index\": 0}")],
            failure: Some(ProviderFailure { code, message: "scripted failure".into() }),
            silent: false,
        }
    }

    fn silent_turn() -> Self {
        Self { frames: Vec::new(), response: None, blocks: Vec::new(), failure: None, silent: true }
    }

    fn interleaved_turn() -> Self {
        Self {
            frames: vec![
                start(1, BlockKind::Text),
                start(0, BlockKind::Text),
                end(1, BlockKind::Text, "second"),
                end(0, BlockKind::Text, "first"),
                StreamFrame::Usage(zero()),
                StreamFrame::Finish,
            ],
            response: Some(json("{\"id\": \"resp-2\"}")),
            blocks: vec![json("{\"index\": 1}"), json("{\"index\": 0}")],
            failure: None,
            silent: false,
        }
    }

    fn for_case(case: &str) -> Self {
        match case {
            "raw_json_tool_arguments" => Self::tool_turn(),
            "sanctioned_failure_paths" | "in_band_failure_is_terminal" => {
                Self::failed_turn(ErrorCode::ProviderFailure)
            }
            "empty_completion_is_retryable_failure" => Self::silent_turn(),
            "context_overflow_canonical_code" => Self::failed_turn(ErrorCode::ContextOverflow),
            "replay_alignment_is_emission_order" => Self::interleaved_turn(),
            _ => Self::text_turn(),
        }
    }

    fn published_metadata(&self, defect: Defect) -> Vec<Json> {
        let mut blocks: Vec<Json> = self.blocks.iter().map(|b| b.copy()).collect();
        if defect == Defect::IndexOrderAlignment {
            blocks.sort_by_key(|entry| entry.get("index").and_then(|v| v.as_u64()).unwrap_or(0));
        }
        blocks
    }

    fn scenario(&self, case: &str, defect: Defect) -> Scenario {
        let scenario = Scenario::new(vec![user_message()])
            .expected(self.frames.clone())
            .published_metadata(self.published_metadata(defect));
        let scenario = match &self.response {
            Some(response) => scenario.response_metadata(response.copy()),
            None => scenario,
        };
        let scenario = match &self.failure {
            Some(failure) => scenario.failure(failure.clone()),
            None => scenario,
        };
        if case == "replay_state_ownership" {
            scenario.with_owned_replay()
        } else {
            scenario
        }
    }
}

fn user_message() -> Message {
    Message {
        id: 1,
        role: Role::User,
        blocks: vec![ContentBlock { kind: BlockKind::Text, text: "hi".into() }],
        provider: None,
        model: None,
        replay_state: None,
    }
}

#[derive(Clone, Copy, Debug, PartialEq, Eq)]
enum Defect {
    Honest,
    UsageAfterFinish,
    FrameAfterFinish,
    ReserialisesArgs,
    MiscodedFailure,
    DropsFailure,
    EventAfterFailure,
    SilentIsSuccess,
    MiscodedEmpty,
    MiscodedOverflow,
    DoubleCountsInput,
    ReAddsReasoning,
    ClaimsEverything,
    IndexOrderAlignment,
    Throws,
    Panics,
    Hangs,
}

/// What the stream entry answered.
enum Opened {
    Threw(ErrorCode),
    Panicked,
    Stream(Vec<Step>),
}

/// The scripted adapter: replays its corpus with one defect applied.
struct Scripted {
    defect: Defect,
    corpus: Corpus,
}

impl Scripted {
    fn new(defect: Defect, case: &str) -> Self {
        Self { defect, corpus: Corpus::for_case(case) }
    }

    fn frames(&self) -> Vec<StreamFrame> {
        let mut frames = self.corpus.frames.clone();
        match self.defect {
            Defect::UsageAfterFinish => {
                if let Some(pos) = frames.iter().position(|f| matches!(f, StreamFrame::Usage(_))) {
                    let usage = frames.remove(pos);
                    frames.push(usage);
                }
            }
            Defect::FrameAfterFinish => {
                frames.push(StreamFrame::TextDelta { index: 0, text: "after finish".into() })
            }
            Defect::ReserialisesArgs => {
                for frame in &mut frames {
                    if let StreamFrame::BlockEnd { assembled, .. } = frame {
                        if assembled.kind == BlockKind::ToolCall {
                            assembled.text = json(&assembled.text).render();
                        }
                    }
                }
                frames.retain(|f| !matches!(f, StreamFrame::ToolCallDelta { .. }));
            }
            _ => {}
        }
        frames
    }

    fn usage(&self) -> Usage {
        let mut usage = self
            .corpus
            .frames
            .iter()
            .find_map(|f| match f {
                StreamFrame::Usage(usage) => Some(*usage),
                _ => None,
            })
            .unwrap_or(zero());
        match self.defect {
            Defect::DoubleCountsInput => usage.uncached_input += usage.cached_reads,
            Defect::ReAddsReasoning => usage.output += usage.reasoning,
            _ => {}
        }
        usage
    }

    fn terminal_failure(&self) -> Option<ProviderFailure> {
        let scripted = self.corpus.failure.clone()?;
        let code = match self.defect {
            Defect::MiscodedFailure => ErrorCode::StreamTerminated,
            Defect::MiscodedOverflow => ErrorCode::ProviderFailure,
            _ => scripted.code,
        };
        Some(ProviderFailure { code, message: scripted.message })
    }

    fn owns(&self, state: &ReplayState) -> bool {
        if self.defect == Defect::ClaimsEverything {
            return true;
        }
        state
            .response
            .as_ref()
            .and_then(|r| r.get("harnless_conformance_owned"))
            .and_then(|owner| owner.get("key"))
            .and_then(|v| v.as_str())
            == Some("harnless-conformance-self")
    }

    fn stream(&self) -> Opened {
        match self.defect {
            Defect::Throws => return Opened::Threw(ErrorCode::ProviderFailure),
            Defect::Panics => return Opened::Panicked,
            Defect::Hangs => return Opened::Stream(vec![Step::TimedOut]),
            _ => {}
        }
        let usage = self.usage();
        let rewrites = matches!(self.defect, Defect::DoubleCountsInput | Defect::ReAddsReasoning);
        let mut events: Vec<StreamEvent> = Vec::new();
        for frame in self.frames() {
            if rewrites && matches!(frame, StreamFrame::Usage(_)) {
                events.push(StreamEvent::Frame(StreamFrame::Usage(usage)));
            } else {
                events.push(StreamEvent::Frame(frame));
            }
        }
        if let Some(failure) = self.terminal_failure() {
            if self.defect == Defect::DropsFailure {
                events.push(StreamEvent::Frame(StreamFrame::Usage(usage)));
                events.push(StreamEvent::Frame(StreamFrame::Finish));
            } else {
                events.push(StreamEvent::Failed(failure));
                if self.defect == Defect::EventAfterFailure {
                    events.push(StreamEvent::Frame(StreamFrame::TextDelta {
                        index: 0,
                        text: "after failure".into(),
                    }));
                }
            }
        } else if self.corpus.silent {
            if self.defect == Defect::SilentIsSuccess {
                events.push(StreamEvent::Frame(StreamFrame::Usage(usage)));
                events.push(StreamEvent::Frame(StreamFrame::Finish));
            } else {
                let code = if self.defect == Defect::MiscodedEmpty {
                    ErrorCode::StreamTerminated
                } else {
                    ErrorCode::EmptyCompletion
                };
                events.push(StreamEvent::Failed(ProviderFailure { code, message: "no content".into() }));
            }
        }
        let mut steps: Vec<Step> = events.into_iter().map(Step::Event).collect();
        steps.push(Step::End);
        Opened::Stream(steps)
    }
}

fn collect(steps: Vec<Step>) -> Collected {
    let mut c = Collected::empty();
    for step in steps {
        if !c.collect_stream(step) {
            break;
        }
    }
    c
}

fn drive(adapter: &Scripted) -> Collected {
    match adapter.stream() {
        Opened::Threw(code) => Collected::thrown(code),
        Opened::Panicked => Collected::panicked_at_entry(),
        Opened::Stream(steps) => collect(steps),
    }
}

/// The consumer's fold: completed blocks in emission order.
fn assembled(c: &Collected) -> Vec<ContentBlock> {
    c.frames
        .iter()
        .filter_map(|f| match f {
            StreamFrame::BlockEnd { assembled, .. } => Some(assembled.clone()),
            _ => None,
        })
        .collect()
}

fn check(adapter: &Scripted, case: &str, scenario: Option<Scenario>) -> Vec<Violation> {
    if let Some(v) = adapter_gate(case, scenario.is_some()) {
        return vec![v];
    }
    let scenario = scenario.unwrap();
    if case == "replay_state_ownership" {
        let claim = |state: &ReplayState| {
            if adapter.owns(state) {
                Claim::Claimed
            } else {
                Claim::Refused
            }
        };
        let bare = ReplayState { response: None, blocks: Vec::new() };
        return replay_state_ownership(
            claim(&Scenario::owned_replay_state()),
            claim(&Scenario::foreign_replay_state()),
            claim(&bare),
        )
        .into_violations(case);
    }
    let c = drive(adapter);
    let cx = match judge_stream(case, &scenario, &c).unwrap() {
        Plan::Done(cx) => cx,
        Plan::Ask(()) => {
            let aligned: Vec<Json> = scenario.block_metadata.iter().map(|j| j.copy()).collect();
            let blocks = assembled(&c);
            replay_alignment_is_emission_order(&scenario, &c, &aligned, &blocks, false)
        }
    };
    cx.into_violations(case)
}

fn bites(defect: Defect, case: &str) -> Vec<Violation> {
    let scenario = Corpus::for_case(case).scenario(case, defect);
    let scenario = match defect {
        Defect::Hangs => scenario.stall_timeout(Span { secs: 0, nanos: 200_000_000 }),
        _ => scenario,
    };
    check(&Scripted::new(defect, case), case, Some(scenario))
}

fn assert_bites(defect: Defect, case: &str) {
    let violations = bites(defect, case);
    assert!(!violations.is_empty(), "defect {defect:?} passed the `{case}` case");
    assert!(
        violations.iter().all(|v| v.case == case),
        "violations from `{case}` were attributed elsewhere: {violations:?}"
    );
}

#[test]
fn adapter_suite_case_list_is_the_documented_set() {
    assert_eq!(
        ADAPTER_CONFORMANCE_CASES,
        [
            "usage_before_finish",
            "nothing_after_finish",
            "raw_json_tool_arguments",
            "sanctioned_failure_paths",
            "in_band_failure_is_terminal",
            "empty_completion_is_retryable_failure",
            "context_overflow_canonical_code",
            "disjoint_usage",
            "replay_state_ownership",
            "replay_alignment_is_emission_order",
        ]
    );
}

#[test]
fn raw_args_does_not_survive_a_json_round_trip() {
    let round_trip = json(RAW_TOOL_ARGS).render();
    assert_ne!(
        round_trip, RAW_TOOL_ARGS,
        "the scripted payload round-trips identically; the case would be vacuous"
    );
}

#[test]
fn ownership_markers_are_distinguishable() {
    assert_ne!(Scenario::owned_response_metadata(), Scenario::foreign_response_metadata());
    assert_eq!(Scenario::owned_replay_state().response, Some(Scenario::owned_response_metadata()));
}

#[test]
fn summarize_handles_empty() {
    assert_eq!(summarize(&vec![]), "<none>");
}

#[test]
fn drive_thread_reports_a_stall_instead_of_hanging() {
    let collected = collect(vec![Step::TimedOut]);
    assert!(collected.stalled, "stalled stream was not reported");
}

#[test]
fn drive_catches_a_panicking_stream() {
    let adapter = Scripted::new(Defect::Panics, "usage_before_finish");
    let violations = check(&adapter, "usage_before_finish", Some(Scenario::new(Vec::new())));
    assert!(
        violations.iter().any(|v| v.detail.contains("panicked")),
        "panicking provider was not reported as a violation: {violations:?}"
    );
}

#[test]
fn adapter_suite_unknown_case_is_a_violation_not_a_panic() {
    let adapter = Scripted::new(Defect::Throws, "not-a-case");
    let violations = check(&adapter, "not-a-case", Some(Scenario::new(Vec::new())));
    assert_eq!(violations.len(), 1);
    assert_eq!(violations[0].case, "not-a-case");
}

#[test]
fn adapter_conformance_every_case_passes_individually() {
    for case in ADAPTER_CONFORMANCE_CASES {
        let violations = bites(Defect::Honest, case);
        assert!(violations.is_empty(), "reference adapter violated `{case}`: {violations:?}");
    }
}

#[test]
fn full_suite_is_clean() {
    let mut violations = Vec::new();
    for case in ADAPTER_CONFORMANCE_CASES {
        violations.extend(bites(Defect::Honest, case));
    }
    assert!(violations.is_empty(), "reference adapter violated the full suite: {violations:?}");
}

#[test]
fn adapter_conformance_unknown_case_is_reported() {
    let violations = bites(Defect::Honest, "not-a-real-case");
    assert_eq!(violations.len(), 1);
    assert_eq!(violations[0].case, "not-a-real-case");
}

#[test]
fn bites_usage_after_finish() {
    assert_bites(Defect::UsageAfterFinish, "usage_before_finish");
}

#[test]
fn bites_frame_after_finish() {
    assert_bites(Defect::FrameAfterFinish, "nothing_after_finish");
}

#[test]
fn bites_reserialised_arguments() {
    assert_bites(Defect::ReserialisesArgs, "raw_json_tool_arguments");
}

#[test]
fn bites_miscoded_failure() {
    assert_bites(Defect::MiscodedFailure, "sanctioned_failure_paths");
}

#[test]
fn bites_dropped_failure() {
    assert_bites(Defect::DropsFailure, "sanctioned_failure_paths");
}

#[test]
fn bites_event_after_failure() {
    assert_bites(Defect::EventAfterFailure, "in_band_failure_is_terminal");
}

#[test]
fn bites_silent_completion_as_success() {
    assert_bites(Defect::SilentIsSuccess, "empty_completion_is_retryable_failure");
}

#[test]
fn bites_miscoded_empty_completion() {
    assert_bites(Defect::MiscodedEmpty, "empty_completion_is_retryable_failure");
}

#[test]
fn bites_miscoded_context_overflow() {
    assert_bites(Defect::MiscodedOverflow, "context_overflow_canonical_code");
}

#[test]
fn bites_double_counted_input() {
    assert_bites(Defect::DoubleCountsInput, "disjoint_usage");
}

#[test]
fn bites_readded_reasoning() {
    assert_bites(Defect::ReAddsReasoning, "disjoint_usage");
}

#[test]
fn bites_claiming_every_replay_state() {
    assert_bites(Defect::ClaimsEverything, "replay_state_ownership");
}

#[test]
fn bites_index_order_alignment() {
    assert_bites(Defect::IndexOrderAlignment, "replay_alignment_is_emission_order");
}

#[test]
fn a_provider_that_throws_is_skipped_not_failed() {
    for case in [
        "usage_before_finish",
        "nothing_after_finish",
        "raw_json_tool_arguments",
        "in_band_failure_is_terminal",
        "disjoint_usage",
    ] {
        let violations = bites(Defect::Throws, case);
        assert!(
            violations.is_empty(),
            "a throwing provider was failed by `{case}`: {violations:?}"
        );
    }
}

#[test]
fn every_defect_produces_no_panic() {
    let defects = [
        Defect::Honest,
        Defect::UsageAfterFinish,
        Defect::FrameAfterFinish,
        Defect::ReserialisesArgs,
        Defect::MiscodedFailure,
        Defect::DropsFailure,
        Defect::EventAfterFailure,
        Defect::SilentIsSuccess,
        Defect::MiscodedEmpty,
        Defect::MiscodedOverflow,
        Defect::DoubleCountsInput,
        Defect::ReAddsReasoning,
        Defect::ClaimsEverything,
        Defect::IndexOrderAlignment,
        Defect::Throws,
        Defect::Panics,
        Defect::Hangs,
    ];
    for case in ADAPTER_CONFORMANCE_CASES {
        for defect in defects {
            let violations = bites(defect, case);
            assert!(violations.iter().all(|v| v.case == case));
        }
    }
}

#[test]
fn a_hanging_provider_is_reported_not_waited_out() {
    let violations = bites(Defect::Hangs, "nothing_after_finish");
    assert!(
        !violations.is_empty(),
        "a stream that never terminated passed the terminal-frame case"
    );
}

#[test]
fn a_panicking_provider_is_a_violation_not_a_crash() {
    let violations = bites(Defect::Panics, "usage_before_finish");
    assert!(
        violations.iter().any(|v| v.detail.contains("panicked")),
        "panicking provider was not reported: {violations:?}"
    );
}

#[test]
fn adapter_conformance_the_reference_passes_every_case_the_defects_fail() {
    let pairs = [
        (Defect::UsageAfterFinish, "usage_before_finish"),
        (Defect::FrameAfterFinish, "nothing_after_finish"),
        (Defect::ReserialisesArgs, "raw_json_tool_arguments"),
        (Defect::MiscodedFailure, "sanctioned_failure_paths"),
        (Defect::EventAfterFailure, "in_band_failure_is_terminal"),
        (Defect::SilentIsSuccess, "empty_completion_is_retryable_failure"),
        (Defect::MiscodedOverflow, "context_overflow_canonical_code"),
        (Defect::DoubleCountsInput, "disjoint_usage"),
        (Defect::ClaimsEverything, "replay_state_ownership"),
        (Defect::IndexOrderAlignment, "replay_alignment_is_emission_order"),
    ];
    for (_, case) in pairs {
        let violations = bites(Defect::Honest, case);
        assert!(
            violations.is_empty(),
            "reference adapter failed `{case}` that a defect is supposed to fail: {violations:?}"
        );
    }
}

#[test]
fn a_scenario_that_could_not_be_built_is_one_violation() {
    let adapter = Scripted::new(Defect::Honest, "disjoint_usage");
    let violations = check(&adapter, "disjoint_usage", None);
    assert_eq!(
        violations,
        vec![Violation::new(
            "disjoint_usage",
            "the scenario factory panicked while building this case's fixture"
        )]
    );
    assert_eq!(
        violations[0].display(),
        "disjoint_usage: the scenario factory panicked while building this case's fixture"
    );
}

#[test]
fn the_bound_shortens_past_the_terminal_event() {
    let ten = Span::from_secs(10);
    let mut c = Collected::empty();
    assert_eq!(c.bound(ten), ten);
    assert!(c.collect_stream(Step::Event(StreamEvent::Frame(StreamFrame::Finish))));
    assert_eq!(c.bound(ten), Span::from_secs(2));
    assert!(!c.collect_stream(Step::End));
}

#[test]
fn a_thrown_overflow_is_the_canonical_code() {
    assert!(context_overflow_canonical_code(&Collected::thrown(ErrorCode::ContextOverflow)).failures.is_empty());
    assert!(!context_overflow_canonical_code(&Collected::thrown(ErrorCode::ProviderFailure)).failures.is_empty());
}

#[test]
fn a_thrown_failure_must_carry_the_scripted_code() {
    let scenario = Corpus::failed_turn(ErrorCode::ProviderFailure).scenario("x", Defect::Honest);
    assert!(sanctioned_failure_paths(&scenario, &Collected::thrown(ErrorCode::ProviderFailure)).failures.is_empty());
    assert!(!sanctioned_failure_paths(&scenario, &Collected::thrown(ErrorCode::NotFound)).failures.is_empty());
}

#[test]
fn the_readded_reasoning_is_named() {
    let scenario = Corpus::text_turn().scenario("disjoint_usage", Defect::Honest).tolerate_frame_drift();
    let c = drive(&Scripted::new(Defect::ReAddsReasoning, "disjoint_usage"));
    let cx = disjoint_usage(&scenario, &c);
    assert_eq!(
        cx.failures,
        vec!["reported output 52 is the honest output 40 plus reasoning 12 re-added; reasoning is already inside output"]
    );
}

#[test]
fn a_stream_without_usage_is_named() {
    let c = collect(vec![Step::Event(StreamEvent::Frame(StreamFrame::Finish)), Step::End]);
    assert_eq!(
        usage_before_finish(&c).failures,
        vec!["stream finished without a `Usage` frame; every successful attempt reports its accounting before the terminal frame"]
    );
}

#[test]
fn usage_reported_twice_is_named() {
    let usage = || Step::Event(StreamEvent::Frame(StreamFrame::Usage(zero())));
    let finish = || Step::Event(StreamEvent::Frame(StreamFrame::Finish));
    let c = collect(vec![usage(), usage(), finish(), Step::End]);
    assert_eq!(
        usage_before_finish(&c).failures,
        vec!["2 `Usage` frames precede the terminal `Finish` frame; usage is reported exactly once"]
    );
    let c = collect(vec![usage(), finish(), Step::End]);
    assert!(usage_before_finish(&c).failures.is_empty());
}

#[test]
fn undeclared_metadata_is_skipped() {
    let corpus = Corpus::interleaved_turn();
    let scenario = Scenario::new(vec![]).expected(corpus.frames.clone());
    let c = drive(&Scripted::new(Defect::Honest, "replay_alignment_is_emission_order"));
    match judge_stream("replay_alignment_is_emission_order", &scenario, &c) {
        Some(Plan::Done(cx)) => {
            assert!(cx.failures.is_empty());
            assert_eq!(cx.skips.len(), 1);
        }
        _ => panic!("planned otherwise"),
    }
    assert!(judge_stream("replay_state_ownership", &scenario, &c).is_none());
}

#[test]
fn a_truncated_stream_may_not_keep_tool_calls() {
    let c = collect(vec![
        Step::Event(StreamEvent::Frame(end(0, BlockKind::ToolCall, "{}"))),
        Step::End,
    ]);
    let scenario = Scenario::new(vec![]).expected(c.frames.clone());
    let cx = replay_alignment_is_emission_order(
        &scenario,
        &c,
        &vec![json("{\"index\": 0}")],
        &assembled(&c),
        true,
    );
    assert_eq!(
        cx.failures,
        vec!["truncated stream kept tool-call blocks; a partial call is unsafe to execute"]
    );
}

#[test]
fn billed_input_is_the_disjoint_sum() {
    let u = Usage { uncached_input: 100, cached_reads: 30, cached_writes: 5, output: 40, reasoning: 12 };
    assert_eq!(u.billed_input(), 135);
}
