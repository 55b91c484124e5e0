//! The model-adapter seam: stream frames, usage, failures, replay state.

use vstd::prelude::*;

use crate::json::{json_opt, jsons_view, Json, JsonView};
use crate::seam::error::{ErrorCode, SeamErrorView};
use crate::text::{cat3, cat5, cat7, debug_text, decimal, decimal_text, owned, quoted, same};

verus! {

/// The kind of a content block.
#[derive(Debug, Clone, Copy, PartialEq, Eq, Structural)]
pub enum BlockKind {
    Text,
    Reasoning,
    ToolCall,
}

impl BlockKind {
    /// The stable spelling of the kind.
    pub open spec fn spelling(self) -> Seq<char> {
        match self {
            BlockKind::Text => "text"@,
            BlockKind::Reasoning => "reasoning"@,
            BlockKind::ToolCall => "tool-call"@,
        }
    }

    /// The stable spelling of the kind.
    pub fn as_str(self) -> (r: &'static str)
        ensures
            r@ == self.spelling(),
    {
        match self {
            BlockKind::Text => "text",
            BlockKind::Reasoning => "reasoning",
            BlockKind::ToolCall => "tool-call",
        }
    }

    /// The variant's own name.
    pub open spec fn variant(self) -> Seq<char> {
        match self {
            BlockKind::Text => "Text"@,
            BlockKind::Reasoning => "Reasoning"@,
            BlockKind::ToolCall => "ToolCall"@,
        }
    }

    /// The variant's own name.
    pub fn name(self) -> (r: &'static str)
        ensures
            r@ == self.variant(),
    {
        match self {
            BlockKind::Text => "Text",
            BlockKind::Reasoning => "Reasoning",
            BlockKind::ToolCall => "ToolCall",
        }
    }
}

/// One completed block.
#[derive(Debug, Clone, PartialEq, Eq)]
pub struct ContentBlock {
    pub kind: BlockKind,
    pub text: String,
}

/// What a [`ContentBlock`] says.
pub struct ContentBlockView {
    pub kind: BlockKind,
    pub text: Seq<char>,
}

impl View for ContentBlock {
    type V = ContentBlockView;

    open spec fn view(&self) -> ContentBlockView {
        ContentBlockView { kind: self.kind, text: self.text@ }
    }
}

/// The accounting of one attempt.
#[derive(Debug, Clone, Copy, PartialEq, Eq, Structural)]
pub struct Usage {
    pub uncached_input: u64,
    pub cached_reads: u64,
    pub cached_writes: u64,
    pub output: u64,
    /// Already inside `output`.
    pub reasoning: u64,
}

impl Usage {
    /// The input billed: the sum of the three disjoint parts.
    pub fn billed_input(self) -> (r: u128)
        ensures
            r == self.uncached_input + self.cached_reads + self.cached_writes,
    {
        self.uncached_input as u128 + self.cached_reads as u128 + self.cached_writes as u128
    }

    /// The accounting, field by field.
    pub open spec fn shown(self) -> Seq<char> {
        "Usage { uncached_input: "@ + decimal_text(self.uncached_input as nat) + ", cached_reads: "@
            + decimal_text(self.cached_reads as nat) + ", cached_writes: "@ + decimal_text(
            self.cached_writes as nat,
        ) + (", output: "@ + decimal_text(self.output as nat) + ", reasoning: "@ + decimal_text(
            self.reasoning as nat,
        ) + " }"@)
    }

    /// The accounting, field by field.
    pub fn display(self) -> (r: String)
        ensures
            r@ == self.shown(),
    {
        cat7(
            "Usage { uncached_input: ",
            decimal(self.uncached_input).as_str(),
            ", cached_reads: ",
            decimal(self.cached_reads).as_str(),
            ", cached_writes: ",
            decimal(self.cached_writes).as_str(),
            cat5(
                ", output: ",
                decimal(self.output).as_str(),
                ", reasoning: ",
                decimal(self.reasoning).as_str(),
                " }",
            ).as_str(),
        )
    }
}

/// One frame of a stream.
#[derive(Debug, Clone, PartialEq, Eq)]
pub enum StreamFrame {
    BlockStart { index: usize, kind: BlockKind },
    TextDelta { index: usize, text: String },
    ReasoningDelta { index: usize, text: String },
    ToolCallDelta { index: usize, call_id: u64, json: String },
    BlockEnd { index: usize, assembled: ContentBlock },
    Usage(Usage),
    Finish,
}

/// What a [`StreamFrame`] says.
pub enum FrameView {
    BlockStart { index: usize, kind: BlockKind },
    TextDelta { index: usize, text: Seq<char> },
    ReasoningDelta { index: usize, text: Seq<char> },
    ToolCallDelta { index: usize, call_id: u64, json: Seq<char> },
    BlockEnd { index: usize, assembled: ContentBlockView },
    Usage(Usage),
    Finish,
}

impl View for StreamFrame {
    type V = FrameView;

    open spec fn view(&self) -> FrameView {
        match *self {
            StreamFrame::BlockStart { index, kind } => FrameView::BlockStart { index, kind },
            StreamFrame::TextDelta { index, text } => FrameView::TextDelta { index, text: text@ },
            StreamFrame::ReasoningDelta { index, text } => FrameView::ReasoningDelta {
                index,
                text: text@,
            },
            StreamFrame::ToolCallDelta { index, call_id, json } => FrameView::ToolCallDelta {
                index,
                call_id,
                json: json@,
            },
            StreamFrame::BlockEnd { index, assembled } => FrameView::BlockEnd {
                index,
                assembled: assembled@,
            },
            StreamFrame::Usage(usage) => FrameView::Usage(usage),
            StreamFrame::Finish => FrameView::Finish,
        }
    }
}

/// The values of a list of frames.
pub open spec fn frames_view(v: Seq<StreamFrame>) -> Seq<FrameView> {
    v.map_values(|f: StreamFrame| f@)
}

impl StreamFrame {
    /// Whether two frames say the same.
    pub fn same(&self, other: &StreamFrame) -> (r: bool)
        ensures
            r == (self@ == other@),
    {
        match (self, other) {
            (
                StreamFrame::BlockStart { index: a, kind: x },
                StreamFrame::BlockStart { index: b, kind: y },
            ) => *a == *b && *x == *y,
            (
                StreamFrame::TextDelta { index: a, text: x },
                StreamFrame::TextDelta { index: b, text: y },
            ) => *a == *b && same(x.as_str(), y.as_str()),
            (
                StreamFrame::ReasoningDelta { index: a, text: x },
                StreamFrame::ReasoningDelta { index: b, text: y },
            ) => *a == *b && same(x.as_str(), y.as_str()),
            (
                StreamFrame::ToolCallDelta { index: a, call_id: p, json: x },
                StreamFrame::ToolCallDelta { index: b, call_id: q, json: y },
            ) => *a == *b && *p == *q && same(x.as_str(), y.as_str()),
            (
                StreamFrame::BlockEnd { index: a, assembled: x },
                StreamFrame::BlockEnd { index: b, assembled: y },
            ) => *a == *b && x.kind == y.kind && same(x.text.as_str(), y.text.as_str()),
            (StreamFrame::Usage(x), StreamFrame::Usage(y)) => *x == *y,
            (StreamFrame::Finish, StreamFrame::Finish) => true,
            _ => false,
        }
    }
}

/// A terminal failure in the stream.
#[derive(Debug, Clone, PartialEq, Eq)]
pub struct ProviderFailure {
    pub code: ErrorCode,
    pub message: String,
}

impl View for ProviderFailure {
    type V = SeamErrorView;

    open spec fn view(&self) -> SeamErrorView {
        SeamErrorView { code: self.code, message: self.message@ }
    }
}

/// The value of an optional failure.
pub open spec fn failure_opt(v: Option<ProviderFailure>) -> Option<SeamErrorView> {
    match v {
        Some(f) => Some(f@),
        None => None,
    }
}

/// One event of a stream.
#[derive(Debug, Clone, PartialEq, Eq)]
pub enum StreamEvent {
    Frame(StreamFrame),
    Failed(ProviderFailure),
}

/// What a [`StreamEvent`] says.
pub enum EventView {
    Frame(FrameView),
    Failed(SeamErrorView),
}

impl View for StreamEvent {
    type V = EventView;

    open spec fn view(&self) -> EventView {
        match *self {
            StreamEvent::Frame(f) => EventView::Frame(f@),
            StreamEvent::Failed(f) => EventView::Failed(f@),
        }
    }
}

/// Adapter-private state carried from one turn to the next.
#[derive(Debug, PartialEq, Eq)]
pub struct ReplayState {
    pub response: Option<Json>,
    pub blocks: Vec<Json>,
}

/// What a [`ReplayState`] says.
pub struct ReplayStateView {
    pub response: Option<JsonView>,
    pub blocks: Seq<JsonView>,
}

impl View for ReplayState {
    type V = ReplayStateView;

    open spec fn view(&self) -> ReplayStateView {
        ReplayStateView { response: json_opt(self.response), blocks: jsons_view(self.blocks@) }
    }
}

/// Who speaks.
#[derive(Debug, Clone, Copy, PartialEq, Eq, Structural)]
pub enum Role {
    System,
    User,
    Assistant,
    Tool,
}

/// One message of a conversation.
#[derive(Debug, PartialEq, Eq)]
pub struct Message {
    pub id: u64,
    pub role: Role,
    pub blocks: Vec<ContentBlock>,
    pub provider: Option<String>,
    pub model: Option<String>,
    pub replay_state: Option<ReplayState>,
}

/// A tool offered at request time.
#[derive(Debug, PartialEq, Eq)]
pub struct ToolSchema {
    pub name: String,
    pub description: String,
    pub parameters: Json,
}

// ---------------------------------------------------------------------------
// Rendering
// ---------------------------------------------------------------------------

impl EventView {
    /// The event in words a violation can quote.
    pub open spec fn described(self) -> Seq<char> {
        match self {
            EventView::Failed(f) => "Failed("@ + f.code.spelling() + ")"@,
            EventView::Frame(frame) => match frame {
                FrameView::BlockStart { index, kind } => "Frame(BlockStart { index: "@
                    + decimal_text(index as nat) + ", kind: "@ + kind.variant() + " })"@,
                FrameView::TextDelta { index, text } => "Frame(TextDelta { index: "@ + decimal_text(
                    index as nat,
                ) + ", text: "@ + debug_text(text) + " })"@,
                FrameView::ReasoningDelta { index, text } => "Frame(ReasoningDelta { index: "@
                    + decimal_text(index as nat) + ", text: "@ + debug_text(text) + " })"@,
                FrameView::ToolCallDelta { index, call_id, json } => "Frame(ToolCallDelta { index: "@
                    + decimal_text(index as nat) + ", call_id: "@ + decimal_text(call_id as nat)
                    + ", json: "@ + debug_text(json) + " })"@,
                FrameView::BlockEnd { index, assembled } => "Frame(BlockEnd { index: "@
                    + decimal_text(index as nat) + ", kind: "@ + assembled.kind.variant() + " })"@,
                FrameView::Usage(usage) => "Frame(Usage("@ + usage.shown() + "))"@,
                FrameView::Finish => "Frame(Finish)"@,
            },
        }
    }
}

/// Describe an event for the "nothing after finish" report.
pub fn describe(event: &StreamEvent) -> (r: String)
    ensures
        r@ == event@.described(),
{
    match event {
        StreamEvent::Failed(f) => cat3("Failed(", f.code.as_str(), ")"),
        StreamEvent::Frame(frame) => match frame {
            StreamFrame::BlockStart { index, kind } => cat5(
                "Frame(BlockStart { index: ",
                decimal(*index as u64).as_str(),
                ", kind: ",
                kind.name(),
                " })",
            ),
            StreamFrame::TextDelta { index, text } => cat5(
                "Frame(TextDelta { index: ",
                decimal(*index as u64).as_str(),
                ", text: ",
                quoted(text.as_str()).as_str(),
                " })",
            ),
            StreamFrame::ReasoningDelta { index, text } => cat5(
                "Frame(ReasoningDelta { index: ",
                decimal(*index as u64).as_str(),
                ", text: ",
                quoted(text.as_str()).as_str(),
                " })",
            ),
            StreamFrame::ToolCallDelta { index, call_id, json } => cat7(
                "Frame(ToolCallDelta { index: ",
                decimal(*index as u64).as_str(),
                ", call_id: ",
                decimal(*call_id).as_str(),
                ", json: ",
                quoted(json.as_str()).as_str(),
                " })",
            ),
            StreamFrame::BlockEnd { index, assembled } => cat5(
                "Frame(BlockEnd { index: ",
                decimal(*index as u64).as_str(),
                ", kind: ",
                assembled.kind.name(),
                " })",
            ),
            StreamFrame::Usage(usage) => cat3("Frame(Usage(", usage.display().as_str(), "))"),
            StreamFrame::Finish => owned("Frame(Finish)"),
        },
    }
}

impl FrameView {
    /// The frame in one compact word.
    pub open spec fn summary(self) -> Seq<char> {
        match self {
            FrameView::BlockStart { index, kind } => "start("@ + decimal_text(index as nat) + ","@
                + kind.spelling() + ")"@,
            FrameView::TextDelta { index, text } => "text("@ + decimal_text(index as nat) + ","@
                + debug_text(text) + ")"@,
            FrameView::ReasoningDelta { index, text } => "reason("@ + decimal_text(index as nat)
                + ","@ + debug_text(text) + ")"@,
            FrameView::ToolCallDelta { index, call_id, json } => "tool("@ + decimal_text(
                index as nat,
            ) + ",#"@ + decimal_text(call_id as nat) + ","@ + debug_text(json) + ")"@,
            FrameView::BlockEnd { index, assembled } => "end("@ + decimal_text(index as nat) + ","@
                + assembled.kind.spelling() + ","@ + debug_text(assembled.text) + ")"@,
            FrameView::Usage(_) => "usage"@,
            FrameView::Finish => "finish"@,
        }
    }
}

/// The frame in one compact word.
pub fn summary(frame: &StreamFrame) -> (r: String)
    ensures
        r@ == frame@.summary(),
{
    match frame {
        StreamFrame::BlockStart { index, kind } => cat5(
            "start(",
            decimal(*index as u64).as_str(),
            ",",
            kind.as_str(),
            ")",
        ),
        StreamFrame::TextDelta { index, text } => cat5(
            "text(",
            decimal(*index as u64).as_str(),
            ",",
            quoted(text.as_str()).as_str(),
            ")",
        ),
        StreamFrame::ReasoningDelta { index, text } => cat5(
            "reason(",
            decimal(*index as u64).as_str(),
            ",",
            quoted(text.as_str()).as_str(),
            ")",
        ),
        StreamFrame::ToolCallDelta { index, call_id, json } => cat7(
            "tool(",
            decimal(*index as u64).as_str(),
            ",#",
            decimal(*call_id).as_str(),
            ",",
            quoted(json.as_str()).as_str(),
            ")",
        ),
        StreamFrame::BlockEnd { index, assembled } => cat7(
            "end(",
            decimal(*index as u64).as_str(),
            ",",
            assembled.kind.as_str(),
            ",",
            quoted(assembled.text.as_str()).as_str(),
            ")",
        ),
        StreamFrame::Usage(_) => owned("usage"),
        StreamFrame::Finish => owned("finish"),
    }
}

} // verus!
