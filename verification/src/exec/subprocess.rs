//! Spawning a command: its coordinates, the bounded capture of its output, and
//! what its exit means.

use vstd::prelude::*;

use crate::seam::error::{failure, outcome, ErrorCode, SeamError, SeamErrorView};
use crate::seam::exec::Spawn;
use crate::text::{
    cat, cat4, cat5, decimal, decimal_text, lossy_text, occurs, occurs_at, owned, texts, utf8_lossy,
};
use crate::text_laws::{law_a_numeral_is_worth_its_number, worth};

verus! {

/// The default cap on retained bytes per stream: one mebibyte.
pub const DEFAULT_MAX_OUTPUT_BYTES: usize = 1048576;

/// The signal a cancellation sends.
pub const SIGTERM: i32 = 15;

/// The signal a child that cannot be confined kills itself with.
pub const SIGKILL: i32 = 9;

/// The subprocess-local provider.
#[derive(Debug, Clone, Copy, PartialEq, Eq)]
pub struct SubprocessLocal {
    /// The cap on retained bytes per stream.
    pub max_output_bytes: usize,
}

impl SubprocessLocal {
    /// A provider with the default cap.
    pub fn new() -> (r: SubprocessLocal)
        ensures
            r.max_output_bytes == DEFAULT_MAX_OUTPUT_BYTES,
    {
        SubprocessLocal { max_output_bytes: DEFAULT_MAX_OUTPUT_BYTES }
    }

    /// A provider retaining at most `max_output_bytes` per stream.
    pub fn with_max_output_bytes(max_output_bytes: usize) -> (r: SubprocessLocal)
        ensures
            r.max_output_bytes == max_output_bytes,
    {
        SubprocessLocal { max_output_bytes }
    }
}

// ---------------------------------------------------------------------------
// Coordinates
// ---------------------------------------------------------------------------

/// What to run, exactly as the spawn says it: no shell, no rewriting.
pub struct Coordinates {
    pub program: String,
    pub args: Vec<String>,
    pub cwd: Option<String>,
}

/// The coordinates of a spawn. An empty argv is a failure.
pub fn coordinates(spawn: &Spawn) -> (r: Result<Coordinates, SeamError>)
    ensures
        match r {
            Ok(c) => spawn@.argv.len() > 0 && c.program@ == spawn@.argv[0] && texts(c.args@)
                == spawn@.argv.skip(1) && c.cwd == spawn.cwd,
            Err(e) => spawn@.argv.len() == 0 && e@ == failure(
                ErrorCode::SpawnFailed,
                "spawn argv is empty"@,
            ),
        },
{
    if spawn.argv.len() == 0 {
        return Err(SeamError::new(ErrorCode::SpawnFailed, "spawn argv is empty"));
    }
    let mut args: Vec<String> = Vec::new();
    let mut i: usize = 1;
    while i < spawn.argv.len()
        invariant
            1 <= i <= spawn.argv@.len(),
            args@.len() == i - 1,
            forall|k: int| 0 <= k < args@.len() ==> (#[trigger] args@[k])@ == spawn.argv@[k + 1]@,
        decreases spawn.argv@.len() - i,
    {
        args.push(spawn.argv[i].clone());
        i = i + 1;
    }
    assert(texts(args@) =~= spawn@.argv.skip(1));
    let cwd = match &spawn.cwd {
        Some(dir) => Some(dir.clone()),
        None => None,
    };
    Ok(Coordinates { program: spawn.argv[0].clone(), args, cwd })
}

// ---------------------------------------------------------------------------
// Capture
// ---------------------------------------------------------------------------

/// Bytes retained of a stream, and how many came beyond the cap.
#[derive(Debug, Clone, PartialEq, Eq)]
pub struct Capture {
    bytes: Vec<u8>,
    dropped: usize,
}

/// What a [`Capture`] says.
#[verifier::ext_equal]
pub struct CaptureView {
    pub bytes: Seq<u8>,
    pub dropped: nat,
}

impl View for Capture {
    type V = CaptureView;

    closed spec fn view(&self) -> CaptureView {
        CaptureView { bytes: self.bytes@, dropped: self.dropped as nat }
    }
}

/// What is captured of a stream under a cap: its first bytes, as many as the cap
/// allows, and the number of the others.
pub open spec fn captured(stream: Seq<u8>, cap: nat) -> CaptureView {
    let kept = if stream.len() <= cap {
        stream.len()
    } else {
        cap
    };
    CaptureView { bytes: stream.take(kept as int), dropped: (stream.len() - kept) as nat }
}

impl Capture {
    /// Nothing captured yet.
    pub fn new() -> (r: Capture)
        ensures
            r@ == (CaptureView { bytes: Seq::empty(), dropped: 0 }),
            forall|cap: nat| r@ == #[trigger] captured(Seq::empty(), cap),
    {
        let r = Capture { bytes: Vec::new(), dropped: 0 };
        assert(r@.bytes =~= Seq::empty());
        assert forall|cap: nat| r@ == #[trigger] captured(Seq::empty(), cap) by {
            assert(captured(Seq::empty(), cap).bytes =~= Seq::empty());
        }
        r
    }

    /// Take the next bytes of the stream: as many as there is room for are kept,
    /// the others are counted.
    pub fn feed(&mut self, chunk: &[u8], max_output_bytes: usize)
        requires
            old(self)@.dropped + chunk@.len() <= usize::MAX,
        ensures
            forall|stream: Seq<u8>|
                old(self)@ == #[trigger] captured(stream, max_output_bytes as nat) ==> final(self)@
                    == captured(stream + chunk@, max_output_bytes as nat),
    {
        let ghost start = self@;
        let room: usize = if self.bytes.len() < max_output_bytes {
            max_output_bytes - self.bytes.len()
        } else {
            0
        };
        let keep: usize = if chunk.len() < room {
            chunk.len()
        } else {
            room
        };
        let mut i: usize = 0;
        while i < keep
            invariant
                i <= keep <= chunk@.len(),
                self.bytes@ == start.bytes + chunk@.take(i as int),
                self.dropped == start.dropped,
            decreases keep - i,
        {
            self.bytes.push(chunk[i]);
            i = i + 1;
            assert(self.bytes@ =~= start.bytes + chunk@.take(i as int));
        }
        assert(start.bytes + chunk@.take(0) =~= start.bytes);
        self.dropped = self.dropped + (chunk.len() - keep);
        proof {
            let cap = max_output_bytes as nat;
            assert forall|stream: Seq<u8>| start == #[trigger] captured(stream, cap) implies self@
                == captured(stream + chunk@, cap) by {
                let out = captured(stream + chunk@, cap);
                assert(self@.bytes =~= out.bytes);
            }
        }
    }
}

// ---------------------------------------------------------------------------
// What an exit means
// ---------------------------------------------------------------------------

/// How a process ended.
#[derive(Debug, Clone, Copy, PartialEq, Eq, Structural)]
pub enum Exit {
    /// It exited with a code.
    Code(i32),
    /// A signal ended it.
    Signal,
}

/// A number in decimal, with its sign where it is negative.
pub open spec fn signed_text(n: int) -> Seq<char> {
    if n < 0 {
        "-"@ + decimal_text((-n) as nat)
    } else {
        decimal_text(n as nat)
    }
}

fn signed(n: i32) -> (r: String)
    ensures
        r@ == signed_text(n as int),
{
    if n < 0 {
        let magnitude: i64 = -(n as i64);
        let digits = decimal(magnitude as u64);
        cat("-", digits.as_str())
    } else {
        decimal(n as u64)
    }
}

impl Exit {
    /// How messages name the exit.
    pub open spec fn label(self) -> Seq<char> {
        match self {
            Exit::Code(code) => "exit code "@ + signed_text(code as int),
            Exit::Signal => "signal"@,
        }
    }

    /// How messages name the exit.
    pub fn exit_label(self) -> (r: String)
        ensures
            r@ == self.label(),
    {
        match self {
            Exit::Code(code) => {
                let digits = signed(code);
                cat("exit code ", digits.as_str())
            },
            Exit::Signal => owned("signal"),
        }
    }
}

/// The text of one stream, with a notice where bytes were dropped.
pub open spec fn stream_text(c: CaptureView, name: Seq<char>) -> Seq<char> {
    lossy_text(c.bytes) + (if c.dropped > 0 {
        "\n["@ + name + " truncated: "@ + decimal_text(c.dropped) + " bytes dropped]\n"@
    } else {
        Seq::empty()
    })
}

/// What a run wrote: its stdout, then its stderr.
pub open spec fn transcript(stdout: CaptureView, stderr: CaptureView) -> Seq<char> {
    stream_text(stdout, "stdout"@) + stream_text(stderr, "stderr"@)
}

/// What a run came to. A cancelled run is never a success, whatever its exit;
/// a failing one carries what it wrote.
pub open spec fn verdict(
    stdout: CaptureView,
    stderr: CaptureView,
    exit: Exit,
    cancelled: bool,
) -> Result<Seq<char>, SeamErrorView> {
    let out = transcript(stdout, stderr);
    if cancelled {
        Err(
            failure(
                ErrorCode::ExecCancelled,
                "process cancelled ("@ + exit.label() + "); "@ + out,
            ),
        )
    } else if exit == Exit::Code(0) {
        Ok(out)
    } else {
        Err(
            failure(ErrorCode::SpawnFailed, "process exited with "@ + exit.label() + "; "@ + out),
        )
    }
}

fn stream(c: &Capture, name: &str) -> (r: String)
    ensures
        r@ == stream_text(c@, name@),
{
    let text = utf8_lossy(c.bytes.as_slice());
    if c.dropped > 0 {
        let n = decimal(c.dropped as u64);
        let note = cat5("\n[", name, " truncated: ", n.as_str(), " bytes dropped]\n");
        cat(text.as_str(), note.as_str())
    } else {
        assert(text@ + Seq::<char>::empty() =~= text@);
        text
    }
}

/// What a run came to.
pub fn settle(stdout: &Capture, stderr: &Capture, exit: Exit, cancelled: bool) -> (r: Result<
    String,
    SeamError,
>)
    ensures
        outcome(r) == verdict(stdout@, stderr@, exit, cancelled),
{
    let first = stream(stdout, "stdout");
    let second = stream(stderr, "stderr");
    let out = cat(first.as_str(), second.as_str());
    let label = exit.exit_label();
    if cancelled {
        return Err(
            SeamError::with(
                ErrorCode::ExecCancelled,
                cat4("process cancelled (", label.as_str(), "); ", out.as_str()),
            ),
        );
    }
    if exit == Exit::Code(0) {
        return Ok(out);
    }
    Err(
        SeamError::with(
            ErrorCode::SpawnFailed,
            cat4("process exited with ", label.as_str(), "; ", out.as_str()),
        ),
    )
}

/// What is known of a child when its group could not be signalled.
#[derive(Debug, Clone, Copy, PartialEq, Eq, Structural)]
pub enum ChildState {
    /// It is still running, and still ours.
    Running,
    /// It has exited: its number may belong to a stranger by now.
    Exited,
    /// It cannot be told.
    Unknown,
}

/// Whether a cancellation signals the child directly: only where its group could
/// not be reached and the child is known to be running.
pub fn signals_child(group_signalled: bool, child: ChildState) -> (r: bool)
    ensures
        r == (!group_signalled && child == ChildState::Running),
{
    !group_signalled && child == ChildState::Running
}

// ---------------------------------------------------------------------------
// Laws
// ---------------------------------------------------------------------------

/// Capture is bounded, in order and accounted for: no more than the cap is kept,
/// what is kept is the start of the stream, and every byte is kept or counted.
pub proof fn law_capture_is_bounded(stream: Seq<u8>, cap: nat)
    ensures
        captured(stream, cap).bytes.len() <= cap,
        captured(stream, cap).bytes.is_prefix_of(stream),
        captured(stream, cap).bytes.len() + captured(stream, cap).dropped == stream.len(),
        captured(stream, cap).dropped > 0 <==> stream.len() > cap,
{
}

/// A cancelled run is reported as cancelled, never as a success.
pub proof fn law_a_cancelled_run_is_never_a_success(
    stdout: CaptureView,
    stderr: CaptureView,
    exit: Exit,
)
    ensures
        verdict(stdout, stderr, exit, true) matches Err(e) && e.code == ErrorCode::ExecCancelled,
{
}

/// A run that was not cancelled succeeds exactly when it exits with code zero,
/// and hands back what it wrote.
pub proof fn law_only_a_zero_exit_succeeds(stdout: CaptureView, stderr: CaptureView, exit: Exit)
    ensures
        verdict(stdout, stderr, exit, false) is Ok <==> exit == Exit::Code(0),
        exit == Exit::Code(0) ==> verdict(stdout, stderr, exit, false) == Ok::<
            Seq<char>,
            SeamErrorView,
        >(transcript(stdout, stderr)),
        exit != Exit::Code(0) ==> (verdict(stdout, stderr, exit, false) matches Err(e) && e.code
            == ErrorCode::SpawnFailed),
{
}

/// A run that exits with zero hands back all that was kept of what it wrote: its
/// standard output first and whole, its standard error behind it and whole. Where
/// nothing was dropped there is nothing else.
pub proof fn law_a_success_hands_back_both_streams(stdout: CaptureView, stderr: CaptureView)
    ensures
        verdict(stdout, stderr, Exit::Code(0), false) matches Ok(out) && {
            &&& out.take(lossy_text(stdout.bytes).len() as int) == lossy_text(stdout.bytes)
            &&& stdout.dropped == 0 && stderr.dropped == 0 ==> out == lossy_text(stdout.bytes)
                + lossy_text(stderr.bytes)
            &&& stderr.dropped == 0 ==> out.len() >= lossy_text(stderr.bytes).len() && out.skip(
                out.len() - lossy_text(stderr.bytes).len(),
            ) == lossy_text(stderr.bytes)
            &&& exists|between: Seq<char>, behind: Seq<char>| #[trigger]
                pieced(out, lossy_text(stdout.bytes), between, lossy_text(stderr.bytes), behind)
                    && (between.len() == 0 <==> stdout.dropped == 0) && (behind.len() == 0
                    <==> stderr.dropped == 0) && (stdout.dropped > 0 ==> occurs(
                    between,
                    decimal_text(stdout.dropped),
                ) && occurs(between, "stdout"@)) && (stderr.dropped > 0 ==> occurs(
                    behind,
                    decimal_text(stderr.dropped),
                ) && occurs(behind, "stderr"@))
        },
{
    let out = verdict(stdout, stderr, Exit::Code(0), false)->Ok_0;
    let first = lossy_text(stdout.bytes);
    let second = lossy_text(stderr.bytes);
    assert(out.take(first.len() as int) =~= first);
    let between = stream_text(stdout, "stdout"@).skip(first.len() as int);
    let behind = stream_text(stderr, "stderr"@).skip(second.len() as int);
    reveal_strlit("stdout");
    reveal_strlit("stderr");
    lemma_notice(stdout, "stdout"@);
    lemma_notice(stderr, "stderr"@);
    assert(out =~= first + between + second + behind);
    assert(pieced(out, first, between, second, behind));
    if stderr.dropped == 0 {
        assert(out.skip(out.len() - second.len()) =~= second);
    }
    if stdout.dropped == 0 && stderr.dropped == 0 {
        assert(out =~= first + second);
    }
}

/// Whether a text is four pieces in a row.
pub open spec fn pieced(
    out: Seq<char>,
    a: Seq<char>,
    b: Seq<char>,
    c: Seq<char>,
    d: Seq<char>,
) -> bool {
    out == a + b + c + d
}

/// The notice of a stream is empty where nothing was dropped, and says what was
/// dropped otherwise.
proof fn lemma_notice(c: CaptureView, name: Seq<char>)
    requires
        name.len() > 0,
    ensures
        ({
            let text = stream_text(c, name);
            let n = lossy_text(c.bytes).len() as int;
            &&& text.len() >= n
            &&& text =~= lossy_text(c.bytes) + text.skip(n)
            &&& text.skip(n).len() == 0 <==> c.dropped == 0
            &&& c.dropped > 0 ==> occurs(text.skip(n), decimal_text(c.dropped)) && occurs(
                text.skip(n),
                name,
            )
        }),
{
    let text = stream_text(c, name);
    let n = lossy_text(c.bytes).len() as int;
    if c.dropped > 0 {
        let digits = decimal_text(c.dropped);
        let head = "\n["@;
        let mid = " truncated: "@;
        let notice = head + name + mid + digits + " bytes dropped]\n"@;
        assert(text.skip(n) =~= notice);
        let at = (head.len() + name.len() + mid.len()) as int;
        assert(notice.subrange(at, (at + digits.len()) as int) =~= digits);
        assert(occurs_at(notice, digits, at));
        assert(notice.subrange(head.len() as int, (head.len() + name.len()) as int) =~= name);
        assert(occurs_at(notice, name, head.len() as int));
    } else {
        assert(text.skip(n) =~= Seq::empty());
    }
}

/// A run that fails or is cancelled says how it ended and hands back all that a
/// success would have: its message ends in it, and names the exit.
pub proof fn law_a_failure_carries_what_was_written(
    stdout: CaptureView,
    stderr: CaptureView,
    exit: Exit,
    cancelled: bool,
)
    requires
        cancelled || exit != Exit::Code(0),
    ensures
        verdict(stdout, stderr, exit, cancelled) matches Err(e) && {
            let out = verdict(stdout, stderr, Exit::Code(0), false)->Ok_0;
            &&& e.message.len() >= out.len()
            &&& e.message.skip(e.message.len() - out.len()) == out
            &&& occurs(e.message, exit.label())
        },
{
    let out = verdict(stdout, stderr, Exit::Code(0), false)->Ok_0;
    let e = verdict(stdout, stderr, exit, cancelled)->Err_0;
    assert(e.message.skip(e.message.len() - out.len()) =~= out);
    let head = if cancelled {
        "process cancelled ("@
    } else {
        "process exited with "@
    };
    assert(e.message.subrange(head.len() as int, (head.len() + exit.label().len()) as int)
        =~= exit.label());
    assert(occurs_at(e.message, exit.label(), head.len() as int));
}

/// Exits that differ are named differently.
pub proof fn law_exits_are_named_apart(a: Exit, b: Exit)
    requires
        a != b,
    ensures
        a.label() != b.label(),
{
    let head = "exit code "@;
    reveal_strlit("exit code ");
    reveal_strlit("signal");
    reveal_strlit("-");
    match (a, b) {
        (Exit::Code(x), Exit::Code(y)) => {
            if a.label() == b.label() {
                let (s, t) = (signed_text(x as int), signed_text(y as int));
                assert(a.label().skip(head.len() as int) =~= s);
                assert(b.label().skip(head.len() as int) =~= t);
                lemma_signed(x as int);
                lemma_signed(y as int);
            }
        },
        (Exit::Code(_), Exit::Signal) => {
            assert(a.label()[0] == head[0]);
        },
        (Exit::Signal, Exit::Code(_)) => {
            assert(b.label()[0] == head[0]);
        },
        _ => {},
    }
}

/// A signed numeral says its number: its sign is in front, its size behind.
proof fn lemma_signed(n: int)
    ensures
        signed_text(n).len() > 0,
        n < 0 <==> signed_text(n)[0] == '-',
        n >= 0 ==> worth(signed_text(n), 10) == n,
        n < 0 ==> worth(signed_text(n).skip(1), 10) == -n,
{
    reveal_strlit("-");
    if n < 0 {
        law_a_numeral_is_worth_its_number((-n) as nat, 10);
        assert(signed_text(n).skip(1) =~= decimal_text((-n) as nat));
    } else {
        law_a_numeral_is_worth_its_number(n as nat, 10);
        assert(signed_text(n)[0] == decimal_text(n as nat)[0]);
    }
}

/// What is captured does not depend on how a stream comes in pieces: the whole is
/// captured where the cap allows it, and a longer cap keeps what a shorter one kept.
pub proof fn law_a_larger_cap_keeps_more(stream: Seq<u8>, cap: nat, more: nat)
    requires
        cap <= more,
    ensures
        stream.len() <= cap ==> captured(stream, cap).bytes == stream && captured(
            stream,
            cap,
        ).dropped == 0,
        captured(stream, cap).bytes.is_prefix_of(captured(stream, more).bytes),
        captured(stream, more).dropped <= captured(stream, cap).dropped,
        stream.len() > cap ==> captured(stream, cap).bytes.len() == cap,
{
    if stream.len() <= cap {
        assert(captured(stream, cap).bytes =~= stream);
    }
    let a = captured(stream, cap).bytes;
    let b = captured(stream, more).bytes;
    assert(b.take(a.len() as int) =~= a);
}

} // verus!
