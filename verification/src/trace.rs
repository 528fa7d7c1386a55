//! Call-tree tracing: from the host's diagnostic events to a tree of calls.
//!
//! The host reports every call between contracts as a pair of diagnostic
//! events:
//!
//! - `fn_call`, with the topics `[Symbol("fn_call"), Bytes(callee),
//!   Symbol(function)]`. Its data is `Void` for no arguments, the argument
//!   itself for one, and a vector for several.
//! - `fn_return`, with the topics `[Symbol("fn_return"), Symbol(function)]`.
//!   Its data is the returned value.
//!
//! A call with one vector argument cannot be told from a call with several
//! arguments; a vector is always taken for several.
//!
//! A `fn_call` without a `fn_return` is a trapped call. The host marks the
//! events of a failed call, and those of the calls inside it, as failed: such
//! a frame keeps its returned value and is flagged as rolled back.

use vstd::prelude::*;
use vstd::utf8::{
    decode_utf8, encode_utf8, encode_utf8_decode_utf8, encode_utf8_valid_utf8, valid_utf8,
};

use crate::render::{
    abbreviate_strkey, item_texts, render_scval, render_scvals, val_text, vals_view,
};
use crate::scval::{copy_vals, ScVal, ValView};
use crate::strkey::{contract_strkey, contract_strkey_of};
use crate::text::{join2, joined, lemma_shortened_ascii, same_text, shortened, utf8_text};

verus! {

// ---------------------------------------------------------------------------
// Events
// ---------------------------------------------------------------------------

/// What emitted an event.
#[derive(Debug, Clone, Copy, PartialEq, Eq, Structural)]
pub enum EventKind {
    System,
    Contract,
    Diagnostic,
}

/// One event of the host's stream.
#[derive(Debug, PartialEq, Eq)]
pub struct HostEvent {
    pub kind: EventKind,
    pub topics: Vec<ScVal>,
    pub data: ScVal,
    /// The call that emitted the event, or one around it, failed.
    pub failed_call: bool,
}

/// The content of an event.
#[verifier::ext_equal]
pub struct EventView {
    pub kind: EventKind,
    pub topics: Seq<ValView>,
    pub data: ValView,
    pub failed_call: bool,
}

impl View for HostEvent {
    type V = EventView;

    open spec fn view(&self) -> EventView {
        EventView {
            kind: self.kind,
            topics: vals_view(self.topics@),
            data: self.data@,
            failed_call: self.failed_call,
        }
    }
}

/// The contents of some events.
pub open spec fn events_view(events: Seq<HostEvent>) -> Seq<EventView> {
    events.map_values(|e: HostEvent| e@)
}

// ---------------------------------------------------------------------------
// Frames
// ---------------------------------------------------------------------------

/// A call tree.
#[derive(Debug, PartialEq, Eq)]
pub struct Trace {
    /// Top-level calls, in the order they were made.
    pub roots: Vec<TraceFrame>,
}

/// One call of the tree.
#[derive(Debug, PartialEq, Eq)]
pub struct TraceFrame {
    /// The called contract.
    pub contract: [u8; 32],
    /// The called function.
    pub function: String,
    /// The arguments.
    pub args: Vec<ScVal>,
    /// How the call ended.
    pub result: TraceResult,
    /// The call's effects were undone.
    pub rolled_back: bool,
    /// The calls made inside this one, in order.
    pub children: Vec<TraceFrame>,
}

/// How a call ended.
#[derive(Debug, PartialEq, Eq)]
pub enum TraceResult {
    /// With this value.
    Returned(ScVal),
    /// It was entered and never left.
    Trapped,
}

/// The content of a call; a trapped one has no result.
#[verifier::ext_equal]
pub struct FrameView {
    pub contract: Seq<u8>,
    pub function: Seq<char>,
    pub args: Seq<ValView>,
    pub result: Option<ValView>,
    pub rolled_back: bool,
    pub children: Seq<FrameView>,
}

impl View for TraceResult {
    type V = Option<ValView>;

    open spec fn view(&self) -> Option<ValView> {
        match *self {
            TraceResult::Returned(v) => Some(v@),
            TraceResult::Trapped => None,
        }
    }
}

impl TraceFrame {
    /// The frame's content.
    pub open spec fn model(self) -> FrameView
        decreases self,
    {
        FrameView {
            contract: self.contract@,
            function: self.function@,
            args: vals_view(self.args@),
            result: self.result@,
            rolled_back: self.rolled_back,
            children: Seq::new(
                self.children@.len(),
                |i: int|
                    if 0 <= i < self.children@.len() {
                        self.children@[i].model()
                    } else {
                        arbitrary()
                    },
            ),
        }
    }
}

impl View for TraceFrame {
    type V = FrameView;

    open spec fn view(&self) -> FrameView {
        self.model()
    }
}

/// The contents of some frames.
pub open spec fn frames_view(frames: Seq<TraceFrame>) -> Seq<FrameView> {
    frames.map_values(|f: TraceFrame| f@)
}

impl View for Trace {
    type V = Seq<FrameView>;

    open spec fn view(&self) -> Seq<FrameView> {
        frames_view(self.roots@)
    }
}

// ---------------------------------------------------------------------------
// From events to frames
// ---------------------------------------------------------------------------

/// The text of a symbol that is valid UTF-8.
pub open spec fn symbol_text(v: ValView) -> Option<Seq<char>> {
    match v {
        ValView::Symbol(s) => if valid_utf8(s) {
            Some(decode_utf8(s))
        } else {
            None
        },
        _ => None,
    }
}

/// The id in a byte string of 32 bytes.
pub open spec fn contract_id(v: ValView) -> Option<Seq<u8>> {
    match v {
        ValView::Bytes(b) => if b.len() == 32 {
            Some(b)
        } else {
            None
        },
        _ => None,
    }
}

/// The arguments that a call's data stands for.
pub open spec fn payload_args(data: ValView) -> Seq<ValView> {
    match data {
        ValView::Void => Seq::empty(),
        ValView::Vec(Some(items)) => items,
        ValView::Vec(None) => Seq::empty(),
        single => seq![single],
    }
}

/// The frame that a `fn_call` opens, where its topics are as they should be.
pub open spec fn opened_frame(topics: Seq<ValView>, data: ValView, failed: bool) -> Option<FrameView> {
    if topics.len() < 3 {
        None
    } else {
        match (contract_id(topics[1]), symbol_text(topics[2])) {
            (Some(contract), Some(function)) => Some(
                FrameView {
                    contract,
                    function,
                    args: payload_args(data),
                    result: None,
                    rolled_back: failed,
                    children: Seq::empty(),
                },
            ),
            _ => None,
        }
    }
}

/// What an event means to the tracer.
pub enum Signal {
    /// A call begins.
    Call(FrameView),
    /// The innermost open call returns this value; the flag says that it was
    /// rolled back.
    Return(ValView, bool),
    /// Nothing.
    Noise,
}

/// The meaning of an event.
pub open spec fn signal(e: EventView) -> Signal {
    if e.kind != EventKind::Diagnostic || e.topics.len() == 0 {
        Signal::Noise
    } else if symbol_text(e.topics[0]) == Some("fn_call"@) {
        match opened_frame(e.topics, e.data, e.failed_call) {
            Some(f) => Signal::Call(f),
            None => Signal::Noise,
        }
    } else if symbol_text(e.topics[0]) == Some("fn_return"@) {
        Signal::Return(e.data, e.failed_call)
    } else {
        Signal::Noise
    }
}

/// The tracer between two events: the open calls, outermost first, and the
/// finished top-level calls.
#[verifier::ext_equal]
pub struct Tracing {
    pub open: Seq<FrameView>,
    pub roots: Seq<FrameView>,
}

/// Hand a finished call to the call around it, or to the roots.
pub open spec fn attached(t: Tracing, f: FrameView) -> Tracing {
    if t.open.len() == 0 {
        Tracing { open: t.open, roots: t.roots.push(f) }
    } else {
        let parent = t.open.last();
        Tracing {
            open: t.open.drop_last().push(
                FrameView { children: parent.children.push(f), ..parent },
            ),
            roots: t.roots,
        }
    }
}

/// The innermost open call, finished by a return.
pub open spec fn returned(f: FrameView, value: ValView, failed: bool) -> FrameView {
    FrameView { result: Some(value), rolled_back: f.rolled_back || failed, ..f }
}

/// A call that was never left.
pub open spec fn trapped(f: FrameView) -> FrameView {
    FrameView { result: None, rolled_back: true, ..f }
}

/// The tracer after one call or return.
pub open spec fn applied(t: Tracing, s: Signal) -> Tracing {
    match s {
        Signal::Call(f) => Tracing { open: t.open.push(f), roots: t.roots },
        Signal::Return(value, failed) => if t.open.len() == 0 {
            t
        } else {
            attached(
                Tracing { open: t.open.drop_last(), roots: t.roots },
                returned(t.open.last(), value, failed),
            )
        },
        Signal::Noise => t,
    }
}

/// The tracer after one more event.
pub open spec fn advanced(t: Tracing, e: EventView) -> Tracing {
    applied(t, signal(e))
}

/// The tracer after some events.
pub open spec fn traced_from(t: Tracing, events: Seq<EventView>) -> Tracing
    decreases events.len(),
{
    if events.len() == 0 {
        t
    } else {
        advanced(traced_from(t, events.drop_last()), events.last())
    }
}

/// The roots once every open call has been closed as trapped, innermost
/// first.
pub open spec fn closed_roots(t: Tracing) -> Seq<FrameView>
    decreases t.open.len(),
{
    if t.open.len() == 0 {
        t.roots
    } else {
        let rest = attached(
            Tracing { open: t.open.drop_last(), roots: t.roots },
            trapped(t.open.last()),
        );
        closed_roots(rest)
    }
}

/// A tracer that has seen nothing.
pub open spec fn fresh() -> Tracing {
    Tracing { open: Seq::empty(), roots: Seq::empty() }
}

/// The call tree of a stream of events.
pub open spec fn trace_of(events: Seq<EventView>) -> Seq<FrameView> {
    closed_roots(traced_from(fresh(), events))
}

fn scval_as_symbol_str(v: &ScVal) -> (r: Option<String>)
    ensures
        (match r {
            Some(s) => symbol_text(v@) == Some(s@),
            None => symbol_text(v@) is None,
        }),
{
    match v {
        ScVal::Symbol(s) => utf8_text(s.as_slice()),
        _ => None,
    }
}

/// The 32 bytes of a byte string of that length.
pub(crate) fn bytes32(b: &[u8]) -> (r: Option<[u8; 32]>)
    ensures
        (match r {
            Some(a) => a@ == b@,
            None => b@.len() != 32,
        }),
{
    if b.len() != 32 {
        return None;
    }
    let mut out: [u8; 32] = [0u8; 32];
    let mut i: usize = 0;
    while i < 32
        invariant
            i <= 32,
            b@.len() == 32,
            forall|j: int| 0 <= j < i ==> out@[j] == b@[j],
        decreases 32 - i,
    {
        out[i] = b[i];
        i = i + 1;
    }
    assert(out@ =~= b@);
    Some(out)
}

fn scval_as_contract(v: &ScVal) -> (r: Option<[u8; 32]>)
    ensures
        (match r {
            Some(c) => contract_id(v@) == Some(c@),
            None => contract_id(v@) is None,
        }),
{
    match v {
        ScVal::Bytes(b) => bytes32(b.as_slice()),
        _ => None,
    }
}

/// Recover a call's arguments from its data.
fn unwrap_args_payload(data: &ScVal) -> (r: Vec<ScVal>)
    ensures
        vals_view(r@) == payload_args(data@),
{
    match data {
        ScVal::Void => {
            let r: Vec<ScVal> = Vec::new();
            assert(vals_view(r@) =~= payload_args(data@));
            r
        },
        ScVal::Vec(None) => {
            let r: Vec<ScVal> = Vec::new();
            assert(vals_view(r@) =~= payload_args(data@));
            r
        },
        ScVal::Vec(Some(items)) => {
            let r = copy_vals(items);
            assert(vals_view(r@) =~= vals_view(items@));
            assert(data@->Vec_0->0 =~= vals_view(items@));
            r
        },
        single => {
            let v = single.copied();
            let mut r: Vec<ScVal> = Vec::new();
            r.push(v);
            assert(vals_view(r@) =~= seq![data@]);
            r
        },
    }
}

fn parse_fn_call(topics: &Vec<ScVal>, data: &ScVal, failed: bool) -> (r: Option<TraceFrame>)
    ensures
        (match r {
            Some(f) => opened_frame(vals_view(topics@), data@, failed) == Some(f@),
            None => opened_frame(vals_view(topics@), data@, failed) is None,
        }),
{
    if topics.len() < 3 {
        return None;
    }
    let contract = match scval_as_contract(&topics[1]) {
        Some(c) => c,
        None => {
            return None;
        },
    };
    let function = match scval_as_symbol_str(&topics[2]) {
        Some(f) => f,
        None => {
            return None;
        },
    };
    let args = unwrap_args_payload(data);
    let f = TraceFrame {
        contract,
        function,
        args,
        result: TraceResult::Trapped,
        rolled_back: failed,
        children: Vec::new(),
    };
    assert(f@.children =~= Seq::<FrameView>::empty());
    Some(f)
}

/// Hand a finished frame to the frame around it, or to the roots.
fn attach(stack: &mut Vec<TraceFrame>, roots: &mut Vec<TraceFrame>, frame: TraceFrame)
    ensures
        attached(
            Tracing { open: frames_view(old(stack)@), roots: frames_view(old(roots)@) },
            frame@,
        ) == (Tracing { open: frames_view(final(stack)@), roots: frames_view(final(roots)@) }),
{
    let ghost before = Tracing { open: frames_view(stack@), roots: frames_view(roots@) };
    match stack.pop() {
        Some(parent) => {
            let ghost p = parent;
            let mut parent = parent;
            parent.children.push(frame);
            assert(parent@.children =~= p@.children.push(frame@));
            assert(parent@ =~= (FrameView { children: p@.children.push(frame@), ..p@ }));
            stack.push(parent);
            assert(frames_view(stack@) =~= attached(before, frame@).open);
        },
        None => {
            roots.push(frame);
            assert(frames_view(roots@) =~= attached(before, frame@).roots);
        },
    }
}

impl Clone for TraceResult {
    fn clone(&self) -> (r: TraceResult)
        ensures
            r@ == self@,
    {
        match self {
            TraceResult::Returned(v) => TraceResult::Returned(v.copied()),
            TraceResult::Trapped => TraceResult::Trapped,
        }
    }
}

impl TraceFrame {
    /// A copy of the frame.
    fn copied(&self) -> (r: TraceFrame)
        ensures
            r@ == self@,
        decreases self,
    {
        let args = copy_vals(&self.args);
        assert(vals_view(args@) =~= vals_view(self.args@));
        let children = copy_frames(&self.children);
        let r = TraceFrame {
            contract: self.contract,
            function: self.function.as_str().to_owned(),
            args,
            result: self.result.clone(),
            rolled_back: self.rolled_back,
            children,
        };
        assert(r@.children =~= frames_view(children@));
        assert(self@.children =~= frames_view(self.children@));
        r
    }
}

/// Copies of some frames.
fn copy_frames(frames: &Vec<TraceFrame>) -> (r: Vec<TraceFrame>)
    ensures
        frames_view(r@) == frames_view(frames@),
    decreases frames,
{
    let mut out: Vec<TraceFrame> = Vec::new();
    let mut i: usize = 0;
    while i < frames.len()
        invariant
            i <= frames@.len(),
            out@.len() == i,
            forall|j: int| 0 <= j < i ==> (#[trigger] out@[j])@ == frames@[j]@,
        decreases frames@.len() - i,
    {
        assert(decreases_to!(frames => frames@));
        assert(decreases_to!(frames@ => frames@[i as int]));
        out.push(frames[i].copied());
        i = i + 1;
    }
    assert(frames_view(out@) =~= frames_view(frames@));
    out
}

impl Clone for TraceFrame {
    fn clone(&self) -> (r: TraceFrame)
        ensures
            r@ == self@,
    {
        self.copied()
    }
}

impl Clone for Trace {
    fn clone(&self) -> (r: Trace)
        ensures
            r@ == self@,
    {
        Trace { roots: copy_frames(&self.roots) }
    }
}

impl Default for Trace {
    /// A trace without calls.
    fn default() -> (r: Trace)
        ensures
            r.roots@.len() == 0,
    {
        Trace { roots: Vec::new() }
    }
}

impl Trace {
    /// Build the call tree of a stream of events. Events that are not
    /// diagnostic, malformed calls, and returns with no open call are passed
    /// over; calls that never return are trapped.
    pub fn from_events(events: &[HostEvent]) -> (r: Trace)
        ensures
            r@ == trace_of(events_view(events@)),
    {
        let mut stack: Vec<TraceFrame> = Vec::new();
        let mut roots: Vec<TraceFrame> = Vec::new();
        let mut i: usize = 0;
        assert(frames_view(stack@) =~= Seq::<FrameView>::empty());
        assert(frames_view(roots@) =~= Seq::<FrameView>::empty());
        assert(events_view(events@.take(0)) =~= Seq::<EventView>::empty());
        while i < events.len()
            invariant
                i <= events@.len(),
                traced_from(fresh(), events_view(events@.take(i as int))) == (Tracing {
                    open: frames_view(stack@),
                    roots: frames_view(roots@),
                }),
            decreases events@.len() - i,
        {
            let ghost before = Tracing { open: frames_view(stack@), roots: frames_view(roots@) };
            let event = &events[i];
            proof {
                let sofar = events_view(events@.take(i + 1));
                assert(sofar.drop_last() =~= events_view(events@.take(i as int)));
                assert(sofar.last() == event@);
            }
            i = i + 1;
            let kind = if event.topics.len() == 0 {
                None
            } else {
                scval_as_symbol_str(&event.topics[0])
            };
            if event.kind == EventKind::Diagnostic {
                match kind {
                    Some(text) => {
                        if same_text(text.as_str(), "fn_call") {
                            match parse_fn_call(&event.topics, &event.data, event.failed_call) {
                                Some(frame) => {
                                    stack.push(frame);
                                    assert(frames_view(stack@) =~= before.open.push(frame@));
                                },
                                None => {},
                            }
                        } else if same_text(text.as_str(), "fn_return") {
                            match stack.pop() {
                                Some(frame) => {
                                    let ghost f = frame@;
                                    let mut frame = frame;
                                    frame.result = TraceResult::Returned(event.data.copied());
                                    if event.failed_call {
                                        frame.rolled_back = true;
                                    }
                                    assert(frame@ =~= returned(f, event@.data, event@.failed_call));
                                    assert(frames_view(stack@) =~= before.open.drop_last());
                                    attach(&mut stack, &mut roots, frame);
                                },
                                None => {
                                    assert(before.open.len() == 0);
                                },
                            }
                        }
                    },
                    None => {},
                }
            }
        }
        assert(events@.take(i as int) =~= events@);
        let ghost done = Tracing { open: frames_view(stack@), roots: frames_view(roots@) };
        while stack.len() > 0
            invariant
                closed_roots(done) == closed_roots(
                    Tracing { open: frames_view(stack@), roots: frames_view(roots@) },
                ),
            decreases stack@.len(),
        {
            let ghost before = Tracing { open: frames_view(stack@), roots: frames_view(roots@) };
            let popped = stack.pop();
            match popped {
                Some(frame) => {
                    let ghost f = frame@;
                    let mut frame = frame;
                    frame.result = TraceResult::Trapped;
                    frame.rolled_back = true;
                    assert(frame@ =~= trapped(f));
                    assert(frames_view(stack@) =~= before.open.drop_last());
                    let ghost n = stack@.len();
                    attach(&mut stack, &mut roots, frame);
                    assert(frames_view(stack@).len() == n);
                },
                None => {},
            }
        }
        Trace { roots }
    }
}

// ---------------------------------------------------------------------------
// Questions about a tree
// ---------------------------------------------------------------------------

/// How many calls a call and everything inside it make.
pub open spec fn frame_size(f: FrameView) -> nat
    decreases f,
{
    1 + forest_size(f.children)
}

/// How many calls some trees hold.
pub open spec fn forest_size(fs: Seq<FrameView>) -> nat
    decreases fs,
{
    if fs.len() == 0 {
        0
    } else {
        forest_size(fs.drop_last()) + frame_size(fs[fs.len() - 1])
    }
}

/// Whether a call, or one inside it, trapped or was rolled back.
pub open spec fn frame_failed(f: FrameView) -> bool
    decreases f,
{
    f.rolled_back || f.result is None || forest_failed(f.children)
}

/// Whether a call in some trees trapped or was rolled back.
pub open spec fn forest_failed(fs: Seq<FrameView>) -> bool
    decreases fs,
{
    exists|i: int| 0 <= i < fs.len() && frame_failed(#[trigger] fs[i])
}

/// A part of a forest is no larger than the whole.
proof fn lemma_forest_size_take(fs: Seq<FrameView>, n: int)
    requires
        0 <= n <= fs.len(),
    ensures
        forest_size(fs.take(n)) <= forest_size(fs),
        n < fs.len() ==> forest_size(fs.take(n + 1)) == forest_size(fs.take(n)) + frame_size(fs[n]),
    decreases fs.len() - n,
{
    if n < fs.len() {
        lemma_forest_size_take(fs, n + 1);
        assert(fs.take(n + 1).drop_last() =~= fs.take(n));
    } else {
        assert(fs.take(n) =~= fs);
    }
}

/// Count the frames of some trees.
fn count_frames(frames: &Vec<TraceFrame>) -> (r: usize)
    requires
        forest_size(frames_view(frames@)) <= usize::MAX,
    ensures
        r == forest_size(frames_view(frames@)),
    decreases frames,
{
    let mut n: usize = 0;
    let mut i: usize = 0;
    let ghost fs = frames_view(frames@);
    assert(fs.take(0) =~= Seq::<FrameView>::empty());
    while i < frames.len()
        invariant
            i <= frames@.len(),
            fs == frames_view(frames@),
            forest_size(fs) <= usize::MAX,
            n == forest_size(fs.take(i as int)),
        decreases frames@.len() - i,
    {
        proof {
            lemma_forest_size_take(fs, i as int);
            lemma_forest_size_take(fs, i + 1);
            assert(fs[i as int].children =~= frames_view(frames@[i as int].children@));
        }
        assert(decreases_to!(frames => frames@));
        assert(decreases_to!(frames@ => frames@[i as int]));
        assert(decreases_to!(frames@[i as int] => frames@[i as int].children));
        let inside: usize = count_frames(&frames[i].children);
        n = n + 1 + inside;
        i = i + 1;
    }
    assert(fs.take(i as int) =~= fs);
    n
}

/// Whether a frame of some trees trapped or was rolled back.
fn any_failure(frames: &Vec<TraceFrame>) -> (r: bool)
    ensures
        r == forest_failed(frames_view(frames@)),
    decreases frames,
{
    let mut i: usize = 0;
    let ghost fs = frames_view(frames@);
    while i < frames.len()
        invariant
            i <= frames@.len(),
            fs == frames_view(frames@),
            forall|j: int| 0 <= j < i ==> !frame_failed(#[trigger] fs[j]),
        decreases frames@.len() - i,
    {
        assert(fs[i as int].children =~= frames_view(frames@[i as int].children@));
        assert(decreases_to!(frames => frames@));
        assert(decreases_to!(frames@ => frames@[i as int]));
        assert(decreases_to!(frames@[i as int] => frames@[i as int].children));
        let trapped_here = match &frames[i].result {
            TraceResult::Trapped => true,
            TraceResult::Returned(_) => false,
        };
        if frames[i].rolled_back || trapped_here || any_failure(&frames[i].children) {
            assert(frame_failed(fs[i as int]));
            return true;
        }
        i = i + 1;
    }
    false
}

impl Trace {
    /// How many calls the tree holds.
    pub fn frame_count(&self) -> (r: usize)
        requires
            forest_size(self@) <= usize::MAX,
        ensures
            r == forest_size(self@),
    {
        count_frames(&self.roots)
    }

    /// Whether any call trapped or was rolled back.
    pub fn had_failures(&self) -> (r: bool)
        ensures
            r == forest_failed(self@),
    {
        any_failure(&self.roots)
    }
}

// ---------------------------------------------------------------------------
// Text
// ---------------------------------------------------------------------------

/// One level of indentation.
pub const INDENT: &'static str = "  ";

/// The line that opens a call.
pub open spec fn call_line(f: FrameView, pad: Seq<char>) -> Seq<char> {
    pad + "["@ + shortened(contract_strkey_of(f.contract), "\u{2026}"@) + "] "@ + f.function + "("@
        + joined(item_texts(f.args), ", "@) + ")"@ + (if f.rolled_back {
        " [rolled back]"@
    } else {
        ""@
    }) + "\n"@
}

/// The line that closes a call.
pub open spec fn result_line(f: FrameView, pad: Seq<char>) -> Seq<char> {
    match f.result {
        Some(v) => pad + "\u{2190} "@ + val_text(v) + "\n"@,
        None => pad + "\u{2190} TRAPPED (no fn_return)\n"@,
    }
}

/// A call and everything inside it, one line each way, indented by depth.
pub open spec fn frame_text(f: FrameView, pad: Seq<char>) -> Seq<char>
    decreases f,
{
    call_line(f, pad) + forest_text(f.children, pad + INDENT@) + result_line(f, pad + INDENT@)
}

/// Some trees one after another.
pub open spec fn forest_text(fs: Seq<FrameView>, pad: Seq<char>) -> Seq<char>
    decreases fs,
{
    if fs.len() == 0 {
        Seq::empty()
    } else {
        forest_text(fs.drop_last(), pad) + frame_text(fs[fs.len() - 1], pad)
    }
}

/// The text of a call tree.
pub open spec fn trace_text(roots: Seq<FrameView>) -> Seq<char> {
    if roots.len() == 0 {
        "[TRACE] (empty — was tracing(true) set on ForkConfig before invoke?)\n"@
    } else {
        "[TRACE]\n"@ + forest_text(roots, INDENT@)
    }
}

fn call_line_text(frame: &TraceFrame, pad: &str) -> (r: String)
    ensures
        r@ == call_line(frame@, pad@),
{
    let full = contract_strkey(&frame.contract);
    proof {
        lemma_shortened_ascii(full@, "\u{2026}"@);
    }
    let short = abbreviate_strkey(full.as_str());
    let args = render_scvals(&frame.args);
    let mut s = join2(pad, "[");
    s.append(short.as_str());
    s.append("] ");
    s.append(frame.function.as_str());
    s.append("(");
    s.append(args.as_str());
    s.append(")");
    s.append(if frame.rolled_back {
        " [rolled back]"
    } else {
        ""
    });
    s.append("\n");
    s
}

fn result_line_text(frame: &TraceFrame, pad: &str) -> (r: String)
    ensures
        r@ == result_line(frame@, pad@),
{
    match &frame.result {
        TraceResult::Returned(v) => {
            let mut s = join2(pad, "\u{2190} ");
            s.append(render_scval(v).as_str());
            s.append("\n");
            s
        },
        TraceResult::Trapped => join2(pad, "\u{2190} TRAPPED (no fn_return)\n"),
    }
}

fn render_frames(frames: &Vec<TraceFrame>, pad: &str) -> (r: String)
    ensures
        r@ == forest_text(frames_view(frames@), pad@),
    decreases frames,
{
    let mut out = String::new();
    let mut i: usize = 0;
    let ghost fs = frames_view(frames@);
    assert(fs.take(0) =~= Seq::<FrameView>::empty());
    let deeper = join2(pad, INDENT);
    while i < frames.len()
        invariant
            i <= frames@.len(),
            fs == frames_view(frames@),
            deeper@ == pad@ + INDENT@,
            out@ == forest_text(fs.take(i as int), pad@),
        decreases frames@.len() - i,
    {
        assert(fs[i as int].children =~= frames_view(frames@[i as int].children@));
        assert(decreases_to!(frames => frames@));
        assert(decreases_to!(frames@ => frames@[i as int]));
        assert(decreases_to!(frames@[i as int] => frames@[i as int].children));
        let ghost before = out@;
        let head = call_line_text(&frames[i], pad);
        let inside = render_frames(&frames[i].children, deeper.as_str());
        let tail = result_line_text(&frames[i], deeper.as_str());
        out.append(head.as_str());
        out.append(inside.as_str());
        out.append(tail.as_str());
        assert(out@ =~= before + frame_text(fs[i as int], pad@));
        assert(fs.take(i + 1).drop_last() =~= fs.take(i as int));
        i = i + 1;
    }
    assert(fs.take(i as int) =~= fs);
    out
}

impl Trace {
    /// The tree as text, one line for each call and one for each result.
    pub fn to_text(&self) -> (r: String)
        ensures
            r@ == trace_text(self@),
    {
        if self.roots.len() == 0 {
            "[TRACE] (empty — was tracing(true) set on ForkConfig before invoke?)\n".to_owned()
        } else {
            join2("[TRACE]\n", render_frames(&self.roots, INDENT).as_str())
        }
    }
}

// ---------------------------------------------------------------------------
// Laws
// ---------------------------------------------------------------------------

/// What a stream of events means to the tracer: its calls and returns.
pub open spec fn meaning(events: Seq<EventView>) -> Seq<Signal>
    decreases events.len(),
{
    if events.len() == 0 {
        Seq::empty()
    } else {
        let before = meaning(events.drop_last());
        match signal(events.last()) {
            Signal::Noise => before,
            s => before.push(s),
        }
    }
}

/// How many calls a stream begins.
pub open spec fn call_count(events: Seq<EventView>) -> nat
    decreases events.len(),
{
    if events.len() == 0 {
        0
    } else {
        call_count(events.drop_last()) + (if signal(events.last()) is Call {
            1nat
        } else {
            0nat
        })
    }
}

/// The tracer after some calls and returns.
pub open spec fn applied_all(t: Tracing, signals: Seq<Signal>) -> Tracing
    decreases signals.len(),
{
    if signals.len() == 0 {
        t
    } else {
        applied(applied_all(t, signals.drop_last()), signals.last())
    }
}

proof fn lemma_traced_by_meaning(t: Tracing, events: Seq<EventView>)
    ensures
        traced_from(t, events) == applied_all(t, meaning(events)),
    decreases events.len(),
{
    if events.len() > 0 {
        lemma_traced_by_meaning(t, events.drop_last());
        let before = meaning(events.drop_last());
        match signal(events.last()) {
            Signal::Noise => {},
            s => {
                assert(before.push(s).drop_last() =~= before);
            },
        }
    }
}

proof fn lemma_applied_concat(t: Tracing, a: Seq<Signal>, b: Seq<Signal>)
    ensures
        applied_all(t, a + b) == applied_all(applied_all(t, a), b),
    decreases b.len(),
{
    if b.len() == 0 {
        assert(a + b =~= a);
    } else {
        lemma_applied_concat(t, a, b.drop_last());
        assert((a + b).drop_last() =~= a + b.drop_last());
    }
}

/// How the host hands the arguments of a call over: nothing for none, the
/// argument itself for one, a vector of them for more.
pub open spec fn packed(args: Seq<ValView>) -> ValView {
    if args.len() == 0 {
        ValView::Void
    } else if args.len() == 1 {
        args[0]
    } else {
        ValView::Vec(Some(args))
    }
}

/// Unpacking gives back the arguments that the host packed. A single argument
/// that is itself nothing or a vector looks like the packing of other
/// arguments and is left out.
pub proof fn law_unpacking_undoes_packing(args: Seq<ValView>)
    requires
        args.len() == 1 ==> !(args[0] is Void) && !(args[0] is Vec),
    ensures
        payload_args(packed(args)) == args,
{
    if args.len() == 1 {
        assert(seq![args[0]] =~= args);
    }
}

/// What is neither nothing nor a vector is one argument.
pub proof fn law_single_values_are_one_argument(data: ValView)
    requires
        !(data is Void),
        !(data is Vec),
    ensures
        payload_args(data).len() == 1,
        payload_args(data)[0] == data,
{
}

/// Whether an event tells that a function of a contract was called.
pub open spec fn tells_call(e: EventView, contract: Seq<u8>, name: Seq<u8>, args: Seq<ValView>) -> bool {
    &&& e.kind == EventKind::Diagnostic
    &&& e.topics.len() >= 3
    &&& e.topics[0] == ValView::Symbol(encode_utf8("fn_call"@))
    &&& e.topics[1] == ValView::Bytes(contract)
    &&& contract.len() == 32
    &&& e.topics[2] == ValView::Symbol(name)
    &&& valid_utf8(name)
    &&& e.data == packed(args)
    &&& args.len() == 1 ==> !(args[0] is Void) && !(args[0] is Vec)
}

/// Whether an event tells that the function called last returned a value.
pub open spec fn tells_return(e: EventView, value: ValView) -> bool {
    &&& e.kind == EventKind::Diagnostic
    &&& e.topics.len() >= 1
    &&& e.topics[0] == ValView::Symbol(encode_utf8("fn_return"@))
    &&& e.data == value
}

/// A call event is a frame of the trace that names the contract and the
/// function and holds the arguments in order. Without a return event it counts
/// as trapped and rolled back.
pub proof fn law_calls_are_traced(
    e: EventView,
    contract: Seq<u8>,
    name: Seq<u8>,
    args: Seq<ValView>,
)
    requires
        tells_call(e, contract, name, args),
    ensures
        trace_of(seq![e]) == seq![
            FrameView {
                contract,
                function: decode_utf8(name),
                args,
                result: None,
                rolled_back: true,
                children: Seq::empty(),
            },
        ],
        calls(seq![e]) == seq![CallView { contract, function: decode_utf8(name), args }],
{
    lemma_call_signal(e, contract, name, args);
    assert(seq![e].drop_last() =~= Seq::empty());
    assert(seq![e].last() == e);
    reveal_with_fuel(traced_from, 2);
    reveal_with_fuel(calls, 2);
    reveal_with_fuel(closed_roots, 2);
    let f = signal(e)->Call_0;
    let t = traced_from(fresh(), seq![e]);
    assert(t.open =~= seq![f]);
    assert(t.open.drop_last() =~= Seq::empty());
    assert(t.open.last() == f);
    assert(fresh().roots.push(trapped(f)) =~= seq![trapped(f)]);
    assert(trapped(f).children =~= Seq::empty());
}

/// A call that returned is a frame with the value that it returned, and it is
/// rolled back where either event says that the call failed.
pub proof fn law_returned_values_are_traced(
    call: EventView,
    ret: EventView,
    contract: Seq<u8>,
    name: Seq<u8>,
    args: Seq<ValView>,
    value: ValView,
)
    requires
        tells_call(call, contract, name, args),
        tells_return(ret, value),
    ensures
        trace_of(seq![call, ret]) == seq![
            FrameView {
                contract,
                function: decode_utf8(name),
                args,
                result: Some(value),
                rolled_back: call.failed_call || ret.failed_call,
                children: Seq::empty(),
            },
        ],
{
    lemma_call_signal(call, contract, name, args);
    lemma_return_signal(ret, value);
    let events = seq![call, ret];
    assert(events.drop_last() =~= seq![call]);
    assert(seq![call].drop_last() =~= Seq::empty());
    assert(events.last() == ret);
    assert(seq![call].last() == call);
    reveal_with_fuel(traced_from, 3);
    let f = signal(call)->Call_0;
    let t = traced_from(fresh(), seq![call]);
    assert(t.open =~= seq![f]);
    assert(t.open.drop_last() =~= Seq::empty());
    let done = returned(f, value, ret.failed_call);
    assert(fresh().roots.push(done) =~= seq![done]);
    assert(done.children =~= Seq::empty());
}

/// A call that is made while another one runs becomes its child, after those
/// that it made before.
pub proof fn law_calls_nest(
    t: Tracing,
    call: EventView,
    ret: EventView,
    contract: Seq<u8>,
    name: Seq<u8>,
    args: Seq<ValView>,
    value: ValView,
)
    requires
        tells_call(call, contract, name, args),
        tells_return(ret, value),
        t.open.len() > 0,
    ensures
        traced_from(t, seq![call, ret]).roots == t.roots,
        traced_from(t, seq![call, ret]).open.len() == t.open.len(),
        traced_from(t, seq![call, ret]).open.drop_last() == t.open.drop_last(),
        traced_from(t, seq![call, ret]).open.last().children == t.open.last().children.push(
            FrameView {
                contract,
                function: decode_utf8(name),
                args,
                result: Some(value),
                rolled_back: call.failed_call || ret.failed_call,
                children: Seq::empty(),
            },
        ),
{
    lemma_call_signal(call, contract, name, args);
    lemma_return_signal(ret, value);
    let events = seq![call, ret];
    assert(events.drop_last() =~= seq![call]);
    assert(seq![call].drop_last() =~= Seq::empty());
    assert(events.last() == ret);
    assert(seq![call].last() == call);
    reveal_with_fuel(traced_from, 3);
    let f = signal(call)->Call_0;
    assert(t.open.push(f).drop_last() =~= t.open);
    let done = returned(f, value, ret.failed_call);
    assert(done.children =~= Seq::empty());
    assert(t.open.drop_last().push(t.open.last()).drop_last() =~= t.open.drop_last());
}

proof fn lemma_call_signal(e: EventView, contract: Seq<u8>, name: Seq<u8>, args: Seq<ValView>)
    requires
        tells_call(e, contract, name, args),
    ensures
        signal(e) == Signal::Call(
            FrameView {
                contract,
                function: decode_utf8(name),
                args,
                result: None,
                rolled_back: e.failed_call,
                children: Seq::empty(),
            },
        ),
{
    law_unpacking_undoes_packing(args);
    encode_utf8_valid_utf8("fn_call"@);
    encode_utf8_decode_utf8("fn_call"@);
}

proof fn lemma_return_signal(e: EventView, value: ValView)
    requires
        tells_return(e, value),
    ensures
        signal(e) == Signal::Return(value, e.failed_call),
{
    encode_utf8_valid_utf8("fn_return"@);
    encode_utf8_decode_utf8("fn_return"@);
    reveal_strlit("fn_call");
    reveal_strlit("fn_return");
    assert("fn_call"@.len() != "fn_return"@.len());
}

/// The events that are neither well-formed calls nor returns leave no mark on
/// the tree: two streams with the same calls and returns have the same tree.
pub proof fn law_only_calls_and_returns_matter(a: Seq<EventView>, b: Seq<EventView>)
    requires
        meaning(a) == meaning(b),
    ensures
        trace_of(a) == trace_of(b),
{
    lemma_traced_by_meaning(fresh(), a);
    lemma_traced_by_meaning(fresh(), b);
}

/// The call as it stands when it has just begun.
pub open spec fn begun(f: FrameView) -> FrameView {
    FrameView { result: None, rolled_back: false, children: Seq::empty(), ..f }
}

/// The calls and returns of a finished call: its beginning, those of the
/// calls inside it, its return.
pub open spec fn spelled(f: FrameView) -> Seq<Signal>
    decreases f,
{
    seq![Signal::Call(begun(f))] + spelled_all(f.children) + seq![
        Signal::Return(f.result->0, f.rolled_back),
    ]
}

/// The calls and returns of some finished calls, one after another.
pub open spec fn spelled_all(fs: Seq<FrameView>) -> Seq<Signal>
    decreases fs,
{
    if fs.len() == 0 {
        Seq::empty()
    } else {
        spelled_all(fs.drop_last()) + spelled(fs[fs.len() - 1])
    }
}

/// Every call of a tree returned.
pub open spec fn all_returned(f: FrameView) -> bool
    decreases f,
{
    f.result is Some && forest_returned(f.children)
}

/// Every call of some trees returned.
pub open spec fn forest_returned(fs: Seq<FrameView>) -> bool
    decreases fs,
{
    fs.len() == 0 || (forest_returned(fs.drop_last()) && all_returned(fs[fs.len() - 1]))
}

/// Hand several finished calls over in a row.
spec fn attached_all(t: Tracing, fs: Seq<FrameView>) -> Tracing {
    if t.open.len() == 0 {
        Tracing { open: t.open, roots: t.roots + fs }
    } else {
        let parent = t.open.last();
        Tracing {
            open: t.open.drop_last().push(FrameView { children: parent.children + fs, ..parent }),
            roots: t.roots,
        }
    }
}

proof fn lemma_spelled_frame(t: Tracing, f: FrameView)
    requires
        all_returned(f),
    ensures
        applied_all(t, spelled(f)) == attached(t, f),
    decreases f,
{
    let first = seq![Signal::Call(begun(f))];
    let inside = spelled_all(f.children);
    let last = seq![Signal::Return(f.result->0, f.rolled_back)];
    let entered = Tracing { open: t.open.push(begun(f)), roots: t.roots };
    assert(applied_all(t, first) == entered) by {
        reveal_with_fuel(applied_all, 2);
        assert(first.drop_last() =~= Seq::<Signal>::empty());
    }
    lemma_spelled_forest(entered, f.children);
    let inner = attached_all(entered, f.children);
    lemma_applied_concat(t, first, inside);
    lemma_applied_concat(t, first + inside, last);
    assert(applied_all(inner, last) == applied(inner, last[0])) by {
        reveal_with_fuel(applied_all, 2);
        assert(last.drop_last() =~= Seq::<Signal>::empty());
    }
    assert(inner.open.drop_last() =~= t.open);
    assert(begun(f).children + f.children =~= f.children);
    assert(returned(inner.open.last(), f.result->0, f.rolled_back) =~= f);
}

proof fn lemma_spelled_forest(t: Tracing, fs: Seq<FrameView>)
    requires
        forest_returned(fs),
    ensures
        applied_all(t, spelled_all(fs)) == attached_all(t, fs),
    decreases fs,
{
    if fs.len() == 0 {
        assert(t.roots + fs =~= t.roots);
        if t.open.len() > 0 {
            let parent = t.open.last();
            assert(parent.children + fs =~= parent.children);
            assert(t.open.drop_last().push(parent) =~= t.open);
        }
    } else {
        let rest = fs.drop_last();
        let last = fs[fs.len() - 1];
        lemma_spelled_forest(t, rest);
        lemma_applied_concat(t, spelled_all(rest), spelled(last));
        lemma_spelled_frame(attached_all(t, rest), last);
        if t.open.len() == 0 {
            assert((t.roots + rest).push(last) =~= t.roots + fs);
        } else {
            let parent = t.open.last();
            assert((parent.children + rest).push(last) =~= parent.children + fs);
            let middle = attached_all(t, rest);
            assert(middle.open.drop_last() =~= t.open.drop_last());
        }
    }
}

/// A stream that spells finished calls, properly nested, has exactly those
/// calls as its tree: the same contracts, functions, arguments, values and
/// rollbacks, in the same places.
pub proof fn law_nested_calls_become_their_tree(events: Seq<EventView>, fs: Seq<FrameView>)
    requires
        forest_returned(fs),
        meaning(events) == spelled_all(fs),
    ensures
        trace_of(events) == fs,
{
    lemma_traced_by_meaning(fresh(), events);
    lemma_spelled_forest(fresh(), fs);
    assert(Seq::<FrameView>::empty() + fs =~= fs);
}

spec fn weight(t: Tracing) -> nat {
    forest_size(t.open) + forest_size(t.roots)
}

proof fn lemma_size_push(fs: Seq<FrameView>, f: FrameView)
    ensures
        forest_size(fs.push(f)) == forest_size(fs) + frame_size(f),
{
    assert(fs.push(f).drop_last() =~= fs);
}

proof fn lemma_attached_weight(t: Tracing, f: FrameView)
    ensures
        weight(attached(t, f)) == weight(t) + frame_size(f),
{
    if t.open.len() == 0 {
        lemma_size_push(t.roots, f);
    } else {
        let parent = t.open.last();
        let grown = FrameView { children: parent.children.push(f), ..parent };
        lemma_size_push(parent.children, f);
        lemma_size_push(t.open.drop_last(), grown);
        assert(t.open.drop_last().push(parent) =~= t.open);
        lemma_size_push(t.open.drop_last(), parent);
        assert(frame_size(grown) == frame_size(parent) + frame_size(f));
    }
}

proof fn lemma_popped_weight(t: Tracing)
    requires
        t.open.len() > 0,
    ensures
        weight(t) == weight(Tracing { open: t.open.drop_last(), roots: t.roots }) + frame_size(
            t.open.last(),
        ),
{
    assert(t.open.drop_last().push(t.open.last()) =~= t.open);
    lemma_size_push(t.open.drop_last(), t.open.last());
}

proof fn lemma_traced_weight(events: Seq<EventView>)
    ensures
        weight(traced_from(fresh(), events)) == call_count(events),
    decreases events.len(),
{
    if events.len() > 0 {
        lemma_traced_weight(events.drop_last());
        let t = traced_from(fresh(), events.drop_last());
        match signal(events.last()) {
            Signal::Call(f) => {
                lemma_size_push(t.open, f);
                assert(f.children =~= Seq::<FrameView>::empty());
                assert(frame_size(f) == 1);
            },
            Signal::Return(value, failed) => {
                if t.open.len() > 0 {
                    lemma_popped_weight(t);
                    lemma_attached_weight(
                        Tracing { open: t.open.drop_last(), roots: t.roots },
                        returned(t.open.last(), value, failed),
                    );
                    assert(frame_size(returned(t.open.last(), value, failed)) == frame_size(
                        t.open.last(),
                    ));
                }
            },
            Signal::Noise => {},
        }
    }
}

proof fn lemma_closed_weight(t: Tracing)
    ensures
        forest_size(closed_roots(t)) == weight(t),
    decreases t.open.len(),
{
    if t.open.len() > 0 {
        let outer = Tracing { open: t.open.drop_last(), roots: t.roots };
        lemma_popped_weight(t);
        lemma_attached_weight(outer, trapped(t.open.last()));
        assert(frame_size(trapped(t.open.last())) == frame_size(t.open.last()));
        lemma_closed_weight(attached(outer, trapped(t.open.last())));
    }
}

/// No call is lost and none is counted twice: the tree holds one frame for
/// each well-formed call of the stream, returned or not.
pub proof fn law_every_call_is_one_frame(events: Seq<EventView>)
    ensures
        forest_size(trace_of(events)) == call_count(events),
{
    lemma_traced_weight(events);
    lemma_closed_weight(traced_from(fresh(), events));
}

/// What a call is, apart from how it ended: the contract, the function and
/// the arguments.
#[verifier::ext_equal]
pub struct CallView {
    pub contract: Seq<u8>,
    pub function: Seq<char>,
    pub args: Seq<ValView>,
}

/// The call of a frame.
pub open spec fn call_of(f: FrameView) -> CallView {
    CallView { contract: f.contract, function: f.function, args: f.args }
}

/// The calls of a stream, in the order in which they begin.
pub open spec fn calls(events: Seq<EventView>) -> Seq<CallView>
    decreases events.len(),
{
    if events.len() == 0 {
        Seq::empty()
    } else {
        let before = calls(events.drop_last());
        match signal(events.last()) {
            Signal::Call(f) => before.push(call_of(f)),
            _ => before,
        }
    }
}

/// The calls of a tree, each before those inside it.
pub open spec fn walked(f: FrameView) -> Seq<CallView>
    decreases f,
{
    seq![call_of(f)] + walked_all(f.children)
}

/// The calls of some trees, one tree after another.
pub open spec fn walked_all(fs: Seq<FrameView>) -> Seq<CallView>
    decreases fs,
{
    if fs.len() == 0 {
        Seq::empty()
    } else {
        walked_all(fs.drop_last()) + walked(fs[fs.len() - 1])
    }
}

spec fn walk(t: Tracing) -> Seq<CallView> {
    walked_all(t.roots) + walked_all(t.open)
}

proof fn lemma_walked_push(fs: Seq<FrameView>, f: FrameView)
    ensures
        walked_all(fs.push(f)) == walked_all(fs) + walked(f),
{
    assert(fs.push(f).drop_last() =~= fs);
}

proof fn lemma_attached_walk(t: Tracing, f: FrameView)
    ensures
        walk(attached(t, f)) == walk(t) + walked(f),
{
    if t.open.len() == 0 {
        lemma_walked_push(t.roots, f);
        assert(walk(attached(t, f)) =~= walk(t) + walked(f));
    } else {
        let parent = t.open.last();
        let grown = FrameView { children: parent.children.push(f), ..parent };
        lemma_walked_push(parent.children, f);
        lemma_walked_push(t.open.drop_last(), grown);
        assert(t.open.drop_last().push(parent) =~= t.open);
        lemma_walked_push(t.open.drop_last(), parent);
        assert(walked(grown) =~= walked(parent) + walked(f));
        assert(walk(attached(t, f)) =~= walk(t) + walked(f));
    }
}

proof fn lemma_popped_walk(t: Tracing, f: FrameView)
    requires
        t.open.len() > 0,
        call_of(f) == call_of(t.open.last()),
        f.children == t.open.last().children,
    ensures
        walk(attached(Tracing { open: t.open.drop_last(), roots: t.roots }, f)) == walk(t),
{
    let outer = Tracing { open: t.open.drop_last(), roots: t.roots };
    assert(t.open.drop_last().push(t.open.last()) =~= t.open);
    lemma_walked_push(t.open.drop_last(), t.open.last());
    lemma_attached_walk(outer, f);
    assert(walked(f) =~= walked(t.open.last()));
    assert(walk(outer) + walked(f) =~= walk(t));
}

proof fn lemma_traced_walk(events: Seq<EventView>)
    ensures
        walk(traced_from(fresh(), events)) == calls(events),
    decreases events.len(),
{
    if events.len() == 0 {
        assert(walk(fresh()) =~= Seq::<CallView>::empty());
    } else {
        lemma_traced_walk(events.drop_last());
        let t = traced_from(fresh(), events.drop_last());
        match signal(events.last()) {
            Signal::Call(f) => {
                lemma_walked_push(t.open, f);
                assert(f.children =~= Seq::<FrameView>::empty());
                assert(walked(f) =~= seq![call_of(f)]);
                assert(walk(traced_from(fresh(), events)) =~= calls(events));
            },
            Signal::Return(value, failed) => {
                if t.open.len() > 0 {
                    lemma_popped_walk(t, returned(t.open.last(), value, failed));
                }
            },
            Signal::Noise => {},
        }
    }
}

proof fn lemma_closed_walk(t: Tracing)
    ensures
        walked_all(closed_roots(t)) == walk(t),
    decreases t.open.len(),
{
    if t.open.len() == 0 {
        assert(walk(t) =~= walked_all(t.roots));
    } else {
        let outer = Tracing { open: t.open.drop_last(), roots: t.roots };
        let f = trapped(t.open.last());
        lemma_popped_walk(t, f);
        lemma_closed_walk(attached(outer, f));
    }
}

/// Walking the tree, each call before those inside it, lists the well-formed
/// calls of the stream, each once and in the order of the stream, with their
/// contracts, functions and arguments.
pub proof fn law_the_tree_lists_the_calls(events: Seq<EventView>)
    ensures
        walked_all(trace_of(events)) == calls(events),
{
    lemma_traced_walk(events);
    lemma_closed_walk(traced_from(fresh(), events));
}

proof fn lemma_open_calls_fail(t: Tracing)
    requires
        t.open.len() > 0,
    ensures
        forest_failed(closed_roots(t)),
    decreases t.open.len(),
{
    let outer = Tracing { open: t.open.drop_last(), roots: t.roots };
    let f = trapped(t.open.last());
    let next = attached(outer, f);
    if t.open.len() == 1 {
        assert(next.roots == t.roots.push(f));
        assert(next.roots[t.roots.len() as int] == f);
        assert(closed_roots(next) == next.roots);
        assert(frame_failed(f));
    } else {
        lemma_open_calls_fail(next);
    }
}

/// A call that never returned shows as a failure of the tree.
pub proof fn law_unreturned_calls_are_failures(events: Seq<EventView>)
    requires
        traced_from(fresh(), events).open.len() > 0,
    ensures
        forest_failed(trace_of(events)),
{
    lemma_open_calls_fail(traced_from(fresh(), events));
}

/// A call is shown on a line with its contract, its function and every
/// argument in order, marked where it was rolled back; then the calls that it
/// made, two columns further in; then what it returned, or that it trapped.
pub proof fn law_calls_are_shown(f: FrameView, pad: Seq<char>)
    ensures
        frame_text(f, pad) == pad + "["@ + shortened(contract_strkey_of(f.contract), "\u{2026}"@) + "] "@
            + f.function + "("@ + joined(Seq::new(f.args.len(), |i: int| val_text(f.args[i])), ", "@) + ")"@ + (
        if f.rolled_back {
            " [rolled back]"@
        } else {
            ""@
        }) + "\n"@ + forest_text(f.children, pad + "  "@) + pad + "  "@ + (match f.result {
            Some(v) => "\u{2190} "@ + val_text(v) + "\n"@,
            None => "\u{2190} TRAPPED (no fn_return)\n"@,
        }),
{
    assert(item_texts(f.args) =~= Seq::new(f.args.len(), |i: int| val_text(f.args[i])));
    assert(call_line(f, pad) + forest_text(f.children, pad + "  "@) + result_line(f, pad + "  "@)
        =~= call_line(f, pad) + forest_text(f.children, pad + "  "@) + pad + "  "@ + (match f.result {
        Some(v) => "\u{2190} "@ + val_text(v) + "\n"@,
        None => "\u{2190} TRAPPED (no fn_return)\n"@,
    }));
}

/// Every call is shown, in order.
pub proof fn law_calls_are_shown_in_order(a: Seq<FrameView>, b: Seq<FrameView>, pad: Seq<char>)
    ensures
        forest_text(a + b, pad) == forest_text(a, pad) + forest_text(b, pad),
        forest_text(seq![a[0]], pad) == frame_text(a[0], pad),
        forest_size(a + b) == forest_size(a) + forest_size(b),
        a.len() + b.len() > 0 ==> trace_text(a + b) == "[TRACE]\n"@ + forest_text(a, "  "@) + forest_text(
            b,
            "  "@,
        ),
{
    lemma_forest_texts(a, b, pad);
    lemma_forest_texts(a, b, "  "@);
    lemma_forest_sizes(a, b);
    let one = seq![a[0]];
    assert(one.drop_last() =~= Seq::empty());
    reveal_with_fuel(forest_text, 2);
    assert(Seq::empty() + frame_text(a[0], pad) =~= frame_text(a[0], pad));
    if a.len() + b.len() > 0 {
        assert("[TRACE]\n"@ + (forest_text(a, "  "@) + forest_text(b, "  "@)) =~= "[TRACE]\n"@ + forest_text(
            a,
            "  "@,
        ) + forest_text(b, "  "@));
    }
}

proof fn lemma_forest_texts(a: Seq<FrameView>, b: Seq<FrameView>, pad: Seq<char>)
    ensures
        forest_text(a + b, pad) == forest_text(a, pad) + forest_text(b, pad),
    decreases b.len(),
{
    if b.len() == 0 {
        assert(a + b =~= a);
        assert(forest_text(a, pad) + Seq::empty() =~= forest_text(a, pad));
    } else {
        lemma_forest_texts(a, b.drop_last(), pad);
        assert((a + b).drop_last() =~= a + b.drop_last());
        assert((a + b)[(a + b).len() - 1] == b[b.len() - 1]);
        assert(forest_text(a, pad) + (forest_text(b.drop_last(), pad) + frame_text(b[b.len() - 1], pad))
            =~= forest_text(a, pad) + forest_text(b.drop_last(), pad) + frame_text(b[b.len() - 1], pad));
    }
}

proof fn lemma_forest_sizes(a: Seq<FrameView>, b: Seq<FrameView>)
    ensures
        forest_size(a + b) == forest_size(a) + forest_size(b),
    decreases b.len(),
{
    if b.len() == 0 {
        assert(a + b =~= a);
    } else {
        lemma_forest_sizes(a, b.drop_last());
        assert((a + b).drop_last() =~= a + b.drop_last());
        assert((a + b)[(a + b).len() - 1] == b[b.len() - 1]);
    }
}

/// The frames of a tree, each before those below it.
pub open spec fn frames_of(fs: Seq<FrameView>) -> Seq<FrameView>
    decreases fs,
{
    if fs.len() == 0 {
        Seq::empty()
    } else {
        frames_of(fs.drop_last()) + frames_below(fs[fs.len() - 1])
    }
}

/// A frame and those below it.
pub open spec fn frames_below(f: FrameView) -> Seq<FrameView>
    decreases f,
{
    seq![f] + frames_of(f.children)
}

/// A trace failed exactly where one of its calls, however deep, was rolled
/// back or did not return; and it counts just its calls.
pub proof fn law_failures_are_calls_that_failed(fs: Seq<FrameView>)
    ensures
        forest_failed(fs) <==> exists|i: int|
            0 <= i < frames_of(fs).len() && ((#[trigger] frames_of(fs)[i]).rolled_back || frames_of(
                fs,
            )[i].result is None),
        forest_size(fs) == frames_of(fs).len(),
    decreases fs,
{
    if fs.len() > 0 {
        let rest = fs.drop_last();
        let f = fs[fs.len() - 1];
        law_failures_are_calls_that_failed(rest);
        assert(decreases_to!(fs => f));
        lemma_failed_below(f);
        let before = frames_of(rest);
        let below = frames_below(f);
        let all = frames_of(fs);
        if forest_failed(fs) {
            let n = choose|n: int| 0 <= n < fs.len() && frame_failed(#[trigger] fs[n]);
            if n < rest.len() {
                assert(frame_failed(rest[n]));
                let i = choose|i: int|
                    0 <= i < before.len() && ((#[trigger] before[i]).rolled_back || before[i].result is None);
                assert(all[i] == before[i]);
            } else {
                let i = choose|i: int|
                    0 <= i < below.len() && ((#[trigger] below[i]).rolled_back || below[i].result is None);
                assert(all[before.len() + i] == below[i]);
            }
        }
        if exists|i: int| 0 <= i < all.len() && ((#[trigger] all[i]).rolled_back || all[i].result is None) {
            let i = choose|i: int|
                0 <= i < all.len() && ((#[trigger] all[i]).rolled_back || all[i].result is None);
            if i < before.len() {
                assert(before[i] == all[i]);
                let n = choose|n: int| 0 <= n < rest.len() && frame_failed(#[trigger] rest[n]);
                assert(fs[n] == rest[n]);
            } else {
                assert(below[i - before.len()] == all[i]);
                assert(frame_failed(fs[fs.len() - 1]));
            }
        }
    }
}

proof fn lemma_failed_below(f: FrameView)
    ensures
        frame_failed(f) <==> exists|i: int|
            0 <= i < frames_below(f).len() && ((#[trigger] frames_below(f)[i]).rolled_back || frames_below(
                f,
            )[i].result is None),
        frame_size(f) == frames_below(f).len(),
    decreases f,
{
    law_failures_are_calls_that_failed(f.children);
    let below = frames_below(f);
    let inner = frames_of(f.children);
    assert(below[0] == f);
    assert forall|i: int| 0 <= i < inner.len() implies #[trigger] inner[i] == below[i + 1] by {}
    if forest_failed(f.children) {
        let i = choose|i: int|
            0 <= i < inner.len() && ((#[trigger] inner[i]).rolled_back || inner[i].result is None);
        assert(below[i + 1] == inner[i]);
    }
    if exists|i: int| 0 <= i < below.len() && ((#[trigger] below[i]).rolled_back || below[i].result is None) {
        let i = choose|i: int|
            0 <= i < below.len() && ((#[trigger] below[i]).rolled_back || below[i].result is None);
        if i > 0 {
            assert(inner[i - 1] == below[i]);
        }
    }
}

/// A frame stands for the contract, the function, the arguments, the result
/// and the calls that it holds.
pub proof fn law_frames_stand_for_what_they_hold(f: TraceFrame, i: int)
    ensures
        f@.contract == f.contract@,
        f@.function == f.function@,
        f@.rolled_back == f.rolled_back,
        f@.args.len() == f.args@.len(),
        0 <= i < f.args@.len() ==> f@.args[i] == f.args@[i]@,
        f@.children.len() == f.children@.len(),
        0 <= i < f.children@.len() ==> f@.children[i] == f.children@[i]@,
        f.result matches TraceResult::Returned(v) ==> f@.result == Some(v@),
        f.result is Trapped ==> f@.result is None,
{
}

/// An event stands for the topics and the data that it holds.
pub proof fn law_events_stand_for_what_they_hold(e: HostEvent, i: int)
    ensures
        e@.kind == e.kind,
        e@.data == e.data@,
        e@.failed_call == e.failed_call,
        e@.topics.len() == e.topics@.len(),
        0 <= i < e.topics@.len() ==> e@.topics[i] == e.topics@[i]@,
{
}

/// The trace of one call and its return is one frame, which holds what the
/// events told, and it failed where either event says so.
pub proof fn law_traces_tell_calls(
    events: &[HostEvent],
    r: Trace,
    failed: bool,
    contract: Seq<u8>,
    name: Seq<u8>,
    args: Seq<ValView>,
    value: ValView,
)
    requires
        call_ensures(Trace::from_events, (events,), r),
        call_ensures(Trace::had_failures, (&r,), failed),
        events@.len() == 2,
        tells_call(events@[0]@, contract, name, args),
        tells_return(events@[1]@, value),
    ensures
        r.roots@.len() == 1,
        r.roots@[0].contract@ == contract,
        r.roots@[0].function@ == decode_utf8(name),
        vals_view(r.roots@[0].args@) == args,
        r.roots@[0].result matches TraceResult::Returned(v) && v@ == value,
        r.roots@[0].rolled_back == (events@[0].failed_call || events@[1].failed_call),
        r.roots@[0].children@.len() == 0,
        failed <==> events@[0].failed_call || events@[1].failed_call,
{
    let all = events_view(events@);
    assert(all =~= seq![events@[0]@, events@[1]@]);
    law_returned_values_are_traced(events@[0]@, events@[1]@, contract, name, args, value);
    let f = r@[0];
    assert(r@.len() == 1);
    assert(f == r.roots@[0]@);
    assert(f.children.len() == 0);
    assert(!forest_failed(f.children));
    assert(frame_failed(r@[0]) <==> f.rolled_back);
}

/// An event that is no diagnostic, or that tells neither of a call nor of a
/// return, leaves the trace as it is; so does a call that does not name a
/// contract and a function.
pub proof fn law_other_events_are_ignored(events: Seq<EventView>, e: EventView)
    requires
        e.kind != EventKind::Diagnostic || e.topics.len() == 0 || (symbol_text(e.topics[0]) != Some(
            "fn_call"@,
        ) && symbol_text(e.topics[0]) != Some("fn_return"@)) || (symbol_text(e.topics[0]) == Some("fn_call"@) && (
        e.topics.len() < 3 || !(e.topics[1] matches ValView::Bytes(b) && b.len() == 32) || !(e.topics[2]
            matches ValView::Symbol(s) && valid_utf8(s)))),
    ensures
        trace_of(events.push(e)) == trace_of(events),
        calls(events.push(e)) == calls(events),
{
    let all = events.push(e);
    assert(all.drop_last() =~= events);
    assert(all.last() == e);
    assert(signal(e) is Noise);
}

/// A return that no call is open for leaves the trace as it is.
pub proof fn law_stray_returns_are_ignored(e: EventView, value: ValView)
    requires
        tells_return(e, value),
    ensures
        trace_of(seq![e]) == Seq::<FrameView>::empty(),
{
    lemma_return_signal(e, value);
    assert(seq![e].drop_last() =~= Seq::empty());
    assert(seq![e].last() == e);
    reveal_with_fuel(traced_from, 2);
}

/// A word is read as such where it is text, and nothing else is a word.
pub proof fn law_words_are_read(s: Seq<char>, v: ValView)
    ensures
        symbol_text(ValView::Symbol(encode_utf8(s))) == Some(s),
        !(v is Symbol) ==> symbol_text(v) is None,
{
    encode_utf8_valid_utf8(s);
    encode_utf8_decode_utf8(s);
}

} // verus!
