//! The decisions of one streaming training run.
//!
//! A run fetches the compressed dump, reads it as a stream of markup events,
//! trains on each article and saves checkpoints. The caller performs each of
//! those actions; this state machine says which one comes next, assembles
//! articles from the events, and keeps the progress record up to date.
//!
//! Every method answers with a `Step`, and the caller reports its outcome
//! through the method that the step names:
//! - `Continue`: poll the stop flag and call `poll`;
//! - `ReadEvent`: read the next markup event and call `on_event`;
//! - `Train`: train on the article's tokens and call `on_trained`;
//! - `Checkpoint`: save a checkpoint and call `on_checkpoint`;
//! - `FinalCheckpoint`: save the last checkpoint and call `on_final_checkpoint`;
//! - `Done`: the run is over.

use vstd::prelude::*;
use vstd::string::{StrSliceExecFns, StringExecFns};
use crate::progress::{ProgressView, TrainerState, opt_view, sat_add};
use crate::text::{clean_article, article_title, cleaned_text, is_article_title, markup_patterns_compile,
    string_of, tokens_of, views};

verus! {

/// Where a run stands: which report it waits for.
#[derive(Clone, Copy, Debug, PartialEq, Eq, Structural)]
pub enum Phase {
    /// Waiting for the response to the corpus request.
    Connecting,
    /// Waiting for the stop flag.
    AwaitPoll,
    /// Waiting for the next markup event.
    AwaitEvent,
    /// Waiting for an article to be trained.
    AwaitTrained,
    /// Waiting for a periodic checkpoint to be saved.
    AwaitCheckpoint,
    /// Waiting for the last checkpoint to be saved.
    Finishing,
    /// Over.
    Finished,
}

/// One event of the streaming markup reader.
pub enum ParseEvent {
    /// An opening tag and its name.
    Start(Vec<u8>),
    /// A closing tag and its name.
    End(Vec<u8>),
    /// Character data, entities resolved.
    Text(String),
    /// A CDATA section.
    CData(String),
    /// The end of the document.
    Eof,
    /// A read or syntax error, as text.
    Failed(String),
    /// Anything else (comments, declarations, empty elements).
    Other,
}

/// The action the caller performs next.
pub enum Step {
    Continue,
    ReadEvent,
    Train { title: String, tokens: Vec<String> },
    Checkpoint,
    FinalCheckpoint,
    Done,
}

/// A step without its data.
#[derive(Clone, Copy, Debug, PartialEq, Eq, Structural)]
pub enum StepKind {
    Continue,
    ReadEvent,
    Train,
    Checkpoint,
    FinalCheckpoint,
    Done,
}

/// The kind of a step.
pub open spec fn kind_of(s: Step) -> StepKind {
    match s {
        Step::Continue => StepKind::Continue,
        Step::ReadEvent => StepKind::ReadEvent,
        Step::Train { .. } => StepKind::Train,
        Step::Checkpoint => StepKind::Checkpoint,
        Step::FinalCheckpoint => StepKind::FinalCheckpoint,
        Step::Done => StepKind::Done,
    }
}

/// A markup event as plain values.
pub enum EventView {
    Start(Seq<u8>),
    End(Seq<u8>),
    Text(Seq<char>),
    CData(Seq<char>),
    Eof,
    Failed(Seq<char>),
    Other,
}

/// The plain values of an event.
pub open spec fn event_view(e: ParseEvent) -> EventView {
    match e {
        ParseEvent::Start(n) => EventView::Start(n@),
        ParseEvent::End(n) => EventView::End(n@),
        ParseEvent::Text(s) => EventView::Text(s@),
        ParseEvent::CData(s) => EventView::CData(s@),
        ParseEvent::Eof => EventView::Eof,
        ParseEvent::Failed(s) => EventView::Failed(s@),
        ParseEvent::Other => EventView::Other,
    }
}

/// What the caller reports to a run.
pub enum Input {
    /// The corpus request was answered with this status code and reason.
    Response(u16, Seq<char>),
    /// The corpus request failed before any response, with this message.
    Abort(Seq<char>),
    /// The stop flag was read: whether the run should still be running.
    Poll(bool),
    /// A markup event was read.
    Event(EventView),
    /// The article was trained.
    Trained,
    /// A periodic checkpoint was saved, or failed with a message.
    Checkpointed(Option<Seq<char>>),
    /// The last checkpoint was saved, or failed with a message.
    FinalSaved(Option<Seq<char>>),
}

/// A run as plain values.
pub struct RunView {
    pub phase: Phase,
    /// Articles trained in this run.
    pub articles: int,
    /// A periodic checkpoint follows every this many articles.
    pub every: int,
    /// The run ends after this many articles, if set.
    pub max: Option<int>,
    pub in_title: bool,
    pub in_text: bool,
    /// The title being read, or last read.
    pub title: Seq<char>,
    /// The article body being read, or last read.
    pub text: Seq<char>,
    /// Tokens of the article handed out for training.
    pub pending: int,
}

/// Whether a status code reports success (200 to 299).
pub open spec fn is_success(code: u16) -> bool {
    200 <= code <= 299
}

/// The character of a decimal digit.
pub open spec fn digit(d: int) -> char {
    if d == 0 { '0' } else if d == 1 { '1' } else if d == 2 { '2' } else if d == 3 { '3' }
    else if d == 4 { '4' } else if d == 5 { '5' } else if d == 6 { '6' } else if d == 7 { '7' }
    else if d == 8 { '8' } else { '9' }
}

/// Decimal digits of `n`, without leading zeros.
pub open spec fn decimal(n: nat) -> Seq<char>
    decreases n,
{
    if n < 10 {
        seq![digit(n as int)]
    } else {
        decimal(n / 10).push(digit((n % 10) as int))
    }
}

/// The error recorded when the corpus request is answered with a failure status.
pub open spec fn http_error_text(code: u16, reason: Seq<char>) -> Seq<char> {
    "HTTP Error: "@ + decimal(code as nat) + " "@ + reason
}

/// The error recorded when the markup reader fails.
pub open spec fn xml_error_text(msg: Seq<char>) -> Seq<char> {
    "XML error: "@ + msg
}

/// The error recorded when the markup cleaner cannot be built.
pub open spec fn markup_error_text() -> Seq<char> {
    "markup pattern error"@
}

/// Tag name of a page title.
pub open spec fn title_tag() -> Seq<u8> {
    seq![116u8, 105u8, 116u8, 108u8, 101u8]
}

/// Tag name of a page body.
pub open spec fn text_tag() -> Seq<u8> {
    seq![116u8, 101u8, 120u8, 116u8]
}

/// Whether the article cap is reached.
pub open spec fn cap_reached(r: RunView) -> bool {
    match r.max {
        Some(m) => r.articles >= m,
        None => false,
    }
}

/// After an event is dealt with: stop at the article cap, else poll again.
pub open spec fn after_event(r: RunView, p: ProgressView) -> (RunView, ProgressView, StepKind) {
    if cap_reached(r) {
        (RunView { phase: Phase::Finishing, ..r }, p, StepKind::FinalCheckpoint)
    } else {
        (RunView { phase: Phase::AwaitPoll, ..r }, p, StepKind::Continue)
    }
}

/// The end of a page body: train on it if it is an article with tokens.
pub open spec fn end_of_text(r: RunView, p: ProgressView) -> (RunView, ProgressView, StepKind) {
    let r0 = RunView { in_text: false, ..r };
    if is_article_title(r.title) && r.text.len() > 0 {
        if !markup_patterns_compile() {
            (RunView { phase: Phase::Finishing, ..r0 }, ProgressView { error: Some(markup_error_text()), ..p },
                StepKind::FinalCheckpoint)
        } else {
            let ts = tokens_of(cleaned_text(r.text));
            if ts.len() > 0 {
                (RunView { phase: Phase::AwaitTrained, pending: ts.len() as int, ..r0 }, p, StepKind::Train)
            } else {
                after_event(r0, p)
            }
        }
    } else {
        after_event(r0, p)
    }
}

/// How a run waiting for an event takes it.
pub open spec fn event_next(r: RunView, p: ProgressView, e: EventView) -> (RunView, ProgressView, StepKind) {
    match e {
        EventView::Start(n) => if n == title_tag() {
            after_event(RunView { in_title: true, title: Seq::empty(), ..r }, p)
        } else if n == text_tag() {
            after_event(RunView { in_text: true, text: Seq::empty(), ..r }, p)
        } else {
            after_event(r, p)
        },
        EventView::Text(s) => after_event(append_text(r, s), p),
        EventView::CData(s) => after_event(append_text(r, s), p),
        EventView::End(n) => if n == title_tag() {
            after_event(RunView { in_title: false, ..r }, p)
        } else if n == text_tag() {
            end_of_text(r, p)
        } else {
            after_event(r, p)
        },
        EventView::Eof => (RunView { phase: Phase::Finishing, ..r }, p, StepKind::FinalCheckpoint),
        EventView::Failed(m) => (RunView { phase: Phase::Finishing, ..r },
            ProgressView { error: Some(xml_error_text(m)), ..p }, StepKind::FinalCheckpoint),
        EventView::Other => after_event(r, p),
    }
}

/// Character data goes to the title while one is open, else to the body
/// while one is open, else nowhere.
pub open spec fn append_text(r: RunView, s: Seq<char>) -> RunView {
    if r.in_title {
        RunView { title: r.title + s, ..r }
    } else if r.in_text {
        RunView { text: r.text + s, ..r }
    } else {
        r
    }
}

/// The run's next state, the progress record after it, and the step asked
/// for, when the caller reports `i` to run `r` with progress `p`. A report
/// that the run is not waiting for changes nothing and asks for nothing.
pub open spec fn next(r: RunView, p: ProgressView, i: Input) -> (RunView, ProgressView, StepKind) {
    let finished = RunView { phase: Phase::Finished, ..r };
    match i {
        Input::Response(code, reason) => if r.phase == Phase::Connecting {
            if is_success(code) {
                (RunView { phase: Phase::AwaitPoll, ..r }, p, StepKind::Continue)
            } else {
                (finished, ProgressView { running: false, error: Some(http_error_text(code, reason)), ..p },
                    StepKind::Done)
            }
        } else {
            (r, p, StepKind::Done)
        },
        Input::Abort(m) => if r.phase == Phase::Connecting {
            (finished, ProgressView { running: false, error: Some(m), ..p }, StepKind::Done)
        } else {
            (r, p, StepKind::Done)
        },
        Input::Poll(running) => if r.phase == Phase::AwaitPoll {
            if running {
                (RunView { phase: Phase::AwaitEvent, ..r }, p, StepKind::ReadEvent)
            } else {
                (RunView { phase: Phase::Finishing, ..r }, p, StepKind::FinalCheckpoint)
            }
        } else {
            (r, p, StepKind::Done)
        },
        Input::Event(e) => if r.phase == Phase::AwaitEvent {
            event_next(r, p, e)
        } else {
            (r, p, StepKind::Done)
        },
        Input::Trained => if r.phase == Phase::AwaitTrained {
            let r1 = RunView { articles: sat_add(r.articles, 1, usize::MAX as int), ..r };
            let p1 = ProgressView {
                articles: sat_add(p.articles, 1, usize::MAX as int),
                tokens: sat_add(p.tokens, r.pending, u64::MAX as int),
                last_title: Some(r.title),
                ..p
            };
            if r1.articles % r.every == 0 {
                (RunView { phase: Phase::AwaitCheckpoint, ..r1 }, p1, StepKind::Checkpoint)
            } else {
                after_event(r1, p1)
            }
        } else {
            (r, p, StepKind::Done)
        },
        Input::Checkpointed(err) => if r.phase == Phase::AwaitCheckpoint {
            match err {
                None => after_event(r, p),
                Some(m) => (finished, ProgressView { running: false, error: Some(m), ..p }, StepKind::Done),
            }
        } else {
            (r, p, StepKind::Done)
        },
        Input::FinalSaved(err) => if r.phase == Phase::Finishing {
            let error = match err {
                Some(m) => Some(m),
                None => p.error,
            };
            (finished, ProgressView { running: false, error, ..p }, StepKind::Done)
        } else {
            (r, p, StepKind::Done)
        },
    }
}

/// An optional count as an integer.
pub open spec fn opt_int(o: Option<usize>) -> Option<int> {
    match o {
        Some(m) => Some(m as int),
        None => None,
    }
}

fn push_decimal(n: u16, out: &mut Vec<char>)
    ensures
        final(out)@ == old(out)@ + decimal(n as nat),
    decreases n,
{
    if n >= 10 {
        push_decimal(n / 10, out);
    }
    let d = n % 10;
    let c = if d == 0 { '0' } else if d == 1 { '1' } else if d == 2 { '2' } else if d == 3 { '3' }
        else if d == 4 { '4' } else if d == 5 { '5' } else if d == 6 { '6' } else if d == 7 { '7' }
        else if d == 8 { '8' } else { '9' };
    out.push(c);
    proof {
        if n >= 10 {
            assert(decimal(n as nat) == decimal((n / 10) as nat).push(digit((n % 10) as int)));
        }
    }
    assert(final(out)@ =~= old(out)@ + decimal(n as nat));
}

fn http_error_message(code: u16, reason: &str) -> (r: String)
    ensures
        r@ == http_error_text(code, reason@),
{
    let mut digits: Vec<char> = Vec::new();
    push_decimal(code, &mut digits);
    assert(digits@ =~= decimal(code as nat));
    let mut msg = String::from_str("HTTP Error: ");
    msg.append(string_of(digits.as_slice()).as_str());
    msg.append(" ");
    msg.append(reason);
    msg
}

fn is_tag(name: &Vec<u8>, tag: &[u8]) -> (r: bool)
    ensures
        r == (name@ == tag@),
{
    if name.len() != tag.len() {
        return false;
    }
    let mut i: usize = 0;
    while i < name.len()
        invariant
            i <= name@.len(),
            name@.len() == tag@.len(),
            forall|k: int| 0 <= k < i ==> name@[k] == tag@[k],
        decreases name.len() - i,
    {
        if name[i] != tag[i] {
            return false;
        }
        i = i + 1;
    }
    assert(name@ =~= tag@);
    true
}

fn is_title_tag(name: &Vec<u8>) -> (r: bool)
    ensures
        r == (name@ == title_tag()),
{
    let tag: [u8; 5] = [116u8, 105u8, 116u8, 108u8, 101u8];
    assert(tag@ =~= title_tag());
    is_tag(name, &tag)
}

fn is_text_tag(name: &Vec<u8>) -> (r: bool)
    ensures
        r == (name@ == text_tag()),
{
    let tag: [u8; 4] = [116u8, 101u8, 120u8, 116u8];
    assert(tag@ =~= text_tag());
    is_tag(name, &tag)
}

/// The state of one streaming training run.
pub struct PipelineRun {
    phase: Phase,
    articles: usize,
    every: usize,
    max: Option<usize>,
    in_title: bool,
    in_text: bool,
    title: String,
    text: String,
    pending: usize,
}

impl View for PipelineRun {
    type V = RunView;

    closed spec fn view(&self) -> RunView {
        RunView {
            phase: self.phase,
            articles: self.articles as int,
            every: self.every as int,
            max: opt_int(self.max),
            in_title: self.in_title,
            in_text: self.in_text,
            title: self.title@,
            text: self.text@,
            pending: self.pending as int,
        }
    }
}

impl PipelineRun {
    /// Checkpoints are taken at a positive interval.
    pub closed spec fn wf(&self) -> bool {
        self.every > 0
    }

    /// A run that has not fetched anything yet, with a periodic checkpoint
    /// every `every` articles and an optional article cap.
    pub fn new(every: usize, max_articles: Option<usize>) -> (r: Self)
        requires
            every > 0,
        ensures
            r.wf(),
            r@ == (RunView {
                phase: Phase::Connecting,
                articles: 0,
                every: every as int,
                max: opt_int(max_articles),
                in_title: false,
                in_text: false,
                title: Seq::empty(),
                text: Seq::empty(),
                pending: 0,
            }),
    {
        let r = PipelineRun {
            phase: Phase::Connecting,
            articles: 0,
            every,
            max: max_articles,
            in_title: false,
            in_text: false,
            title: String::new(),
            text: String::new(),
            pending: 0,
        };
        r
    }

    /// The report the run waits for.
    pub fn phase(&self) -> (r: Phase)
        ensures
            r == self@.phase,
    {
        self.phase
    }

    /// Articles trained in this run.
    pub fn articles(&self) -> (r: usize)
        ensures
            r == self@.articles,
    {
        self.articles
    }

    fn after_event(&mut self) -> (r: Step)
        requires
            old(self).wf(),
        ensures
            final(self).wf(),
            (final(self)@, kind_of(r)) == ({
                let (r2, _p, k) = after_event(old(self)@, arbitrary());
                (r2, k)
            }),
    {
        let reached = match self.max {
            Some(m) => self.articles >= m,
            None => false,
        };
        if reached {
            self.phase = Phase::Finishing;
            Step::FinalCheckpoint
        } else {
            self.phase = Phase::AwaitPoll;
            Step::Continue
        }
    }

    /// Takes the answer to the corpus request: a success status starts the
    /// stream; any other ends the run with the status in the error.
    pub fn on_response(&mut self, st: &mut TrainerState, code: u16, reason: &str) -> (r: Step)
        requires
            old(self).wf(),
            old(self)@.phase == Phase::Connecting,
        ensures
            final(self).wf(),
            (final(self)@, final(st)@, kind_of(r)) == next(old(self)@, old(st)@, Input::Response(code, reason@)),
    {
        if 200 <= code && code <= 299 {
            self.phase = Phase::AwaitPoll;
            Step::Continue
        } else {
            self.phase = Phase::Finished;
            st.running = false;
            st.error = Some(http_error_message(code, reason));
            Step::Done
        }
    }

    /// Takes a failure of the corpus request before any response.
    pub fn abort(&mut self, st: &mut TrainerState, msg: String) -> (r: Step)
        requires
            old(self).wf(),
            old(self)@.phase == Phase::Connecting,
        ensures
            final(self).wf(),
            (final(self)@, final(st)@, kind_of(r)) == next(old(self)@, old(st)@, Input::Abort(msg@)),
    {
        self.phase = Phase::Finished;
        st.running = false;
        st.error = Some(msg);
        Step::Done
    }

    /// Takes the stop flag: go on reading while it says running, else finish.
    pub fn poll(&mut self, st: &TrainerState, running: bool) -> (r: Step)
        requires
            old(self).wf(),
            old(self)@.phase == Phase::AwaitPoll,
        ensures
            final(self).wf(),
            (final(self)@, st@, kind_of(r)) == next(old(self)@, st@, Input::Poll(running)),
    {
        if running {
            self.phase = Phase::AwaitEvent;
            Step::ReadEvent
        } else {
            self.phase = Phase::Finishing;
            Step::FinalCheckpoint
        }
    }

    /// Takes the next markup event. The end of a body whose title names an
    /// article and which yields tokens asks for training on those tokens.
    pub fn on_event(&mut self, st: &mut TrainerState, ev: ParseEvent) -> (r: Step)
        requires
            old(self).wf(),
            old(self)@.phase == Phase::AwaitEvent,
        ensures
            final(self).wf(),
            (final(self)@, final(st)@, kind_of(r)) == next(old(self)@, old(st)@, Input::Event(event_view(ev))),
            r matches Step::Train { title, tokens } ==> title@ == old(self)@.title
                && views(tokens@) == tokens_of(cleaned_text(old(self)@.text)),
    {
        match ev {
            ParseEvent::Start(name) => {
                if is_title_tag(&name) {
                    self.in_title = true;
                    self.title = String::new();
                } else if is_text_tag(&name) {
                    self.in_text = true;
                    self.text = String::new();
                }
                self.after_event()
            },
            ParseEvent::Text(s) => {
                self.append(s.as_str());
                self.after_event()
            },
            ParseEvent::CData(s) => {
                self.append(s.as_str());
                self.after_event()
            },
            ParseEvent::End(name) => {
                if is_title_tag(&name) {
                    self.in_title = false;
                    self.after_event()
                } else if is_text_tag(&name) {
                    self.end_of_text(st)
                } else {
                    self.after_event()
                }
            },
            ParseEvent::Eof => {
                self.phase = Phase::Finishing;
                Step::FinalCheckpoint
            },
            ParseEvent::Failed(m) => {
                self.phase = Phase::Finishing;
                let mut msg = String::from_str("XML error: ");
                msg.append(m.as_str());
                st.error = Some(msg);
                Step::FinalCheckpoint
            },
            ParseEvent::Other => self.after_event(),
        }
    }

    fn append(&mut self, s: &str)
        requires
            old(self).wf(),
        ensures
            final(self).wf(),
            final(self)@ == append_text(old(self)@, s@),
    {
        if self.in_title {
            self.title.append(s);
        } else if self.in_text {
            self.text.append(s);
        }
    }

    fn end_of_text(&mut self, st: &mut TrainerState) -> (r: Step)
        requires
            old(self).wf(),
            old(self)@.phase == Phase::AwaitEvent,
        ensures
            final(self).wf(),
            (final(self)@, final(st)@, kind_of(r)) == end_of_text(old(self)@, old(st)@),
            r matches Step::Train { title, tokens } ==> title@ == old(self)@.title
                && views(tokens@) == tokens_of(cleaned_text(old(self)@.text)),
    {
        self.in_text = false;
        let has_body = self.text.as_str().unicode_len() > 0;
        if article_title(self.title.as_str()) && has_body {
            match clean_article(self.text.as_str()) {
                None => {
                    self.phase = Phase::Finishing;
                    st.error = Some(String::from_str("markup pattern error"));
                    Step::FinalCheckpoint
                },
                Some(tokens) => {
                    if tokens.len() > 0 {
                        self.phase = Phase::AwaitTrained;
                        self.pending = tokens.len();
                        Step::Train { title: self.title.clone(), tokens }
                    } else {
                        self.after_event()
                    }
                },
            }
        } else {
            self.after_event()
        }
    }

    /// Takes the news that the article handed out was trained: counts it,
    /// and asks for a periodic checkpoint when the count is a multiple of
    /// the interval.
    pub fn on_trained(&mut self, st: &mut TrainerState) -> (r: Step)
        requires
            old(self).wf(),
            old(self)@.phase == Phase::AwaitTrained,
        ensures
            final(self).wf(),
            (final(self)@, final(st)@, kind_of(r)) == next(old(self)@, old(st)@, Input::Trained),
    {
        self.articles = self.articles.saturating_add(1);
        st.record_article(self.title.clone(), self.pending);
        if self.articles % self.every == 0 {
            self.phase = Phase::AwaitCheckpoint;
            Step::Checkpoint
        } else {
            self.after_event()
        }
    }

    /// Takes the outcome of a periodic checkpoint: a failure ends the run
    /// with its message and without a last checkpoint.
    pub fn on_checkpoint(&mut self, st: &mut TrainerState, err: Option<String>) -> (r: Step)
        requires
            old(self).wf(),
            old(self)@.phase == Phase::AwaitCheckpoint,
        ensures
            final(self).wf(),
            (final(self)@, final(st)@, kind_of(r)) == next(old(self)@, old(st)@, Input::Checkpointed(opt_view(err))),
    {
        match err {
            None => self.after_event(),
            Some(m) => {
                self.phase = Phase::Finished;
                st.running = false;
                st.error = Some(m);
                Step::Done
            },
        }
    }

    /// Takes the outcome of the last checkpoint: the run is over, and its
    /// error, if any, is recorded.
    pub fn on_final_checkpoint(&mut self, st: &mut TrainerState, err: Option<String>) -> (r: Step)
        requires
            old(self).wf(),
            old(self)@.phase == Phase::Finishing,
        ensures
            final(self).wf(),
            (final(self)@, final(st)@, kind_of(r)) == next(old(self)@, old(st)@, Input::FinalSaved(opt_view(err))),
    {
        self.phase = Phase::Finished;
        st.running = false;
        if let Some(m) = err {
            st.error = Some(m);
        }
        Step::Done
    }
}

/// A finished run asks for nothing more, whatever is reported to it.
pub proof fn lemma_finished_is_final(r: RunView, p: ProgressView, i: Input)
    requires
        r.phase == Phase::Finished,
    ensures
        next(r, p, i) == (r, p, StepKind::Done),
{
}

/// A run reads a markup event only right after a poll that found it still
/// running: no other report leads to `ReadEvent`. So a stop request is seen
/// before the next event is read.
pub proof fn lemma_read_only_after_poll(r: RunView, p: ProgressView, i: Input)
    requires
        !(i is Poll),
    ensures
        next(r, p, i).2 != StepKind::ReadEvent,
{
}

/// Stopping a run mid-stream: the first poll that sees the stop flag asks
/// for the last checkpoint and nothing else; until that checkpoint is
/// reported every other report is ignored; reporting it, saved or failed,
/// ends the run with `running` false; and the ended run asks for nothing more.
pub proof fn lemma_stop_takes_one_final_checkpoint(
    r: RunView,
    p: ProgressView,
    other: Input,
    saved: Option<Seq<char>>,
    later: Input,
)
    requires
        r.phase == Phase::AwaitPoll,
        !(other is FinalSaved),
    ensures
        ({
            let (r1, p1, k1) = next(r, p, Input::Poll(false));
            let (r2, p2, k2) = next(r1, p1, Input::FinalSaved(saved));
            &&& k1 == StepKind::FinalCheckpoint
            &&& r1.phase == Phase::Finishing
            &&& p1 == p
            &&& next(r1, p1, other) == (r1, p1, StepKind::Done)
            &&& k2 == StepKind::Done
            &&& r2.phase == Phase::Finished
            &&& !p2.running
            &&& next(r2, p2, later) == (r2, p2, StepKind::Done)
        }),
{
}

/// A corpus request answered with a failure status ends the run at once:
/// nothing is trained or saved, `running` is false, the error names the
/// status code and reason, the counters are untouched, and the ended run
/// asks for nothing more, so the store on disk stays as it was.
pub proof fn lemma_http_failure_ends_run(r: RunView, p: ProgressView, code: u16, reason: Seq<char>, later: Input)
    requires
        r.phase == Phase::Connecting,
        !is_success(code),
    ensures
        ({
            let (r1, p1, k1) = next(r, p, Input::Response(code, reason));
            &&& k1 == StepKind::Done
            &&& r1.phase == Phase::Finished
            &&& !p1.running
            &&& p1.error == Some("HTTP Error: "@ + decimal(code as nat) + " "@ + reason)
            &&& p1.articles == p.articles
            &&& p1.tokens == p.tokens
            &&& p1.last_title == p.last_title
            &&& next(r1, p1, later) == (r1, p1, StepKind::Done)
        }),
{
}

} // verus!
