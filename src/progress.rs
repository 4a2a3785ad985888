//! The trainer's progress record, shared between a run and its observers.

use vstd::prelude::*;

verus! {

/// The characters of an optional string.
pub open spec fn opt_view(o: Option<String>) -> Option<Seq<char>> {
    match o {
        Some(s) => Some(s@),
        None => None,
    }
}

/// A counter increased by `n`, stopping at `max`.
pub open spec fn sat_add(x: int, n: int, max: int) -> int {
    if x + n <= max { x + n } else { max }
}

/// Progress of the corpus trainer across runs.
pub struct TrainerState {
    pub articles_processed: usize,
    pub tokens_processed: u64,
    pub last_title: Option<String>,
    pub running: bool,
    pub error: Option<String>,
}

/// The progress record as plain values.
pub struct ProgressView {
    pub articles: int,
    pub tokens: int,
    pub last_title: Option<Seq<char>>,
    pub running: bool,
    pub error: Option<Seq<char>>,
}

impl View for TrainerState {
    type V = ProgressView;

    open spec fn view(&self) -> ProgressView {
        ProgressView {
            articles: self.articles_processed as int,
            tokens: self.tokens_processed as int,
            last_title: opt_view(self.last_title),
            running: self.running,
            error: opt_view(self.error),
        }
    }
}

impl Default for TrainerState {
    /// No article seen, not running, no error.
    fn default() -> (r: Self)
        ensures
            r.articles_processed == 0,
            r.tokens_processed == 0,
            r.last_title is None,
            !r.running,
            r.error is None,
    {
        TrainerState { articles_processed: 0, tokens_processed: 0, last_title: None, running: false, error: None }
    }
}

impl Clone for TrainerState {
    fn clone(&self) -> (r: Self)
        ensures
            r@ == self@,
    {
        let last_title = match &self.last_title {
            Some(t) => Some(t.clone()),
            None => None,
        };
        let error = match &self.error {
            Some(e) => Some(e.clone()),
            None => None,
        };
        TrainerState {
            articles_processed: self.articles_processed,
            tokens_processed: self.tokens_processed,
            last_title,
            running: self.running,
            error,
        }
    }
}

impl TrainerState {
    /// A record read back at process start: its counters are kept, and a
    /// `running` flag left by a process that stopped abnormally is cleared.
    pub fn reloaded(self) -> (r: Self)
        ensures
            r@ == (ProgressView { running: false, ..self@ }),
    {
        TrainerState { running: false, ..self }
    }

    /// Marks a run as started, clearing the last error. Returns `false`, and
    /// changes nothing, when a run is already going.
    pub fn begin(&mut self) -> (r: bool)
        ensures
            r == !old(self).running,
            r ==> final(self)@ == (ProgressView { running: true, error: None, ..old(self)@ }),
            !r ==> final(self)@ == old(self)@,
    {
        if self.running {
            return false;
        }
        self.running = true;
        self.error = None;
        true
    }

    /// Asks the current run to stop; the run sees it at its next poll.
    pub fn request_stop(&mut self)
        ensures
            final(self)@ == (ProgressView { running: false, ..old(self)@ }),
    {
        self.running = false;
    }

    /// Counts one trained article of `n_tokens` tokens, titled `title`.
    /// The counters stop at their largest values.
    pub fn record_article(&mut self, title: String, n_tokens: usize)
        ensures
            final(self)@ == (ProgressView {
                articles: sat_add(old(self)@.articles, 1, usize::MAX as int),
                tokens: sat_add(old(self)@.tokens, n_tokens as int, u64::MAX as int),
                last_title: Some(title@),
                ..old(self)@
            }),
    {
        self.articles_processed = self.articles_processed.saturating_add(1);
        self.tokens_processed = self.tokens_processed.saturating_add(n_tokens as u64);
        self.last_title = Some(title);
    }
}

} // verus!
