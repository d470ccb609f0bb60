//! The decisions of the navigation loop, as a state machine.
//!
//! The caller runs the loop: it performs each [`Action`] that [`Navigator::step`]
//! returns (fetch a document, run the normalization engine, render, open a
//! viewer) and hands back what came of it as the next [`Event`]. The
//! navigator decides when cached rules are used, when new rules are
//! generated and stored, and which URL comes next.

use vstd::prelude::*;
use crate::cache::{CacheState, ParserCache, current_record, max_sequence};
use crate::utilities::{ResolveError, resolve, resolve_navigation};

verus! {

/// Where the loop stands.
#[derive(Clone, Copy, Debug, PartialEq, Eq, Structural)]
pub enum Stage {
    /// Nothing has happened yet.
    Start,
    /// Waiting for the document at the current URL.
    Acquiring,
    /// Waiting for the normalization engine in generate mode.
    Generating,
    /// Waiting for the normalization engine in apply mode.
    Applying,
    /// Waiting for the rendering engine.
    Rendering,
    /// The loop has ended.
    Stopped,
}

/// Why the loop ended with an error.
#[derive(Clone, Copy, Debug, PartialEq, Eq, Structural)]
pub enum LoopError {
    /// No URL was given and standard input held no document.
    NoDocument,
    /// The document could not be fetched.
    Fetch,
    /// The current generation's stored rules could not be read back.
    CacheCorruption,
    /// The document could not be categorized and there is no URL to open instead.
    NotCategorizable,
    /// The normalization or rendering engine failed.
    Engine,
    /// The chosen navigation value does not give a next URL.
    Resolution(ResolveError),
    /// The cache has no sequence number or id left for the new generation.
    CacheFull,
    /// The event does not belong to the stage the loop is in.
    OutOfOrder,
}

/// What came of the last action.
pub enum Event {
    /// The loop starts; tells whether standard input supplied a document.
    Begin { have_document: bool },
    /// The document was acquired.
    Fetched,
    /// The document could not be acquired.
    FetchFailed,
    /// Generate mode succeeded and produced these serialized rules.
    Generated(String),
    /// Generate mode reported that the document cannot be categorized.
    NotCategorizable,
    /// Apply mode succeeded.
    Applied,
    /// The cached rules handed to apply mode could not be deserialized.
    RulesUnreadable,
    /// The normalization engine failed otherwise.
    EngineFailed,
    /// The rendering session ended with a chosen navigation value, or with
    /// none when the user quit.
    Rendered(Option<String>),
    /// The rendering engine failed.
    RenderFailed,
}

/// What the caller does next.
#[derive(Debug)]
pub enum Action {
    /// Fetch the document at this URL.
    Fetch(String),
    /// Run the normalization engine in generate mode on the document.
    Generate,
    /// Run the normalization engine in apply mode with these serialized rules.
    Apply(String),
    /// Render the structured output.
    Render,
    /// Open this URL in the user's external viewer, then end successfully.
    OpenExternally(String),
    /// End successfully.
    Finish,
    /// End with this error.
    Fail(LoopError),
}

pub enum EventView {
    Begin { have_document: bool },
    Fetched,
    FetchFailed,
    Generated(Seq<char>),
    NotCategorizable,
    Applied,
    RulesUnreadable,
    EngineFailed,
    Rendered(Option<Seq<char>>),
    RenderFailed,
}

pub enum ActionView {
    Fetch(Seq<char>),
    Generate,
    Apply(Seq<char>),
    Render,
    OpenExternally(Seq<char>),
    Finish,
    Fail(LoopError),
}

impl View for Event {
    type V = EventView;

    open spec fn view(&self) -> EventView {
        match self {
            Event::Begin { have_document } => EventView::Begin { have_document: *have_document },
            Event::Fetched => EventView::Fetched,
            Event::FetchFailed => EventView::FetchFailed,
            Event::Generated(rules) => EventView::Generated(rules@),
            Event::NotCategorizable => EventView::NotCategorizable,
            Event::Applied => EventView::Applied,
            Event::RulesUnreadable => EventView::RulesUnreadable,
            Event::EngineFailed => EventView::EngineFailed,
            Event::Rendered(Some(v)) => EventView::Rendered(Some(v@)),
            Event::Rendered(None) => EventView::Rendered(None),
            Event::RenderFailed => EventView::RenderFailed,
        }
    }
}

impl View for Action {
    type V = ActionView;

    open spec fn view(&self) -> ActionView {
        match self {
            Action::Fetch(u) => ActionView::Fetch(u@),
            Action::Generate => ActionView::Generate,
            Action::Apply(r) => ActionView::Apply(r@),
            Action::Render => ActionView::Render,
            Action::OpenExternally(u) => ActionView::OpenExternally(u@),
            Action::Finish => ActionView::Finish,
            Action::Fail(e) => ActionView::Fail(*e),
        }
    }
}

/// The loop's state as mathematical values.
pub struct NavState {
    pub url: Option<Seq<char>>,
    pub regenerate: bool,
    pub stage: Stage,
}

/// The loop's state: the current URL (absent when the document came from
/// standard input), whether rules are regenerated on every document, and
/// the stage.
pub struct Navigator {
    pub url: Option<String>,
    pub regenerate: bool,
    pub stage: Stage,
}

impl View for Navigator {
    type V = NavState;

    open spec fn view(&self) -> NavState {
        NavState {
            url: match self.url {
                Some(u) => Some(u@),
                None => None,
            },
            regenerate: self.regenerate,
            stage: self.stage,
        }
    }
}

/// The loop's state, the cache and the action after a step.
pub struct Outcome {
    pub nav: NavState,
    pub cache: CacheState,
    pub action: ActionView,
}

pub open spec fn outcome(nav: NavState, cache: CacheState, action: ActionView) -> Outcome {
    Outcome { nav, cache, action }
}

pub open spec fn with_stage(nav: NavState, stage: Stage) -> NavState {
    NavState { stage, ..nav }
}

/// Ends the loop with an error, leaving the cache as it was.
pub open spec fn failed(nav: NavState, cache: CacheState, e: LoopError) -> Outcome {
    outcome(with_stage(nav, Stage::Stopped), cache, ActionView::Fail(e))
}

/// With the document in hand: apply the current generation's rules when
/// the URL has one and regeneration is not asked for; else generate.
pub open spec fn after_document(nav: NavState, cache: CacheState) -> Outcome {
    match nav.url {
        Some(u) => if !nav.regenerate && current_record(cache.records, u) is Some {
            outcome(
                with_stage(nav, Stage::Applying),
                cache,
                ActionView::Apply(current_record(cache.records, u)->Some_0.rules),
            )
        } else {
            outcome(with_stage(nav, Stage::Generating), cache, ActionView::Generate)
        },
        None => outcome(with_stage(nav, Stage::Generating), cache, ActionView::Generate),
    }
}

/// New rules from generate mode are stored as the URL's next generation;
/// without a URL there is nothing to key them by.
pub open spec fn after_generated(nav: NavState, cache: CacheState, rules: Seq<char>) -> Outcome {
    match nav.url {
        Some(u) => if max_sequence(cache.records, u) < u64::MAX && cache.next_id < u64::MAX {
            outcome(with_stage(nav, Stage::Rendering), cache.stored(u, rules), ActionView::Render)
        } else {
            failed(nav, cache, LoopError::CacheFull)
        },
        None => outcome(with_stage(nav, Stage::Rendering), cache, ActionView::Render),
    }
}

/// A chosen navigation value becomes the next URL to fetch. A document
/// from standard input is shown once: with no current URL the run ends,
/// whatever was chosen.
pub open spec fn after_choice(nav: NavState, value: Seq<char>) -> (NavState, ActionView) {
    match nav.url {
        None => (with_stage(nav, Stage::Stopped), ActionView::Finish),
        Some(cur) => match resolve(value, cur) {
            Ok(n) => (
                NavState { url: Some(n), regenerate: nav.regenerate, stage: Stage::Acquiring },
                ActionView::Fetch(n),
            ),
            Err(e) => (with_stage(nav, Stage::Stopped), ActionView::Fail(LoopError::Resolution(e))),
        },
    }
}

/// One transition of the loop.
pub open spec fn transition(nav: NavState, cache: CacheState, ev: EventView) -> Outcome {
    match (nav.stage, ev) {
        (Stage::Start, EventView::Begin { have_document }) => match nav.url {
            Some(u) => outcome(with_stage(nav, Stage::Acquiring), cache, ActionView::Fetch(u)),
            None => if have_document {
                after_document(nav, cache)
            } else {
                failed(nav, cache, LoopError::NoDocument)
            },
        },
        (Stage::Acquiring, EventView::Fetched) => after_document(nav, cache),
        (Stage::Acquiring, EventView::FetchFailed) => failed(nav, cache, LoopError::Fetch),
        (Stage::Generating, EventView::Generated(rules)) => after_generated(nav, cache, rules),
        (Stage::Generating, EventView::NotCategorizable) => match nav.url {
            Some(u) => outcome(with_stage(nav, Stage::Stopped), cache, ActionView::OpenExternally(u)),
            None => failed(nav, cache, LoopError::NotCategorizable),
        },
        (Stage::Generating, EventView::EngineFailed) => failed(nav, cache, LoopError::Engine),
        (Stage::Applying, EventView::Applied) => outcome(with_stage(nav, Stage::Rendering), cache, ActionView::Render),
        (Stage::Applying, EventView::RulesUnreadable) => failed(nav, cache, LoopError::CacheCorruption),
        (Stage::Applying, EventView::EngineFailed) => failed(nav, cache, LoopError::Engine),
        (Stage::Rendering, EventView::Rendered(None)) => outcome(with_stage(nav, Stage::Stopped), cache, ActionView::Finish),
        (Stage::Rendering, EventView::Rendered(Some(value))) => {
            let (n, a) = after_choice(nav, value);
            outcome(n, cache, a)
        },
        (Stage::Rendering, EventView::RenderFailed) => failed(nav, cache, LoopError::Engine),
        _ => failed(nav, cache, LoopError::OutOfOrder),
    }
}


/// The cache changes only when generate mode has produced rules for a known
/// URL, and then only by adding them as a new generation: applying cached
/// rules, failures and navigation never write to it.
pub proof fn only_generated_rules_are_stored(nav: NavState, cache: CacheState, ev: EventView)
    ensures
        transition(nav, cache, ev).cache == cache || {
            &&& nav.stage == Stage::Generating
            &&& ev matches EventView::Generated(rules)
            &&& nav.url matches Some(u)
            &&& transition(nav, cache, ev).cache == cache.stored(u, rules)
        },
{
}

/// A run on a document from standard input never fetches: with no current
/// URL, no transition asks for a fetch or sets a URL, and a finished render
/// ends the run whatever was chosen.
pub proof fn standard_input_run_is_single_shot(nav: NavState, cache: CacheState, ev: EventView)
    requires
        nav.url is None,
    ensures
        transition(nav, cache, ev).action !is Fetch,
        transition(nav, cache, ev).nav.url is None,
        nav.stage == Stage::Rendering && ev is Rendered ==> transition(nav, cache, ev).nav.stage
            == Stage::Stopped,
{
}

impl Navigator {
    /// A navigator at the start, for `url` (or for a document from standard
    /// input when absent).
    pub fn new(url: Option<String>, regenerate: bool) -> (r: Navigator)
        ensures
            r.url == url,
            r.regenerate == regenerate,
            r.stage == Stage::Start,
    {
        Navigator { url, regenerate, stage: Stage::Start }
    }

    fn fail(&mut self, e: LoopError) -> (r: Action)
        ensures
            final(self)@ == with_stage(old(self)@, Stage::Stopped),
            r@ == ActionView::Fail(e),
    {
        self.stage = Stage::Stopped;
        Action::Fail(e)
    }

    fn document_ready(&mut self, cache: &ParserCache) -> (r: Action)
        ensures
            ({
                let o = after_document(old(self)@, cache@);
                final(self)@ == o.nav && r@ == o.action
            }),
    {
        match &self.url {
            Some(u) => {
                if !self.regenerate {
                    match cache.current_generation(u.as_str()) {
                        Some(rec) => {
                            self.stage = Stage::Applying;
                            return Action::Apply(rec.rules);
                        },
                        None => {},
                    }
                }
                self.stage = Stage::Generating;
                Action::Generate
            },
            None => {
                self.stage = Stage::Generating;
                Action::Generate
            },
        }
    }

    fn rules_generated(&mut self, cache: &mut ParserCache, rules: String) -> (r: Action)
        requires
            old(cache)@.well_formed(),
        ensures
            final(cache)@.well_formed(),
            ({
                let o = after_generated(old(self)@, old(cache)@, rules@);
                final(self)@ == o.nav && final(cache)@ == o.cache && r@ == o.action
            }),
    {
        match &self.url {
            Some(u) => match cache.store(u.clone(), rules) {
                Ok(_) => {
                    self.stage = Stage::Rendering;
                    Action::Render
                },
                Err(_) => self.fail(LoopError::CacheFull),
            },
            None => {
                self.stage = Stage::Rendering;
                Action::Render
            },
        }
    }

    fn value_chosen(&mut self, value: String) -> (r: Action)
        ensures
            (final(self)@, r@) == after_choice(old(self)@, value@),
    {
        let next = match &self.url {
            None => {
                self.stage = Stage::Stopped;
                return Action::Finish;
            },
            Some(cur) => resolve_navigation(value.as_str(), cur.as_str()),
        };
        match next {
            Ok(n) => {
                let fetch = n.clone();
                self.url = Some(n);
                self.stage = Stage::Acquiring;
                Action::Fetch(fetch)
            },
            Err(e) => self.fail(LoopError::Resolution(e)),
        }
    }

    /// Takes what came of the last action and returns the next action.
    pub fn step(&mut self, cache: &mut ParserCache, event: Event) -> (r: Action)
        requires
            old(cache)@.well_formed(),
        ensures
            final(cache)@.well_formed(),
            ({
                let o = transition(old(self)@, old(cache)@, event@);
                final(self)@ == o.nav && final(cache)@ == o.cache && r@ == o.action
            }),
    {
        match (self.stage, event) {
            (Stage::Start, Event::Begin { have_document }) => match &self.url {
                Some(u) => {
                    let fetch = u.clone();
                    self.stage = Stage::Acquiring;
                    Action::Fetch(fetch)
                },
                None => if have_document {
                    self.document_ready(cache)
                } else {
                    self.fail(LoopError::NoDocument)
                },
            },
            (Stage::Acquiring, Event::Fetched) => self.document_ready(cache),
            (Stage::Acquiring, Event::FetchFailed) => self.fail(LoopError::Fetch),
            (Stage::Generating, Event::Generated(rules)) => self.rules_generated(cache, rules),
            (Stage::Generating, Event::NotCategorizable) => match &self.url {
                Some(u) => {
                    let open = u.clone();
                    self.stage = Stage::Stopped;
                    Action::OpenExternally(open)
                },
                None => self.fail(LoopError::NotCategorizable),
            },
            (Stage::Generating, Event::EngineFailed) => self.fail(LoopError::Engine),
            (Stage::Applying, Event::Applied) => {
                self.stage = Stage::Rendering;
                Action::Render
            },
            (Stage::Applying, Event::RulesUnreadable) => self.fail(LoopError::CacheCorruption),
            (Stage::Applying, Event::EngineFailed) => self.fail(LoopError::Engine),
            (Stage::Rendering, Event::Rendered(None)) => {
                self.stage = Stage::Stopped;
                Action::Finish
            },
            (Stage::Rendering, Event::Rendered(Some(value))) => self.value_chosen(value),
            (Stage::Rendering, Event::RenderFailed) => self.fail(LoopError::Engine),
            _ => self.fail(LoopError::OutOfOrder),
        }
    }
}

} // verus!
