//! The session controller: a single state machine owning the query text, the
//! last-known result set and the selection index. Each terminal or search
//! event maps to a new state, a list of actions for the caller to perform
//! (redraws, starting a superseding search), or termination with the chosen
//! identifier.

use vstd::prelude::*;

use crate::results::{entries_view, nav_down, nav_up, EntryView, ResultEntry};

verus! {

/// An event the controller consumes: a key, a resize, or the completion of
/// the most recently submitted search.
pub enum SessionEvent {
    CharTyped(char),
    Backspace,
    MoveUp,
    MoveDown,
    Enter,
    Escape,
    Resized,
    SearchOk(Vec<ResultEntry>),
    SearchFailed(String),
}

/// An effect the caller must carry out after handling an event.
pub enum SessionAction {
    /// Redraw the query line from the current query text.
    RedrawQuery,
    /// Supersede any pending search with one for the current query text.
    StartSearch,
    /// Redraw the result list from the current results and selection.
    RedrawResults,
    /// Print the failure text of the search that just completed.
    ShowError(String),
}

/// What one event leads to: more events, or termination with an outcome.
pub enum SessionStep {
    KeepGoing(Vec<SessionAction>),
    Finished(Option<String>),
}

/// The mathematical value of an action.
pub enum ActionView {
    RedrawQuery,
    StartSearch,
    RedrawResults,
    ShowError(Seq<char>),
}

/// The mathematical value of a step.
pub enum StepView {
    KeepGoing(Seq<ActionView>),
    Finished(Option<Seq<char>>),
}

impl View for SessionAction {
    type V = ActionView;

    open spec fn view(&self) -> ActionView {
        match self {
            SessionAction::RedrawQuery => ActionView::RedrawQuery,
            SessionAction::StartSearch => ActionView::StartSearch,
            SessionAction::RedrawResults => ActionView::RedrawResults,
            SessionAction::ShowError(m) => ActionView::ShowError(m@),
        }
    }
}

impl View for SessionStep {
    type V = StepView;

    open spec fn view(&self) -> StepView {
        match self {
            SessionStep::KeepGoing(acts) => StepView::KeepGoing(
                acts@.map_values(|a: SessionAction| a@),
            ),
            SessionStep::Finished(out) => StepView::Finished(
                match out {
                    Some(s) => Some(s@),
                    None => None,
                },
            ),
        }
    }
}

/// The controller's state: the query text, the last installed result set
/// (`None` until a first search completes), and the selection index.
pub struct SessionState {
    pub query: String,
    pub results: Option<Vec<ResultEntry>>,
    pub selected: usize,
}

/// The mathematical value of the controller's state.
pub struct StateView {
    pub query: Seq<char>,
    pub results: Option<Seq<EntryView>>,
    pub selected: int,
}

impl View for SessionState {
    type V = StateView;

    open spec fn view(&self) -> StateView {
        StateView {
            query: self.query@,
            results: match self.results {
                Some(rs) => Some(entries_view(rs@)),
                None => None,
            },
            selected: self.selected as int,
        }
    }
}

/// The query text after one event: characters append, backspace removes the
/// last character, every other event leaves the text alone.
pub open spec fn query_after(q: Seq<char>, e: SessionEvent) -> Seq<char> {
    match e {
        SessionEvent::CharTyped(c) => q.push(c),
        SessionEvent::Backspace => if q.len() == 0 {
            q
        } else {
            q.drop_last()
        },
        _ => q,
    }
}

/// The query text after a whole event sequence, applied in order.
pub open spec fn query_after_all(q: Seq<char>, evs: Seq<SessionEvent>) -> Seq<char>
    decreases evs.len(),
{
    if evs.len() == 0 {
        q
    } else {
        query_after(query_after_all(q, evs.drop_last()), evs.last())
    }
}

pub open spec fn is_edit(e: SessionEvent) -> bool {
    e is CharTyped || e is Backspace
}

/// The subsequence of character and backspace events, in order.
pub open spec fn edits_of(evs: Seq<SessionEvent>) -> Seq<SessionEvent>
    decreases evs.len(),
{
    if evs.len() == 0 {
        evs
    } else if is_edit(evs.last()) {
        edits_of(evs.drop_last()).push(evs.last())
    } else {
        edits_of(evs.drop_last())
    }
}

/// Law: for every event sequence, the query text is the net effect of its
/// character and backspace events alone, applied in order — events of other
/// kinds, wherever they are interleaved, do not touch it.
pub proof fn lemma_query_net_effect(q: Seq<char>, evs: Seq<SessionEvent>)
    ensures
        query_after_all(q, evs) == query_after_all(q, edits_of(evs)),
    decreases evs.len(),
{
    if evs.len() > 0 {
        lemma_query_net_effect(q, evs.drop_last());
        if is_edit(evs.last()) {
            let pe = edits_of(evs.drop_last()).push(evs.last());
            assert(pe.drop_last() =~= edits_of(evs.drop_last()));
        }
    }
}

impl SessionState {
    /// Selection is meaningful: within bounds of a non-empty result set, and
    /// pinned to zero otherwise.
    pub open spec fn wf(self) -> bool {
        match self@.results {
            None => self@.selected == 0,
            Some(rs) => if rs.len() == 0 {
                self@.selected == 0
            } else {
                0 <= self@.selected < rs.len()
            },
        }
    }

    /// The state a session starts in: empty query, no results yet.
    pub fn begin() -> (r: SessionState)
        ensures
            r.wf(),
            r@.query == Seq::<char>::empty(),
            r@.results is None,
            r@.selected == 0,
    {
        SessionState { query: String::new(), results: None, selected: 0 }
    }

    /// The current query text, for the caller to hand to the search it was
    /// told to start.
    pub fn query_text(&self) -> (r: &str)
        ensures
            r@ == self@.query,
    {
        self.query.as_str()
    }

    /// Consume one event: mutate the state and say what the caller must do.
    pub fn handle_event(&mut self, e: SessionEvent) -> (r: SessionStep)
        requires
            old(self).wf(),
        ensures
            final (self).wf(),
            final (self)@.query == query_after(old(self)@.query, e),
            ({
                let s0 = old(self)@;
                let s1 = final (self)@;
                match e {
                    SessionEvent::CharTyped(_) | SessionEvent::Backspace => {
                        &&& s1.results == s0.results
                        &&& s1.selected == s0.selected
                        &&& r@ == StepView::KeepGoing(
                            seq![ActionView::RedrawQuery, ActionView::StartSearch],
                        )
                    },
                    SessionEvent::MoveUp => {
                        match s0.results {
                            Some(rs) => if rs.len() > 0 {
                                &&& s1 == StateView {
                                    selected: (s0.selected + rs.len() - 1) % (rs.len() as int),
                                    ..s0
                                }
                                &&& r@ == StepView::KeepGoing(seq![ActionView::RedrawResults])
                            } else {
                                &&& s1 == s0
                                &&& r@ == StepView::KeepGoing(Seq::<ActionView>::empty())
                            },
                            None => {
                                &&& s1 == s0
                                &&& r@ == StepView::KeepGoing(Seq::<ActionView>::empty())
                            },
                        }
                    },
                    SessionEvent::MoveDown => {
                        match s0.results {
                            Some(rs) => if rs.len() > 0 {
                                &&& s1 == StateView {
                                    selected: (s0.selected + 1) % (rs.len() as int),
                                    ..s0
                                }
                                &&& r@ == StepView::KeepGoing(seq![ActionView::RedrawResults])
                            } else {
                                &&& s1 == s0
                                &&& r@ == StepView::KeepGoing(Seq::<ActionView>::empty())
                            },
                            None => {
                                &&& s1 == s0
                                &&& r@ == StepView::KeepGoing(Seq::<ActionView>::empty())
                            },
                        }
                    },
                    SessionEvent::Enter => {
                        match s0.results {
                            Some(rs) => if s0.selected < rs.len() {
                                &&& s1 == s0
                                &&& r@ == StepView::Finished(Some(rs[s0.selected].identifier))
                            } else {
                                &&& s1 == s0
                                &&& r@ == StepView::KeepGoing(Seq::<ActionView>::empty())
                            },
                            None => {
                                &&& s1 == s0
                                &&& r@ == StepView::KeepGoing(Seq::<ActionView>::empty())
                            },
                        }
                    },
                    SessionEvent::Escape => s1 == s0 && r@ == StepView::Finished(
                        None::<Seq<char>>,
                    ),
                    SessionEvent::Resized => s1 == s0 && r@ == StepView::KeepGoing(
                        seq![ActionView::RedrawResults],
                    ),
                    SessionEvent::SearchOk(rs) => {
                        &&& s1 == StateView {
                            results: Some(entries_view(rs@)),
                            selected: 0,
                            ..s0
                        }
                        &&& r@ == StepView::KeepGoing(seq![ActionView::RedrawResults])
                    },
                    SessionEvent::SearchFailed(m) => {
                        &&& s1 == StateView {
                            results: Some(Seq::<EntryView>::empty()),
                            selected: 0,
                            ..s0
                        }
                        &&& r@ == StepView::KeepGoing(
                            seq![ActionView::ShowError(m@), ActionView::RedrawResults],
                        )
                    },
                }
            }),
    {
        match e {
            SessionEvent::CharTyped(c) => {
                self.query.push(c);
                let acts = vec![SessionAction::RedrawQuery, SessionAction::StartSearch];
                proof {
                    assert(acts@.map_values(|a: SessionAction| a@) =~= seq![
                        ActionView::RedrawQuery,
                        ActionView::StartSearch,
                    ]);
                }
                SessionStep::KeepGoing(acts)
            },
            SessionEvent::Backspace => {
                self.query.pop();
                let acts = vec![SessionAction::RedrawQuery, SessionAction::StartSearch];
                proof {
                    assert(acts@.map_values(|a: SessionAction| a@) =~= seq![
                        ActionView::RedrawQuery,
                        ActionView::StartSearch,
                    ]);
                }
                SessionStep::KeepGoing(acts)
            },
            SessionEvent::MoveUp => {
                let count = match &self.results {
                    Some(rs) => rs.len(),
                    None => 0,
                };
                if count > 0 {
                    self.selected = nav_up(self.selected, count);
                    let acts = vec![SessionAction::RedrawResults];
                    proof {
                        assert(acts@.map_values(|a: SessionAction| a@) =~= seq![
                            ActionView::RedrawResults,
                        ]);
                    }
                    SessionStep::KeepGoing(acts)
                } else {
                    let acts: Vec<SessionAction> = Vec::new();
                    proof {
                        assert(acts@.map_values(|a: SessionAction| a@) =~= Seq::<
                            ActionView,
                        >::empty());
                    }
                    SessionStep::KeepGoing(acts)
                }
            },
            SessionEvent::MoveDown => {
                let count = match &self.results {
                    Some(rs) => rs.len(),
                    None => 0,
                };
                if count > 0 {
                    self.selected = nav_down(self.selected, count);
                    let acts = vec![SessionAction::RedrawResults];
                    proof {
                        assert(acts@.map_values(|a: SessionAction| a@) =~= seq![
                            ActionView::RedrawResults,
                        ]);
                    }
                    SessionStep::KeepGoing(acts)
                } else {
                    let acts: Vec<SessionAction> = Vec::new();
                    proof {
                        assert(acts@.map_values(|a: SessionAction| a@) =~= Seq::<
                            ActionView,
                        >::empty());
                    }
                    SessionStep::KeepGoing(acts)
                }
            },
            SessionEvent::Enter => {
                match &self.results {
                    Some(rs) => {
                        if self.selected < rs.len() {
                            SessionStep::Finished(Some(rs[self.selected].identifier.clone()))
                        } else {
                            let acts: Vec<SessionAction> = Vec::new();
                            proof {
                                assert(acts@.map_values(|a: SessionAction| a@) =~= Seq::<
                                    ActionView,
                                >::empty());
                            }
                            SessionStep::KeepGoing(acts)
                        }
                    },
                    None => {
                        let acts: Vec<SessionAction> = Vec::new();
                        proof {
                            assert(acts@.map_values(|a: SessionAction| a@) =~= Seq::<
                                ActionView,
                            >::empty());
                        }
                        SessionStep::KeepGoing(acts)
                    },
                }
            },
            SessionEvent::Escape => SessionStep::Finished(None),
            SessionEvent::Resized => {
                let acts = vec![SessionAction::RedrawResults];
                proof {
                    assert(acts@.map_values(|a: SessionAction| a@) =~= seq![
                        ActionView::RedrawResults,
                    ]);
                }
                SessionStep::KeepGoing(acts)
            },
            SessionEvent::SearchOk(rs) => {
                self.results = Some(rs);
                self.selected = 0;
                let acts = vec![SessionAction::RedrawResults];
                proof {
                    assert(acts@.map_values(|a: SessionAction| a@) =~= seq![
                        ActionView::RedrawResults,
                    ]);
                }
                SessionStep::KeepGoing(acts)
            },
            SessionEvent::SearchFailed(m) => {
                self.results = Some(Vec::new());
                self.selected = 0;
                let ghost mv = m@;
                let acts = vec![SessionAction::ShowError(m), SessionAction::RedrawResults];
                proof {
                    assert(acts@.map_values(|a: SessionAction| a@) =~= seq![
                        ActionView::ShowError(mv),
                        ActionView::RedrawResults,
                    ]);
                    assert(entries_view(Seq::<ResultEntry>::empty()) =~= Seq::<
                        EntryView,
                    >::empty());
                }
                SessionStep::KeepGoing(acts)
            },
        }
    }
}

} // verus!
