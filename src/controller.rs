//! The query controller: holds the search identity and the candidate list, and
//! decides what an identity search asks for and what its outcome changes.
use vstd::prelude::*;

verus! {

/// A search over the log's index: entries signed by the identity `email`.
/// The index's other predicates (content hash, public key) stay unused.
pub struct SearchQuery {
    pub email: String,
}

/// The candidate identifiers handed to the presentation of the entry list.
pub struct EntriesProps {
    pub entries: Vec<String>,
}

/// The abstract state of a [`QueryController`].
pub struct ControllerState {
    pub identity: Option<Seq<char>>,
    pub candidates: Seq<Seq<char>>,
}

impl ControllerState {
    /// The state after the identity has been set to `text`.
    pub open spec fn with_identity(self, text: Seq<char>) -> ControllerState {
        ControllerState { identity: Some(text), candidates: self.candidates }
    }

    /// The identity that a submitted search asks for; `None` means that no
    /// search is issued.
    pub open spec fn search_request(self) -> Option<Seq<char>> {
        self.identity
    }

    /// The state after a search completed: a returned list replaces the
    /// candidates, a failure (`None`) leaves them as they were.
    pub open spec fn after_search(self, outcome: Option<Seq<Seq<char>>>) -> ControllerState {
        match outcome {
            Some(list) => ControllerState { identity: self.identity, candidates: list },
            None => self,
        }
    }
}

pub open spec fn text_opt(o: Option<String>) -> Option<Seq<char>> {
    match o {
        Some(s) => Some(s@),
        None => None,
    }
}

/// What a search's outcome carries: the returned list, or `None` on failure.
pub open spec fn search_outcome<E>(outcome: Result<Vec<String>, E>) -> Option<Seq<Seq<char>>> {
    match outcome {
        Ok(list) => Some(list.deep_view()),
        Err(_) => None,
    }
}

/// The identity to search for and the candidate identifiers of the last
/// successful search.
pub struct QueryController {
    identity: Option<String>,
    candidates: Vec<String>,
}

impl View for QueryController {
    type V = ControllerState;

    closed spec fn view(&self) -> ControllerState {
        ControllerState { identity: text_opt(self.identity), candidates: self.candidates.deep_view() }
    }
}

impl QueryController {
    /// A controller with no identity and no candidates.
    pub fn new() -> (r: QueryController)
        ensures
            r@.identity is None,
            r@.candidates == Seq::<Seq<char>>::empty(),
    {
        let r = QueryController { identity: None, candidates: Vec::new() };
        assert(r@.candidates =~= Seq::<Seq<char>>::empty());
        r
    }

    /// Stores `text` verbatim as the identity to search for.
    pub fn set_identity(&mut self, text: String)
        ensures
            final(self)@ == old(self)@.with_identity(text@),
    {
        self.identity = Some(text);
    }

    /// The current identity, if one was set.
    pub fn identity(&self) -> (r: Option<String>)
        ensures
            text_opt(r) == self@.identity,
    {
        match &self.identity {
            Some(s) => Some(s.clone()),
            None => None,
        }
    }

    /// The candidate identifiers, in the order the search returned them.
    pub fn candidates(&self) -> (r: &Vec<String>)
        ensures
            r.deep_view() == self@.candidates,
    {
        &self.candidates
    }

    /// The candidate list as handed to the entry list.
    pub fn entries_props(&self) -> (r: EntriesProps)
        ensures
            r.entries.deep_view() == self@.candidates,
    {
        EntriesProps { entries: self.candidates.clone() }
    }

    /// The search that a submission issues: `None` when no identity is set
    /// (nothing is sent), else a query for the stored identity alone.
    pub fn submit_search(&self) -> (r: Option<SearchQuery>)
        ensures
            r is None <==> self@.search_request() is None,
            r matches Some(q) ==> self@.search_request() == Some(q.email@),
    {
        match &self.identity {
            Some(s) => Some(SearchQuery { email: s.clone() }),
            None => None,
        }
    }

    /// Applies the outcome of a search as it arrives: a returned list replaces
    /// the candidates, an error is dropped and the candidates stay.
    pub fn apply_search_outcome<E>(&mut self, outcome: Result<Vec<String>, E>)
        ensures
            final(self)@ == old(self)@.after_search(search_outcome(outcome)),
    {
        match outcome {
            Ok(list) => {
                self.candidates = list;
            },
            Err(_) => {},
        }
    }
}

/// Setting the identity and then reading it gives back exactly the text set.
pub proof fn lemma_identity_read_back(s: ControllerState, text: Seq<char>)
    ensures
        s.with_identity(text).identity == Some(text),
{
}

/// Without an identity a submission issues no search, so the candidate list
/// stays as it is.
pub proof fn lemma_no_identity_no_search(s: ControllerState)
    requires
        s.identity is None,
    ensures
        s.search_request() is None,
{
}

/// A successful search makes the candidate list exactly the returned list, in
/// its order, whatever the list was before.
pub proof fn lemma_search_replaces_candidates(s: ControllerState, list: Seq<Seq<char>>)
    ensures
        s.after_search(Some(list)).candidates == list,
{
}

/// A failed search after a successful one leaves the list of the successful
/// one in place.
pub proof fn lemma_failed_search_keeps_candidates(s: ControllerState, list: Seq<Seq<char>>)
    ensures
        s.after_search(Some(list)).after_search(None).candidates == list,
{
}

} // verus!
