//! The paginated listing as a pull-based state machine.
//!
//! A `Paginator` holds the traversal state of one listing: the URL of the page
//! to request next, the items of the current page that have not been handed
//! out, and an error that ends the traversal. Each call of `poll` answers one
//! pull of the consumer: an item, a request to perform, the final error, or
//! the end. The caller performs each requested GET and hands the outcome to
//! `receive`. No request is asked for before the consumer pulls, and none
//! while items of the current page remain.
use std::collections::VecDeque;

use vstd::prelude::*;

use crate::error::CanvasError;
use crate::pagination::{opt_chars, parse_links, parse_pagination_info};

verus! {

/// What one pull of the consumer yields.
pub enum Step<T> {
    /// The next item of the listing.
    Item(T),
    /// Perform a GET of this URL and hand its outcome to `receive`, then pull
    /// again.
    Fetch(String),
    /// The traversal failed: this is its last value.
    Failed(CanvasError),
    /// The traversal is complete.
    Finished,
}

/// What a `Step` says, with the URL as characters.
pub enum StepView<T> {
    Item(T),
    Fetch(Seq<char>),
    Failed(CanvasError),
    Finished,
}

impl<T> View for Step<T> {
    type V = StepView<T>;

    open spec fn view(&self) -> StepView<T> {
        match self {
            Step::Item(x) => StepView::Item(*x),
            Step::Fetch(u) => StepView::Fetch(u@),
            Step::Failed(e) => StepView::Failed(*e),
            Step::Finished => StepView::Finished,
        }
    }
}

/// The outcome of one GET of a page.
pub enum PageEvent<T> {
    /// The request could not be sent, or the server answered with a failure.
    TransportFailed(reqwest::Error),
    /// The server answered: the bytes of its `Link` header, if it sent one,
    /// and its body decoded as a list of items.
    Received { link: Option<Vec<u8>>, items: Result<Vec<T>, serde_json::Error> },
}

/// The traversal state of a listing.
pub struct Paginator<T> {
    cursor: Option<String>,
    page: VecDeque<T>,
    failure: Option<CanvasError>,
}

/// What a `Paginator` holds: the page to request next (None once the last
/// page was read or the traversal failed), the items of the current page
/// that were not handed out, in body order, and an error still to be handed
/// out.
pub struct PagerState<T> {
    pub cursor: Option<Seq<char>>,
    pub page: Seq<T>,
    pub failure: Option<CanvasError>,
}

impl<T> View for Paginator<T> {
    type V = PagerState<T>;

    closed spec fn view(&self) -> PagerState<T> {
        PagerState { cursor: opt_chars(&self.cursor), page: self.page@, failure: self.failure }
    }
}

/// A fresh traversal that starts at `url`.
pub open spec fn initial_state<T>(url: Seq<char>) -> PagerState<T> {
    PagerState { cursor: Some(url), page: Seq::empty(), failure: None }
}

/// A traversal with nothing left to do.
pub open spec fn finished_state<T>() -> PagerState<T> {
    PagerState { cursor: None, page: Seq::empty(), failure: None }
}

/// A traversal that ends with `e`.
pub open spec fn failed_state<T>(e: CanvasError) -> PagerState<T> {
    PagerState { cursor: None, page: Seq::empty(), failure: Some(e) }
}

/// One pull: the step it yields and the state after it.
pub open spec fn poll_spec<T>(s: PagerState<T>) -> (StepView<T>, PagerState<T>) {
    if s.page.len() > 0 {
        (StepView::Item(s.page[0]), PagerState { page: s.page.drop_first(), ..s })
    } else {
        match s.failure {
            Some(e) => (StepView::Failed(e), finished_state()),
            None => match s.cursor {
                Some(u) => (StepView::Fetch(u), s),
                None => (StepView::Finished, s),
            },
        }
    }
}

/// The state waits for the outcome of a request: the current page is drained,
/// no error is pending, and a page remains to be read.
pub open spec fn awaits_page<T>(s: PagerState<T>) -> bool {
    s.page.len() == 0 && s.failure is None && s.cursor is Some
}

/// The bytes of an optional header value.
pub open spec fn opt_vec_bytes(b: Option<Vec<u8>>) -> Option<Seq<u8>> {
    match b {
        Some(v) => Some(v@),
        None => None,
    }
}

/// The state after the outcome `ev` of the requested GET. A state that awaits
/// no page ignores the outcome. A transport failure, an unreadable or malformed
/// `Link` header (checked before the body), and an undecodable body each end
/// the traversal with the matching error; otherwise the page's items are
/// handed out next and the page's `next` link becomes the cursor.
pub open spec fn receive_spec<T>(s: PagerState<T>, ev: PageEvent<T>) -> PagerState<T> {
    if !awaits_page(s) {
        s
    } else {
        match ev {
            PageEvent::TransportFailed(e) => failed_state(CanvasError::Reqwest(e)),
            PageEvent::Received { link, items } => match parse_links(opt_vec_bytes(link)) {
                None => failed_state(CanvasError::Pagination),
                Some(info) => match items {
                    Err(e) => failed_state(CanvasError::ParseJSON(e)),
                    Ok(v) => PagerState { cursor: info.next, page: v@, failure: None },
                },
            },
        }
    }
}

/// The steps that `n` pulls yield from state `s` when each requested URL `u`
/// is answered with `server(u)`.
pub open spec fn run<T>(s: PagerState<T>, server: spec_fn(Seq<char>) -> PageEvent<T>, n: nat) -> Seq<
    StepView<T>,
>
    decreases n,
{
    if n == 0 {
        Seq::empty()
    } else {
        let (step, after) = poll_spec(s);
        let next = match step {
            StepView::Fetch(u) => receive_spec(after, server(u)),
            _ => after,
        };
        seq![step] + run(next, server, (n - 1) as nat)
    }
}

/// The steps that hand out `items`, one per item, in order.
pub open spec fn item_steps<T>(items: Seq<T>) -> Seq<StepView<T>> {
    items.map_values(|x: T| StepView::Item(x))
}

/// `n` steps that each report the end of the traversal.
pub open spec fn finished_steps<T>(n: nat) -> Seq<StepView<T>> {
    Seq::new(n, |i: int| StepView::Finished)
}

/// Laziness: a traversal yields nothing, and so requests nothing, before it is
/// pulled; its first pull asks for the starting URL and nothing else, and
/// leaves the state as it was.
pub proof fn lemma_lazy_start<T>(url: Seq<char>, server: spec_fn(Seq<char>) -> PageEvent<T>)
    ensures
        run(initial_state::<T>(url), server, 0) == Seq::<StepView<T>>::empty(),
        poll_spec(initial_state::<T>(url)) == (StepView::<T>::Fetch(url), initial_state::<T>(url)),
        run(initial_state::<T>(url), server, 1) == seq![StepView::<T>::Fetch(url)],
{
    reveal_with_fuel(run, 2);
    assert(run(initial_state::<T>(url), server, 1) =~= seq![StepView::<T>::Fetch(url)]);
}

/// Ordering: the first pulls hand out the items of the current page in body
/// order, and request nothing while any of them remains.
pub proof fn lemma_page_in_order<T>(s: PagerState<T>, server: spec_fn(Seq<char>) -> PageEvent<T>, n: nat)
    requires
        n <= s.page.len(),
    ensures
        run(s, server, n) == item_steps(s.page.take(n as int)),
    decreases n,
{
    if n > 0 {
        let next = PagerState { page: s.page.drop_first(), ..s };
        lemma_page_in_order(next, server, (n - 1) as nat);
        assert(run(s, server, n) =~= item_steps(s.page.take(n as int)));
    }
}

/// Ordering: with no error pending and a next page to read, the pulls hand out
/// every item of the current page, and only then request the next page.
pub proof fn lemma_drain_then_request<T>(s: PagerState<T>, server: spec_fn(Seq<char>) -> PageEvent<T>)
    requires
        s.failure is None,
        s.cursor is Some,
    ensures
        run(s, server, s.page.len() + 1) == item_steps(s.page) + seq![
            StepView::<T>::Fetch(s.cursor->0),
        ],
    decreases s.page.len(),
{
    if s.page.len() > 0 {
        let next = PagerState { page: s.page.drop_first(), ..s };
        lemma_drain_then_request(next, server);
        assert(run(s, server, s.page.len() + 1) =~= item_steps(s.page) + seq![
            StepView::<T>::Fetch(s.cursor->0),
        ]);
    } else {
        assert(s.page =~= Seq::<T>::empty());
        reveal_with_fuel(run, 2);
        assert(run(s, server, 1) =~= item_steps(s.page) + seq![StepView::<T>::Fetch(s.cursor->0)]);
    }
}

/// A traversal with nothing left to do stays so: every pull reports the end,
/// and none requests a page.
pub proof fn lemma_finished_stays<T>(server: spec_fn(Seq<char>) -> PageEvent<T>, n: nat)
    ensures
        run(finished_state::<T>(), server, n) == finished_steps::<T>(n),
    decreases n,
{
    if n > 0 {
        lemma_finished_stays(server, (n - 1) as nat);
        assert(run(finished_state::<T>(), server, n) =~= finished_steps::<T>(n));
    }
}

/// Failure is final: once a requested GET fails in transport, the next pull
/// hands out that error and every later pull reports the end; no further page
/// is requested.
pub proof fn lemma_transport_failure_ends<T>(
    s: PagerState<T>,
    e: reqwest::Error,
    server: spec_fn(Seq<char>) -> PageEvent<T>,
    n: nat,
)
    requires
        awaits_page(s),
    ensures
        run(receive_spec(s, PageEvent::TransportFailed(e)), server, n + 1) == seq![
            StepView::<T>::Failed(CanvasError::Reqwest(e)),
        ] + finished_steps::<T>(n),
{
    lemma_failure_ends(CanvasError::Reqwest(e), server, n);
}

/// Failure is final: a pending error is handed out by the next pull, and every
/// later pull reports the end.
pub proof fn lemma_failure_ends<T>(e: CanvasError, server: spec_fn(Seq<char>) -> PageEvent<T>, n: nat)
    ensures
        run(failed_state::<T>(e), server, n + 1) == seq![StepView::<T>::Failed(e)] + finished_steps::<T>(n),
{
    lemma_finished_stays::<T>(server, n);
    assert(failed_state::<T>(e).page.len() == 0);
}

/// The state after `n` pulls from `s` when each requested URL `u` is answered
/// with `server(u)`.
pub open spec fn state_after<T>(s: PagerState<T>, server: spec_fn(Seq<char>) -> PageEvent<T>, n: nat) -> PagerState<T>
    decreases n,
{
    if n == 0 {
        s
    } else {
        let (step, after) = poll_spec(s);
        let next = match step {
            StepView::Fetch(u) => receive_spec(after, server(u)),
            _ => after,
        };
        state_after(next, server, (n - 1) as nat)
    }
}

/// Independence: a traversal yields the same steps however its pulls are
/// spread out, so pausing it, for instance to pull another traversal, changes
/// nothing in what it hands out. Since `Paginator::new` starts every traversal
/// of a URL in `initial_state(url)`, two traversals of one listing against an
/// unchanged server yield the same steps, `run(initial_state(url), server, n)`,
/// in whatever way their pulls interleave.
pub proof fn lemma_pulls_compose<T>(
    s: PagerState<T>,
    server: spec_fn(Seq<char>) -> PageEvent<T>,
    n: nat,
    m: nat,
)
    ensures
        run(s, server, n + m) == run(s, server, n) + run(state_after(s, server, n), server, m),
    decreases n,
{
    if n == 0 {
        assert(run(s, server, 0) + run(s, server, m) =~= run(s, server, m));
    } else {
        let (step, after) = poll_spec(s);
        let next = match step {
            StepView::Fetch(u) => receive_spec(after, server(u)),
            _ => after,
        };
        lemma_pulls_compose(next, server, (n - 1) as nat, m);
        assert((n + m - 1) as nat == (n - 1) as nat + m);
        assert(run(s, server, n + m) =~= run(s, server, n) + run(state_after(s, server, n), server, m));
    }
}

impl<T> Paginator<T> {
    /// A traversal of the listing whose first page is at `url`. Nothing is
    /// requested until the first pull.
    pub fn new(url: String) -> (r: Paginator<T>)
        ensures
            r@ == initial_state::<T>(url@),
    {
        Paginator { cursor: Some(url), page: VecDeque::new(), failure: None }
    }

    /// Whether the traversal waits for the outcome of a requested GET.
    pub fn awaits_page(&self) -> (r: bool)
        ensures
            r == awaits_page(self@),
    {
        self.page.len() == 0 && self.failure.is_none() && self.cursor.is_some()
    }

    /// One pull of the consumer. Items of the current page come first, in body
    /// order; then a pending error, once; then a request for the next page;
    /// and `Finished` once nothing is left.
    pub fn poll(&mut self) -> (r: Step<T>)
        ensures
            r@ == poll_spec(old(self)@).0,
            final(self)@ == poll_spec(old(self)@).1,
    {
        if let Some(x) = self.page.pop_front() {
            return Step::Item(x);
        }
        if let Some(e) = self.failure.take() {
            self.cursor = None;
            assert(self.page@ =~= Seq::<T>::empty());
            return Step::Failed(e);
        }
        match &self.cursor {
            Some(u) => Step::Fetch(u.clone()),
            None => Step::Finished,
        }
    }

    /// Takes the outcome of the GET that the last `Fetch` asked for.
    pub fn receive(&mut self, ev: PageEvent<T>)
        ensures
            final(self)@ == receive_spec(old(self)@, ev),
    {
        if !self.awaits_page() {
            return;
        }
        match ev {
            PageEvent::TransportFailed(e) => self.fail(CanvasError::Reqwest(e)),
            PageEvent::Received { link, items } => {
                let header = match &link {
                    Some(v) => Some(v.as_slice()),
                    None => None,
                };
                match parse_pagination_info(header) {
                    Err(e) => self.fail(e),
                    Ok(info) => match items {
                        Err(e) => self.fail(CanvasError::ParseJSON(e)),
                        Ok(v) => {
                            self.cursor = info.next_url;
                            self.fill(v);
                        },
                    },
                }
            },
        }
    }

    fn fail(&mut self, e: CanvasError)
        requires
            old(self)@.page.len() == 0,
        ensures
            final(self)@ == failed_state::<T>(e),
    {
        self.cursor = None;
        self.failure = Some(e);
        assert(self.page@ =~= Seq::<T>::empty());
    }

    /// Makes `v` the current page, in its order.
    fn fill(&mut self, v: Vec<T>)
        requires
            old(self)@.page.len() == 0,
        ensures
            final(self)@.page == v@,
            final(self).cursor == old(self).cursor,
            final(self).failure == old(self).failure,
    {
        let mut v = v;
        let ghost all = v@;
        while v.len() > 0
            invariant
                all == v@ + self.page@,
                self.cursor == old(self).cursor,
                self.failure == old(self).failure,
            decreases v@.len(),
        {
            let ghost before = v@;
            match v.pop() {
                Some(x) => {
                    self.page.push_front(x);
                    assert(before == v@.push(x));
                    assert(all =~= v@ + self.page@);
                },
                None => {},
            }
        }
        assert(all =~= self.page@);
    }
}

} // verus!
