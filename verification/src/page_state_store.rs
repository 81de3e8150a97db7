//! The page state store: state values by URL, a mark for the pages that never
//! take state, and the bookkeeping of preloads.
//!
//! The store is bounded. When the registration of a new URL takes it past its
//! bound, the entry that was registered first is dropped: eviction goes by the
//! order of first registration, and registering a value for a URL that is
//! already stored replaces the value without changing that order. A store with
//! the bound 0 therefore accepts every registration and keeps none.

use crate::state::{StateValue, StateView};
use crate::table::{
    find_key, lemma_index_of_distinct, lemma_table_dom, lemma_table_entry, lemma_table_push,
    lemma_table_remove, lemma_table_update, table_map, table_wf,
};
use vstd::prelude::*;

verus! {

/// What the store knows of a page's state.
#[derive(Clone, Copy, Debug, PartialEq, Eq, Structural)]
pub enum PageStateFlag {
    /// Nothing is registered for the page.
    Unset,
    /// The page has been declared to take no state, for good.
    NeverReceivesState,
    /// A value is registered for the page.
    HasState,
}

/// How far the preload of a page has come.
#[derive(Clone, Copy, Debug, PartialEq, Eq, Structural)]
pub enum PreloadStatus {
    /// No preload is known for the page.
    Absent,
    /// A fetch for the page has been started and has not come back.
    InFlight,
    /// The page is preloaded for the current route only.
    RoutePreloaded,
    /// The page is preloaded for the rest of the session.
    Preloaded,
}

/// What a caller that asks for a preload has to do next.
#[derive(Clone, Copy, Debug, PartialEq, Eq, Structural)]
pub enum PreloadStep {
    /// The page is already at hand: there is nothing to do.
    Cached,
    /// A fetch for the page is under way: wait for it, and start no other.
    Join,
    /// The caller is to fetch the page and report what came back.
    Fetch,
}

/// One preload: whether it lasts for the current route only, and the page data
/// once the fetch has come back.
pub struct PreloadView {
    pub route_scoped: bool,
    pub data: Option<Seq<char>>,
}

/// The executable form of [`PreloadView`].
#[derive(Debug)]
pub struct PreloadSlot {
    pub route_scoped: bool,
    pub data: Option<String>,
}

impl DeepView for PreloadSlot {
    type V = PreloadView;

    open spec fn deep_view(&self) -> PreloadView {
        PreloadView { route_scoped: self.route_scoped, data: self.data.deep_view() }
    }
}

/// `order` with `url` taken out.
pub open spec fn without(order: Seq<Seq<char>>, url: Seq<char>) -> Seq<Seq<char>> {
    if order.contains(url) {
        order.remove(order.index_of(url))
    } else {
        order
    }
}

/// The mathematical content of a page state store.
#[verifier::ext_equal]
pub struct StoreView {
    /// The registered values by URL.
    pub states: Map<Seq<char>, StateView>,
    /// The URLs of `states`, the one registered first at the front.
    pub order: Seq<Seq<char>>,
    /// The URLs of the pages that never take state.
    pub stateless: Set<Seq<char>>,
    /// The preloads by URL.
    pub preloads: Map<Seq<char>, PreloadView>,
    /// The bound on the number of registered values.
    pub max_size: nat,
}

impl StoreView {
    /// The store that holds nothing.
    pub open spec fn empty(max_size: nat) -> StoreView {
        StoreView {
            states: Map::empty(),
            order: Seq::empty(),
            stateless: Set::empty(),
            preloads: Map::empty(),
            max_size,
        }
    }

    /// The invariant of a store: `order` lists the URLs of `states`, each once;
    /// the bound is kept; no page that never takes state has a value.
    pub open spec fn wf(self) -> bool {
        &&& self.order.no_duplicates()
        &&& self.order.len() <= self.max_size
        &&& forall|url: Seq<char>| self.states.contains_key(url) <==> self.order.contains(url)
        &&& forall|url: Seq<char>| self.stateless.contains(url) ==> !self.states.contains_key(url)
    }

    /// The flag of a page.
    pub open spec fn flag(self, url: Seq<char>) -> PageStateFlag {
        if self.stateless.contains(url) {
            PageStateFlag::NeverReceivesState
        } else if self.states.contains_key(url) {
            PageStateFlag::HasState
        } else {
            PageStateFlag::Unset
        }
    }

    /// The value registered for `url`, provided that it belongs to the type
    /// `kind`.
    pub open spec fn get_state(self, url: Seq<char>, kind: Seq<char>) -> Option<StateView> {
        if self.states.contains_key(url) && self.states[url].kind == kind {
            Some(self.states[url])
        } else {
            None
        }
    }

    /// Whether a registration for `url` is taken.
    pub open spec fn accepts(self, url: Seq<char>) -> bool {
        !self.stateless.contains(url)
    }

    /// The store after the registration of `value` for `url`.
    pub open spec fn add_state(self, url: Seq<char>, value: StateView) -> StoreView {
        if !self.accepts(url) {
            self
        } else if self.states.contains_key(url) {
            StoreView { states: self.states.insert(url, value), ..self }
        } else {
            let states = self.states.insert(url, value);
            let order = self.order.push(url);
            if order.len() <= self.max_size {
                StoreView { states, order, ..self }
            } else {
                StoreView { states: states.remove(order[0]), order: order.remove(0), ..self }
            }
        }
    }

    /// The store after `url` has been declared to take no state.
    pub open spec fn set_state_never(self, url: Seq<char>) -> StoreView {
        StoreView {
            states: self.states.remove(url),
            order: without(self.order, url),
            stateless: self.stateless.insert(url),
            ..self
        }
    }

    /// The store after the value and the preload of `url` have been dropped.
    pub open spec fn remove(self, url: Seq<char>) -> StoreView {
        StoreView {
            states: self.states.remove(url),
            order: without(self.order, url),
            preloads: self.preloads.remove(url),
            ..self
        }
    }

    /// Every registered value in its serialized form, in the order of
    /// registration.
    pub open spec fn frozen_pages(self) -> Seq<(Seq<char>, Seq<char>)> {
        Seq::new(self.order.len(), |i: int| (self.order[i], self.states[self.order[i]].document))
    }

    /// How far the preload of `url` has come.
    pub open spec fn preload_status(self, url: Seq<char>) -> PreloadStatus {
        if !self.preloads.contains_key(url) {
            PreloadStatus::Absent
        } else if self.preloads[url].data is None {
            PreloadStatus::InFlight
        } else if self.preloads[url].route_scoped {
            PreloadStatus::RoutePreloaded
        } else {
            PreloadStatus::Preloaded
        }
    }

    /// The page data that a finished preload of `url` has brought.
    pub open spec fn get_preloaded(self, url: Seq<char>) -> Option<Seq<char>> {
        if self.preloads.contains_key(url) {
            self.preloads[url].data
        } else {
            None
        }
    }

    /// What a caller that asks for a preload of `url` has to do: nothing where
    /// the page has a flag or a finished preload, wait where a fetch is under
    /// way, and fetch otherwise.
    pub open spec fn preload_step(self, url: Seq<char>) -> PreloadStep {
        if self.flag(url) != PageStateFlag::Unset {
            PreloadStep::Cached
        } else {
            match self.preload_status(url) {
                PreloadStatus::Absent => PreloadStep::Fetch,
                PreloadStatus::InFlight => PreloadStep::Join,
                _ => PreloadStep::Cached,
            }
        }
    }

    /// The store after a preload of `url` has been asked for: where the caller
    /// is to fetch, the fetch is recorded as under way.
    pub open spec fn begin_preload(self, url: Seq<char>, route_scoped: bool) -> StoreView {
        if self.preload_step(url) == PreloadStep::Fetch {
            StoreView {
                preloads: self.preloads.insert(url, PreloadView { route_scoped, data: None }),
                ..self
            }
        } else {
            self
        }
    }

    /// The store after the fetch for `url` has come back with `fetched`. What
    /// answers no fetch under way is dropped; a fetch that brought nothing
    /// leaves no trace.
    pub open spec fn finish_preload(self, url: Seq<char>, fetched: Option<Seq<char>>) -> StoreView {
        if self.preload_status(url) == PreloadStatus::InFlight {
            match fetched {
                Some(data) => StoreView {
                    preloads: self.preloads.insert(
                        url,
                        PreloadView {
                            route_scoped: self.preloads[url].route_scoped,
                            data: Some(data),
                        },
                    ),
                    ..self
                },
                None => StoreView { preloads: self.preloads.remove(url), ..self },
            }
        } else {
            self
        }
    }

    /// The store after every preload that lasts for the current route only has
    /// been dropped, finished or not.
    pub open spec fn clear_route_preloads(self) -> StoreView {
        StoreView {
            preloads: Map::new(
                |url: Seq<char>| self.preloads.contains_key(url) && !self.preloads[url].route_scoped,
                |url: Seq<char>| self.preloads[url],
            ),
            ..self
        }
    }
}

/// One change to a page state store.
pub enum StoreOp {
    /// A registration of `value` for `url`.
    AddState { url: Seq<char>, value: StateView },
    /// The declaration that `url` never takes state.
    SetStateNever { url: Seq<char> },
    /// The removal of the value and the preload of `url`.
    Remove { url: Seq<char> },
    /// A request for a preload of `url`.
    BeginPreload { url: Seq<char>, route_scoped: bool },
    /// The end of the fetch for `url`.
    FinishPreload { url: Seq<char>, fetched: Option<Seq<char>> },
    /// The removal of the preloads that last for the current route only.
    ClearRoutePreloads,
}

impl StoreView {
    /// The store after one change.
    pub open spec fn apply(self, op: StoreOp) -> StoreView {
        match op {
            StoreOp::AddState { url, value } => self.add_state(url, value),
            StoreOp::SetStateNever { url } => self.set_state_never(url),
            StoreOp::Remove { url } => self.remove(url),
            StoreOp::BeginPreload { url, route_scoped } => self.begin_preload(url, route_scoped),
            StoreOp::FinishPreload { url, fetched } => self.finish_preload(url, fetched),
            StoreOp::ClearRoutePreloads => self.clear_route_preloads(),
        }
    }

    /// The store after a sequence of changes, the first of them first.
    pub open spec fn apply_all(self, ops: Seq<StoreOp>) -> StoreView
        decreases ops.len(),
    {
        if ops.len() == 0 {
            self
        } else {
            self.apply(ops[0]).apply_all(ops.drop_first())
        }
    }
}

/// Taking `url` out of a sequence without duplicates leaves a sequence without
/// duplicates that holds every other element and not `url`.
pub proof fn lemma_without(order: Seq<Seq<char>>, url: Seq<char>)
    requires
        order.no_duplicates(),
    ensures
        without(order, url).no_duplicates(),
        without(order, url).len() <= order.len(),
        forall|other: Seq<char>|
            without(order, url).contains(other) <==> (order.contains(other) && other != url),
{
    if order.contains(url) {
        let i = order.index_of(url);
        let rest = order.remove(i);
        assert forall|a: int, b: int|
            0 <= a < rest.len() && 0 <= b < rest.len() && a != b implies rest[a] != rest[b] by {
            let a0 = if a < i { a } else { a + 1 };
            let b0 = if b < i { b } else { b + 1 };
            assert(rest[a] == order[a0] && rest[b] == order[b0]);
        }
        assert forall|other: Seq<char>|
            rest.contains(other) <==> (order.contains(other) && other != url) by {
            if rest.contains(other) {
                let a = rest.index_of(other);
                let a0 = if a < i { a } else { a + 1 };
                assert(order[a0] == other);
            }
            if order.contains(other) && other != url {
                let a0 = order.index_of(other);
                let a = if a0 < i { a0 } else { a0 - 1 };
                assert(rest[a] == other);
            }
        }
    }
}

/// Every change keeps the invariant of the store: in particular the bound
/// holds after it as before.
pub proof fn lemma_apply_keeps_wf(store: StoreView, op: StoreOp)
    requires
        store.wf(),
    ensures
        store.apply(op).wf(),
{
    let next = store.apply(op);
    match op {
        StoreOp::AddState { url, value } => {
            if store.accepts(url) && store.states.contains_key(url) {
                assert forall|other: Seq<char>|
                    next.states.contains_key(other) <==> next.order.contains(other) by {
                    assert(store.states.contains_key(other) <==> store.order.contains(other));
                }
            }
            if store.accepts(url) && !store.states.contains_key(url) {
                let pushed = store.order.push(url);
                assert forall|a: int, b: int|
                    0 <= a < pushed.len() && 0 <= b < pushed.len() && a != b implies pushed[a]
                    != pushed[b] by {
                    if a < store.order.len() {
                        assert(store.order.contains(pushed[a]));
                    }
                    if b < store.order.len() {
                        assert(store.order.contains(pushed[b]));
                    }
                }
                assert forall|other: Seq<char>|
                    pushed.contains(other) <==> (store.order.contains(other) || other == url) by {
                    if store.order.contains(other) {
                        let a = store.order.index_of(other);
                        assert(pushed[a] == other);
                    }
                    if other == url {
                        assert(pushed[store.order.len() as int] == other);
                    }
                    if pushed.contains(other) {
                        let a = pushed.index_of(other);
                        if a < store.order.len() {
                            assert(store.order[a] == other);
                        }
                    }
                }
                if pushed.len() > store.max_size {
                    let rest = pushed.remove(0);
                    assert(pushed.contains(pushed[0]));
                    assert forall|a: int, b: int|
                        0 <= a < rest.len() && 0 <= b < rest.len() && a != b implies rest[a]
                        != rest[b] by {
                        assert(rest[a] == pushed[a + 1] && rest[b] == pushed[b + 1]);
                    }
                    assert forall|other: Seq<char>|
                        rest.contains(other) <==> (pushed.contains(other) && other != pushed[0]) by {
                        if rest.contains(other) {
                            let a = rest.index_of(other);
                            assert(pushed[a + 1] == other);
                        }
                        if pushed.contains(other) && other != pushed[0] {
                            let a = pushed.index_of(other);
                            assert(rest[a - 1] == other);
                        }
                    }
                }
                assert forall|other: Seq<char>|
                    next.states.contains_key(other) <==> next.order.contains(other) by {
                    assert(store.states.contains_key(other) <==> store.order.contains(other));
                    assert(pushed.contains(other) <==> (store.order.contains(other) || other == url));
                }
            }
        },
        StoreOp::SetStateNever { url } => {
            lemma_without(store.order, url);
            assert forall|other: Seq<char>|
                next.states.contains_key(other) <==> next.order.contains(other) by {
                assert(store.states.contains_key(other) <==> store.order.contains(other));
            }
        },
        StoreOp::Remove { url } => {
            lemma_without(store.order, url);
            assert forall|other: Seq<char>|
                next.states.contains_key(other) <==> next.order.contains(other) by {
                assert(store.states.contains_key(other) <==> store.order.contains(other));
            }
        },
        StoreOp::BeginPreload { url, route_scoped } => {
            assert(next.states == store.states && next.order == store.order);
        },
        StoreOp::FinishPreload { url, fetched } => {
            assert(next.states == store.states && next.order == store.order);
        },
        StoreOp::ClearRoutePreloads => {
            assert(next.states == store.states && next.order == store.order);
        },
    }
}

/// Once a page has been declared to take no state, it takes none, whatever is
/// done to the store afterwards: every registration for it is refused and
/// changes nothing, and the store has no value for it.
pub proof fn lemma_stateless_is_permanent(
    store: StoreView,
    url: Seq<char>,
    ops: Seq<StoreOp>,
    value: StateView,
    kind: Seq<char>,
)
    requires
        store.wf(),
    ensures
        ({
            let later = store.set_state_never(url).apply_all(ops);
            &&& later.wf()
            &&& !later.accepts(url)
            &&& later.add_state(url, value) == later
            &&& later.get_state(url, kind) is None
            &&& later.flag(url) == PageStateFlag::NeverReceivesState
        }),
{
    lemma_apply_keeps_wf(store, StoreOp::SetStateNever { url });
    lemma_mark_stays(store.set_state_never(url), url, ops);
}

/// The mark of a page that never takes state outlasts every sequence of
/// changes.
pub proof fn lemma_mark_stays(store: StoreView, url: Seq<char>, ops: Seq<StoreOp>)
    requires
        store.wf(),
        store.stateless.contains(url),
    ensures
        store.apply_all(ops).wf(),
        store.apply_all(ops).stateless.contains(url),
    decreases ops.len(),
{
    if ops.len() > 0 {
        lemma_apply_keeps_wf(store, ops[0]);
        lemma_mark_stays(store.apply(ops[0]), url, ops.drop_first());
    }
}

/// A fetch is asked of one caller only. Whoever asks for a preload of a page
/// after another has asked is not told to fetch: not while the fetch is under
/// way, and not once it has brought the page. Asking again changes nothing.
pub proof fn lemma_preload_is_fetched_once(
    store: StoreView,
    url: Seq<char>,
    first_scoped: bool,
    second_scoped: bool,
    data: Seq<char>,
)
    ensures
        ({
            let asked = store.begin_preload(url, first_scoped);
            &&& asked.preload_step(url) != PreloadStep::Fetch
            &&& store.preload_step(url) == PreloadStep::Fetch ==> asked.preload_step(url)
                == PreloadStep::Join
            &&& asked.begin_preload(url, second_scoped) == asked
            &&& asked.finish_preload(url, Some(data)).preload_step(url) == PreloadStep::Cached
        }),
{
}

/// Whether a change drops the preload of `url`, under way or finished.
pub open spec fn drops_preload(op: StoreOp, url: Seq<char>) -> bool {
    match op {
        StoreOp::Remove { url: removed } => removed == url,
        StoreOp::FinishPreload { url: finished, fetched } => finished == url && fetched is None,
        StoreOp::ClearRoutePreloads => true,
        _ => false,
    }
}

/// A preload that no change drops is still there after the changes.
pub proof fn lemma_preload_stays(store: StoreView, url: Seq<char>, ops: Seq<StoreOp>)
    requires
        store.preloads.contains_key(url),
        forall|i: int| 0 <= i < ops.len() ==> !drops_preload(#[trigger] ops[i], url),
    ensures
        store.apply_all(ops).preloads.contains_key(url),
    decreases ops.len(),
{
    if ops.len() > 0 {
        assert(!drops_preload(ops[0], url));
        let rest = ops.drop_first();
        assert forall|i: int| 0 <= i < rest.len() implies !drops_preload(#[trigger] rest[i], url) by {
            assert(rest[i] == ops[i + 1]);
        }
        lemma_preload_stays(store.apply(ops[0]), url, rest);
    }
}

/// One fetch at a time. From the moment a caller is told to fetch a page until
/// the preload of that page is dropped, whatever else is done to the store,
/// nobody is told to fetch that page.
pub proof fn lemma_one_fetch_at_a_time(
    store: StoreView,
    url: Seq<char>,
    route_scoped: bool,
    ops: Seq<StoreOp>,
)
    requires
        store.preload_step(url) == PreloadStep::Fetch,
        forall|i: int| 0 <= i < ops.len() ==> !drops_preload(#[trigger] ops[i], url),
    ensures
        store.begin_preload(url, route_scoped).apply_all(ops).preload_step(url) != PreloadStep::Fetch,
{
    lemma_preload_stays(store.begin_preload(url, route_scoped), url, ops);
}

/// A store with the bound 0 accepts a registration and keeps nothing of it.
pub proof fn lemma_bound_zero_keeps_nothing(store: StoreView, url: Seq<char>, value: StateView)
    requires
        store.wf(),
        store.max_size == 0,
    ensures
        store.add_state(url, value).states =~= Map::<Seq<char>, StateView>::empty(),
        store.add_state(url, value).order =~= Seq::<Seq<char>>::empty(),
{
    assert(store.order.len() == 0);
    assert forall|other: Seq<char>| !store.states.contains_key(other) by {
        if store.order.contains(other) {
            let i = store.order.index_of(other);
        }
    }
    assert(store.states =~= Map::<Seq<char>, StateView>::empty());
}

/// The page state store.
#[derive(Debug)]
pub struct PageStateStore {
    urls: Vec<String>,
    values: Vec<StateValue>,
    stateless: Vec<String>,
    preload_urls: Vec<String>,
    preload_slots: Vec<PreloadSlot>,
    max_size: usize,
}

impl View for PageStateStore {
    type V = StoreView;

    closed spec fn view(&self) -> StoreView {
        StoreView {
            states: table_map(self.urls.deep_view(), self.values.deep_view()),
            order: self.urls.deep_view(),
            stateless: self.stateless.deep_view().to_set(),
            preloads: table_map(self.preload_urls.deep_view(), self.preload_slots.deep_view()),
            max_size: self.max_size as nat,
        }
    }
}

impl PageStateStore {
    /// The invariant of the representation. It holds of every store that this
    /// module hands out, and it gives the invariant of the view.
    pub closed spec fn wf(&self) -> bool {
        &&& table_wf(self.urls.deep_view(), self.values.deep_view())
        &&& table_wf(self.preload_urls.deep_view(), self.preload_slots.deep_view())
        &&& self.urls.len() <= self.max_size
        &&& forall|i: int|
            0 <= i < self.urls.len() ==> !self.stateless.deep_view().contains(
                #[trigger] self.urls.deep_view()[i],
            )
    }

    /// A well-formed store has a well-formed view.
    pub proof fn lemma_view_wf(&self)
        requires
            self.wf(),
        ensures
            self@.wf(),
    {
        let keys = self.urls.deep_view();
        let vals = self.values.deep_view();
        lemma_table_dom(keys, vals);
        assert forall|url: Seq<char>| self@.stateless.contains(url) implies !self@.states.contains_key(
            url,
        ) by {
            if keys.contains(url) {
                let i = keys.index_of(url);
                assert(keys[i] == url);
            }
        }
    }

    /// Makes an empty store that keeps at most `max_size` values.
    pub fn new(max_size: usize) -> (r: Self)
        ensures
            r.wf(),
            r@ == StoreView::empty(max_size as nat),
    {
        let r = PageStateStore {
            urls: Vec::new(),
            values: Vec::new(),
            stateless: Vec::new(),
            preload_urls: Vec::new(),
            preload_slots: Vec::new(),
            max_size,
        };
        proof {
            assert(r@.states =~= Map::empty());
            assert(r@.order =~= Seq::empty());
            assert(r@.stateless =~= Set::empty());
            assert(r@.preloads =~= Map::empty());
        }
        r
    }

    /// The bound that the store was made with.
    pub fn max_size(&self) -> (r: usize)
        ensures
            r == self@.max_size,
    {
        self.max_size
    }

    /// The number of values that the store holds.
    pub fn len(&self) -> (r: usize)
        ensures
            r == self@.order.len(),
    {
        self.urls.len()
    }

    /// The flag of the page at `url`.
    pub fn flag(&self, url: &str) -> (r: PageStateFlag)
        requires
            self.wf(),
        ensures
            r == self@.flag(url@),
    {
        if find_key(&self.stateless, url).is_some() {
            PageStateFlag::NeverReceivesState
        } else if find_key(&self.urls, url).is_some() {
            proof {
                lemma_table_dom(self.urls.deep_view(), self.values.deep_view());
            }
            PageStateFlag::HasState
        } else {
            proof {
                lemma_table_dom(self.urls.deep_view(), self.values.deep_view());
            }
            PageStateFlag::Unset
        }
    }

    /// A copy of the value registered for `url`, provided that it belongs to
    /// the type `kind`.
    pub fn get_state(&self, url: &str, kind: &str) -> (r: Option<StateValue>)
        requires
            self.wf(),
        ensures
            r.deep_view() == self@.get_state(url@, kind@),
    {
        proof {
            lemma_table_dom(self.urls.deep_view(), self.values.deep_view());
        }
        match find_key(&self.urls, url) {
            Some(i) => {
                proof {
                    lemma_table_entry(self.urls.deep_view(), self.values.deep_view(), i as int);
                }
                if self.values[i].is_kind(kind) {
                    Some(self.values[i].clone())
                } else {
                    None
                }
            },
            None => None,
        }
    }

    /// Registers `value` for `url`. A page that never takes state keeps none:
    /// the call then changes nothing and returns `false`. Otherwise it returns
    /// `true`; a value already stored for `url` is replaced, and a new URL that
    /// takes the store past its bound has the oldest entry dropped.
    pub fn add_state(&mut self, url: &str, value: StateValue) -> (accepted: bool)
        requires
            old(self).wf(),
        ensures
            final(self).wf(),
            accepted == old(self)@.accepts(url@),
            final(self)@ == old(self)@.add_state(url@, value@),
    {
        if find_key(&self.stateless, url).is_some() {
            return false;
        }
        let ghost keys = self.urls.deep_view();
        let ghost vals = self.values.deep_view();
        proof {
            lemma_table_dom(keys, vals);
        }
        match find_key(&self.urls, url) {
            Some(i) => {
                self.values.set(i, value);
                proof {
                    lemma_table_update(keys, vals, i as int, value@);
                    assert(self.values.deep_view() =~= vals.update(i as int, value@));
                }
            },
            None => {
                self.urls.push(url.to_owned());
                self.values.push(value);
                proof {
                    lemma_table_push(keys, vals, url@, value@);
                    assert(self.urls.deep_view() =~= keys.push(url@));
                    assert(self.values.deep_view() =~= vals.push(value@));
                }
                if self.urls.len() > self.max_size {
                    self.urls.remove(0);
                    self.values.remove(0);
                    proof {
                        lemma_table_remove(keys.push(url@), vals.push(value@), 0);
                        assert(self.urls.deep_view() =~= keys.push(url@).remove(0));
                        assert(self.values.deep_view() =~= vals.push(value@).remove(0));
                    }
                }
            },
        }
        true
    }

    /// Declares that the page at `url` never takes state. A value stored for it
    /// is dropped, and every later registration for it is refused.
    pub fn set_state_never(&mut self, url: &str)
        requires
            old(self).wf(),
        ensures
            final(self).wf(),
            final(self)@ == old(self)@.set_state_never(url@),
    {
        self.drop_value(url);
        let ghost marked = self.stateless.deep_view();
        if find_key(&self.stateless, url).is_none() {
            self.stateless.push(url.to_owned());
            proof {
                assert(self.stateless.deep_view() =~= marked.push(url@));
                marked.lemma_push_to_set_commute(url@);
                assert forall|i: int| 0 <= i < self.urls.len() implies !self.stateless.deep_view().contains(
                    #[trigger] self.urls.deep_view()[i],
                ) by {
                    let key = self.urls.deep_view()[i];
                    if self.stateless.deep_view().contains(key) {
                        let j = self.stateless.deep_view().index_of(key);
                        if j < marked.len() {
                            assert(marked[j] == key);
                        }
                    }
                }
            }
        } else {
            proof {
                assert(marked.to_set().insert(url@) =~= marked.to_set());
            }
        }
    }

    /// Drops the value and the preload of `url`. The mark of a page that never
    /// takes state stays.
    pub fn remove(&mut self, url: &str)
        requires
            old(self).wf(),
        ensures
            final(self).wf(),
            final(self)@ == old(self)@.remove(url@),
    {
        self.drop_value(url);
        let ghost keys = self.preload_urls.deep_view();
        let ghost slots = self.preload_slots.deep_view();
        match find_key(&self.preload_urls, url) {
            Some(i) => {
                self.preload_urls.remove(i);
                self.preload_slots.remove(i);
                proof {
                    lemma_table_remove(keys, slots, i as int);
                    assert(self.preload_urls.deep_view() =~= keys.remove(i as int));
                    assert(self.preload_slots.deep_view() =~= slots.remove(i as int));
                }
            },
            None => {
                proof {
                    lemma_table_dom(keys, slots);
                    assert(table_map(keys, slots).remove(url@) =~= table_map(keys, slots));
                }
            },
        }
    }

    /// Drops the value of `url`, if there is one, and nothing else.
    fn drop_value(&mut self, url: &str)
        requires
            old(self).wf(),
        ensures
            final(self).wf(),
            final(self)@ == (StoreView {
                states: old(self)@.states.remove(url@),
                order: without(old(self)@.order, url@),
                ..old(self)@
            }),
            final(self).stateless == old(self).stateless,
            final(self).preload_urls == old(self).preload_urls,
            final(self).preload_slots == old(self).preload_slots,
    {
        let ghost keys = self.urls.deep_view();
        let ghost vals = self.values.deep_view();
        match find_key(&self.urls, url) {
            Some(i) => {
                self.urls.remove(i);
                self.values.remove(i);
                proof {
                    lemma_index_of_distinct(keys, i as int);
                    lemma_table_remove(keys, vals, i as int);
                    assert(self.urls.deep_view() =~= keys.remove(i as int));
                    assert(self.values.deep_view() =~= vals.remove(i as int));
                    assert forall|j: int| 0 <= j < self.urls.len() implies !self.stateless.deep_view().contains(
                        #[trigger] self.urls.deep_view()[j],
                    ) by {
                        let j0 = if j < i { j } else { j + 1 };
                        assert(self.urls.deep_view()[j] == keys[j0]);
                    }
                }
            },
            None => {
                proof {
                    lemma_table_dom(keys, vals);
                    assert(table_map(keys, vals).remove(url@) =~= table_map(keys, vals));
                }
            },
        }
    }

    /// How far the preload of `url` has come.
    pub fn preload_status(&self, url: &str) -> (r: PreloadStatus)
        requires
            self.wf(),
        ensures
            r == self@.preload_status(url@),
    {
        proof {
            lemma_table_dom(self.preload_urls.deep_view(), self.preload_slots.deep_view());
        }
        match find_key(&self.preload_urls, url) {
            Some(i) => {
                proof {
                    lemma_table_entry(
                        self.preload_urls.deep_view(),
                        self.preload_slots.deep_view(),
                        i as int,
                    );
                }
                if self.preload_slots[i].data.is_none() {
                    PreloadStatus::InFlight
                } else if self.preload_slots[i].route_scoped {
                    PreloadStatus::RoutePreloaded
                } else {
                    PreloadStatus::Preloaded
                }
            },
            None => PreloadStatus::Absent,
        }
    }

    /// A copy of the page data that a finished preload of `url` has brought.
    pub fn get_preloaded(&self, url: &str) -> (r: Option<String>)
        requires
            self.wf(),
        ensures
            r.deep_view() == self@.get_preloaded(url@),
    {
        proof {
            lemma_table_dom(self.preload_urls.deep_view(), self.preload_slots.deep_view());
        }
        match find_key(&self.preload_urls, url) {
            Some(i) => {
                proof {
                    lemma_table_entry(
                        self.preload_urls.deep_view(),
                        self.preload_slots.deep_view(),
                        i as int,
                    );
                }
                match &self.preload_slots[i].data {
                    Some(data) => Some(data.clone()),
                    None => None,
                }
            },
            None => None,
        }
    }

    /// Asks for a preload of `url` and says what the caller has to do. A fetch
    /// is asked of one caller only: while it is under way every other caller is
    /// told to wait for it.
    pub fn begin_preload(&mut self, url: &str, route_scoped: bool) -> (step: PreloadStep)
        requires
            old(self).wf(),
        ensures
            final(self).wf(),
            step == old(self)@.preload_step(url@),
            final(self)@ == old(self)@.begin_preload(url@, route_scoped),
    {
        let flag = self.flag(url);
        if flag != PageStateFlag::Unset {
            return PreloadStep::Cached;
        }
        match self.preload_status(url) {
            PreloadStatus::Absent => {
                let ghost keys = self.preload_urls.deep_view();
                let ghost slots = self.preload_slots.deep_view();
                proof {
                    lemma_table_dom(keys, slots);
                }
                let slot = PreloadSlot { route_scoped, data: None };
                self.preload_urls.push(url.to_owned());
                self.preload_slots.push(slot);
                proof {
                    lemma_table_push(keys, slots, url@, slot.deep_view());
                    assert(self.preload_urls.deep_view() =~= keys.push(url@));
                    assert(self.preload_slots.deep_view() =~= slots.push(slot.deep_view()));
                }
                PreloadStep::Fetch
            },
            PreloadStatus::InFlight => PreloadStep::Join,
            _ => PreloadStep::Cached,
        }
    }

    /// Takes in what the fetch for `url` brought: the page data, or nothing
    /// where the page was not found. Returns whether page data is now stored
    /// for `url` by this call.
    pub fn finish_preload(&mut self, url: &str, fetched: Option<String>) -> (stored: bool)
        requires
            old(self).wf(),
        ensures
            final(self).wf(),
            stored == (old(self)@.preload_status(url@) == PreloadStatus::InFlight && fetched is Some),
            final(self)@ == old(self)@.finish_preload(url@, fetched.deep_view()),
    {
        let ghost keys = self.preload_urls.deep_view();
        let ghost slots = self.preload_slots.deep_view();
        proof {
            lemma_table_dom(keys, slots);
        }
        match find_key(&self.preload_urls, url) {
            Some(i) => {
                proof {
                    lemma_table_entry(keys, slots, i as int);
                }
                if self.preload_slots[i].data.is_some() {
                    return false;
                }
                match fetched {
                    Some(data) => {
                        let slot = PreloadSlot {
                            route_scoped: self.preload_slots[i].route_scoped,
                            data: Some(data),
                        };
                        self.preload_slots.set(i, slot);
                        proof {
                            lemma_table_update(keys, slots, i as int, slot.deep_view());
                            assert(self.preload_slots.deep_view() =~= slots.update(
                                i as int,
                                slot.deep_view(),
                            ));
                        }
                        true
                    },
                    None => {
                        self.preload_urls.remove(i);
                        self.preload_slots.remove(i);
                        proof {
                            lemma_table_remove(keys, slots, i as int);
                            assert(self.preload_urls.deep_view() =~= keys.remove(i as int));
                            assert(self.preload_slots.deep_view() =~= slots.remove(i as int));
                        }
                        false
                    },
                }
            },
            None => false,
        }
    }

    /// Drops every preload that lasts for the current route only. This is the
    /// hook for the router: it is to be called when a navigation away from the
    /// current route has succeeded.
    pub fn clear_route_preloads(&mut self)
        requires
            old(self).wf(),
        ensures
            final(self).wf(),
            final(self)@ == old(self)@.clear_route_preloads(),
    {
        let ghost before = self@.preloads;
        let mut i: usize = 0;
        while i < self.preload_urls.len()
            invariant
                self.wf(),
                i <= self.preload_urls.len(),
                self.urls == old(self).urls,
                self.values == old(self).values,
                self.stateless == old(self).stateless,
                self.max_size == old(self).max_size,
                forall|j: int| 0 <= j < i ==> !(#[trigger] self.preload_slots.deep_view()[j]).route_scoped,
                forall|url: Seq<char>| #[trigger]
                    self@.preloads.contains_key(url) ==> before.contains_key(url) && before[url]
                        == self@.preloads[url],
                forall|url: Seq<char>|
                    before.contains_key(url) && !before[url].route_scoped
                        ==> #[trigger] self@.preloads.contains_key(url),
            decreases self.preload_urls.len() - i,
        {
            let ghost keys = self.preload_urls.deep_view();
            let ghost slots = self.preload_slots.deep_view();
            let ghost current = self@.preloads;
            proof {
                lemma_table_entry(keys, slots, i as int);
            }
            if self.preload_slots[i].route_scoped {
                self.preload_urls.remove(i);
                self.preload_slots.remove(i);
                proof {
                    lemma_table_remove(keys, slots, i as int);
                    assert(self.preload_urls.deep_view() =~= keys.remove(i as int));
                    assert(self.preload_slots.deep_view() =~= slots.remove(i as int));
                    assert(self@.preloads == current.remove(keys[i as int]));
                    assert(current[keys[i as int]].route_scoped);
                    assert forall|url: Seq<char>| #[trigger]
                        self@.preloads.contains_key(url) implies before.contains_key(url)
                        && before[url] == self@.preloads[url] by {
                        assert(current.contains_key(url));
                    }
                    assert forall|url: Seq<char>|
                        before.contains_key(url)
                            && !before[url].route_scoped implies #[trigger] self@.preloads.contains_key(
                        url,
                    ) by {
                        assert(current.contains_key(url));
                    }
                    assert forall|j: int| 0 <= j < i implies !(
                    #[trigger] self.preload_slots.deep_view()[j]).route_scoped by {
                        assert(self.preload_slots.deep_view()[j] == slots[j]);
                    }
                }
            } else {
                i += 1;
            }
        }
        proof {
            let keys = self.preload_urls.deep_view();
            let slots = self.preload_slots.deep_view();
            lemma_table_dom(keys, slots);
            assert forall|url: Seq<char>| #[trigger]
                self@.preloads.contains_key(url) implies !before[url].route_scoped by {
                let j = keys.index_of(url);
                lemma_table_entry(keys, slots, j);
            }
            assert(self@.preloads =~= old(self)@.clear_route_preloads().preloads);
        }
    }

    /// Every registered value in its serialized form: the URL and the document,
    /// in the order of registration. The store is left as it is.
    pub fn freeze_pages(&self) -> (r: Vec<(String, String)>)
        requires
            self.wf(),
        ensures
            r.deep_view() == self@.frozen_pages(),
    {
        let mut pages: Vec<(String, String)> = Vec::new();
        let mut i: usize = 0;
        while i < self.urls.len()
            invariant
                self.wf(),
                i <= self.urls.len(),
                pages.len() == i,
                forall|j: int| 0 <= j < i ==> pages.deep_view()[j] == self@.frozen_pages()[j],
            decreases self.urls.len() - i,
        {
            proof {
                lemma_table_entry(self.urls.deep_view(), self.values.deep_view(), i as int);
            }
            let ghost before = pages.deep_view();
            let page = (self.urls[i].clone(), self.values[i].freeze());
            pages.push(page);
            proof {
                let entry = (self.urls.deep_view()[i as int], self.values.deep_view()[i as int].document);
                assert(pages.deep_view() =~= before.push(entry));
                assert(self@.frozen_pages()[i as int] == entry);
            }
            i += 1;
        }
        assert(pages.deep_view() =~= self@.frozen_pages());
        pages
    }
}

} // verus!
