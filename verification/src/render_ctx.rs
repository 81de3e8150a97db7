//! The render context: the page state store, the global state, the router's
//! state and a pending frozen snapshot, and the rules by which a request for
//! state is answered from frozen or from active state.
//!
//! A request is answered in one of three ways: with frozen state, which is
//! taken out of the pending snapshot and registered as active state; with
//! active state; or with nothing, in which case the caller generates the state
//! afresh. An entry of the snapshot is used at most once, and an entry that
//! cannot be decoded is passed over in silence.

use crate::errors::ClientError;
use crate::frozen_app::{decode_snapshot, FrozenApp, FrozenView, ThawPrefs};
use crate::json::{json_valid, member_keys, member_values};
use crate::page_state_store::{PageStateStore, PreloadStatus, PreloadStep, StoreView};
use crate::router::{RouteVerdict, RouterLoadState, RouterState};
use crate::state::{decode_state, frozen_global, typed, GlobalState, StateValue, StateView};
use crate::table::table_map;
use vstd::prelude::*;

verus! {

/// What `thaw` asks of the router once the snapshot is staged.
#[derive(Debug)]
pub enum ThawAction {
    /// Load the current route again.
    Reload,
    /// Go to the given route.
    Navigate(String),
}

/// The mathematical content of a render context, without the router's state.
#[verifier::ext_equal]
pub struct CtxView {
    /// The page state store.
    pub store: StoreView,
    /// The global state.
    pub global: Option<StateView>,
    /// The pending snapshot with its preferences, where one is staged.
    pub pending: Option<(FrozenView, ThawPrefs)>,
}

impl CtxView {
    /// What decoding the frozen entry of `url` at the type `kind` gives:
    /// nothing where no snapshot is pending or it has no such entry.
    pub open spec fn decoded_page(self, url: Seq<char>, kind: Seq<char>) -> Option<StateView> {
        match self.pending {
            Some((snapshot, _)) if snapshot.pages.contains_key(url) => decode_state(
                kind,
                snapshot.pages[url],
            ),
            _ => None,
        }
    }

    /// What decoding the frozen global state at the type `kind` gives: nothing
    /// where no snapshot is pending or it holds no global state.
    pub open spec fn decoded_global(self, kind: Seq<char>) -> Option<StateView> {
        match self.pending {
            Some((snapshot, _)) if snapshot.has_global_state() => decode_state(
                kind,
                snapshot.global_state,
            ),
            _ => None,
        }
    }

    /// Whether a request for the state of `url` is answered with frozen state,
    /// given what decoding the frozen entry gave.
    pub open spec fn page_from_frozen(
        self,
        url: Seq<char>,
        kind: Seq<char>,
        decoded: Option<StateView>,
    ) -> bool {
        &&& self.pending matches Some((snapshot, prefs))
        &&& snapshot.pages.contains_key(url)
        &&& decoded is Some
        &&& self.store.accepts(url)
        &&& prefs.page.prefers_frozen(url) || self.store.get_state(url, kind) is None
    }

    /// Whether a request for the global state is answered with frozen state,
    /// given what decoding the frozen global state gave.
    pub open spec fn global_from_frozen(self, kind: Seq<char>, decoded: Option<StateView>) -> bool {
        &&& self.pending matches Some((snapshot, prefs))
        &&& snapshot.has_global_state()
        &&& decoded is Some
        &&& prefs.global_prefer_frozen || typed(self.global, kind) is None
    }

    /// The frozen path for a page. Where the pending snapshot has an entry for
    /// `url` and it was decoded, the value is registered and the entry leaves
    /// the snapshot; where the store refuses the value, nothing is returned and
    /// nothing changes. In every other case the answer is the active state.
    pub open spec fn frozen_page_step(
        self,
        url: Seq<char>,
        kind: Seq<char>,
        decoded: Option<StateView>,
    ) -> (CtxView, Option<StateView>) {
        match self.pending {
            None => (self, None),
            Some((snapshot, prefs)) => {
                if !snapshot.pages.contains_key(url) || decoded is None {
                    (self, self.store.get_state(url, kind))
                } else if !self.store.accepts(url) {
                    (self, None)
                } else {
                    (
                        CtxView {
                            store: self.store.add_state(url, decoded->0),
                            pending: Some((snapshot.remove_page(url), prefs)),
                            ..self
                        },
                        decoded,
                    )
                }
            },
        }
    }

    /// The answer to a request for the state of `url`, and the context after
    /// it.
    pub open spec fn page_step(self, url: Seq<char>, kind: Seq<char>, decoded: Option<StateView>) -> (
        CtxView,
        Option<StateView>,
    ) {
        match self.pending {
            None => (self, self.store.get_state(url, kind)),
            Some((snapshot, prefs)) => {
                if prefs.page.prefers_frozen(url) {
                    let frozen = self.frozen_page_step(url, kind, decoded);
                    if frozen.1 is Some {
                        frozen
                    } else {
                        (frozen.0, frozen.0.store.get_state(url, kind))
                    }
                } else if self.store.get_state(url, kind) is Some {
                    (self, self.store.get_state(url, kind))
                } else {
                    self.frozen_page_step(url, kind, decoded)
                }
            },
        }
    }

    /// The frozen path for the global state. Where the pending snapshot holds a
    /// global state and it was decoded, the value becomes the active global
    /// state and leaves the snapshot. In every other case nothing is returned
    /// and nothing changes.
    pub open spec fn frozen_global_step(self, decoded: Option<StateView>) -> (
        CtxView,
        Option<StateView>,
    ) {
        match self.pending {
            None => (self, None),
            Some((snapshot, prefs)) => {
                if !snapshot.has_global_state() || decoded is None {
                    (self, None)
                } else {
                    (
                        CtxView {
                            global: decoded,
                            pending: Some((snapshot.clear_global_state(), prefs)),
                            ..self
                        },
                        decoded,
                    )
                }
            },
        }
    }

    /// The answer to a request for the global state, and the context after it.
    pub open spec fn global_step(self, kind: Seq<char>, decoded: Option<StateView>) -> (
        CtxView,
        Option<StateView>,
    ) {
        match self.pending {
            None => (self, typed(self.global, kind)),
            Some((snapshot, prefs)) => {
                if prefs.global_prefer_frozen {
                    let frozen = self.frozen_global_step(decoded);
                    if frozen.1 is Some {
                        frozen
                    } else {
                        (self, typed(self.global, kind))
                    }
                } else if typed(self.global, kind) is Some {
                    (self, typed(self.global, kind))
                } else {
                    self.frozen_global_step(decoded)
                }
            },
        }
    }

    /// The snapshot of this context at the route `route`.
    pub open spec fn frozen(self, route: Seq<char>) -> FrozenView {
        FrozenView {
            global_state: frozen_global(self.global),
            route,
            pages: Map::new(
                |url: Seq<char>| self.store.states.contains_key(url),
                |url: Seq<char>| self.store.states[url].document,
            ),
            order: self.store.order,
        }
    }

    /// The context with `snapshot` staged under `prefs`. The active state is
    /// left as it is; a snapshot that was pending before is dropped.
    pub open spec fn staged(self, snapshot: FrozenView, prefs: ThawPrefs) -> CtxView {
        CtxView { pending: Some((snapshot, prefs)), ..self }
    }
}

/// Whether thawing a snapshot taken at `route` while the application is at
/// `current` ends in a reload of the current route: the routes are the same, or
/// the snapshot was taken where there was no route.
pub open spec fn thaw_reloads(route: Seq<char>, current: Seq<char>) -> bool {
    route == current || route == "SERVER"@
}

/// Whether `action` is what thawing a snapshot taken at `route` asks of the
/// router while the application is at `current`.
pub open spec fn is_thaw_action(action: ThawAction, route: Seq<char>, current: Seq<char>) -> bool {
    match action {
        ThawAction::Reload => thaw_reloads(route, current),
        ThawAction::Navigate(to) => !thaw_reloads(route, current) && to@ == route,
    }
}

/// One request for state, with what decoding the frozen state it concerns
/// gave.
pub enum Request {
    /// A request for the state of the page at `url`.
    Page { url: Seq<char>, kind: Seq<char>, decoded: Option<StateView> },
    /// A request for the global state.
    Global { kind: Seq<char>, decoded: Option<StateView> },
}

impl CtxView {
    /// The context after one request.
    pub open spec fn answer(self, request: Request) -> CtxView {
        match request {
            Request::Page { url, kind, decoded } => self.page_step(url, kind, decoded).0,
            Request::Global { kind, decoded } => self.global_step(kind, decoded).0,
        }
    }

    /// The context after a sequence of requests, the first of them first.
    pub open spec fn answer_all(self, requests: Seq<Request>) -> CtxView
        decreases requests.len(),
    {
        if requests.len() == 0 {
            self
        } else {
            self.answer(requests[0]).answer_all(requests.drop_first())
        }
    }

    /// The pending snapshot, where one is staged.
    pub open spec fn snapshot(self) -> FrozenView {
        let (snapshot, _) = self.pending->0;
        snapshot
    }

    /// The preferences of the pending snapshot, where one is staged.
    pub open spec fn prefs(self) -> ThawPrefs {
        let (_, prefs) = self.pending->0;
        prefs
    }

    /// The serialized state of the page at `url` in the pending snapshot.
    pub open spec fn frozen_page(self, url: Seq<char>) -> Option<Seq<char>> {
        match self.pending {
            Some((snapshot, _)) => snapshot.page(url),
            None => None,
        }
    }
}

/// A request for the state of a page has one of two outcomes. Either it is
/// answered with frozen state: then the decoded value is returned, it is
/// registered in the store, and its entry leaves the snapshot. Or it is
/// answered with the active state, which may be absent, and nothing changes.
pub proof fn lemma_page_step_outcomes(
    ctx: CtxView,
    url: Seq<char>,
    kind: Seq<char>,
    decoded: Option<StateView>,
)
    ensures
        ctx.page_from_frozen(url, kind, decoded) ==> ctx.page_step(url, kind, decoded) == (
            CtxView {
                store: ctx.store.add_state(url, decoded->0),
                pending: Some((ctx.snapshot().remove_page(url), ctx.prefs())),
                ..ctx
            },
            decoded,
        ),
        !ctx.page_from_frozen(url, kind, decoded) ==> ctx.page_step(url, kind, decoded) == (
            ctx,
            ctx.store.get_state(url, kind),
        ),
{
}

/// A request for the global state has one of two outcomes. Either it is
/// answered with frozen state: then the decoded value is returned, it becomes
/// the active global state, and the snapshot holds no global state any more.
/// Or it is answered with the active global state, which may be absent, and
/// nothing changes.
pub proof fn lemma_global_step_outcomes(ctx: CtxView, kind: Seq<char>, decoded: Option<StateView>)
    ensures
        ctx.global_from_frozen(kind, decoded) ==> ctx.global_step(kind, decoded) == (
            CtxView {
                global: decoded,
                pending: Some((ctx.snapshot().clear_global_state(), ctx.prefs())),
                ..ctx
            },
            decoded,
        ),
        !ctx.global_from_frozen(kind, decoded) ==> ctx.global_step(kind, decoded) == (
            ctx,
            typed(ctx.global, kind),
        ),
{
}

/// No request adds to the pending snapshot: an entry that the snapshot has
/// after a request was there before it, with the same text, and so was a
/// global state.
pub proof fn lemma_snapshot_only_shrinks(ctx: CtxView, request: Request, url: Seq<char>)
    ensures
        ctx.answer(request).frozen_page(url) is Some ==> ctx.answer(request).frozen_page(url)
            == ctx.frozen_page(url),
        ctx.answer(request).pending is Some ==> ctx.pending is Some,
        ctx.answer(request).pending is Some && ctx.answer(request).snapshot().has_global_state()
            ==> ctx.answer(request).snapshot().global_state == ctx.snapshot().global_state,
{
}

/// A frozen entry that is not in the pending snapshot does not come back,
/// whatever requests are answered.
pub proof fn lemma_frozen_page_stays_out(ctx: CtxView, url: Seq<char>, requests: Seq<Request>)
    requires
        ctx.frozen_page(url) is None,
    ensures
        ctx.answer_all(requests).frozen_page(url) is None,
    decreases requests.len(),
{
    if requests.len() > 0 {
        lemma_snapshot_only_shrinks(ctx, requests[0], url);
        lemma_frozen_page_stays_out(ctx.answer(requests[0]), url, requests.drop_first());
    }
}

/// A frozen entry is used once. The request that is answered with the frozen
/// state of a page takes the entry out of the snapshot. After it, and after
/// whatever other requests, a request for the same page is answered with the
/// active state, present or absent, and changes nothing.
pub proof fn lemma_frozen_page_is_used_once(
    ctx: CtxView,
    url: Seq<char>,
    kind: Seq<char>,
    decoded: Option<StateView>,
    requests: Seq<Request>,
    later_kind: Seq<char>,
    later_decoded: Option<StateView>,
)
    requires
        ctx.page_from_frozen(url, kind, decoded),
    ensures
        ({
            let first = ctx.page_step(url, kind, decoded);
            let later = first.0.answer_all(requests);
            &&& first.1 == decoded
            &&& first.0.frozen_page(url) is None
            &&& first.0.store == ctx.store.add_state(url, decoded->0)
            &&& later.frozen_page(url) is None
            &&& !later.page_from_frozen(url, later_kind, later_decoded)
            &&& later.page_step(url, later_kind, later_decoded) == (
                later,
                later.store.get_state(url, later_kind),
            )
        }),
{
    let first = ctx.page_step(url, kind, decoded);
    lemma_frozen_page_stays_out(first.0, url, requests);
}

/// The frozen global state is used once, as a frozen entry of a page is.
pub proof fn lemma_frozen_global_is_used_once(
    ctx: CtxView,
    kind: Seq<char>,
    decoded: Option<StateView>,
    later_kind: Seq<char>,
    later_decoded: Option<StateView>,
)
    requires
        ctx.global_from_frozen(kind, decoded),
    ensures
        ({
            let first = ctx.global_step(kind, decoded);
            &&& first.1 == decoded
            &&& first.0.global == decoded
            &&& !first.0.global_from_frozen(later_kind, later_decoded)
            &&& first.0.global_step(later_kind, later_decoded) == (
                first.0,
                typed(decoded, later_kind),
            )
        }),
{
}

/// The preference of a page decides where both frozen and active state are
/// there: a page that prefers frozen state gets the frozen value, every other
/// page the active one. Where only one of the two is there, it is the answer,
/// whatever the preference.
pub proof fn lemma_page_preference(
    ctx: CtxView,
    url: Seq<char>,
    kind: Seq<char>,
    decoded: Option<StateView>,
)
    requires
        ctx.pending is Some,
    ensures
        ({
            let prefers_frozen = ctx.prefs().page.prefers_frozen(url);
            let frozen_there = ctx.snapshot().pages.contains_key(url) && decoded is Some
                && ctx.store.accepts(url);
            let active = ctx.store.get_state(url, kind);
            let answer = ctx.page_step(url, kind, decoded).1;
            &&& frozen_there && active is Some && prefers_frozen ==> answer == decoded
            &&& frozen_there && active is Some && !prefers_frozen ==> answer == active
            &&& frozen_there && active is None ==> answer == decoded
            &&& !frozen_there ==> answer == active
        }),
{
}

/// The preference `global_prefer_frozen` decides where both a frozen and an
/// active global state are there; where only one of the two is there, it is the
/// answer.
pub proof fn lemma_global_preference(ctx: CtxView, kind: Seq<char>, decoded: Option<StateView>)
    requires
        ctx.pending is Some,
    ensures
        ({
            let prefers_frozen = ctx.prefs().global_prefer_frozen;
            let frozen_there = ctx.snapshot().has_global_state() && decoded is Some;
            let active = typed(ctx.global, kind);
            let answer = ctx.global_step(kind, decoded).1;
            &&& frozen_there && active is Some && prefers_frozen ==> answer == decoded
            &&& frozen_there && active is Some && !prefers_frozen ==> answer == active
            &&& frozen_there && active is None ==> answer == decoded
            &&& !frozen_there ==> answer == active
        }),
{
}

/// An entry that cannot be decoded is passed over: the request for its page is
/// answered with the active state and changes nothing, so that every entry of
/// the snapshot is still there for the requests that follow. And a request for
/// one page leaves the entries of all other pages as they are.
pub proof fn lemma_undecodable_entry_is_passed_over(
    ctx: CtxView,
    url: Seq<char>,
    kind: Seq<char>,
    decoded: Option<StateView>,
    other: Seq<char>,
)
    ensures
        ctx.page_step(url, kind, None) == (ctx, ctx.store.get_state(url, kind)),
        other != url ==> ctx.page_step(url, kind, decoded).0.frozen_page(other) == ctx.frozen_page(
            other,
        ),
{
}

/// An entry that is no serialized state does not stand in the way of the
/// others. Let the pending snapshot hold an entry that is not well-formed JSON
/// beside one that is, for a page that prefers frozen state and takes state.
/// Then the request for the page of the first changes nothing, and the request
/// for the page of the second, made after it, is answered with the frozen
/// state of that page.
pub proof fn lemma_valid_entries_outlast_a_broken_one(
    ctx: CtxView,
    broken: Seq<char>,
    valid: Seq<char>,
    broken_kind: Seq<char>,
    valid_kind: Seq<char>,
)
    requires
        ctx.pending is Some,
        ctx.snapshot().pages.contains_key(broken),
        ctx.snapshot().pages.contains_key(valid),
        !json_valid(ctx.snapshot().pages[broken]),
        json_valid(ctx.snapshot().pages[valid]),
        ctx.prefs().page.prefers_frozen(valid),
        ctx.store.accepts(valid),
    ensures
        ({
            let first = ctx.page_step(broken, broken_kind, ctx.decoded_page(broken, broken_kind));
            let second = first.0.page_step(valid, valid_kind, first.0.decoded_page(valid, valid_kind));
            &&& first == (ctx, ctx.store.get_state(broken, broken_kind))
            &&& second.1 == Some(
                StateView { kind: valid_kind, document: ctx.snapshot().pages[valid] },
            )
            &&& second.0.frozen_page(valid) is None
            &&& second.0.frozen_page(broken) == Some(ctx.snapshot().pages[broken])
        }),
{
}

/// Freezing and thawing at once gives every page its state back. Let a
/// snapshot of the context be staged at once, under preferences by which every
/// page prefers frozen state. Then a request for a page that had active state,
/// at the type of that state, is answered with a value equal to it, and the
/// store holds after the request what it held before.
pub proof fn lemma_freeze_thaw_restores_pages(
    ctx: CtxView,
    route: Seq<char>,
    prefs: ThawPrefs,
    url: Seq<char>,
)
    requires
        ctx.store.wf(),
        forall|page: Seq<char>| prefs.page.prefers_frozen(page),
        ctx.store.states.contains_key(url),
    ensures
        ({
            let value = ctx.store.states[url];
            let thawed = ctx.staged(ctx.frozen(route), prefs);
            let step = thawed.page_step(url, value.kind, thawed.decoded_page(url, value.kind));
            &&& step.1 == Some(value)
            &&& step.0.store =~= ctx.store
        }),
{
    let value = ctx.store.states[url];
    let thawed = ctx.staged(ctx.frozen(route), prefs);
    let decoded = thawed.decoded_page(url, value.kind);
    assert(prefs.page.prefers_frozen(url));
    if decoded is Some {
        assert(decoded->0 == value);
        assert(ctx.store.states.insert(url, value) =~= ctx.store.states);
    }
}

/// Freezing and thawing at once gives the global state back. Let a snapshot of
/// the context be staged at once, under preferences by which the global state
/// prefers frozen state. Then a request for the global state, at the type of
/// the active global state, is answered with a value equal to it.
pub proof fn lemma_freeze_thaw_restores_global(ctx: CtxView, route: Seq<char>, prefs: ThawPrefs)
    requires
        prefs.global_prefer_frozen,
        ctx.global is Some,
    ensures
        ({
            let value = ctx.global->0;
            let thawed = ctx.staged(ctx.frozen(route), prefs);
            let step = thawed.global_step(value.kind, thawed.decoded_global(value.kind));
            &&& step.1 == Some(value)
            &&& step.0.global == Some(value)
        }),
{
}

/// No request for state lifts the mark of a page that never takes state, and
/// none gives such a page a value.
pub proof fn lemma_requests_keep_stateless(ctx: CtxView, url: Seq<char>, request: Request)
    requires
        ctx.store.wf(),
        ctx.store.stateless.contains(url),
    ensures
        ctx.answer(request).store.wf(),
        ctx.answer(request).store.stateless.contains(url),
        !ctx.answer(request).store.states.contains_key(url),
{
    match request {
        Request::Page { url: page, kind, decoded } => {
            if decoded is Some {
                crate::page_state_store::lemma_apply_keeps_wf(
                    ctx.store,
                    crate::page_state_store::StoreOp::AddState { url: page, value: decoded->0 },
                );
            }
        },
        Request::Global { kind, decoded } => {},
    }
}

impl CtxView {
    /// The invariant of a context: the store is well formed, and so is the
    /// pending snapshot.
    pub open spec fn wf(self) -> bool {
        &&& self.store.wf()
        &&& self.pending is Some ==> self.snapshot().wf()
    }
}

/// Every request keeps the invariant of the context: in particular the store
/// keeps its bound, and the snapshot lists each of its pages once.
pub proof fn lemma_requests_keep_wf(ctx: CtxView, request: Request)
    requires
        ctx.wf(),
    ensures
        ctx.answer(request).wf(),
{
    match request {
        Request::Page { url, kind, decoded } => {
            lemma_page_step_outcomes(ctx, url, kind, decoded);
            if ctx.page_from_frozen(url, kind, decoded) {
                crate::page_state_store::lemma_apply_keeps_wf(
                    ctx.store,
                    crate::page_state_store::StoreOp::AddState { url, value: decoded->0 },
                );
                let snapshot = ctx.snapshot();
                crate::page_state_store::lemma_without(snapshot.order, url);
                let rest = snapshot.remove_page(url);
                assert forall|page: Seq<char>|
                    rest.pages.contains_key(page) <==> rest.order.contains(page) by {
                    assert(snapshot.pages.contains_key(page) <==> snapshot.order.contains(page));
                }
            }
        },
        Request::Global { kind, decoded } => {
            lemma_global_step_outcomes(ctx, kind, decoded);
        },
    }
}

/// Freezing and thawing through the written form of the snapshot. Let the
/// snapshot of a context be written, and let what is read from that text hold
/// the pages that were written. Then thawing what was read, under preferences
/// by which every page prefers frozen state, gives every page its state back
/// as [`lemma_freeze_thaw_restores_pages`] says.
pub proof fn lemma_freeze_thaw_through_text(
    ctx: CtxView,
    route: Seq<char>,
    prefs: ThawPrefs,
    url: Seq<char>,
)
    requires
        ctx.store.wf(),
        forall|page: Seq<char>| prefs.page.prefers_frozen(page),
        ctx.store.states.contains_key(url),
        decode_snapshot(ctx.frozen(route).json_text()) is Ok,
        decode_snapshot(ctx.frozen(route).json_text())->Ok_0.pages == ctx.frozen(route).pages,
    ensures
        ({
            let value = ctx.store.states[url];
            let read = decode_snapshot(ctx.frozen(route).json_text())->Ok_0;
            let thawed = ctx.staged(read, prefs);
            let step = thawed.page_step(url, value.kind, thawed.decoded_page(url, value.kind));
            &&& step.1 == Some(value)
            &&& step.0.store =~= ctx.store
        }),
{
    let value = ctx.store.states[url];
    let read = decode_snapshot(ctx.frozen(route).json_text())->Ok_0;
    let thawed = ctx.staged(read, prefs);
    let decoded = thawed.decoded_page(url, value.kind);
    assert(prefs.page.prefers_frozen(url));
    assert(read.pages.contains_key(url));
    if decoded is Some {
        assert(decoded->0 == value);
        assert(ctx.store.states.insert(url, value) =~= ctx.store.states);
    }
}

/// The render context.
#[derive(Debug)]
pub struct RenderCtx {
    /// The router's state.
    pub router: RouterState,
    /// The page state store.
    pub page_state_store: PageStateStore,
    /// The global state.
    pub global_state: GlobalState,
    /// The pending snapshot with its preferences, where one is staged.
    pub frozen_app: Option<(FrozenApp, ThawPrefs)>,
}

impl View for RenderCtx {
    type V = CtxView;

    open spec fn view(&self) -> CtxView {
        CtxView {
            store: self.page_state_store@,
            global: self.global_state@,
            pending: match self.frozen_app {
                Some((snapshot, prefs)) => Some((snapshot@, prefs)),
                None => None,
            },
        }
    }
}

impl Default for RenderCtx {
    /// The render context for the side that renders without showing a page:
    /// its page state store keeps nothing.
    fn default() -> (r: Self)
        ensures
            r.wf(),
            r.router.load_state is Server,
            r@ == (CtxView { store: StoreView::empty(0), global: None, pending: None }),
    {
        RenderCtx::new(0)
    }
}

impl RenderCtx {
    /// The invariant of a render context: the store is well formed, and so is
    /// the pending snapshot.
    pub open spec fn wf(&self) -> bool {
        &&& self.page_state_store.wf()
        &&& self.frozen_app matches Some((snapshot, _)) ==> snapshot.wf()
    }

    /// A well-formed render context has a well-formed view.
    pub proof fn lemma_view_wf(&self)
        requires
            self.wf(),
        ensures
            self@.wf(),
    {
        self.page_state_store.lemma_view_wf();
        match self.frozen_app {
            Some((snapshot, _)) => {
                snapshot.lemma_view_wf();
            },
            None => {},
        }
    }

    /// Makes a render context whose page state store keeps at most
    /// `pss_max_size` values. Nothing is registered, no snapshot is pending, and
    /// the router has no route yet.
    pub fn new(pss_max_size: usize) -> (r: Self)
        ensures
            r.wf(),
            r.router.load_state is Server,
            r.router.last_loaded is None,
            r@ == (CtxView {
                store: StoreView::empty(pss_max_size as nat),
                global: None,
                pending: None,
            }),
    {
        RenderCtx {
            router: RouterState::new(),
            page_state_store: PageStateStore::new(pss_max_size),
            global_state: GlobalState::new(),
            frozen_app: None,
        }
    }

    /// The serialized state of the page at `url` in the pending snapshot.
    pub fn frozen_page_state_str(&self, url: &str) -> (r: Option<String>)
        requires
            self.wf(),
        ensures
            r.deep_view() == match self@.pending {
                Some((snapshot, _)) => snapshot.page(url@),
                None => None,
            },
    {
        match &self.frozen_app {
            Some((snapshot, _)) => snapshot.page_state(url),
            None => None,
        }
    }

    /// The serialized global state in the pending snapshot.
    pub fn frozen_global_state_str(&self) -> (r: Option<String>)
        requires
            self.wf(),
        ensures
            r.deep_view() == match self@.pending {
                Some((snapshot, _)) if snapshot.has_global_state() => Some(snapshot.global_state),
                _ => None,
            },
    {
        match &self.frozen_app {
            Some((snapshot, _)) => {
                if snapshot.has_global_state() {
                    Some(snapshot.global_state())
                } else {
                    None
                }
            },
            None => None,
        }
    }

    /// Decodes the frozen entry of `url` at the type `kind`.
    fn decode_frozen_page(&self, url: &str, kind: &str) -> (r: Option<StateValue>)
        requires
            self.wf(),
        ensures
            r.deep_view() == self@.decoded_page(url@, kind@),
    {
        match self.frozen_page_state_str(url) {
            Some(state_str) => StateValue::decode(kind, state_str.as_str()),
            None => None,
        }
    }

    /// Decodes the frozen global state at the type `kind`.
    fn decode_frozen_global(&self, kind: &str) -> (r: Option<StateValue>)
        requires
            self.wf(),
        ensures
            r.deep_view() == self@.decoded_global(kind@),
    {
        match self.frozen_global_state_str() {
            Some(state_str) => StateValue::decode(kind, state_str.as_str()),
            None => None,
        }
    }

    /// The frozen path for a page, given what decoding the frozen entry of
    /// `url` gave. A decoded entry is registered in the page state store and
    /// taken out of the snapshot: it is used once. Where the store refuses the
    /// value, because the page never takes state, nothing is returned and the
    /// entry stays. Where there is no entry, or it was not decoded, the answer
    /// is the active state.
    pub fn register_frozen_page_state(
        &mut self,
        url: &str,
        kind: &str,
        decoded: Option<StateValue>,
    ) -> (r: Option<StateValue>)
        requires
            old(self).wf(),
        ensures
            final(self).wf(),
            final(self).router == old(self).router,
            (final(self)@, r.deep_view()) == old(self)@.frozen_page_step(
                url@,
                kind@,
                decoded.deep_view(),
            ),
    {
        let has_entry = match &self.frozen_app {
            Some((snapshot, _)) => snapshot.page_state(url).is_some(),
            None => {
                return None;
            },
        };
        if !has_entry {
            return self.page_state_store.get_state(url, kind);
        }
        match decoded {
            None => self.page_state_store.get_state(url, kind),
            Some(value) => {
                let copy = value.clone();
                if !self.page_state_store.add_state(url, value) {
                    return None;
                }
                match self.frozen_app.take() {
                    Some((mut snapshot, prefs)) => {
                        snapshot.remove_page(url);
                        self.frozen_app = Some((snapshot, prefs));
                    },
                    None => {},
                }
                Some(copy)
            },
        }
    }

    /// The frozen path for a page: decodes the frozen entry of `url` at the type
    /// `kind` and goes on as [`RenderCtx::register_frozen_page_state`] does.
    pub fn get_frozen_page_state_and_register(&mut self, url: &str, kind: &str) -> (r: Option<
        StateValue,
    >)
        requires
            old(self).wf(),
        ensures
            final(self).wf(),
            final(self).router == old(self).router,
            (final(self)@, r.deep_view()) == old(self)@.frozen_page_step(
                url@,
                kind@,
                old(self)@.decoded_page(url@, kind@),
            ),
    {
        let decoded = self.decode_frozen_page(url, kind);
        self.register_frozen_page_state(url, kind, decoded)
    }

    /// The active state of the page at `url`, provided that it belongs to the
    /// type `kind`.
    pub fn get_active_page_state(&self, url: &str, kind: &str) -> (r: Option<StateValue>)
        requires
            self.wf(),
        ensures
            r.deep_view() == self@.store.get_state(url@, kind@),
    {
        self.page_state_store.get_state(url, kind)
    }

    /// Answers a request for the state of the page at `url`, given what
    /// decoding the frozen entry of `url` gave. Without a pending snapshot the
    /// answer is the active state. With one, a page that prefers frozen state is
    /// answered from the frozen path first and from the active state second, and
    /// every other page the other way round.
    pub fn reconcile_page_state(&mut self, url: &str, kind: &str, decoded: Option<StateValue>) -> (r:
        Option<StateValue>)
        requires
            old(self).wf(),
        ensures
            final(self).wf(),
            final(self).router == old(self).router,
            (final(self)@, r.deep_view()) == old(self)@.page_step(url@, kind@, decoded.deep_view()),
    {
        let prefer_frozen = match &self.frozen_app {
            Some((_, prefs)) => prefs.page.should_use_frozen_state(url),
            None => {
                return self.get_active_page_state(url, kind);
            },
        };
        if prefer_frozen {
            match self.register_frozen_page_state(url, kind, decoded) {
                Some(state) => Some(state),
                None => self.get_active_page_state(url, kind),
            }
        } else {
            match self.get_active_page_state(url, kind) {
                Some(state) => Some(state),
                None => self.register_frozen_page_state(url, kind, decoded),
            }
        }
    }

    /// Gets either the active state or the frozen state of the page at `url`, at
    /// the type `kind`. If neither is there, the caller generates the state
    /// afresh.
    pub fn get_active_or_frozen_page_state(&mut self, url: &str, kind: &str) -> (r: Option<
        StateValue,
    >)
        requires
            old(self).wf(),
        ensures
            final(self).wf(),
            final(self).router == old(self).router,
            (final(self)@, r.deep_view()) == old(self)@.page_step(
                url@,
                kind@,
                old(self)@.decoded_page(url@, kind@),
            ),
    {
        let decoded = self.decode_frozen_page(url, kind);
        self.reconcile_page_state(url, kind, decoded)
    }

    /// The frozen path for the global state, given what decoding the frozen
    /// global state gave. A decoded value becomes the active global state and is
    /// taken out of the snapshot: it is used once.
    pub fn register_frozen_global_state(&mut self, decoded: Option<StateValue>) -> (r: Option<
        StateValue,
    >)
        requires
            old(self).wf(),
        ensures
            final(self).wf(),
            final(self).router == old(self).router,
            (final(self)@, r.deep_view()) == old(self)@.frozen_global_step(decoded.deep_view()),
    {
        let has_global = match &self.frozen_app {
            Some((snapshot, _)) => snapshot.has_global_state(),
            None => false,
        };
        if !has_global {
            return None;
        }
        match decoded {
            None => None,
            Some(value) => {
                let copy = value.clone();
                self.global_state.set(value);
                match self.frozen_app.take() {
                    Some((mut snapshot, prefs)) => {
                        snapshot.clear_global_state();
                        self.frozen_app = Some((snapshot, prefs));
                    },
                    None => {},
                }
                Some(copy)
            },
        }
    }

    /// The frozen path for the global state: decodes the frozen global state at
    /// the type `kind` and goes on as
    /// [`RenderCtx::register_frozen_global_state`] does.
    pub fn get_frozen_global_state_and_register(&mut self, kind: &str) -> (r: Option<StateValue>)
        requires
            old(self).wf(),
        ensures
            final(self).wf(),
            final(self).router == old(self).router,
            (final(self)@, r.deep_view()) == old(self)@.frozen_global_step(
                old(self)@.decoded_global(kind@),
            ),
    {
        let decoded = self.decode_frozen_global(kind);
        self.register_frozen_global_state(decoded)
    }

    /// The active global state, provided that it belongs to the type `kind`.
    pub fn get_active_global_state(&self, kind: &str) -> (r: Option<StateValue>)
        ensures
            r.deep_view() == typed(self@.global, kind@),
    {
        self.global_state.get(kind)
    }

    /// Answers a request for the global state, given what decoding the frozen
    /// global state gave. The rule is that of
    /// [`RenderCtx::reconcile_page_state`], with the one preference
    /// `global_prefer_frozen` in place of the preferences by page.
    pub fn reconcile_global_state(&mut self, kind: &str, decoded: Option<StateValue>) -> (r: Option<
        StateValue,
    >)
        requires
            old(self).wf(),
        ensures
            final(self).wf(),
            final(self).router == old(self).router,
            (final(self)@, r.deep_view()) == old(self)@.global_step(kind@, decoded.deep_view()),
    {
        let prefer_frozen = match &self.frozen_app {
            Some((_, prefs)) => prefs.global_prefer_frozen,
            None => {
                return self.get_active_global_state(kind);
            },
        };
        if prefer_frozen {
            match self.register_frozen_global_state(decoded) {
                Some(state) => Some(state),
                None => self.get_active_global_state(kind),
            }
        } else {
            match self.get_active_global_state(kind) {
                Some(state) => Some(state),
                None => self.register_frozen_global_state(decoded),
            }
        }
    }

    /// Gets either the active or the frozen global state, at the type `kind`.
    pub fn get_active_or_frozen_global_state(&mut self, kind: &str) -> (r: Option<StateValue>)
        requires
            old(self).wf(),
        ensures
            final(self).wf(),
            final(self).router == old(self).router,
            (final(self)@, r.deep_view()) == old(self)@.global_step(
                kind@,
                old(self)@.decoded_global(kind@),
            ),
    {
        let decoded = self.decode_frozen_global(kind);
        self.reconcile_global_state(kind, decoded)
    }

    /// Takes a snapshot of the active state at the current route. The context
    /// is left as it is. There must be a route: a context that runs where no
    /// page is shown cannot be frozen.
    pub fn freeze_app(&self) -> (r: FrozenApp)
        requires
            self.wf(),
            self.router.load_state.route() is Some,
        ensures
            r.wf(),
            r@ == self@.frozen(self.router.load_state.route()->0),
    {
        let route = match self.router.load_state.path() {
            Some(route) => route,
            None => String::new(),
        };
        let pages = self.page_state_store.freeze_pages();
        proof {
            self.page_state_store.lemma_view_wf();
            let store = self@.store;
            let keys = member_keys(pages.deep_view());
            let values = member_values(pages.deep_view());
            assert(keys =~= store.order);
            assert(table_map(keys, values) =~= self@.frozen(route@).pages) by {
                assert forall|url: Seq<char>| #[trigger] keys.contains(url) implies table_map(
                    keys,
                    values,
                )[url] == store.states[url].document by {
                    let i = keys.index_of(url);
                    assert(keys[i] == url);
                }
            }
        }
        FrozenApp::from_pages(self.global_state.freeze(), route, pages)
    }

    /// Freezes the active state at the current route into a string that can be
    /// thawed later.
    pub fn freeze(&self) -> (r: String)
        requires
            self.wf(),
            self.router.load_state.route() is Some,
        ensures
            r@ == self@.frozen(self.router.load_state.route()->0).json_text(),
    {
        self.freeze_app().to_json()
    }

    /// Stages `snapshot` under `thaw_prefs` and says what the router has to do
    /// next so that the staged state gets used. The active state is not read
    /// and not changed. There must be a route, as for
    /// [`RenderCtx::freeze_app`].
    pub fn thaw_app(&mut self, snapshot: FrozenApp, thaw_prefs: ThawPrefs) -> (action: ThawAction)
        requires
            old(self).wf(),
            snapshot.wf(),
            old(self).router.load_state.route() is Some,
        ensures
            final(self).wf(),
            final(self).router == old(self).router,
            final(self)@ == old(self)@.staged(snapshot@, thaw_prefs),
            is_thaw_action(action, snapshot@.route, old(self).router.load_state.route()->0),
    {
        let route = snapshot.route();
        self.frozen_app = Some((snapshot, thaw_prefs));
        let curr_route = match self.router.load_state.path() {
            Some(curr_route) => curr_route,
            None => String::new(),
        };
        let server: String = "SERVER".to_owned();
        if curr_route == route || route == server {
            ThawAction::Reload
        } else {
            ThawAction::Navigate(route)
        }
    }

    /// Thaws the application from a frozen snapshot in its written form. A text
    /// that is no snapshot is refused as a whole, and what was pending before
    /// stays. Otherwise the snapshot is staged as [`RenderCtx::thaw_app`] does.
    pub fn thaw(&mut self, new_frozen_app: &str, thaw_prefs: ThawPrefs) -> (r: Result<
        ThawAction,
        ClientError,
    >)
        requires
            old(self).wf(),
            old(self).router.load_state.route() is Some,
        ensures
            final(self).wf(),
            final(self).router == old(self).router,
            match decode_snapshot(new_frozen_app@) {
                Ok(snapshot) => {
                    &&& final(self)@ == old(self)@.staged(snapshot, thaw_prefs)
                    &&& r matches Ok(action)
                    &&& is_thaw_action(action, snapshot.route, old(self).router.load_state.route()->0)
                },
                Err(source) => {
                    &&& final(self)@ == old(self)@
                    &&& r == Err::<ThawAction, ClientError>(ClientError::ThawFailed { source })
                },
            },
    {
        match FrozenApp::from_json(new_frozen_app) {
            Ok(snapshot) => Ok(self.thaw_app(snapshot, thaw_prefs)),
            Err(source) => Err(ClientError::ThawFailed { source }),
        }
    }

    /// Registers a serialized state for the page at `url`, at the type `kind`,
    /// and returns the decoded value. A text that cannot be decoded is an
    /// error. A page that never takes state keeps none: the value is returned
    /// all the same.
    pub fn register_page_state_str(&mut self, url: &str, kind: &str, state_str: &str) -> (r: Result<
        StateValue,
        ClientError,
    >)
        requires
            old(self).wf(),
        ensures
            final(self).wf(),
            final(self).router == old(self).router,
            match decode_state(kind@, state_str@) {
                Some(value) => {
                    &&& r matches Ok(registered)
                    &&& registered@ == value
                    &&& final(self)@ == (CtxView {
                        store: old(self)@.store.add_state(url@, value),
                        ..old(self)@
                    })
                },
                None => {
                    &&& r == Err::<StateValue, ClientError>(ClientError::StateInvalid)
                    &&& final(self)@ == old(self)@
                },
            },
    {
        match StateValue::decode(kind, state_str) {
            Some(value) => {
                let copy = value.clone();
                let _ = self.page_state_store.add_state(url, value);
                Ok(copy)
            },
            None => Err(ClientError::StateInvalid),
        }
    }

    /// Registers a serialized state as the active global state, at the type
    /// `kind`, and returns the decoded value. A text that cannot be decoded is
    /// an error.
    pub fn register_global_state_str(&mut self, kind: &str, state_str: &str) -> (r: Result<
        StateValue,
        ClientError,
    >)
        requires
            old(self).wf(),
        ensures
            final(self).wf(),
            final(self).router == old(self).router,
            match decode_state(kind@, state_str@) {
                Some(value) => {
                    &&& r matches Ok(registered)
                    &&& registered@ == value
                    &&& final(self)@ == (CtxView { global: Some(value), ..old(self)@ })
                },
                None => {
                    &&& r == Err::<StateValue, ClientError>(ClientError::StateInvalid)
                    &&& final(self)@ == old(self)@
                },
            },
    {
        match StateValue::decode(kind, state_str) {
            Some(value) => {
                let copy = value.clone();
                self.global_state.set(value);
                Ok(copy)
            },
            None => Err(ClientError::StateInvalid),
        }
    }

    /// Registers the page at `url` as taking no state, for good.
    pub fn register_page_no_state(&mut self, url: &str)
        requires
            old(self).wf(),
        ensures
            final(self).wf(),
            final(self).router == old(self).router,
            final(self)@ == (CtxView {
                store: old(self)@.store.set_state_never(url@),
                ..old(self)@
            }),
    {
        self.page_state_store.set_state_never(url);
    }

    /// Records the new loading state of the router. When it ends a navigation
    /// away from the route of the page that was loaded last, the preloads that
    /// last for the current route only are dropped; no state changes.
    pub fn set_load_state(&mut self, load_state: RouterLoadState)
        requires
            old(self).wf(),
        ensures
            final(self).wf(),
            final(self).router.load_state == load_state,
            final(self).router.last_loaded.deep_view() == old(self).router.last_loaded_after(
                load_state,
            ),
            final(self)@ == if old(self).router.navigates_away(load_state) {
                CtxView { store: old(self)@.store.clear_route_preloads(), ..old(self)@ }
            } else {
                old(self)@
            },
    {
        if self.router.set_load_state(load_state) {
            self.page_state_store.clear_route_preloads();
        }
    }

    /// Asks for a preload of the page at `path`, given the verdict of the route
    /// matcher on it, and says what the caller has to do. A path that leads
    /// nowhere, or to locale detection, is an error. `is_route_preload` says
    /// whether the preload is to last for the current route only.
    pub fn begin_preload(&mut self, path: &str, verdict: &RouteVerdict, is_route_preload: bool) -> (r:
        Result<PreloadStep, ClientError>)
        requires
            old(self).wf(),
        ensures
            final(self).wf(),
            final(self).router == old(self).router,
            match verdict {
                RouteVerdict::Found(_) => {
                    &&& r == Ok::<PreloadStep, ClientError>(old(self)@.store.preload_step(path@))
                    &&& final(self)@ == (CtxView {
                        store: old(self)@.store.begin_preload(path@, is_route_preload),
                        ..old(self)@
                    })
                },
                RouteVerdict::NotFound => {
                    &&& r == Err::<PreloadStep, ClientError>(ClientError::PreloadNotFound)
                    &&& final(self)@ == old(self)@
                },
                RouteVerdict::LocaleDetection(_) => {
                    &&& r == Err::<PreloadStep, ClientError>(ClientError::PreloadLocaleDetection)
                    &&& final(self)@ == old(self)@
                },
            },
    {
        match verdict {
            RouteVerdict::Found(_) => Ok(self.page_state_store.begin_preload(path, is_route_preload)),
            RouteVerdict::NotFound => Err(ClientError::PreloadNotFound),
            RouteVerdict::LocaleDetection(_) => Err(ClientError::PreloadLocaleDetection),
        }
    }

    /// Takes in what the fetch for the page at `path` brought: the page data,
    /// or nothing where the server has no such page, which is an error.
    pub fn finish_preload(&mut self, path: &str, fetched: Option<String>) -> (r: Result<
        (),
        ClientError,
    >)
        requires
            old(self).wf(),
        ensures
            final(self).wf(),
            final(self).router == old(self).router,
            final(self)@ == (CtxView {
                store: old(self)@.store.finish_preload(path@, fetched.deep_view()),
                ..old(self)@
            }),
            r == if old(self)@.store.preload_status(path@) == PreloadStatus::InFlight && fetched
                is None {
                Err::<(), ClientError>(ClientError::PreloadNotFound)
            } else {
                Ok::<(), ClientError>(())
            },
    {
        let was_in_flight = match self.page_state_store.preload_status(path) {
            PreloadStatus::InFlight => true,
            _ => false,
        };
        let missing = fetched.is_none();
        let _ = self.page_state_store.finish_preload(path, fetched);
        if was_in_flight && missing {
            Err(ClientError::PreloadNotFound)
        } else {
            Ok(())
        }
    }
}

} // verus!
