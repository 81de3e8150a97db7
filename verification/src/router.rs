//! What the render context reads of the router: where the application is, and
//! what the route matcher said of a path.

use crate::text::chars_of;
use vstd::prelude::*;
use vstd::string::StrSliceExecFns;

verus! {

/// The segment that has been read so far, as a list: nothing where it is
/// empty.
pub open spec fn closed_segment(current: Seq<char>) -> Seq<Seq<char>> {
    if current.len() == 0 {
        Seq::empty()
    } else {
        seq![current]
    }
}

/// The segments of `path` where `current` has been read of a segment already.
pub open spec fn segments_from(path: Seq<char>, current: Seq<char>) -> Seq<Seq<char>>
    decreases path.len(),
{
    if path.len() == 0 {
        closed_segment(current)
    } else if path[0] == '/' {
        closed_segment(current) + segments_from(path.skip(1), Seq::empty())
    } else {
        segments_from(path.skip(1), current.push(path[0]))
    }
}

/// The segments of a path: what stands between its slashes, without the empty
/// stretches.
pub open spec fn segments(path: Seq<char>) -> Seq<Seq<char>> {
    segments_from(path, Seq::empty())
}

/// Splits a path into its segments, as the router does before it matches a
/// route.
pub fn path_segments(path: &str) -> (r: Vec<String>)
    ensures
        r.deep_view() == segments(path@),
{
    let chars = chars_of(path);
    let n = chars.len();
    let mut out: Vec<String> = Vec::new();
    let mut start: usize = 0;
    let mut i: usize = 0;
    proof {
        assert(path@.skip(0) =~= path@);
        assert(path@.subrange(0, 0) =~= Seq::<char>::empty());
        assert(out.deep_view() =~= Seq::<Seq<char>>::empty());
        assert(out.deep_view() + segments(path@) =~= segments(path@));
    }
    while i < n
        invariant
            chars@ == path@,
            n == chars.len(),
            start <= i <= n,
            segments(path@) == out.deep_view() + segments_from(
                path@.skip(i as int),
                path@.subrange(start as int, i as int),
            ),
        decreases n - i,
    {
        let ghost rest = path@.skip(i as int);
        let ghost current = path@.subrange(start as int, i as int);
        let ghost done = out.deep_view();
        proof {
            assert(rest.skip(1) =~= path@.skip(i + 1));
            assert(rest[0] == path@[i as int]);
        }
        if chars[i] == '/' {
            if i > start {
                out.push(path.substring_char(start, i).to_owned());
                proof {
                    assert(out.deep_view() =~= done.push(current));
                }
            }
            proof {
                assert(path@.subrange(i + 1, i + 1) =~= Seq::<char>::empty());
                assert(out.deep_view() =~= done + closed_segment(current));
                assert(out.deep_view() + segments_from(path@.skip(i + 1), Seq::empty()) =~= done + (
                closed_segment(current) + segments_from(rest.skip(1), Seq::empty())));
            }
            start = i + 1;
        } else {
            proof {
                assert(path@.subrange(start as int, i + 1) =~= current.push(rest[0]));
            }
        }
        i += 1;
    }
    let ghost current = path@.subrange(start as int, n as int);
    let ghost done = out.deep_view();
    proof {
        assert(path@.skip(n as int).len() == 0);
    }
    if n > start {
        out.push(path.substring_char(start, n).to_owned());
        proof {
            assert(out.deep_view() =~= done.push(current));
        }
    }
    proof {
        assert(out.deep_view() =~= done + closed_segment(current));
    }
    out
}

/// The loading state of the router.
#[derive(Debug)]
pub enum RouterLoadState {
    /// The page at `path` has been loaded.
    Loaded { template_name: String, path: String },
    /// The page at `path` is being loaded.
    Loading { template_name: String, path: String },
    /// An error page has been loaded in place of the page at `path`.
    ErrorLoaded { path: String },
    /// There is no route: the code runs where no page is shown.
    Server,
}

impl RouterLoadState {
    /// The current route, where there is one.
    pub open spec fn route(&self) -> Option<Seq<char>> {
        match self {
            RouterLoadState::Loaded { path, .. } => Some(path@),
            RouterLoadState::Loading { path, .. } => Some(path@),
            RouterLoadState::ErrorLoaded { path } => Some(path@),
            RouterLoadState::Server => None,
        }
    }

    /// The current route, where there is one.
    pub fn path(&self) -> (r: Option<String>)
        ensures
            r.deep_view() == self.route(),
    {
        match self {
            RouterLoadState::Loaded { path, .. } => Some(path.clone()),
            RouterLoadState::Loading { path, .. } => Some(path.clone()),
            RouterLoadState::ErrorLoaded { path } => Some(path.clone()),
            RouterLoadState::Server => None,
        }
    }
}

/// The state of the router as far as the render context reads it: the loading
/// state, and the route of the page that was loaded last.
#[derive(Debug)]
pub struct RouterState {
    pub load_state: RouterLoadState,
    pub last_loaded: Option<String>,
}

impl RouterState {
    /// The state of a router that has no route yet.
    pub fn new() -> (r: Self)
        ensures
            r.load_state is Server,
            r.last_loaded is None,
    {
        RouterState { load_state: RouterLoadState::Server, last_loaded: None }
    }

    /// The route of the page that will have been loaded last once the router
    /// is in the state `after`.
    pub open spec fn last_loaded_after(&self, after: RouterLoadState) -> Option<Seq<char>> {
        if after is Loaded {
            after.route()
        } else {
            self.last_loaded.deep_view()
        }
    }

    /// Whether the step of the router to the state `after` ends a navigation
    /// away from the route of the page that was loaded last: a page has been
    /// loaded, and it is another one.
    pub open spec fn navigates_away(&self, after: RouterLoadState) -> bool {
        after is Loaded && after.route() != self.last_loaded.deep_view()
    }

    /// Records a new loading state, and says whether it ends a navigation away
    /// from the route of the page that was loaded last.
    pub fn set_load_state(&mut self, load_state: RouterLoadState) -> (away: bool)
        ensures
            final(self).load_state == load_state,
            final(self).last_loaded.deep_view() == old(self).last_loaded_after(load_state),
            away == old(self).navigates_away(load_state),
    {
        let away = match &load_state {
            RouterLoadState::Loaded { path, .. } => {
                let away = match &self.last_loaded {
                    Some(last) => !(*last == *path),
                    None => true,
                };
                self.last_loaded = Some(path.clone());
                away
            },
            _ => false,
        };
        self.load_state = load_state;
        away
    }
}

/// What the route matcher found for a path.
#[derive(Debug)]
pub struct RouteInfo {
    /// The path within the locale.
    pub path: String,
    /// The locale of the page.
    pub locale: String,
    /// The template that renders the page.
    pub template: String,
    /// Whether the page was matched incrementally.
    pub was_incremental_match: bool,
}

/// The verdict of the route matcher on a path.
#[derive(Debug)]
pub enum RouteVerdict {
    /// The path leads to a page.
    Found(RouteInfo),
    /// The path leads nowhere.
    NotFound,
    /// The path has no locale: the locale is to be detected, and the page at
    /// the given path within it shown.
    LocaleDetection(String),
}

} // verus!
