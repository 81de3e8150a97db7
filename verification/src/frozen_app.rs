//! Frozen snapshots of an application and the preferences for thawing them.
//!
//! A snapshot is written as a JSON object with three members: `global_state`, a
//! string that holds the serialized global state or the sentinel `None`;
//! `route`, a string; and `page_state_store`, an object that maps each URL to a
//! string that holds the serialized state of that page. A text with any other
//! shape is no snapshot.

use crate::json::{
    json_members, json_quoted, json_string, member_keys, object_members, quote, string_value,
};
use crate::table::{
    find_key, lemma_index_of_distinct, lemma_table_dom, lemma_table_entry, lemma_table_remove,
    table_map, table_wf,
};
use vstd::prelude::*;
use vstd::string::StringExecFns;

verus! {

/// Why a text is no snapshot.
#[derive(Clone, Copy, Debug, PartialEq, Eq, Structural)]
pub enum SnapshotError {
    /// The text is not a JSON object.
    NotAnObject,
    /// The object does not have exactly the three members of a snapshot.
    UnexpectedFields,
    /// The member `global_state` is not a string.
    GlobalStateNotAString,
    /// The member `route` is not a string.
    RouteNotAString,
    /// The member `page_state_store` is not an object.
    PageStoreNotAnObject,
    /// A member of `page_state_store` is not a string.
    PageStateNotAString,
}

/// The JSON texts of the three members of a snapshot.
pub struct SnapshotFields {
    pub global_state: Seq<char>,
    pub route: Seq<char>,
    pub page_state_store: Seq<char>,
}

/// The JSON text of the member called `name`, where there is one.
pub open spec fn member(members: Seq<(Seq<char>, Seq<char>)>, name: Seq<char>) -> Option<
    Seq<char>,
> {
    if member_keys(members).contains(name) {
        Some(members[member_keys(members).index_of(name)].1)
    } else {
        None
    }
}

/// The three members of a snapshot, where `members` holds exactly these.
pub open spec fn select_fields(members: Seq<(Seq<char>, Seq<char>)>) -> Option<SnapshotFields> {
    if members.len() == 3 && member(members, "global_state"@) is Some && member(members, "route"@)
        is Some && member(members, "page_state_store"@) is Some {
        Some(
            SnapshotFields {
                global_state: member(members, "global_state"@)->0,
                route: member(members, "route"@)->0,
                page_state_store: member(members, "page_state_store"@)->0,
            },
        )
    } else {
        None
    }
}

/// Whether every member holds a JSON string.
pub open spec fn all_strings(members: Seq<(Seq<char>, Seq<char>)>) -> bool {
    forall|i: int| 0 <= i < members.len() ==> json_string(#[trigger] members[i].1) is Some
}

/// The strings that the members hold, in order.
pub open spec fn member_strings(members: Seq<(Seq<char>, Seq<char>)>) -> Seq<Seq<char>> {
    Seq::new(members.len(), |i: int| json_string(members[i].1)->0)
}

/// One member of a JSON object as it is written: key, colon, value.
pub open spec fn member_text(member: (Seq<char>, Seq<char>)) -> Seq<char> {
    member.0 + ":"@ + member.1
}

/// The members of a JSON object as they are written, with commas between them.
pub open spec fn joined_members(members: Seq<(Seq<char>, Seq<char>)>) -> Seq<char>
    decreases members.len(),
{
    if members.len() == 0 {
        Seq::empty()
    } else if members.len() == 1 {
        member_text(members[0])
    } else {
        joined_members(members.drop_last()) + ","@ + member_text(members.last())
    }
}

/// A JSON object as it is written, from its members as they are written.
pub open spec fn object_text(members: Seq<(Seq<char>, Seq<char>)>) -> Seq<char> {
    "{"@ + joined_members(members) + "}"@
}

/// The mathematical content of a frozen snapshot.
#[verifier::ext_equal]
pub struct FrozenView {
    /// The serialized global state, or the sentinel `None`.
    pub global_state: Seq<char>,
    /// The route at the time of freezing.
    pub route: Seq<char>,
    /// The serialized state of each page by URL.
    pub pages: Map<Seq<char>, Seq<char>>,
    /// The URLs of `pages` in the order in which they are written.
    pub order: Seq<Seq<char>>,
}

impl FrozenView {
    /// The invariant of a snapshot: `order` lists the URLs of `pages`, each
    /// once.
    pub open spec fn wf(self) -> bool {
        &&& self.order.no_duplicates()
        &&& forall|url: Seq<char>| self.pages.contains_key(url) <==> self.order.contains(url)
    }

    /// The serialized state of the page at `url`, where the snapshot has one.
    pub open spec fn page(self, url: Seq<char>) -> Option<Seq<char>> {
        if self.pages.contains_key(url) {
            Some(self.pages[url])
        } else {
            None
        }
    }

    /// Whether the snapshot holds a global state.
    pub open spec fn has_global_state(self) -> bool {
        self.global_state != "None"@
    }

    /// The snapshot without the page at `url`.
    pub open spec fn remove_page(self, url: Seq<char>) -> FrozenView {
        FrozenView {
            pages: self.pages.remove(url),
            order: crate::page_state_store::without(self.order, url),
            ..self
        }
    }

    /// The snapshot without its global state.
    pub open spec fn clear_global_state(self) -> FrozenView {
        FrozenView { global_state: "None"@, ..self }
    }

    /// The members of `page_state_store` as they are written.
    pub open spec fn page_members(self) -> Seq<(Seq<char>, Seq<char>)> {
        Seq::new(
            self.order.len(),
            |i: int| (json_quoted(self.order[i]), json_quoted(self.pages[self.order[i]])),
        )
    }

    /// The snapshot as it is written.
    pub open spec fn json_text(self) -> Seq<char> {
        object_text(
            seq![
                ("\"global_state\""@, json_quoted(self.global_state)),
                ("\"route\""@, json_quoted(self.route)),
                ("\"page_state_store\""@, object_text(self.page_members())),
            ],
        )
    }
}

/// The snapshot that `text` holds, or why it holds none.
pub open spec fn decode_snapshot(text: Seq<char>) -> Result<FrozenView, SnapshotError> {
    match json_members(text) {
        None => Err(SnapshotError::NotAnObject),
        Some(members) => match select_fields(members) {
            None => Err(SnapshotError::UnexpectedFields),
            Some(fields) => {
                if json_string(fields.global_state) is None {
                    Err(SnapshotError::GlobalStateNotAString)
                } else if json_string(fields.route) is None {
                    Err(SnapshotError::RouteNotAString)
                } else {
                    match json_members(fields.page_state_store) {
                        None => Err(SnapshotError::PageStoreNotAnObject),
                        Some(pages) => {
                            if !all_strings(pages) {
                                Err(SnapshotError::PageStateNotAString)
                            } else {
                                Ok(
                                    FrozenView {
                                        global_state: json_string(fields.global_state)->0,
                                        route: json_string(fields.route)->0,
                                        pages: table_map(member_keys(pages), member_strings(pages)),
                                        order: member_keys(pages),
                                    },
                                )
                            }
                        },
                    }
                }
            },
        },
    }
}

/// The index of the member called `name`.
fn find_member(members: &Vec<(String, String)>, name: &str) -> (r: Option<usize>)
    ensures
        match r {
            Some(i) => i < members.len() && members.deep_view()[i as int].0 == name@,
            None => !member_keys(members.deep_view()).contains(name@),
        },
{
    let wanted: String = name.to_owned();
    let mut i: usize = 0;
    while i < members.len()
        invariant
            i <= members.len(),
            wanted@ == name@,
            forall|j: int| 0 <= j < i ==> members.deep_view()[j].0 != name@,
        decreases members.len() - i,
    {
        if members[i].0 == wanted {
            return Some(i);
        }
        i += 1;
    }
    proof {
        let keys = member_keys(members.deep_view());
        if keys.contains(name@) {
            let j = keys.index_of(name@);
            assert(members.deep_view()[j].0 == name@);
        }
    }
    None
}

/// Picks the three members of a snapshot out of the members of a JSON object.
/// The result is `None` unless the object has exactly these three members.
/// Each member is handed out as the JSON text of its value, in the order
/// `global_state`, `route`, `page_state_store`.
pub fn pick_fields(members: &Vec<(String, String)>) -> (r: Option<(String, String, String)>)
    ensures
        match r {
            Some(fields) => select_fields(members.deep_view()) == Some(
                SnapshotFields {
                    global_state: fields.0@,
                    route: fields.1@,
                    page_state_store: fields.2@,
                },
            ),
            None => select_fields(members.deep_view()) is None,
        },
{
    if members.len() != 3 {
        return None;
    }
    let global_state = find_member(members, "global_state");
    let route = find_member(members, "route");
    let page_state_store = find_member(members, "page_state_store");
    match (global_state, route, page_state_store) {
        (Some(g), Some(r), Some(p)) => {
            proof {
                reveal_strlit("global_state");
                reveal_strlit("route");
                reveal_strlit("page_state_store");
                let keys = member_keys(members.deep_view());
                assert("global_state"@.len() != "route"@.len());
                assert("global_state"@.len() != "page_state_store"@.len());
                assert("route"@.len() != "page_state_store"@.len());
                assert(keys[g as int] == "global_state"@);
                assert(keys[r as int] == "route"@);
                assert(keys[p as int] == "page_state_store"@);
                assert(g != r && g != p && r != p);
                assert(keys.no_duplicates());
                lemma_index_of_distinct(keys, g as int);
                lemma_index_of_distinct(keys, r as int);
                lemma_index_of_distinct(keys, p as int);
            }
            Some((members[g].1.clone(), members[r].1.clone(), members[p].1.clone()))
        },
        _ => None,
    }
}

/// Writes a JSON object from its members as they are written: each key a JSON
/// string literal, each value a JSON text.
pub fn frame_object(members: &Vec<(String, String)>) -> (r: String)
    ensures
        r@ == object_text(members.deep_view()),
{
    let ghost all = members.deep_view();
    let mut out: String = "{".to_owned();
    let mut i: usize = 0;
    while i < members.len()
        invariant
            i <= members.len(),
            all == members.deep_view(),
            out@ == "{"@ + joined_members(all.take(i as int)),
        decreases members.len() - i,
    {
        let ghost before = out@;
        if i > 0 {
            out.append(",");
        }
        out.append(members[i].0.as_str());
        out.append(":");
        out.append(members[i].1.as_str());
        proof {
            let next = all.take(i + 1);
            assert(next.drop_last() =~= all.take(i as int));
            assert(next.last() == all[i as int]);
            if i == 0 {
                assert(joined_members(all.take(0)) =~= Seq::<char>::empty());
                assert(out@ =~= "{"@ + joined_members(next));
            } else {
                assert(out@ =~= "{"@ + joined_members(next));
            }
        }
        i += 1;
    }
    assert(all.take(members.len() as int) =~= all);
    out.append("}");
    out
}

/// A frozen snapshot: the serialized global state, the route at the time of
/// freezing, and the serialized state of each page.
#[derive(Debug)]
pub struct FrozenApp {
    global_state: String,
    route: String,
    page_urls: Vec<String>,
    page_states: Vec<String>,
}

impl View for FrozenApp {
    type V = FrozenView;

    closed spec fn view(&self) -> FrozenView {
        FrozenView {
            global_state: self.global_state@,
            route: self.route@,
            pages: table_map(self.page_urls.deep_view(), self.page_states.deep_view()),
            order: self.page_urls.deep_view(),
        }
    }
}

impl FrozenApp {
    /// The invariant of the representation. It holds of every snapshot that
    /// this module hands out, and it gives the invariant of the view.
    pub closed spec fn wf(&self) -> bool {
        table_wf(self.page_urls.deep_view(), self.page_states.deep_view())
    }

    /// A well-formed snapshot has a well-formed view.
    pub proof fn lemma_view_wf(&self)
        requires
            self.wf(),
        ensures
            self@.wf(),
    {
        lemma_table_dom(self.page_urls.deep_view(), self.page_states.deep_view());
    }

    /// Makes a snapshot without pages.
    pub fn new(global_state: &str, route: &str) -> (r: Self)
        ensures
            r.wf(),
            r@ == (FrozenView {
                global_state: global_state@,
                route: route@,
                pages: Map::empty(),
                order: Seq::empty(),
            }),
    {
        let r = FrozenApp {
            global_state: global_state.to_owned(),
            route: route.to_owned(),
            page_urls: Vec::new(),
            page_states: Vec::new(),
        };
        proof {
            assert(r@.pages =~= Map::empty());
            assert(r@.order =~= Seq::empty());
        }
        r
    }

    /// Makes a snapshot from the serialized pages of a store.
    pub(crate) fn from_pages(global_state: String, route: String, pages: Vec<(String, String)>) -> (r:
        Self)
        requires
            member_keys(pages.deep_view()).no_duplicates(),
        ensures
            r.wf(),
            r@ == (FrozenView {
                global_state: global_state@,
                route: route@,
                pages: table_map(
                    member_keys(pages.deep_view()),
                    crate::json::member_values(pages.deep_view()),
                ),
                order: member_keys(pages.deep_view()),
            }),
    {
        let mut page_urls: Vec<String> = Vec::new();
        let mut page_states: Vec<String> = Vec::new();
        let mut i: usize = 0;
        while i < pages.len()
            invariant
                i <= pages.len(),
                page_urls.len() == i,
                page_states.len() == i,
                forall|j: int|
                    0 <= j < i ==> page_urls.deep_view()[j] == pages.deep_view()[j].0
                        && page_states.deep_view()[j] == pages.deep_view()[j].1,
            decreases pages.len() - i,
        {
            let ghost urls_before = page_urls.deep_view();
            let ghost states_before = page_states.deep_view();
            page_urls.push(pages[i].0.clone());
            page_states.push(pages[i].1.clone());
            proof {
                assert(page_urls.deep_view() =~= urls_before.push(pages.deep_view()[i as int].0));
                assert(page_states.deep_view() =~= states_before.push(pages.deep_view()[i as int].1));
            }
            i += 1;
        }
        proof {
            assert(page_urls.deep_view() =~= member_keys(pages.deep_view()));
            assert(page_states.deep_view() =~= crate::json::member_values(pages.deep_view()));
        }
        FrozenApp { global_state, route, page_urls, page_states }
    }

    /// The route at the time of freezing.
    pub fn route(&self) -> (r: String)
        ensures
            r@ == self@.route,
    {
        self.route.clone()
    }

    /// The serialized global state, or the sentinel `None`.
    pub fn global_state(&self) -> (r: String)
        ensures
            r@ == self@.global_state,
    {
        self.global_state.clone()
    }

    /// Whether the snapshot holds a global state.
    pub fn has_global_state(&self) -> (r: bool)
        ensures
            r == self@.has_global_state(),
    {
        let sentinel: String = "None".to_owned();
        !(self.global_state == sentinel)
    }

    /// The number of pages in the snapshot.
    pub fn page_count(&self) -> (r: usize)
        ensures
            r == self@.order.len(),
    {
        self.page_urls.len()
    }

    /// The serialized state of the page at `url`, where the snapshot has one.
    pub fn page_state(&self, url: &str) -> (r: Option<String>)
        requires
            self.wf(),
        ensures
            r.deep_view() == self@.page(url@),
    {
        proof {
            lemma_table_dom(self.page_urls.deep_view(), self.page_states.deep_view());
        }
        match find_key(&self.page_urls, url) {
            Some(i) => {
                proof {
                    lemma_table_entry(
                        self.page_urls.deep_view(),
                        self.page_states.deep_view(),
                        i as int,
                    );
                }
                Some(self.page_states[i].clone())
            },
            None => None,
        }
    }

    /// Takes the page at `url` out of the snapshot.
    pub fn remove_page(&mut self, url: &str)
        requires
            old(self).wf(),
        ensures
            final(self).wf(),
            final(self)@ == old(self)@.remove_page(url@),
    {
        let ghost keys = self.page_urls.deep_view();
        let ghost vals = self.page_states.deep_view();
        match find_key(&self.page_urls, url) {
            Some(i) => {
                self.page_urls.remove(i);
                self.page_states.remove(i);
                proof {
                    lemma_index_of_distinct(keys, i as int);
                    lemma_table_remove(keys, vals, i as int);
                    assert(self.page_urls.deep_view() =~= keys.remove(i as int));
                    assert(self.page_states.deep_view() =~= vals.remove(i as int));
                }
            },
            None => {
                proof {
                    lemma_table_dom(keys, vals);
                    assert(table_map(keys, vals).remove(url@) =~= table_map(keys, vals));
                }
            },
        }
    }

    /// Takes the global state out of the snapshot: the sentinel stands in its
    /// place.
    pub fn clear_global_state(&mut self)
        requires
            old(self).wf(),
        ensures
            final(self).wf(),
            final(self)@ == old(self)@.clear_global_state(),
    {
        self.global_state = "None".to_owned();
    }

    /// Writes the snapshot as JSON.
    pub fn to_json(&self) -> (r: String)
        requires
            self.wf(),
        ensures
            r@ == self@.json_text(),
    {
        let mut pages: Vec<(String, String)> = Vec::new();
        let mut i: usize = 0;
        while i < self.page_urls.len()
            invariant
                self.wf(),
                i <= self.page_urls.len(),
                pages.len() == i,
                forall|j: int| 0 <= j < i ==> pages.deep_view()[j] == self@.page_members()[j],
            decreases self.page_urls.len() - i,
        {
            proof {
                lemma_table_entry(
                    self.page_urls.deep_view(),
                    self.page_states.deep_view(),
                    i as int,
                );
            }
            let ghost before = pages.deep_view();
            let member = (quote(self.page_urls[i].as_str()), quote(self.page_states[i].as_str()));
            pages.push(member);
            proof {
                assert(pages.deep_view() =~= before.push(member.deep_view()));
            }
            i += 1;
        }
        assert(pages.deep_view() =~= self@.page_members());
        let mut members: Vec<(String, String)> = Vec::new();
        members.push(("\"global_state\"".to_owned(), quote(self.global_state.as_str())));
        members.push(("\"route\"".to_owned(), quote(self.route.as_str())));
        members.push(("\"page_state_store\"".to_owned(), frame_object(&pages)));
        proof {
            assert(members.deep_view() =~= seq![
                ("\"global_state\""@, json_quoted(self@.global_state)),
                ("\"route\""@, json_quoted(self@.route)),
                ("\"page_state_store\""@, object_text(self@.page_members())),
            ]);
        }
        frame_object(&members)
    }

    /// Reads a snapshot from JSON. The text is taken as a whole: it either is a
    /// snapshot in every part, or it is refused with the first fault found.
    pub fn from_json(text: &str) -> (r: Result<Self, SnapshotError>)
        ensures
            match r {
                Ok(snapshot) => snapshot.wf() && decode_snapshot(text@) == Ok::<
                    FrozenView,
                    SnapshotError,
                >(snapshot@),
                Err(e) => decode_snapshot(text@) == Err::<FrozenView, SnapshotError>(e),
            },
    {
        let members = match object_members(text) {
            Some(members) => members,
            None => {
                return Err(SnapshotError::NotAnObject);
            },
        };
        let fields = match pick_fields(&members) {
            Some(fields) => fields,
            None => {
                return Err(SnapshotError::UnexpectedFields);
            },
        };
        let global_state = match string_value(fields.0.as_str()) {
            Some(global_state) => global_state,
            None => {
                return Err(SnapshotError::GlobalStateNotAString);
            },
        };
        let route = match string_value(fields.1.as_str()) {
            Some(route) => route,
            None => {
                return Err(SnapshotError::RouteNotAString);
            },
        };
        let pages = match object_members(fields.2.as_str()) {
            Some(pages) => pages,
            None => {
                return Err(SnapshotError::PageStoreNotAnObject);
            },
        };
        let ghost page_members = pages.deep_view();
        let ghost decoded = FrozenView {
            global_state: global_state@,
            route: route@,
            pages: table_map(member_keys(page_members), member_strings(page_members)),
            order: member_keys(page_members),
        };
        assert(decode_snapshot(text@) == if all_strings(page_members) {
            Ok::<FrozenView, SnapshotError>(decoded)
        } else {
            Err::<FrozenView, SnapshotError>(SnapshotError::PageStateNotAString)
        });
        let mut page_urls: Vec<String> = Vec::new();
        let mut page_states: Vec<String> = Vec::new();
        let mut i: usize = 0;
        while i < pages.len()
            invariant
                i <= pages.len(),
                page_members == pages.deep_view(),
                member_keys(page_members).no_duplicates(),
                decode_snapshot(text@) == if all_strings(page_members) {
                    Ok::<FrozenView, SnapshotError>(decoded)
                } else {
                    Err::<FrozenView, SnapshotError>(SnapshotError::PageStateNotAString)
                },
                page_urls.len() == i,
                page_states.len() == i,
                forall|j: int| 0 <= j < i ==> json_string(#[trigger] page_members[j].1) is Some,
                forall|j: int|
                    0 <= j < i ==> page_urls.deep_view()[j] == page_members[j].0
                        && page_states.deep_view()[j] == json_string(page_members[j].1)->0,
            decreases pages.len() - i,
        {
            let ghost urls_before = page_urls.deep_view();
            let ghost states_before = page_states.deep_view();
            match string_value(pages[i].1.as_str()) {
                Some(state) => {
                    page_urls.push(pages[i].0.clone());
                    page_states.push(state);
                    proof {
                        assert(page_urls.deep_view() =~= urls_before.push(page_members[i as int].0));
                        assert(page_states.deep_view() =~= states_before.push(state@));
                    }
                },
                None => {
                    proof {
                        assert(json_string(page_members[i as int].1) is None);
                        assert(!all_strings(page_members));
                    }
                    return Err(SnapshotError::PageStateNotAString);
                },
            }
            i += 1;
        }
        proof {
            assert(all_strings(page_members));
            assert(page_urls.deep_view() =~= member_keys(page_members));
            assert(page_states.deep_view() =~= member_strings(page_members));
        }
        Ok(FrozenApp { global_state, route, page_urls, page_states })
    }
}

/// Which pages take their state from a frozen snapshot before anything else.
#[derive(Debug)]
pub enum PageThawPrefs {
    /// The listed pages prefer frozen state; every other page prefers active
    /// state.
    Include(Vec<String>),
    /// Every page prefers frozen state.
    IncludeAll,
    /// The listed pages prefer active state; every other page prefers frozen
    /// state.
    Exclude(Vec<String>),
}

impl PageThawPrefs {
    /// Whether the page at `url` prefers frozen state. A page is listed when
    /// its URL is equal to an entry of the list.
    pub open spec fn prefers_frozen(&self, url: Seq<char>) -> bool {
        match self {
            PageThawPrefs::Include(pages) => pages.deep_view().contains(url),
            PageThawPrefs::IncludeAll => true,
            PageThawPrefs::Exclude(pages) => !pages.deep_view().contains(url),
        }
    }

    /// Whether the page at `url` prefers frozen state.
    pub fn should_use_frozen_state(&self, url: &str) -> (r: bool)
        ensures
            r == self.prefers_frozen(url@),
    {
        match self {
            PageThawPrefs::Include(pages) => find_key(pages, url).is_some(),
            PageThawPrefs::IncludeAll => true,
            PageThawPrefs::Exclude(pages) => find_key(pages, url).is_none(),
        }
    }
}

/// The preferences for thawing: which pages prefer frozen state, and whether
/// the global state does.
#[derive(Debug)]
pub struct ThawPrefs {
    pub page: PageThawPrefs,
    pub global_prefer_frozen: bool,
}

} // verus!
