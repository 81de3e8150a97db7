use perseus::errors::ClientError;
use perseus::frozen_app::{PageThawPrefs, SnapshotError, ThawPrefs};
use perseus::page_state_store::{PageStateFlag, PreloadStatus, PreloadStep};
use perseus::render_ctx::{RenderCtx, ThawAction};
use perseus::router::{RouteInfo, RouteVerdict, RouterLoadState};
use perseus::state::StateValue;

fn loaded(path: &str) -> RouterLoadState {
    RouterLoadState::Loaded { template_name: "index".to_string(), path: path.to_string() }
}

fn interactive_ctx(max_size: usize, path: &str) -> RenderCtx {
    let mut ctx = RenderCtx::new(max_size);
    ctx.set_load_state(loaded(path));
    ctx
}

fn prefer_frozen() -> ThawPrefs {
    ThawPrefs { page: PageThawPrefs::IncludeAll, global_prefer_frozen: true }
}

fn prefer_active() -> ThawPrefs {
    ThawPrefs { page: PageThawPrefs::Include(vec![]), global_prefer_frozen: false }
}

fn counter(count: u32) -> StateValue {
    StateValue::new("Counter", &format!("{{\"count\":{count}}}"))
}

const SNAPSHOT: &str =
    r#"{"route":"/x","global_state":"None","page_state_store":{"/x":"{\"count\":1}"}}"#;

#[test]
fn thawed_page_state_is_consumed_once() {
    let mut ctx = interactive_ctx(8, "/x");
    let prefs = ThawPrefs {
        page: PageThawPrefs::Include(vec!["/x".to_string()]),
        global_prefer_frozen: true,
    };
    let action = ctx.thaw(SNAPSHOT, prefs).unwrap();
    assert!(matches!(action, ThawAction::Reload));

    let first = ctx.get_active_or_frozen_page_state("/x", "Counter").unwrap();
    assert_eq!(first.kind, "Counter");
    let parsed: serde_json::Value = serde_json::from_str(&first.document).unwrap();
    assert_eq!(parsed.get("count").and_then(|c| c.as_i64()), Some(1));
    assert_eq!(ctx.frozen_page_state_str("/x"), None);

    let second = ctx.get_active_or_frozen_page_state("/x", "Counter").unwrap();
    assert_eq!(second, first);
    assert_eq!(ctx.get_active_page_state("/x", "Counter"), Some(second));
    assert_eq!(ctx.page_state_store.flag("/x"), PageStateFlag::HasState);
}

#[test]
fn without_a_snapshot_the_answer_is_the_active_state() {
    let mut ctx = RenderCtx::new(8);
    assert_eq!(ctx.get_active_or_frozen_page_state("/a", "Counter"), None);
    assert_eq!(ctx.get_active_or_frozen_global_state("App"), None);
    ctx.page_state_store.add_state("/a", counter(1));
    ctx.global_state.set(StateValue::new("App", "{}"));
    assert_eq!(ctx.get_active_or_frozen_page_state("/a", "Counter"), Some(counter(1)));
    assert_eq!(ctx.get_active_or_frozen_page_state("/a", "Other"), None);
    assert_eq!(ctx.get_active_or_frozen_global_state("App"), Some(StateValue::new("App", "{}")));
    assert_eq!(ctx.get_active_or_frozen_global_state("Other"), None);
    assert_eq!(ctx.get_frozen_page_state_and_register("/a", "Counter"), None);
    assert_eq!(ctx.get_frozen_global_state_and_register("App"), None);
}

#[test]
fn frozen_state_is_not_returned_a_second_time() {
    let mut ctx = interactive_ctx(0, "/x");
    ctx.thaw(SNAPSHOT, prefer_frozen()).unwrap();
    assert_eq!(ctx.get_active_or_frozen_page_state("/x", "Counter"), Some(counter(1)));
    assert_eq!(ctx.frozen_page_state_str("/x"), None);
    assert_eq!(ctx.get_active_or_frozen_page_state("/x", "Counter"), None);
    assert_eq!(ctx.get_active_or_frozen_page_state("/x", "Counter"), None);
}

#[test]
fn preference_decides_between_frozen_and_active_state() {
    let mut frozen_first = interactive_ctx(8, "/x");
    frozen_first.page_state_store.add_state("/x", counter(9));
    frozen_first.thaw(SNAPSHOT, prefer_frozen()).unwrap();
    assert_eq!(frozen_first.get_active_or_frozen_page_state("/x", "Counter"), Some(counter(1)));
    assert_eq!(frozen_first.get_active_page_state("/x", "Counter"), Some(counter(1)));

    let mut active_first = interactive_ctx(8, "/x");
    active_first.page_state_store.add_state("/x", counter(9));
    active_first.thaw(SNAPSHOT, prefer_active()).unwrap();
    assert_eq!(active_first.get_active_or_frozen_page_state("/x", "Counter"), Some(counter(9)));
    assert_eq!(
        active_first.frozen_page_state_str("/x"),
        Some("{\"count\":1}".to_string())
    );
}

#[test]
fn each_source_stands_in_for_the_other() {
    let mut no_active = interactive_ctx(8, "/x");
    no_active.thaw(SNAPSHOT, prefer_active()).unwrap();
    assert_eq!(no_active.get_active_or_frozen_page_state("/x", "Counter"), Some(counter(1)));
    assert_eq!(no_active.frozen_page_state_str("/x"), None);
    assert_eq!(no_active.get_active_page_state("/x", "Counter"), Some(counter(1)));

    let mut no_frozen = interactive_ctx(8, "/x");
    no_frozen.page_state_store.add_state("/y", counter(5));
    no_frozen.thaw(SNAPSHOT, prefer_frozen()).unwrap();
    assert_eq!(no_frozen.get_active_or_frozen_page_state("/y", "Counter"), Some(counter(5)));
    assert_eq!(no_frozen.get_active_or_frozen_page_state("/z", "Counter"), None);
    assert_eq!(
        no_frozen.frozen_page_state_str("/x"),
        Some("{\"count\":1}".to_string())
    );
}

#[test]
fn listed_pages_alone_prefer_frozen_state() {
    let snapshot = r#"{"route":"/a","global_state":"None","page_state_store":{"/a":"1","/b":"2"}}"#;
    let mut ctx = interactive_ctx(8, "/a");
    ctx.page_state_store.add_state("/a", StateValue::new("N", "10"));
    ctx.page_state_store.add_state("/b", StateValue::new("N", "20"));
    let prefs = ThawPrefs {
        page: PageThawPrefs::Exclude(vec!["/b".to_string()]),
        global_prefer_frozen: false,
    };
    ctx.thaw(snapshot, prefs).unwrap();
    assert_eq!(ctx.get_active_or_frozen_page_state("/a", "N"), Some(StateValue::new("N", "1")));
    assert_eq!(ctx.get_active_or_frozen_page_state("/b", "N"), Some(StateValue::new("N", "20")));
}

#[test]
fn entry_that_cannot_be_decoded_is_passed_over() {
    let snapshot = r#"{"route":"/x","global_state":"None","page_state_store":{"/bad":"{\"count\":","/good":"{\"count\":2}","/also-good":"3"}}"#;
    let mut ctx = interactive_ctx(8, "/x");
    ctx.page_state_store.add_state("/bad", counter(7));
    ctx.thaw(snapshot, prefer_frozen()).unwrap();

    assert_eq!(ctx.get_active_or_frozen_page_state("/bad", "Counter"), Some(counter(7)));
    assert_eq!(ctx.frozen_page_state_str("/bad"), Some("{\"count\":".to_string()));
    assert_eq!(ctx.get_active_or_frozen_page_state("/good", "Counter"), Some(counter(2)));
    assert_eq!(
        ctx.get_active_or_frozen_page_state("/also-good", "N"),
        Some(StateValue::new("N", "3"))
    );
    assert_eq!(ctx.frozen_page_state_str("/good"), None);
    assert_eq!(ctx.get_active_or_frozen_page_state("/bad", "Counter"), Some(counter(7)));
}

#[test]
fn entry_without_fallback_that_cannot_be_decoded_is_absent() {
    let snapshot =
        r#"{"route":"/x","global_state":"None","page_state_store":{"/bad":"not json"}}"#;
    let mut ctx = interactive_ctx(8, "/x");
    ctx.thaw(snapshot, prefer_frozen()).unwrap();
    assert_eq!(ctx.get_active_or_frozen_page_state("/bad", "Counter"), None);
    assert_eq!(ctx.frozen_page_state_str("/bad"), Some("not json".to_string()));
    assert_eq!(ctx.page_state_store.flag("/bad"), PageStateFlag::Unset);
}

#[test]
fn stateless_page_takes_no_frozen_state() {
    let mut ctx = interactive_ctx(8, "/x");
    ctx.register_page_no_state("/x");
    ctx.thaw(SNAPSHOT, prefer_frozen()).unwrap();
    assert_eq!(ctx.get_active_or_frozen_page_state("/x", "Counter"), None);
    assert_eq!(ctx.frozen_page_state_str("/x"), Some("{\"count\":1}".to_string()));
    assert_eq!(ctx.page_state_store.flag("/x"), PageStateFlag::NeverReceivesState);
    assert_eq!(ctx.get_frozen_page_state_and_register("/x", "Counter"), None);
}

#[test]
fn frozen_path_falls_back_to_the_active_state() {
    let mut ctx = interactive_ctx(8, "/x");
    ctx.page_state_store.add_state("/y", counter(5));
    ctx.thaw(SNAPSHOT, prefer_active()).unwrap();
    assert_eq!(ctx.get_frozen_page_state_and_register("/y", "Counter"), Some(counter(5)));
    assert_eq!(ctx.get_frozen_page_state_and_register("/x", "Counter"), Some(counter(1)));
    assert_eq!(ctx.get_frozen_page_state_and_register("/x", "Counter"), Some(counter(1)));
    assert_eq!(ctx.frozen_page_state_str("/x"), None);
}

#[test]
fn given_decoding_decides_for_the_caller() {
    let mut ctx = interactive_ctx(8, "/x");
    ctx.page_state_store.add_state("/x", counter(9));
    ctx.thaw(SNAPSHOT, prefer_frozen()).unwrap();
    assert_eq!(ctx.reconcile_page_state("/x", "Counter", None), Some(counter(9)));
    assert_eq!(ctx.frozen_page_state_str("/x"), Some("{\"count\":1}".to_string()));
    assert_eq!(ctx.reconcile_page_state("/x", "Counter", Some(counter(1))), Some(counter(1)));
    assert_eq!(ctx.frozen_page_state_str("/x"), None);
    assert_eq!(ctx.reconcile_page_state("/x", "Counter", Some(counter(4))), Some(counter(1)));
    assert_eq!(ctx.register_frozen_page_state("/x", "Counter", Some(counter(4))), Some(counter(1)));
}

#[test]
fn global_state_follows_its_preference() {
    let snapshot = r#"{"route":"/x","global_state":"{\"theme\":\"dark\"}","page_state_store":{}}"#;
    let dark = StateValue::new("App", "{\"theme\":\"dark\"}");
    let light = StateValue::new("App", "{\"theme\":\"light\"}");

    let mut frozen_first = interactive_ctx(8, "/x");
    frozen_first.global_state.set(light.clone());
    frozen_first.thaw(snapshot, prefer_frozen()).unwrap();
    assert_eq!(frozen_first.frozen_global_state_str(), Some("{\"theme\":\"dark\"}".to_string()));
    assert_eq!(frozen_first.get_active_or_frozen_global_state("App"), Some(dark.clone()));
    assert_eq!(frozen_first.frozen_global_state_str(), None);
    assert_eq!(frozen_first.get_active_global_state("App"), Some(dark.clone()));
    assert_eq!(frozen_first.get_active_or_frozen_global_state("App"), Some(dark.clone()));

    let mut active_first = interactive_ctx(8, "/x");
    active_first.global_state.set(light.clone());
    active_first.thaw(snapshot, prefer_active()).unwrap();
    assert_eq!(active_first.get_active_or_frozen_global_state("App"), Some(light.clone()));
    assert_eq!(active_first.frozen_global_state_str(), Some("{\"theme\":\"dark\"}".to_string()));

    let mut no_active = interactive_ctx(8, "/x");
    no_active.thaw(snapshot, prefer_active()).unwrap();
    assert_eq!(no_active.get_active_or_frozen_global_state("App"), Some(dark.clone()));
    assert_eq!(no_active.get_active_global_state("App"), Some(dark));
}

#[test]
fn absent_or_broken_frozen_global_state_leaves_the_active_one() {
    let light = StateValue::new("App", "{\"theme\":\"light\"}");
    let mut absent = interactive_ctx(8, "/x");
    absent.global_state.set(light.clone());
    absent.thaw(SNAPSHOT, prefer_frozen()).unwrap();
    assert_eq!(absent.frozen_global_state_str(), None);
    assert_eq!(absent.get_active_or_frozen_global_state("App"), Some(light.clone()));

    let broken_snapshot = r#"{"route":"/x","global_state":"{broken","page_state_store":{}}"#;
    let mut broken = interactive_ctx(8, "/x");
    broken.global_state.set(light.clone());
    broken.thaw(broken_snapshot, prefer_frozen()).unwrap();
    assert_eq!(broken.get_active_or_frozen_global_state("App"), Some(light));
    assert_eq!(broken.frozen_global_state_str(), Some("{broken".to_string()));
    assert_eq!(broken.get_frozen_global_state_and_register("App"), None);

    let mut nothing = interactive_ctx(8, "/x");
    nothing.thaw(broken_snapshot, prefer_frozen()).unwrap();
    assert_eq!(nothing.get_active_or_frozen_global_state("App"), None);
}

#[test]
fn freezing_and_thawing_gives_every_state_back() {
    let mut ctx = interactive_ctx(8, "/posts/first");
    ctx.page_state_store.add_state("/posts/first", StateValue::new("Post", "{\"title\":\"a \\\"b\\\"\"}"));
    ctx.page_state_store.add_state("/about", StateValue::new("About", "[1,2,3]"));
    ctx.page_state_store.add_state("/", counter(3));
    ctx.global_state.set(StateValue::new("App", "{\"theme\":\"dark\"}"));

    let frozen = ctx.freeze();
    assert_eq!(
        frozen,
        "{\"global_state\":\"{\\\"theme\\\":\\\"dark\\\"}\",\"route\":\"/posts/first\",\"page_state_store\":{\"/posts/first\":\"{\\\"title\\\":\\\"a \\\\\\\"b\\\\\\\"\\\"}\",\"/about\":\"[1,2,3]\",\"/\":\"{\\\"count\\\":3}\"}}"
    );
    assert_eq!(ctx.get_active_page_state("/about", "About"), Some(StateValue::new("About", "[1,2,3]")));
    assert_eq!(ctx.frozen_page_state_str("/about"), None);

    let action = ctx.thaw(&frozen, prefer_frozen()).unwrap();
    assert!(matches!(action, ThawAction::Reload));
    assert_eq!(
        ctx.get_active_or_frozen_page_state("/posts/first", "Post"),
        Some(StateValue::new("Post", "{\"title\":\"a \\\"b\\\"\"}"))
    );
    assert_eq!(
        ctx.get_active_or_frozen_page_state("/about", "About"),
        Some(StateValue::new("About", "[1,2,3]"))
    );
    assert_eq!(ctx.get_active_or_frozen_page_state("/", "Counter"), Some(counter(3)));
    assert_eq!(
        ctx.get_active_or_frozen_global_state("App"),
        Some(StateValue::new("App", "{\"theme\":\"dark\"}"))
    );
    assert_eq!(ctx.frozen_page_state_str("/about"), None);
    assert_eq!(ctx.frozen_global_state_str(), None);
    assert_eq!(ctx.page_state_store.len(), 3);
}

#[test]
fn frozen_state_moves_to_a_fresh_context() {
    let mut source = interactive_ctx(8, "/a");
    source.page_state_store.add_state("/a", counter(1));
    source.page_state_store.add_state("/b", counter(2));
    let snapshot = source.freeze_app();
    assert_eq!(snapshot.route(), "/a");
    assert_eq!(snapshot.global_state(), "None");
    assert_eq!(snapshot.page_count(), 2);

    let mut target = interactive_ctx(8, "/b");
    let action = target.thaw_app(snapshot, prefer_frozen());
    assert!(matches!(action, ThawAction::Navigate(route) if route == "/a"));
    assert_eq!(target.get_active_or_frozen_page_state("/b", "Counter"), Some(counter(2)));
    assert_eq!(target.get_active_or_frozen_page_state("/a", "Counter"), Some(counter(1)));
    assert_eq!(target.get_active_or_frozen_global_state("App"), None);
}

#[test]
fn thaw_refuses_what_is_no_snapshot_and_keeps_what_was_pending() {
    let mut ctx = interactive_ctx(8, "/x");
    ctx.thaw(SNAPSHOT, prefer_frozen()).unwrap();
    assert_eq!(
        ctx.thaw("{\"route\":", prefer_active()).err(),
        Some(ClientError::ThawFailed { source: SnapshotError::NotAnObject })
    );
    assert_eq!(
        ctx.thaw("{\"route\":\"/x\"}", prefer_active()).err(),
        Some(ClientError::ThawFailed { source: SnapshotError::UnexpectedFields })
    );
    assert_eq!(
        ctx.thaw(
            r#"{"route":"/x","global_state":"None","page_state_store":{"/x":1}}"#,
            prefer_active()
        )
        .err(),
        Some(ClientError::ThawFailed { source: SnapshotError::PageStateNotAString })
    );
    assert_eq!(ctx.frozen_page_state_str("/x"), Some("{\"count\":1}".to_string()));
    ctx.page_state_store.add_state("/x", counter(9));
    assert_eq!(ctx.get_active_or_frozen_page_state("/x", "Counter"), Some(counter(1)));
}

#[test]
fn thaw_replaces_what_was_pending_and_reads_no_state() {
    let mut ctx = interactive_ctx(8, "/x");
    ctx.page_state_store.add_state("/x", counter(9));
    ctx.thaw(SNAPSHOT, prefer_frozen()).unwrap();
    let other = r#"{"route":"/x","global_state":"None","page_state_store":{"/y":"2"}}"#;
    ctx.thaw(other, prefer_active()).unwrap();
    assert_eq!(ctx.frozen_page_state_str("/x"), None);
    assert_eq!(ctx.frozen_page_state_str("/y"), Some("2".to_string()));
    assert_eq!(ctx.get_active_page_state("/x", "Counter"), Some(counter(9)));
    assert_eq!(ctx.get_active_page_state("/y", "Counter"), None);
}

#[test]
fn thaw_reloads_or_navigates() {
    let elsewhere = r#"{"route":"/elsewhere","global_state":"None","page_state_store":{}}"#;
    let server = r#"{"route":"SERVER","global_state":"None","page_state_store":{}}"#;

    let mut ctx = interactive_ctx(8, "/x");
    assert!(matches!(ctx.thaw(SNAPSHOT, prefer_frozen()), Ok(ThawAction::Reload)));
    assert!(matches!(ctx.thaw(server, prefer_frozen()), Ok(ThawAction::Reload)));
    assert!(
        matches!(ctx.thaw(elsewhere, prefer_frozen()), Ok(ThawAction::Navigate(route)) if route == "/elsewhere")
    );

    ctx.set_load_state(RouterLoadState::Loading {
        template_name: "index".to_string(),
        path: "/elsewhere".to_string(),
    });
    assert!(matches!(ctx.thaw(elsewhere, prefer_frozen()), Ok(ThawAction::Reload)));
    ctx.set_load_state(RouterLoadState::ErrorLoaded { path: "/broken".to_string() });
    assert!(
        matches!(ctx.thaw(SNAPSHOT, prefer_frozen()), Ok(ThawAction::Navigate(route)) if route == "/x")
    );
}

#[test]
fn registration_from_a_string_decodes_first() {
    let mut ctx = RenderCtx::new(8);
    assert_eq!(ctx.register_page_state_str("/a", "Counter", "{\"count\":4}"), Ok(counter(4)));
    assert_eq!(ctx.get_active_page_state("/a", "Counter"), Some(counter(4)));
    assert_eq!(
        ctx.register_page_state_str("/a", "Counter", "{\"count\":"),
        Err(ClientError::StateInvalid)
    );
    assert_eq!(ctx.get_active_page_state("/a", "Counter"), Some(counter(4)));

    assert_eq!(
        ctx.register_global_state_str("App", "{\"theme\":\"dark\"}"),
        Ok(StateValue::new("App", "{\"theme\":\"dark\"}"))
    );
    assert_eq!(ctx.register_global_state_str("App", "dark"), Err(ClientError::StateInvalid));
    assert_eq!(
        ctx.get_active_global_state("App"),
        Some(StateValue::new("App", "{\"theme\":\"dark\"}"))
    );
}

#[test]
fn registration_for_a_stateless_page_returns_the_value_and_keeps_none() {
    let mut ctx = RenderCtx::new(8);
    ctx.register_page_no_state("/static");
    assert_eq!(ctx.register_page_state_str("/static", "Counter", "{\"count\":4}"), Ok(counter(4)));
    assert_eq!(ctx.get_active_page_state("/static", "Counter"), None);
    assert_eq!(ctx.page_state_store.flag("/static"), PageStateFlag::NeverReceivesState);
}

#[test]
fn default_context_keeps_no_page_state() {
    let mut ctx = RenderCtx::default();
    assert!(matches!(ctx.router.load_state, RouterLoadState::Server));
    assert!(ctx.frozen_app.is_none());
    assert_eq!(ctx.page_state_store.max_size(), 0);
    assert_eq!(ctx.register_page_state_str("/a", "Counter", "{\"count\":4}"), Ok(counter(4)));
    assert_eq!(ctx.get_active_page_state("/a", "Counter"), None);
    assert_eq!(ctx.get_active_or_frozen_global_state("App"), None);
}

#[test]
fn preload_goes_by_the_verdict_of_the_route_matcher() {
    let found = RouteVerdict::Found(RouteInfo {
        path: "posts/first".to_string(),
        locale: "en-US".to_string(),
        template: "posts".to_string(),
        was_incremental_match: false,
    });
    let mut ctx = interactive_ctx(8, "/x");
    assert_eq!(
        ctx.begin_preload("/posts/first", &RouteVerdict::NotFound, false),
        Err(ClientError::PreloadNotFound)
    );
    assert_eq!(
        ctx.begin_preload("/posts/first", &RouteVerdict::LocaleDetection("posts/first".to_string()), false),
        Err(ClientError::PreloadLocaleDetection)
    );
    assert_eq!(ctx.page_state_store.preload_status("/posts/first"), PreloadStatus::Absent);
    assert_eq!(ctx.begin_preload("/posts/first", &found, false), Ok(PreloadStep::Fetch));
    assert_eq!(ctx.begin_preload("/posts/first", &found, false), Ok(PreloadStep::Join));
    assert_eq!(ctx.finish_preload("/posts/first", Some("page".to_string())), Ok(()));
    assert_eq!(ctx.begin_preload("/posts/first", &found, true), Ok(PreloadStep::Cached));
    assert_eq!(ctx.page_state_store.get_preloaded("/posts/first"), Some("page".to_string()));

    assert_eq!(ctx.begin_preload("/gone", &found, false), Ok(PreloadStep::Fetch));
    assert_eq!(ctx.finish_preload("/gone", None), Err(ClientError::PreloadNotFound));
    assert_eq!(ctx.finish_preload("/gone", None), Ok(()));
    assert_eq!(ctx.page_state_store.preload_status("/gone"), PreloadStatus::Absent);
}

#[test]
fn route_preloads_are_dropped_when_another_page_has_been_loaded() {
    let found = RouteVerdict::Found(RouteInfo {
        path: "p".to_string(),
        locale: "en-US".to_string(),
        template: "p".to_string(),
        was_incremental_match: true,
    });
    let mut ctx = interactive_ctx(8, "/x");
    ctx.begin_preload("/route", &found, true).unwrap();
    ctx.finish_preload("/route", Some("r".to_string())).unwrap();
    ctx.begin_preload("/session", &found, false).unwrap();
    ctx.finish_preload("/session", Some("s".to_string())).unwrap();

    ctx.set_load_state(RouterLoadState::Loading {
        template_name: "y".to_string(),
        path: "/y".to_string(),
    });
    assert_eq!(ctx.page_state_store.preload_status("/route"), PreloadStatus::RoutePreloaded);
    ctx.set_load_state(loaded("/y"));
    assert_eq!(ctx.page_state_store.preload_status("/route"), PreloadStatus::Absent);
    assert_eq!(ctx.page_state_store.preload_status("/session"), PreloadStatus::Preloaded);

    ctx.begin_preload("/route", &found, true).unwrap();
    ctx.finish_preload("/route", Some("r".to_string())).unwrap();
    ctx.set_load_state(RouterLoadState::Loading {
        template_name: "y".to_string(),
        path: "/y".to_string(),
    });
    ctx.set_load_state(loaded("/y"));
    assert_eq!(ctx.page_state_store.preload_status("/route"), PreloadStatus::RoutePreloaded);
    ctx.set_load_state(RouterLoadState::ErrorLoaded { path: "/z".to_string() });
    assert_eq!(ctx.page_state_store.preload_status("/route"), PreloadStatus::RoutePreloaded);
    assert_eq!(ctx.router.last_loaded, Some("/y".to_string()));
    ctx.set_load_state(loaded("/x"));
    assert_eq!(ctx.page_state_store.preload_status("/route"), PreloadStatus::Absent);
    assert_eq!(ctx.page_state_store.preload_status("/session"), PreloadStatus::Preloaded);
}
