use perseus::page_state_store::{PageStateFlag, PageStateStore, PreloadStatus, PreloadStep};
use perseus::state::StateValue;

fn value(document: &str) -> StateValue {
    StateValue::new("Counter", document)
}

#[test]
fn registered_state_is_returned_at_its_type() {
    let mut store = PageStateStore::new(4);
    assert_eq!(store.flag("/a"), PageStateFlag::Unset);
    assert!(store.add_state("/a", value("{\"count\":1}")));
    assert_eq!(store.flag("/a"), PageStateFlag::HasState);
    assert_eq!(store.get_state("/a", "Counter"), Some(value("{\"count\":1}")));
    assert_eq!(store.len(), 1);
    assert_eq!(store.max_size(), 4);
}

#[test]
fn state_of_another_type_or_page_is_a_miss() {
    let mut store = PageStateStore::new(4);
    store.add_state("/a", value("1"));
    assert_eq!(store.get_state("/a", "Other"), None);
    assert_eq!(store.get_state("/b", "Counter"), None);
    assert_eq!(store.get_state("", "Counter"), None);
}

#[test]
fn stateless_page_refuses_every_registration() {
    let mut store = PageStateStore::new(4);
    store.set_state_never("/static");
    assert_eq!(store.flag("/static"), PageStateFlag::NeverReceivesState);
    assert!(!store.add_state("/static", value("1")));
    assert_eq!(store.get_state("/static", "Counter"), None);
    assert!(store.add_state("/other", value("2")));
    store.remove("/static");
    store.set_state_never("/static");
    assert!(!store.add_state("/static", value("3")));
    assert_eq!(store.flag("/static"), PageStateFlag::NeverReceivesState);
    assert_eq!(store.get_state("/static", "Counter"), None);
    assert_eq!(store.len(), 1);
}

#[test]
fn declaring_a_page_stateless_drops_its_state() {
    let mut store = PageStateStore::new(4);
    store.add_state("/a", value("1"));
    store.add_state("/b", value("2"));
    store.set_state_never("/a");
    assert_eq!(store.get_state("/a", "Counter"), None);
    assert_eq!(store.get_state("/b", "Counter"), Some(value("2")));
    assert_eq!(store.len(), 1);
}

#[test]
fn remove_drops_state_and_preload() {
    let mut store = PageStateStore::new(4);
    store.add_state("/a", value("1"));
    assert_eq!(store.begin_preload("/p", false), PreloadStep::Fetch);
    assert!(store.finish_preload("/p", Some("data".to_string())));
    store.remove("/a");
    store.remove("/p");
    store.remove("/nowhere");
    assert_eq!(store.flag("/a"), PageStateFlag::Unset);
    assert_eq!(store.get_state("/a", "Counter"), None);
    assert_eq!(store.preload_status("/p"), PreloadStatus::Absent);
    assert_eq!(store.get_preloaded("/p"), None);
}

#[test]
fn oldest_registration_is_evicted_past_the_bound() {
    let mut store = PageStateStore::new(2);
    assert!(store.add_state("/a", value("1")));
    assert!(store.add_state("/b", value("2")));
    assert!(store.add_state("/c", value("3")));
    assert_eq!(store.len(), 2);
    assert_eq!(store.get_state("/a", "Counter"), None);
    assert_eq!(store.get_state("/b", "Counter"), Some(value("2")));
    assert_eq!(store.get_state("/c", "Counter"), Some(value("3")));
}

#[test]
fn replacing_a_value_keeps_its_place_in_the_order() {
    let mut store = PageStateStore::new(2);
    store.add_state("/a", value("1"));
    store.add_state("/b", value("2"));
    assert!(store.add_state("/a", value("10")));
    assert_eq!(store.len(), 2);
    assert_eq!(store.get_state("/a", "Counter"), Some(value("10")));
    store.add_state("/c", value("3"));
    assert_eq!(store.get_state("/a", "Counter"), None);
    assert_eq!(store.get_state("/b", "Counter"), Some(value("2")));
    assert_eq!(store.get_state("/c", "Counter"), Some(value("3")));
}

#[test]
fn store_without_room_accepts_and_keeps_nothing() {
    let mut store = PageStateStore::new(0);
    assert!(store.add_state("/a", value("1")));
    assert_eq!(store.len(), 0);
    assert_eq!(store.get_state("/a", "Counter"), None);
    assert_eq!(store.flag("/a"), PageStateFlag::Unset);
    assert!(store.freeze_pages().is_empty());
}

#[test]
fn pages_are_frozen_in_the_order_of_registration() {
    let mut store = PageStateStore::new(4);
    store.add_state("/b", value("2"));
    store.add_state("/a", StateValue::new("Other", "1"));
    assert_eq!(
        store.freeze_pages(),
        vec![
            ("/b".to_string(), "2".to_string()),
            ("/a".to_string(), "1".to_string())
        ]
    );
    assert_eq!(store.len(), 2);
}

#[test]
fn concurrent_preloads_share_one_fetch() {
    let mut store = PageStateStore::new(4);
    assert_eq!(store.preload_status("/p"), PreloadStatus::Absent);
    assert_eq!(store.begin_preload("/p", false), PreloadStep::Fetch);
    assert_eq!(store.preload_status("/p"), PreloadStatus::InFlight);
    assert_eq!(store.begin_preload("/p", false), PreloadStep::Join);
    assert_eq!(store.begin_preload("/p", true), PreloadStep::Join);
    assert_eq!(store.get_preloaded("/p"), None);
    assert!(store.finish_preload("/p", Some("page".to_string())));
    assert_eq!(store.preload_status("/p"), PreloadStatus::Preloaded);
    assert_eq!(store.begin_preload("/p", false), PreloadStep::Cached);
    assert_eq!(store.get_preloaded("/p"), Some("page".to_string()));
}

#[test]
fn preload_of_a_known_page_fetches_nothing() {
    let mut store = PageStateStore::new(4);
    store.add_state("/a", value("1"));
    store.set_state_never("/static");
    assert_eq!(store.begin_preload("/a", false), PreloadStep::Cached);
    assert_eq!(store.begin_preload("/static", true), PreloadStep::Cached);
    assert_eq!(store.preload_status("/a"), PreloadStatus::Absent);
    assert_eq!(store.preload_status("/static"), PreloadStatus::Absent);
}

#[test]
fn fetch_that_brought_nothing_leaves_no_trace() {
    let mut store = PageStateStore::new(4);
    assert_eq!(store.begin_preload("/p", true), PreloadStep::Fetch);
    assert!(!store.finish_preload("/p", None));
    assert_eq!(store.preload_status("/p"), PreloadStatus::Absent);
    assert_eq!(store.begin_preload("/p", true), PreloadStep::Fetch);
}

#[test]
fn answer_to_no_fetch_is_dropped() {
    let mut store = PageStateStore::new(4);
    assert!(!store.finish_preload("/p", Some("page".to_string())));
    assert_eq!(store.preload_status("/p"), PreloadStatus::Absent);
    store.begin_preload("/q", false);
    store.finish_preload("/q", Some("first".to_string()));
    assert!(!store.finish_preload("/q", Some("second".to_string())));
    assert_eq!(store.get_preloaded("/q"), Some("first".to_string()));
}

#[test]
fn route_preloads_end_with_the_route() {
    let mut store = PageStateStore::new(4);
    store.begin_preload("/session", false);
    store.finish_preload("/session", Some("s".to_string()));
    store.begin_preload("/route", true);
    store.finish_preload("/route", Some("r".to_string()));
    store.begin_preload("/route-in-flight", true);
    store.begin_preload("/session-in-flight", false);
    assert_eq!(store.preload_status("/route"), PreloadStatus::RoutePreloaded);
    store.add_state("/a", value("1"));

    store.clear_route_preloads();

    assert_eq!(store.preload_status("/session"), PreloadStatus::Preloaded);
    assert_eq!(store.preload_status("/route"), PreloadStatus::Absent);
    assert_eq!(store.preload_status("/route-in-flight"), PreloadStatus::Absent);
    assert_eq!(store.preload_status("/session-in-flight"), PreloadStatus::InFlight);
    assert_eq!(store.get_state("/a", "Counter"), Some(value("1")));
    assert!(!store.finish_preload("/route-in-flight", Some("late".to_string())));
    assert_eq!(store.preload_status("/route-in-flight"), PreloadStatus::Absent);
}
