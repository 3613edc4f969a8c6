use fluminurs_desktop::header::{get_button_style, Button};
use fluminurs_desktop::module::{module_handles, Module};
use fluminurs_desktop::order::{reversed, stable_sort};
use fluminurs_desktop::pages::resources::{last_updated_label, updated_label};
use fluminurs_desktop::pages::Page;
use fluminurs_desktop::resource::{
    find_resource, DownloadStatus, ResourceState, ResourceType,
};
use fluminurs_desktop::storage::Error;
use fluminurs_desktop::text::{text_equal, text_precedes};
use fluminurs_desktop::time::Timestamp;
use fluminurs_desktop::utils::{clean_username, construct_modules_map, with_domain};

fn module(id: &str, code: &str, handle: Option<u32>) -> Module<u32> {
    Module {
        id: id.to_string(),
        code: code.to_string(),
        name: String::new(),
        term: "2010".to_string(),
        is_taking: false,
        is_teaching: false,
        last_updated: Timestamp::new(1, 0),
        internal_module: handle,
    }
}

fn state(module_id: &str, path: &str) -> ResourceState<u32> {
    ResourceState::new(1, module_id.to_string(), path.to_string(), Timestamp::new(1, 0))
}

#[test]
fn clean_username_lowers_and_adds_domain() {
    assert_eq!(clean_username("E0123456"), "nusstu\\e0123456");
    assert_eq!(clean_username("e0123456"), "nusstu\\e0123456");
}

#[test]
fn clean_username_keeps_domain_that_is_there() {
    assert_eq!(clean_username("NUSSTU\\E0123456"), "nusstu\\e0123456");
    assert_eq!(clean_username("nusstu\\"), "nusstu\\");
    assert_eq!(clean_username(""), "nusstu\\");
    assert_eq!(clean_username("nusstu"), "nusstu\\nusstu");
    assert_eq!(clean_username("\u{C9}cole"), "nusstu\\\u{E9}cole");
}

#[test]
fn with_domain_leaves_case_alone() {
    assert_eq!(with_domain("ABC".to_string()), "nusstu\\ABC");
    assert_eq!(with_domain("nusstu\\x".to_string()), "nusstu\\x");
    assert_eq!(with_domain("NUSSTU\\x".to_string()), "nusstu\\NUSSTU\\x");
}

#[test]
fn modules_map_finds_by_id_and_last_wins() {
    let modules =
        vec![module("a", "CS1010", Some(1)), module("b", "MA1101", None), module("a", "CS1010S", Some(3))];
    let map = construct_modules_map(&modules);
    assert_eq!(map.len(), 2);
    assert_eq!(map.get("a").map(|m| m.code.clone()), Some("CS1010S".to_string()));
    assert_eq!(map.get("a").and_then(|m| m.internal_module), Some(3));
    assert_eq!(map.get("b").map(|m| m.code.clone()), Some("MA1101".to_string()));
    assert!(map.get("c").is_none());
    assert!(construct_modules_map::<u32>(&vec![]).is_empty());
}

#[test]
fn local_resource_path_joins_module_category_and_path() {
    let map = construct_modules_map(&vec![module("10", "CS1010", None)]);
    let r = state("10", "Lectures/a.pdf");
    assert_eq!(r.local_resource_path(&map, ResourceType::File), "CS1010/Files/Lectures/a.pdf");
    assert_eq!(r.local_resource_path(&map, ResourceType::Multimedia), "CS1010/Multimedia/Lectures/a.pdf");
    assert_eq!(r.local_resource_path(&map, ResourceType::Weblecture), "CS1010/Weblectures/Lectures/a.pdf");
    assert_eq!(r.local_resource_path(&map, ResourceType::Conference), "CS1010/Conferences/Lectures/a.pdf");
}

#[test]
fn local_resource_path_of_unknown_module() {
    let map = construct_modules_map(&vec![module("10", "CS1010", None)]);
    let r = state("11", "a.pdf");
    assert_eq!(r.local_resource_path(&map, ResourceType::File), "Unknown/Files/a.pdf");
}

#[test]
fn category_folders() {
    assert_eq!(ResourceType::File.folder(), "Files");
    assert_eq!(ResourceType::Multimedia.folder(), "Multimedia");
    assert_eq!(ResourceType::Weblecture.folder(), "Weblectures");
    assert_eq!(ResourceType::Conference.folder(), "Conferences");
}

#[test]
fn module_handles_skips_modules_without_one() {
    let modules = vec![module("a", "A", Some(1)), module("b", "B", None), module("c", "C", Some(3))];
    assert_eq!(module_handles(&modules), vec![1, 3]);
    assert_eq!(module_handles::<u32>(&vec![]), Vec::<u32>::new());
}

#[test]
fn find_resource_gives_the_first_match() {
    let items = vec![state("10", "a"), state("11", "a"), state("10", "b"), state("11", "a")];
    assert_eq!(find_resource(&items, "11", "a"), Some(1));
    assert_eq!(find_resource(&items, "10", "b"), Some(2));
    assert_eq!(find_resource(&items, "10", "c"), None);
    assert_eq!(find_resource(&items, "a", "10"), None);
}

#[test]
fn download_outcome_is_recorded() {
    let mut r = state("10", "a");
    r.download_status = DownloadStatus::Fetching;
    r.downloaded(Err(Error::RemoteFailure), Timestamp::new(5, 0));
    assert_eq!(r.download_status, DownloadStatus::Error);
    assert_eq!(r.download_path, None);
    assert_eq!(r.download_time, None);
    r.downloaded(Ok("CS1010/Files/a".to_string()), Timestamp::new(9, 1));
    assert_eq!(r.download_status, DownloadStatus::Idle);
    assert_eq!(r.download_path, Some("CS1010/Files/a".to_string()));
    assert_eq!(r.download_time, Some(Timestamp::new(9, 1)));
    assert_eq!(r.resource, Some(1));
    assert_eq!(r.last_updated, Timestamp::new(1, 0));
}

#[test]
fn text_order_is_that_of_str() {
    let samples = ["", "a", "A", "ab", "b", "10", "2", "a/b", "a.pdf", "\u{E9}", "z", "\u{10000}", "\u{FFFF}"];
    for a in samples.iter() {
        for b in samples.iter() {
            assert_eq!(text_precedes(a, b), a < b);
            assert_eq!(text_equal(a, b), a == b);
        }
    }
}

#[test]
fn timestamps_compare_by_seconds_then_nanoseconds() {
    assert!(Timestamp::new(1, 5).is_before(&Timestamp::new(2, 0)));
    assert!(Timestamp::new(1, 5).is_before(&Timestamp::new(1, 6)));
    assert!(!Timestamp::new(1, 5).is_before(&Timestamp::new(1, 5)));
    assert!(!Timestamp::new(2, 0).is_before(&Timestamp::new(1, 999)));
    assert!(Timestamp::epoch().is_unix_epoch());
    assert!(!Timestamp::new(0, 1).is_unix_epoch());
    assert!(!Timestamp::new(1, 0).is_unix_epoch());
}

#[test]
fn stable_sort_keeps_ties_in_order() {
    let mut items = vec![
        module("1", "B", Some(1)),
        module("2", "A", Some(2)),
        module("3", "B", Some(3)),
        module("4", "A", Some(4)),
    ];
    stable_sort(&mut items);
    let order: Vec<Option<u32>> = items.iter().map(|m| m.internal_module).collect();
    assert_eq!(order, vec![Some(2), Some(4), Some(1), Some(3)]);
    assert_eq!(reversed(vec![1, 2, 3]), vec![3, 2, 1]);
}

#[test]
fn last_updated_label_shows_day_and_time_in_utc() {
    assert_eq!(
        last_updated_label(Timestamp::new(1431648000, 0)),
        Some("Last updated at 15/05/2015 00:00:00".to_string())
    );
    assert_eq!(
        last_updated_label(Timestamp::new(86399, 999_999_999)),
        Some("Last updated at 01/01/1970 23:59:59".to_string())
    );
    assert_eq!(last_updated_label(Timestamp::epoch()), Some("Last updated at 01/01/1970 00:00:00".to_string()));
    assert_eq!(last_updated_label(Timestamp::new(u64::MAX, 0)), None);
    assert_eq!(last_updated_label(Timestamp::new(i64::MAX as u64, 0)), None);
    assert_eq!(updated_label("now"), "Last updated at now");
}

#[test]
fn header_button_of_the_page_shown_is_active() {
    assert_eq!(get_button_style(&Page::Files, &Page::Files), Button::ActiveButton);
    assert_eq!(get_button_style(&Page::Files, &Page::Modules), Button::InactiveButton);
}
