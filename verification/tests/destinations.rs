use meshelf::destination::{
    collision_candidate, component_with_suffix, relative_path, split_candidate,
    validate_component, validate_relative_path, DestinationPolicy,
};
use meshelf::ids::MessageId;
use meshelf::model::ContentKind;
use meshelf::offer::MAX_OFFER_PORTABLE_COMPONENT_BYTES;
use meshelf::path::{state_path, HostPath};
use meshelf::text::truncate_utf8;

#[test]
fn collision_candidates_stay_within_portable_component_limit() {
    let folder_root = "a".repeat(MAX_OFFER_PORTABLE_COMPONENT_BYTES);
    let folder_name = collision_candidate(&folder_root, ContentKind::Folder, 2)
        .expect("folder collision candidate");
    assert_eq!(folder_name.len(), MAX_OFFER_PORTABLE_COMPONENT_BYTES);
    assert!(folder_name.ends_with(" (2)"));
    validate_component(&folder_name).expect("portable folder collision name");

    let file_root = format!("{}.txt", "b".repeat(MAX_OFFER_PORTABLE_COMPONENT_BYTES - 4));
    let file_name = collision_candidate(&file_root, ContentKind::File, 9999)
        .expect("file collision candidate");
    assert_eq!(file_name.len(), MAX_OFFER_PORTABLE_COMPONENT_BYTES);
    assert!(file_name.ends_with(" (9999).txt"));
    validate_component(&file_name).expect("portable file collision name");

    let unicode_root = format!("{}a", "é".repeat(127));
    let unicode_name = collision_candidate(&unicode_root, ContentKind::Folder, 2)
        .expect("UTF-8 collision candidate");
    assert!(unicode_name.len() <= MAX_OFFER_PORTABLE_COMPONENT_BYTES);
    assert!(unicode_name.ends_with(" (2)"));
    validate_component(&unicode_name).expect("portable UTF-8 collision name");

    let fallback_suffix = format!(".{}", MessageId::new().text());
    let fallback_name = component_with_suffix(&folder_root, &fallback_suffix)
        .expect("portable UUID fallback name");
    assert!(fallback_name.len() <= MAX_OFFER_PORTABLE_COMPONENT_BYTES);
    validate_component(&fallback_name).expect("portable UUID fallback name");
}

#[test]
fn generated_collision_names_reject_degenerate_suffix_budgets() {
    let at_ceiling = "x".repeat(MAX_OFFER_PORTABLE_COMPONENT_BYTES);
    let over_ceiling = "x".repeat(MAX_OFFER_PORTABLE_COMPONENT_BYTES + 1);
    assert!(component_with_suffix("stem", &at_ceiling).is_err());
    assert!(component_with_suffix("stem", &over_ceiling).is_err());

    let almost_ceiling = "x".repeat(MAX_OFFER_PORTABLE_COMPONENT_BYTES - 1);
    assert!(component_with_suffix("é", &almost_ceiling).is_err());
    assert_eq!(truncate_utf8("é", 1), "");

    let dotfile = collision_candidate(".bashrc", ContentKind::File, 2)
        .expect("dotfile collision candidate");
    assert_eq!(dotfile, ".bashrc (2)");

    let long_extension = format!("a.{}", "x".repeat(250));
    let long_extension_name = collision_candidate(&long_extension, ContentKind::File, 2)
        .expect("long-extension collision candidate");
    assert!(long_extension_name.len() <= MAX_OFFER_PORTABLE_COMPONENT_BYTES);
    assert!(long_extension_name.ends_with(" (2)"));
    validate_component(&long_extension_name).expect("portable long-extension collision name");
}

#[test]
fn the_first_candidate_is_the_name_itself() {
    assert_eq!(
        collision_candidate("report.txt", ContentKind::File, 1).expect("first"),
        "report.txt"
    );
    assert_eq!(
        collision_candidate("report.txt", ContentKind::File, 2).expect("second"),
        "report (2).txt"
    );
    assert_eq!(
        collision_candidate("report.txt", ContentKind::Folder, 3).expect("third"),
        "report.txt (3)"
    );
}

#[test]
fn names_that_some_system_refuses_are_refused() {
    for name in [
        "", ".", "..", "a/b", "a\\b", "a:b", "a*b", "a?b", "a<b", "a>b", "a|b", "a\"b", "a\u{1}b",
        "name.", "name ", "CON", "con", "nul.txt", "Com1", "LPT9.log",
    ] {
        assert!(validate_component(name).is_err(), "{name:?} was accepted");
        assert!(DestinationPolicy::validate_component(name).is_err(), "{name:?} was accepted");
    }
    for name in ["a", ".bashrc", "report.txt", "COM10", "conn", "日本語", "a b"] {
        assert_eq!(validate_component(name), Ok(()), "{name:?} was refused");
        assert_eq!(DestinationPolicy::validate_component(name), Ok(()));
    }
    assert!(validate_component(&"n".repeat(256)).is_err());
    assert_eq!(validate_component(&"n".repeat(255)), Ok(()));
}

#[test]
fn a_refused_name_is_quoted() {
    let error = validate_component("a\"b").expect_err("refused");
    assert!(error.contains("\"a\\\"b\""), "{error}");
}

#[test]
fn accepted_paths_stay_inside() {
    assert_eq!(validate_relative_path("a/b/c.txt"), Ok(()));
    assert_eq!(DestinationPolicy::validate_relative_path("a"), Ok(()));
    assert_eq!(relative_path("a/b/c.txt"), ["a", "b", "c.txt"]);
    for path in ["", "/a", "a//b", "a/", "../a", "a/../b", "a/./b", "C:/a", "a\\b"] {
        assert!(validate_relative_path(path).is_err(), "{path:?} was accepted");
        assert!(DestinationPolicy::validate_relative_path(path).is_err());
    }
    assert!(validate_relative_path(&"abc/".repeat(1025)).is_err());
}

#[test]
fn the_name_of_a_path_is_the_name_of_its_last_component() {
    assert_eq!(
        collision_candidate("folder/report.txt", ContentKind::File, 2).expect("candidate"),
        "report (2).txt"
    );
    assert!(collision_candidate("folder/report.txt", ContentKind::File, 1).is_err());
    assert!(collision_candidate("folder/report.txt", ContentKind::Folder, 2).is_err());
    assert!(collision_candidate("..", ContentKind::File, 2).is_ok());
    assert_eq!(collision_candidate("a.b.c", ContentKind::File, 2).expect("candidate"), "a.b (2).c");
}

#[test]
fn a_number_goes_between_stem_and_extension() {
    let split = Some(("stem".to_owned(), "ext".to_owned()));
    assert_eq!(
        split_candidate("whole", ContentKind::File, 3, split).expect("candidate"),
        "stem (3).ext"
    );
    assert_eq!(
        split_candidate("whole", ContentKind::File, 3, None).expect("candidate"),
        "whole (3)"
    );
}

#[test]
fn the_state_is_kept_in_the_configuration_directory() {
    let path = |text: &str, absolute| HostPath { text: text.to_owned(), absolute };
    let state = state_path(&path("/home/a/.config/meshelf", true), '/');
    assert_eq!(state.text, "/home/a/.config/meshelf/state.json");
    assert!(state.absolute);
    assert_eq!(state_path(&path("/", true), '/').text, "/state.json");
    let here = state_path(&path("", false), '/');
    assert_eq!(here.text, "state.json");
    assert!(!here.absolute);
    assert_eq!(state_path(&path("C:\\data", true), '\\').text, "C:\\data\\state.json");
}
