use run_orchestrator::picker::cleaned_filters;
use run_orchestrator::picker::normalize_extensions;
use run_orchestrator::picker::paths_to_strings;
use run_orchestrator::picker::pick_mode;
use run_orchestrator::picker::FileFilter;
use run_orchestrator::picker::FilePickRequest;
use run_orchestrator::picker::PickMode;
use run_orchestrator::workspace::WorkspaceWalk;

fn dir(components: &[&str]) -> Vec<String> {
    components.iter().map(|c| c.to_string()).collect()
}

#[test]
fn walk_climbs_from_the_candidate_to_the_root() {
    let candidates = vec![dir(&["home", "user", "proj"])];
    let mut walk = WorkspaceWalk::new(&candidates);
    assert_eq!(walk.next_probe(), Some(dir(&["home", "user", "proj"])));
    assert_eq!(walk.next_probe(), Some(dir(&["home", "user"])));
    assert_eq!(walk.next_probe(), Some(dir(&["home"])));
    assert_eq!(walk.next_probe(), Some(dir(&[])));
    assert_eq!(walk.next_probe(), None);
    assert_eq!(walk.next_probe(), None);
}

#[test]
fn walk_never_offers_a_directory_twice() {
    let candidates = vec![dir(&["a", "b"]), dir(&["a", "b", "c"])];
    let mut walk = WorkspaceWalk::new(&candidates);
    assert_eq!(walk.next_probe(), Some(dir(&["a", "b"])));
    assert_eq!(walk.next_probe(), Some(dir(&["a"])));
    assert_eq!(walk.next_probe(), Some(dir(&[])));
    // the second candidate adds only its own fresh directory
    assert_eq!(walk.next_probe(), Some(dir(&["a", "b", "c"])));
    assert_eq!(walk.next_probe(), None);
}

#[test]
fn walk_with_no_candidates_offers_nothing() {
    let candidates: Vec<Vec<String>> = Vec::new();
    let mut walk = WorkspaceWalk::new(&candidates);
    assert_eq!(walk.next_probe(), None);
}

#[test]
fn extensions_lose_dots_and_case() {
    let source = vec![
        ".PDF".to_string(),
        "txt".to_string(),
        "..".to_string(),
        "".to_string(),
        "..Md".to_string(),
    ];
    let cleaned = normalize_extensions(&source);
    assert_eq!(cleaned, vec!["pdf".to_string(), "txt".to_string(), "md".to_string()]);
}

#[test]
fn non_ascii_extension_characters_survive() {
    let source = vec![".Grüße".to_string()];
    assert_eq!(normalize_extensions(&source), vec!["grüße".to_string()]);
}

#[test]
fn pick_mode_follows_the_request_shape() {
    assert_eq!(pick_mode(false, false), PickMode::SingleFile);
    assert_eq!(pick_mode(false, true), PickMode::MultipleFiles);
    assert_eq!(pick_mode(true, false), PickMode::SingleFolder);
    assert_eq!(pick_mode(true, true), PickMode::MultipleFolders);
}

#[test]
fn default_request_asks_for_one_file() {
    let request = FilePickRequest::default();
    assert!(!request.multiple);
    assert!(!request.directory);
    assert!(request.filters.is_empty());
    let filter = FileFilter::default();
    assert!(filter.name.is_none());
    assert!(filter.extensions.is_empty());
}

#[test]
fn picked_paths_collect_in_order() {
    let paths = vec![Ok("/a/b".to_string()), Ok("/c".to_string())];
    assert_eq!(paths_to_strings(paths), Ok(vec!["/a/b".to_string(), "/c".to_string()]));
}

#[test]
fn first_conversion_error_wins() {
    let paths = vec![
        Ok("/a".to_string()),
        Err("not representable".to_string()),
        Err("second error".to_string()),
        Ok("/z".to_string()),
    ];
    assert_eq!(paths_to_strings(paths), Err("not representable".to_string()));
}

#[test]
fn filters_are_cleaned_and_labeled() {
    let filters = vec![
        FileFilter {
            name: Some("Documents".to_string()),
            extensions: vec![".PDF".to_string(), "Docx".to_string()],
        },
        FileFilter { name: Some("Nothing".to_string()), extensions: vec!["..".to_string()] },
        FileFilter { name: None, extensions: vec!["PNG".to_string()] },
    ];
    let cleaned = cleaned_filters(&filters);
    assert_eq!(
        cleaned,
        vec![
            ("Documents".to_string(), vec!["pdf".to_string(), "docx".to_string()]),
            ("".to_string(), vec!["png".to_string()]),
        ]
    );
}
