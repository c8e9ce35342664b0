use cross_seed::tracker::{covers, is_pseudo_tracker, merge, normalize, tracker_additions};

fn urls(v: &[&str]) -> Vec<String> {
    v.iter().map(|s| s.to_string()).collect()
}

#[test]
fn merge_drops_marker_and_duplicate() {
    let local = urls(&["http://a/announce", "** [DHT] **"]);
    let found = urls(&["http://a/announce", "http://b/announce"]);
    assert_eq!(merge(&local, &found), urls(&["http://a/announce", "http://b/announce"]));
}

#[test]
fn merge_keeps_first_occurrence_order() {
    let local = urls(&["c", "a", "c", "** [PeX] **"]);
    let found = urls(&["b", "a", "d", "** [LSD] **", "b"]);
    assert_eq!(merge(&local, &found), urls(&["c", "a", "b", "d"]));
}

#[test]
fn merge_is_idempotent() {
    let local = urls(&["x", "** [DHT] **", "y", "x"]);
    let found = urls(&["y", "z", "** [PeX] **"]);
    let once = merge(&local, &found);
    let twice = merge(&once, &found);
    assert_eq!(once, twice);
    assert!(once.iter().all(|u| !u.starts_with("** [")));
}

#[test]
fn merge_of_empty_lists_is_empty() {
    assert!(merge(&Vec::new(), &Vec::new()).is_empty());
}

#[test]
fn pseudo_markers_are_recognized() {
    assert!(is_pseudo_tracker(&"** [DHT] **".to_string()));
    assert!(is_pseudo_tracker(&"** [PeX] **".to_string()));
    assert!(!is_pseudo_tracker(&"http://a/announce".to_string()));
    assert!(!is_pseudo_tracker(&"** [DHT]".to_string()));
    assert!(!is_pseudo_tracker(&"".to_string()));
}

#[test]
fn normalize_decodes_flattens_and_filters() {
    let groups = vec![
        urls(&["http%3A%2F%2Fc%2Fannounce", "** [DHT] **"]),
        urls(&["http://d/announce", "http://c/announce"]),
    ];
    assert_eq!(
        normalize(&groups),
        Some(urls(&["http://c/announce", "http://d/announce"]))
    );
}

#[test]
fn normalize_rejects_invalid_utf8() {
    let groups = vec![urls(&["http://a/announce"]), urls(&["http://b/%FF"])];
    assert_eq!(normalize(&groups), None);
}

#[test]
fn additions_are_the_missing_trackers() {
    let client = urls(&["http://a/announce"]);
    let found = urls(&["http://a/announce", "http://b/announce", "http://b/announce"]);
    assert_eq!(tracker_additions(&client, &found), urls(&["http://b/announce"]));
    assert!(tracker_additions(&found, &client).is_empty());
}

#[test]
fn covers_checks_every_url() {
    let client = urls(&["a", "b"]);
    assert!(covers(&client, &urls(&["b", "a"])));
    assert!(covers(&client, &Vec::new()));
    assert!(!covers(&client, &urls(&["a", "c"])));
}
