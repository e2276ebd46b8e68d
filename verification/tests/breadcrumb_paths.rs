use git_hosting_providers::breadcrumbs::collapse_middle;
use git_hosting_providers::breadcrumbs::MAX_SEGMENTS;

fn segments(n: usize) -> Vec<String> {
    (0..n).map(|i| format!("seg{i}")).collect()
}

#[test]
fn short_path_unchanged() {
    let mut path = segments(3);
    let expected = path.clone();
    collapse_middle(&mut path, "⋯".to_string(), MAX_SEGMENTS);
    assert_eq!(path, expected);
}

#[test]
fn path_at_maximum_unchanged() {
    let mut path = segments(12);
    let expected = path.clone();
    collapse_middle(&mut path, "⋯".to_string(), MAX_SEGMENTS);
    assert_eq!(path, expected);
}

#[test]
fn path_over_maximum_collapsed() {
    let mut path = segments(13);
    collapse_middle(&mut path, "⋯".to_string(), MAX_SEGMENTS);
    let expected = vec![
        "seg0", "seg1", "seg2", "seg3", "seg4", "seg5", "⋯", "seg7", "seg8", "seg9", "seg10",
        "seg11", "seg12",
    ];
    assert_eq!(path, expected);
}

#[test]
fn long_path_keeps_ends_only() {
    let mut path = segments(40);
    collapse_middle(&mut path, "⋯".to_string(), MAX_SEGMENTS);
    assert_eq!(path.len(), 13);
    assert_eq!(&path[..6], &segments(40)[..6]);
    assert_eq!(path[6], "⋯");
    assert_eq!(&path[7..], &segments(40)[34..]);
}

#[test]
fn empty_path_unchanged() {
    let mut path: Vec<String> = Vec::new();
    collapse_middle(&mut path, "⋯".to_string(), MAX_SEGMENTS);
    assert!(path.is_empty());
}

#[test]
fn zero_budget_collapses_to_ellipsis() {
    let mut path = segments(2);
    collapse_middle(&mut path, "⋯".to_string(), 0);
    assert_eq!(path, ["⋯"]);
}
