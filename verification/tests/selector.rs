use git_hosting_providers::format_selector::format_label;
use git_hosting_providers::format_selector::DiffViewFormat;
use git_hosting_providers::format_selector::DiffViewFormatSelector;

#[test]
fn new_selects_current_format() {
    assert_eq!(
        DiffViewFormatSelector::new(DiffViewFormat::Unified).selected_index(),
        0
    );
    assert_eq!(
        DiffViewFormatSelector::new(DiffViewFormat::AdditionsOnly).selected_index(),
        1
    );
    assert_eq!(
        DiffViewFormatSelector::new(DiffViewFormat::DeletionsOnly).selected_index(),
        2
    );
}

#[test]
fn match_count_lists_every_format() {
    let selector = DiffViewFormatSelector::new(DiffViewFormat::Unified);
    assert_eq!(selector.match_count(), 3);
}

#[test]
fn set_selected_index_clamps_to_list() {
    let mut selector = DiffViewFormatSelector::new(DiffViewFormat::Unified);
    selector.set_selected_index(1);
    assert_eq!(selector.selected_index(), 1);
    selector.set_selected_index(10);
    assert_eq!(selector.selected_index(), 2);
    selector.set_selected_index(0);
    assert_eq!(selector.selected_index(), 0);
}

#[test]
fn confirm_returns_selected_format() {
    let mut selector = DiffViewFormatSelector::new(DiffViewFormat::Unified);
    assert_eq!(selector.confirm(), DiffViewFormat::Unified);
    selector.set_selected_index(2);
    assert_eq!(selector.confirm(), DiffViewFormat::DeletionsOnly);
}

#[test]
fn labels_match_formats() {
    assert_eq!(format_label(DiffViewFormat::Unified), "Unified");
    assert_eq!(format_label(DiffViewFormat::AdditionsOnly), "Additions Only");
    assert_eq!(
        format_label(DiffViewFormat::DeletionsOnly),
        "Deletions Only"
    );
}

#[test]
fn match_labels_in_list_order() {
    let selector = DiffViewFormatSelector::new(DiffViewFormat::Unified);
    assert_eq!(selector.match_label(0), Some("Unified"));
    assert_eq!(selector.match_label(1), Some("Additions Only"));
    assert_eq!(selector.match_label(2), Some("Deletions Only"));
    assert_eq!(selector.match_label(3), None);
}

#[test]
fn placeholder_names_the_picker() {
    assert_eq!(
        DiffViewFormatSelector::placeholder_text(),
        "Select Diff View Format"
    );
}
