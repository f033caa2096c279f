use logibar::device_map::{corrected_name, display_name};

#[test]
fn passes_through_unknown_names() {
    assert_eq!(display_name("G502 X Plus"), "G502 X Plus");
    assert_eq!(display_name("MX Master 3S"), "MX Master 3S");
}

#[test]
fn table_entries_are_found_whatever_their_case() {
    let table = [("PRO X 2", "First"), ("pro x 2", "Second"), ("Lift", "Lift Vertical")];
    assert_eq!(corrected_name(&table, "Pro x 2"), "First");
    assert_eq!(corrected_name(&table, "LIFT"), "Lift Vertical");
    assert_eq!(corrected_name(&table, "Lift 2"), "Lift 2");
    assert_eq!(corrected_name(&table, ""), "");
}
