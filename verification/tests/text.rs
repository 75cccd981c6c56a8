use net_modeler::text::decimal_text;
use net_modeler::ui::UiState;

#[test]
fn decimal_numerals() {
    assert_eq!(decimal_text(0), "0");
    assert_eq!(decimal_text(7), "7");
    assert_eq!(decimal_text(9), "9");
    assert_eq!(decimal_text(10), "10");
    assert_eq!(decimal_text(42), "42");
    assert_eq!(decimal_text(100), "100");
    assert_eq!(decimal_text(1234567890), "1234567890");
    assert_eq!(decimal_text(usize::MAX), usize::MAX.to_string());
}

#[test]
fn decimal_numerals_agree_with_std() {
    for value in 0..2000usize {
        assert_eq!(decimal_text(value), value.to_string());
    }
}

#[test]
fn selections_start_on_the_first_entries() {
    let state = UiState::default();
    assert_eq!(state.selected_start_index, 0);
    assert_eq!(state.selected_end_index, 0);
}
