use pokemon_inix::update::{update_available, wants_update};

#[test]
fn version_key_in_checker_output_signals_an_update() {
    assert!(update_available("{\"name\": {\"version\": \"2.0\"}}"));
    assert!(update_available("\"version\""));
}

#[test]
fn output_without_version_key_signals_nothing() {
    assert!(!update_available("{}"));
    assert!(!update_available(""));
    assert!(!update_available("version"));
    assert!(!update_available("\"ver\"sion\""));
}

#[test]
fn affirmative_replies() {
    assert!(wants_update("y"));
    assert!(wants_update("Y"));
    assert!(wants_update("y\n"));
    assert!(wants_update("  y \r\n"));
}

#[test]
fn non_affirmative_replies() {
    assert!(!wants_update("n"));
    assert!(!wants_update("yes"));
    assert!(!wants_update(""));
    assert!(!wants_update("  \n"));
    assert!(!wants_update("y y"));
}
