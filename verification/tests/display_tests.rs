use pokemon_inix::display::{
    check_height, check_scale, compute_height, display_width, presenter_step, resolve_icon_path,
    run_presenter, Scale, StepOutcome, MAX_RETRIES,
};

#[test]
fn height_scales_and_rounds() {
    assert_eq!(compute_height(10, &Scale { milli: 2000 }, None), 20);
    assert_eq!(compute_height(10, &Scale { milli: 1500 }, None), 15);
    assert_eq!(compute_height(3, &Scale { milli: 500 }, None), 2); // 1.5 rounds up
    assert_eq!(compute_height(10, &Scale { milli: 1000 }, None), 10);
}

#[test]
fn height_override_wins_verbatim() {
    assert_eq!(compute_height(10, &Scale { milli: 1000 }, Some(7)), 7);
    assert_eq!(compute_height(999, &Scale { milli: 3000 }, Some(2)), 2);
}

#[test]
fn width_is_twice_the_height() {
    assert_eq!(display_width(21), 42);
    assert_eq!(display_width(0), 0);
    assert_eq!(display_width(u32::MAX), u32::MAX);
}

#[test]
fn scale_arguments_parse_to_thousandths() {
    assert_eq!(check_scale("1.0").unwrap().milli, 1000);
    assert_eq!(check_scale("2").unwrap().milli, 2000);
    assert_eq!(check_scale("0.5").unwrap().milli, 500);
    assert_eq!(check_scale(".5").unwrap().milli, 500);
    assert_eq!(check_scale("1.").unwrap().milli, 1000);
    assert_eq!(check_scale("1.25").unwrap().milli, 1250);
    assert_eq!(check_scale("0.5004").unwrap().milli, 500);
}

#[test]
fn scale_arguments_below_half_or_malformed_are_rejected() {
    let msg = "scale factor must be at least 0.5.";
    assert_eq!(check_scale("0.49").unwrap_err(), msg);
    assert_eq!(check_scale("0").unwrap_err(), msg);
    assert_eq!(check_scale("abc").unwrap_err(), msg);
    assert_eq!(check_scale("").unwrap_err(), msg);
    assert_eq!(check_scale("1.2.3").unwrap_err(), msg);
    assert_eq!(check_scale("-1").unwrap_err(), msg);
}

#[test]
fn height_arguments_parse() {
    assert_eq!(check_height("2").unwrap(), 2);
    assert_eq!(check_height("40").unwrap(), 40);
    let msg = "height must be at least 2.";
    assert_eq!(check_height("1").unwrap_err(), msg);
    assert_eq!(check_height("0").unwrap_err(), msg);
    assert_eq!(check_height("abc").unwrap_err(), msg);
    assert_eq!(check_height("").unwrap_err(), msg);
}

#[test]
fn icon_paths_follow_the_variant_convention() {
    assert_eq!(
        resolve_icon_path("/data", "mew", false),
        "/data/pokemon-icons/normal/mew.png"
    );
    assert_eq!(
        resolve_icon_path("/data", "mew", true),
        "/data/pokemon-icons/shiny/mew.png"
    );
}

#[test]
fn presenter_step_transitions() {
    assert_eq!(presenter_step(0, true), StepOutcome::Render);
    assert_eq!(presenter_step(0, false), StepOutcome::Retry);
    assert_eq!(presenter_step(MAX_RETRIES - 1, false), StepOutcome::Exhausted);
    assert_eq!(presenter_step(MAX_RETRIES - 1, true), StepOutcome::Render);
}

#[test]
fn always_missing_icons_exhaust_the_bound() {
    let probes = vec![false; MAX_RETRIES as usize];
    assert_eq!(run_presenter(&probes), (MAX_RETRIES, false));
}

#[test]
fn first_existing_icon_succeeds_at_once() {
    let mut probes = vec![false; MAX_RETRIES as usize];
    probes[0] = true;
    assert_eq!(run_presenter(&probes), (1, true));
}

#[test]
fn late_icon_counts_every_attempt() {
    let mut probes = vec![false; MAX_RETRIES as usize];
    probes[3] = true;
    assert_eq!(run_presenter(&probes), (4, true));
}
