use pokemon_inix::csvdata::load_catalog;
use pokemon_inix::selection::{
    build_request, draw_rarity, get_random_pokemon, pick, select, validate_generations,
    SelectError, SelectionRequest,
};

const DATA: &str = "name,generation,height,typing\n\
pikachu,1,4,3\n\
eevee,1,3,0\n\
gible,4,7,14 8\n\
rowlet,7,3,4 9\n";

#[test]
fn request_with_both_modes_is_rejected() {
    let r = build_request(
        Some(String::from("pikachu")),
        Some(vec![String::from("1")]),
    );
    assert!(matches!(r, Err(SelectError::ConflictingRequest)));
}

#[test]
fn request_with_name_alone_is_accepted() {
    let r = build_request(Some(String::from("pikachu")), None).unwrap();
    assert!(matches!(r, SelectionRequest::ByName(n) if n == "pikachu"));
}

#[test]
fn request_with_filter_alone_is_accepted() {
    let r = build_request(None, Some(vec![String::from("1")])).unwrap();
    assert!(matches!(r, SelectionRequest::Random(Some(_))));
    let r = build_request(None, None).unwrap();
    assert!(matches!(r, SelectionRequest::Random(None)));
}

#[test]
fn unknown_generation_code_is_rejected() {
    let gens = vec![String::from("1"), String::from("X"), String::from("Y")];
    match validate_generations(&gens) {
        Err(SelectError::InvalidGeneration(g)) => assert_eq!(g, "X"),
        other => panic!("expected InvalidGeneration, got {:?}", other),
    }
}

#[test]
fn select_rejects_unknown_generation_before_sampling() {
    let cat = load_catalog(DATA.as_bytes()).unwrap();
    let req = SelectionRequest::Random(Some(vec![String::from("99")]));
    match select(&cat, &req) {
        Err(SelectError::InvalidGeneration(g)) => assert_eq!(g, "99"),
        other => panic!("expected InvalidGeneration, got {:?}", other),
    }
}

#[test]
fn select_reports_missing_name() {
    let cat = load_catalog(DATA.as_bytes()).unwrap();
    let req = SelectionRequest::ByName(String::from("missingno"));
    match select(&cat, &req) {
        Err(SelectError::NotFound(n)) => assert_eq!(n, "missingno"),
        other => panic!("expected NotFound, got {:?}", other),
    }
}

#[test]
fn select_reports_empty_selection() {
    let cat = load_catalog(DATA.as_bytes()).unwrap();
    let req = SelectionRequest::Random(Some(vec![String::from("3")]));
    assert!(matches!(select(&cat, &req), Err(SelectError::EmptySelection)));
}

#[test]
fn select_by_name_is_deterministic() {
    let cat = load_catalog(DATA.as_bytes()).unwrap();
    let req = SelectionRequest::ByName(String::from("gible"));
    let p = select(&cat, &req).unwrap();
    assert_eq!(p.name, "gible");
    assert_eq!(p.generation, "4");
}

#[test]
fn random_selection_stays_inside_the_filter() {
    let cat = load_catalog(DATA.as_bytes()).unwrap();
    let gens = Some(vec![String::from("1")]);
    for _ in 0..200 {
        let p = get_random_pokemon(&cat, &gens).unwrap();
        assert_eq!(p.generation, "1");
    }
}

#[test]
fn random_selection_none_on_empty_filter() {
    let cat = load_catalog(DATA.as_bytes()).unwrap();
    let gens = Some(vec![String::from("8")]);
    assert!(get_random_pokemon(&cat, &gens).is_none());
}

#[test]
fn pick_returns_the_indexed_record() {
    let cat = load_catalog(DATA.as_bytes()).unwrap();
    let p = pick(&cat, 2);
    assert_eq!(p.name, "gible");
}

#[test]
fn uniform_sampling_frequencies_converge() {
    let cat = load_catalog(DATA.as_bytes()).unwrap();
    let draws = 40_000usize;
    let mut counts = [0usize; 4];
    for _ in 0..draws {
        let p = get_random_pokemon(&cat, &None).unwrap();
        let idx = cat.iter().position(|c| c.name == p.name).unwrap();
        counts[idx] += 1;
    }
    // each of the four records should be drawn about a quarter of the time
    for &c in &counts {
        let freq = c as f64 / draws as f64;
        assert!(
            (freq - 0.25).abs() < 0.03,
            "observed frequency {} too far from 0.25",
            freq
        );
    }
}

#[test]
fn rarity_with_denominator_one_is_always_rare() {
    for _ in 0..100 {
        assert!(draw_rarity(1));
    }
}

#[test]
fn rarity_rate_converges_to_reciprocal_denominator() {
    let draws = 40_000usize;
    let mut rare = 0usize;
    for _ in 0..draws {
        if draw_rarity(4) {
            rare += 1;
        }
    }
    let rate = rare as f64 / draws as f64;
    assert!((rate - 0.25).abs() < 0.03, "observed rate {} too far from 0.25", rate);
}
