use pokemon_inix::csvdata::{load_catalog, DataError};
use pokemon_inix::records::{
    filter_by_generations, find_by_name, gen_label, get_pokemon, is_valid_generation,
};

const DATA: &str = "name,generation,height,typing\n\
pikachu,1,4,3\n\
eevee,1,3,0\n\
gible,4,7,14 8\n\
rowlet,7,3,4 9\n";

#[test]
fn load_parses_all_rows() {
    let cat = load_catalog(DATA.as_bytes()).unwrap();
    assert_eq!(cat.len(), 4);
    assert_eq!(cat[0].name, "pikachu");
    assert_eq!(cat[0].generation, "1");
    assert_eq!(cat[0].height, 4);
    assert_eq!(cat[0].typing, "3");
    assert_eq!(cat[2].name, "gible");
    assert_eq!(cat[2].typing, "14 8");
}

#[test]
fn load_rejects_non_numeric_height() {
    let data = "name,generation,height,typing\npikachu,1,tall,3\n";
    assert!(matches!(load_catalog(data.as_bytes()), Err(DataError::Malformed)));
}

#[test]
fn load_rejects_short_row() {
    let data = "name,generation,height,typing\npikachu,1\n";
    assert!(matches!(load_catalog(data.as_bytes()), Err(DataError::Malformed)));
}

#[test]
fn load_fails_fast_on_first_bad_row() {
    let data = "name,generation,height,typing\npikachu,1,x,3\neevee,1,3,0\n";
    assert!(matches!(load_catalog(data.as_bytes()), Err(DataError::Malformed)));
}

#[test]
fn find_by_name_returns_the_matching_record() {
    let cat = load_catalog(DATA.as_bytes()).unwrap();
    // every record is found again under its own name, unchanged
    for rec in &cat {
        let found = find_by_name(&rec.name, &cat).unwrap();
        assert_eq!(found.name, rec.name);
        assert_eq!(found.generation, rec.generation);
        assert_eq!(found.height, rec.height);
        assert_eq!(found.typing, rec.typing);
    }
}

#[test]
fn find_by_name_misses_unknown_names() {
    let cat = load_catalog(DATA.as_bytes()).unwrap();
    assert!(find_by_name("missingno", &cat).is_none());
}

#[test]
fn get_pokemon_returns_the_named_record() {
    let cat = load_catalog(DATA.as_bytes()).unwrap();
    let p = get_pokemon("eevee", &cat);
    assert_eq!(p.name, "eevee");
    assert_eq!(p.height, 3);
}

#[test]
fn filter_without_set_returns_everything() {
    let cat = load_catalog(DATA.as_bytes()).unwrap();
    let all = filter_by_generations(&cat, &None);
    assert_eq!(all.len(), 4);
}

#[test]
fn filter_keeps_exactly_the_selected_generations() {
    let cat = load_catalog(DATA.as_bytes()).unwrap();
    let gens = Some(vec![String::from("1"), String::from("7")]);
    let out = filter_by_generations(&cat, &gens);
    // every returned record's generation is in the set
    for rec in &out {
        assert!(rec.generation == "1" || rec.generation == "7");
    }
    // every matching record appears exactly once
    let names: Vec<&str> = out.iter().map(|r| r.name.as_str()).collect();
    assert_eq!(names, vec!["pikachu", "eevee", "rowlet"]);
}

#[test]
fn filter_can_be_empty() {
    let cat = load_catalog(DATA.as_bytes()).unwrap();
    let gens = Some(vec![String::from("3")]);
    let out = filter_by_generations(&cat, &gens);
    assert!(out.is_empty());
}

#[test]
fn generation_codes_are_recognized() {
    for g in ["1", "2", "3", "4", "5", "6", "7", "8", "Hisui", "9"] {
        assert!(is_valid_generation(g));
    }
    assert!(!is_valid_generation("10"));
    assert!(!is_valid_generation("hisui"));
    assert!(!is_valid_generation(""));
}

#[test]
fn generation_labels() {
    assert_eq!(gen_label("1"), "I Generation");
    assert_eq!(gen_label("4"), "IV Generation");
    assert_eq!(gen_label("8"), "VIII Generation");
    assert_eq!(gen_label("Hisui"), "Hisui Region");
    assert_eq!(gen_label("9"), "IX Generation");
}
