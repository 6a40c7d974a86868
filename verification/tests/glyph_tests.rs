use pokemon_inix::glyphs::{type_glyph, type_glyphs};

#[test]
fn typing_maps_tokens_to_glyphs_in_order() {
    let expected = format!("{}{}", type_glyph(0), type_glyph(3));
    assert_eq!(type_glyphs("0 3"), expected);
    assert_eq!(type_glyphs("0 3"), "🏳️⚡");
}

#[test]
fn empty_typing_maps_to_the_fallback_glyph() {
    assert_eq!(type_glyphs(""), "🚫");
}

#[test]
fn out_of_range_index_falls_back() {
    assert_eq!(type_glyphs("99"), "🚫");
    assert_eq!(type_glyphs("18"), "🚫");
}

#[test]
fn malformed_token_falls_back() {
    assert_eq!(type_glyphs("abc"), "🚫");
    assert_eq!(type_glyphs("1 abc"), format!("{}🚫", type_glyph(1)));
}

#[test]
fn single_token_typing() {
    assert_eq!(type_glyphs("1"), "🔥");
    assert_eq!(type_glyphs("17"), "🧚");
}

#[test]
fn mixed_tokens_keep_their_places() {
    let expected = format!("{}🚫{}", type_glyph(2), type_glyph(14));
    assert_eq!(type_glyphs("2 99 14"), expected);
}

#[test]
fn double_space_yields_an_empty_token() {
    let expected = format!("{}🚫{}", type_glyph(1), type_glyph(2));
    assert_eq!(type_glyphs("1  2"), expected);
}
