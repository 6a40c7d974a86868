//! Mapping a record's typing string to its type glyphs: a total function
//! that tolerates malformed or out-of-range type indices.

use vstd::prelude::*;
use vstd::string::*;
use crate::strutil::{all_digits, digits_val, parse_u32};

verus! {

/// Glyph shown for an absent, malformed or unrecognized type index.
pub open spec fn fallback_glyph() -> Seq<char> {
    "🚫"@
}

/// The fixed ordered glyph table; indices outside it get the fallback.
pub open spec fn spec_type_glyph(i: int) -> Seq<char> {
    if i == 0 {
        "🏳️"@
    } else if i == 1 {
        "🔥"@
    } else if i == 2 {
        "🌊"@
    } else if i == 3 {
        "⚡"@
    } else if i == 4 {
        "🍃"@
    } else if i == 5 {
        "🌨️"@
    } else if i == 6 {
        "🥊"@
    } else if i == 7 {
        "💀"@
    } else if i == 8 {
        "🌍"@
    } else if i == 9 {
        "🦅"@
    } else if i == 10 {
        "🔮"@
    } else if i == 11 {
        "🐍"@
    } else if i == 12 {
        "🗿"@
    } else if i == 13 {
        "👻"@
    } else if i == 14 {
        "🐲"@
    } else if i == 15 {
        "🌑"@
    } else if i == 16 {
        "🔩"@
    } else if i == 17 {
        "🧚"@
    } else {
        fallback_glyph()
    }
}

/// Glyph table lookup.
pub fn type_glyph(i: u32) -> (r: &'static str)
    ensures
        r@ == spec_type_glyph(i as int),
{
    match i {
        0 => "🏳️",
        1 => "🔥",
        2 => "🌊",
        3 => "⚡",
        4 => "🍃",
        5 => "🌨️",
        6 => "🥊",
        7 => "💀",
        8 => "🌍",
        9 => "🦅",
        10 => "🔮",
        11 => "🐍",
        12 => "🗿",
        13 => "👻",
        14 => "🐲",
        15 => "🌑",
        16 => "🔩",
        17 => "🧚",
        _ => "🚫",
    }
}

/// The glyph one token denotes: a numeral inside the table range maps to
/// its glyph, anything else to the fallback.
pub open spec fn token_glyph(t: Seq<char>) -> Seq<char> {
    if t.len() > 0 && all_digits(t) && digits_val(t) <= 17 {
        spec_type_glyph(digits_val(t))
    } else {
        fallback_glyph()
    }
}

/// The typing string split at every single space; empty tokens are kept.
pub open spec fn split_tokens(s: Seq<char>) -> Seq<Seq<char>>
    decreases s.len(),
{
    if s.len() == 0 {
        seq![Seq::<char>::empty()]
    } else if s[0] == ' ' {
        seq![Seq::<char>::empty()] + split_tokens(s.drop_first())
    } else {
        let rest = split_tokens(s.drop_first());
        seq![seq![s[0]] + rest[0]] + rest.drop_first()
    }
}

/// Concatenation of the glyphs of all tokens, in order.
pub open spec fn glyph_concat(tokens: Seq<Seq<char>>) -> Seq<char>
    decreases tokens.len(),
{
    if tokens.len() == 0 {
        Seq::empty()
    } else {
        token_glyph(tokens[0]) + glyph_concat(tokens.drop_first())
    }
}

/// What a typing string displays as: split on single spaces, each token
/// mapped to a glyph. An empty typing yields exactly the fallback glyph.
pub open spec fn spec_type_glyphs(s: Seq<char>) -> Seq<char> {
    glyph_concat(split_tokens(s))
}

/// A split never yields an empty token list.
proof fn lemma_split_nonempty(s: Seq<char>)
    ensures
        split_tokens(s).len() >= 1,
    decreases s.len(),
{
    if s.len() > 0 {
        lemma_split_nonempty(s.drop_first());
    }
}

/// Splitting at the first space: everything before it is the first token,
/// and the rest splits independently.
proof fn lemma_split_at_first_space(s: Seq<char>, i: int)
    requires
        0 <= i <= s.len(),
        forall|j: int| 0 <= j < i ==> s[j] != ' ',
        i < s.len() ==> s[i] == ' ',
    ensures
        i == s.len() ==> split_tokens(s) =~~= seq![s],
        i < s.len() ==> split_tokens(s) =~~= seq![s.take(i)] + split_tokens(s.skip(i + 1)),
    decreases s.len(),
{
    if s.len() == 0 {
        assert(split_tokens(s) == seq![Seq::<char>::empty()]);
        assert(s =~= Seq::<char>::empty());
    } else if i == 0 {
        if i < s.len() {
            assert(s[0] == ' ');
            assert(s.take(0) =~= Seq::<char>::empty());
            assert(s.skip(1) =~= s.drop_first());
        }
    } else {
        let d = s.drop_first();
        assert(forall|j: int| 0 <= j < i - 1 ==> d[j] != ' ');
        lemma_split_at_first_space(d, i - 1);
        lemma_split_nonempty(d);
        let rest = split_tokens(d);
        if i == s.len() {
            assert(rest =~~= seq![d]);
            assert(seq![s[0]] + d =~= s);
        } else {
            assert(rest =~~= seq![d.take(i - 1)] + split_tokens(d.skip(i)));
            assert(rest[0] == d.take(i - 1));
            assert(seq![s[0]] + d.take(i - 1) =~= s.take(i));
            assert(rest.drop_first() =~= split_tokens(d.skip(i)));
            assert(d.skip(i) =~= s.skip(i + 1));
        }
    }
}

/// Index of the first space, or the length when there is none.
fn first_space(s: &str) -> (r: usize)
    ensures
        r <= s@.len(),
        forall|j: int| 0 <= j < r ==> s@[j] != ' ',
        r < s@.len() ==> s@[r as int] == ' ',
{
    let len = s.unicode_len();
    let mut i: usize = 0;
    while i < len
        invariant
            len == s@.len(),
            i <= len,
            forall|j: int| 0 <= j < i ==> s@[j] != ' ',
        decreases len - i,
    {
        if s.get_char(i) == ' ' {
            return i;
        }
        i += 1;
    }
    len
}

/// The glyph of one token.
fn token_glyph_str(t: &str) -> (r: &'static str)
    ensures
        r@ == token_glyph(t@),
{
    match parse_u32(t) {
        Some(v) => {
            if v <= 17 {
                type_glyph(v)
            } else {
                "🚫"
            }
        },
        None => "🚫",
    }
}

/// Renders a typing string as its glyph sequence. Total: malformed and
/// out-of-range tokens fall back to the fallback glyph, and an empty typing
/// yields the fallback glyph alone.
pub fn type_glyphs(typing: &str) -> (r: String)
    ensures
        r@ == spec_type_glyphs(typing@),
    decreases typing@.len(),
{
    let len = typing.unicode_len();
    let i = first_space(typing);
    if i == len {
        proof {
            lemma_split_at_first_space(typing@, len as int);
            assert(seq![typing@].drop_first() =~= Seq::<Seq<char>>::empty());
            assert(glyph_concat(Seq::<Seq<char>>::empty()) =~= Seq::<char>::empty());
            assert(seq![typing@][0] == typing@);
            assert(glyph_concat(seq![typing@]) =~= token_glyph(typing@));
        }
        String::from_str(token_glyph_str(typing))
    } else {
        let head = typing.substring_char(0, i);
        let tail = typing.substring_char(i + 1, len);
        let g = token_glyph_str(head);
        let rest = type_glyphs(tail);
        let mut out = String::from_str(g);
        out.append(rest.as_str());
        proof {
            lemma_split_at_first_space(typing@, i as int);
            lemma_split_nonempty(typing@.skip(i + 1));
            let tokens = seq![typing@.take(i as int)] + split_tokens(typing@.skip(i + 1));
            assert(head@ =~= typing@.take(i as int));
            assert(tail@ =~= typing@.skip(i + 1));
            assert(tokens[0] == typing@.take(i as int));
            assert(tokens.drop_first() =~= split_tokens(typing@.skip(i + 1)));
            assert(glyph_concat(split_tokens(typing@)) =~= glyph_concat(tokens));
            assert(out@ =~= spec_type_glyphs(typing@));
        }
        out
    }
}

} // verus!
