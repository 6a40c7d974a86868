//! Creature records, the catalog queries (lookup by name, filter by
//! generation set), and the fixed table of recognized generation codes.

use vstd::prelude::*;
use vstd::string::*;
use vstd::seq_lib::*;
use crate::strutil::str_eq;

verus! {

/// Mathematical model of one creature record.
pub ghost struct PokemonView {
    pub name: Seq<char>,
    pub generation: Seq<char>,
    pub height: u32,
    pub typing: Seq<char>,
}

/// One row of the catalog.
#[derive(Debug)]
pub struct Pokemon {
    pub name: String,
    pub generation: String,
    pub height: u32,
    pub typing: String,
}

impl View for Pokemon {
    type V = PokemonView;

    open spec fn view(&self) -> PokemonView {
        PokemonView {
            name: self.name@,
            generation: self.generation@,
            height: self.height,
            typing: self.typing@,
        }
    }
}

impl Clone for Pokemon {
    fn clone(&self) -> (r: Self)
        ensures
            r@ == self@,
    {
        Pokemon {
            name: self.name.clone(),
            generation: self.generation.clone(),
            height: self.height,
            typing: self.typing.clone(),
        }
    }
}

/// The models of a sequence of records.
pub open spec fn cat_view(s: Seq<Pokemon>) -> Seq<PokemonView> {
    s.map_values(|p: Pokemon| p@)
}

/// No two records share a name: the catalog's lookup-key invariant.
pub open spec fn unique_names(s: Seq<PokemonView>) -> bool {
    forall|i: int, j: int| 0 <= i < j < s.len() ==> s[i].name != s[j].name
}

/// The first record of `s` named `name`, if any.
pub open spec fn find_first(s: Seq<Pokemon>, name: Seq<char>) -> Option<PokemonView>
    decreases s.len(),
{
    if s.len() == 0 {
        None
    } else if s[0]@.name == name {
        Some(s[0]@)
    } else {
        find_first(s.drop_first(), name)
    }
}

/// `find_first` yields `None` exactly when no record carries the name.
pub proof fn lemma_find_first_none(s: Seq<Pokemon>, name: Seq<char>)
    ensures
        find_first(s, name) is None <==> forall|i: int|
            0 <= i < s.len() ==> (#[trigger] s[i])@.name != name,
    decreases s.len(),
{
    if s.len() > 0 {
        lemma_find_first_none(s.drop_first(), name);
        if s[0]@.name != name {
            assert forall|i: int| 0 <= i < s.len() && (#[trigger] s[i])@.name == name implies
                exists|j: int| 0 <= j < s.drop_first().len() && (#[trigger] s.drop_first()[j])@.name == name by {
                if i > 0 {
                    assert(s.drop_first()[i - 1] == s[i]);
                }
            }
        }
    }
}

/// Exact-name lookup: returns the first record whose name matches.
pub fn find_by_name(name: &str, pokemons: &[Pokemon]) -> (r: Option<Pokemon>)
    ensures
        match r {
            Some(p) => find_first(pokemons@, name@) == Some(p@),
            None => find_first(pokemons@, name@) is None,
        },
{
    let len = pokemons.len();
    let mut i: usize = 0;
    proof {
        assert(pokemons@.skip(0) =~= pokemons@);
    }
    while i < len
        invariant
            len == pokemons@.len(),
            i <= len,
            find_first(pokemons@, name@) == find_first(pokemons@.skip(i as int), name@),
        decreases len - i,
    {
        let p = &pokemons[i];
        proof {
            assert(pokemons@.skip(i as int)[0] == pokemons@[i as int]);
        }
        if str_eq(p.name.as_str(), name) {
            return Some(p.clone());
        }
        proof {
            assert(pokemons@.skip(i as int).drop_first() =~= pokemons@.skip(i + 1));
        }
        i += 1;
    }
    proof {
        assert(pokemons@.skip(len as int) =~= Seq::<Pokemon>::empty());
    }
    None
}

/// Exact-name lookup when the name is known to be present.
pub fn get_pokemon(pokemon_name: &str, pokemons: &[Pokemon]) -> (r: Pokemon)
    requires
        find_first(pokemons@, pokemon_name@) is Some,
    ensures
        find_first(pokemons@, pokemon_name@) == Some(r@),
{
    match find_by_name(pokemon_name, pokemons) {
        Some(p) => p,
        None => {
            proof {
                assert(false);
            }
            vstd::pervasive::unreached()
        },
    }
}

/// Looking up any catalog member's name returns that very record.
pub proof fn lemma_find_by_name_member(s: Seq<Pokemon>, k: int)
    requires
        unique_names(cat_view(s)),
        0 <= k < s.len(),
    ensures
        find_first(s, s[k]@.name) == Some(s[k]@),
    decreases s.len(),
{
    if k > 0 {
        assert(cat_view(s)[0] == s[0]@);
        assert(cat_view(s)[k] == s[k]@);
        assert(s[0]@.name != s[k]@.name);
        assert forall|i: int, j: int| 0 <= i < j < cat_view(s.drop_first()).len() implies
            cat_view(s.drop_first())[i].name != cat_view(s.drop_first())[j].name by {
            assert(cat_view(s.drop_first())[i] == s[i + 1]@);
            assert(cat_view(s.drop_first())[j] == s[j + 1]@);
            assert(cat_view(s)[i + 1].name != cat_view(s)[j + 1].name);
        }
        assert(s.drop_first()[k - 1] == s[k]);
        lemma_find_by_name_member(s.drop_first(), k - 1);
    }
}

/// A generation code from the fixed recognized set.
pub open spec fn valid_generation(g: Seq<char>) -> bool {
    ||| g == "1"@
    ||| g == "2"@
    ||| g == "3"@
    ||| g == "4"@
    ||| g == "5"@
    ||| g == "6"@
    ||| g == "7"@
    ||| g == "8"@
    ||| g == "Hisui"@
    ||| g == "9"@
}

/// Exec test for [`valid_generation`].
pub fn is_valid_generation(g: &str) -> (r: bool)
    ensures
        r == valid_generation(g@),
{
    str_eq(g, "1") || str_eq(g, "2") || str_eq(g, "3") || str_eq(g, "4") || str_eq(g, "5")
        || str_eq(g, "6") || str_eq(g, "7") || str_eq(g, "8") || str_eq(g, "Hisui") || str_eq(
        g,
        "9",
    )
}

/// Human-readable label of a recognized generation code.
pub open spec fn spec_gen_label(g: Seq<char>) -> Seq<char> {
    if g == "1"@ {
        "I Generation"@
    } else if g == "2"@ {
        "II Generation"@
    } else if g == "3"@ {
        "III Generation"@
    } else if g == "4"@ {
        "IV Generation"@
    } else if g == "5"@ {
        "V Generation"@
    } else if g == "6"@ {
        "VI Generation"@
    } else if g == "7"@ {
        "VII Generation"@
    } else if g == "8"@ {
        "VIII Generation"@
    } else if g == "Hisui"@ {
        "Hisui Region"@
    } else {
        "IX Generation"@
    }
}

/// Label lookup for a recognized generation code.
pub fn gen_label(gen: &str) -> (r: &'static str)
    requires
        valid_generation(gen@),
    ensures
        r@ == spec_gen_label(gen@),
{
    if str_eq(gen, "1") {
        "I Generation"
    } else if str_eq(gen, "2") {
        "II Generation"
    } else if str_eq(gen, "3") {
        "III Generation"
    } else if str_eq(gen, "4") {
        "IV Generation"
    } else if str_eq(gen, "5") {
        "V Generation"
    } else if str_eq(gen, "6") {
        "VI Generation"
    } else if str_eq(gen, "7") {
        "VII Generation"
    } else if str_eq(gen, "8") {
        "VIII Generation"
    } else if str_eq(gen, "Hisui") {
        "Hisui Region"
    } else {
        "IX Generation"
    }
}

/// The model of an optional list of generation codes.
pub open spec fn gens_view(gens: Option<Vec<String>>) -> Option<Seq<Seq<char>>> {
    match gens {
        None => None,
        Some(gs) => Some(gs.deep_view()),
    }
}

/// A record generation passes the filter: no filter admits everything,
/// a filter admits exactly the members of its set.
pub open spec fn gen_selected(gens: Option<Seq<Seq<char>>>, g: Seq<char>) -> bool {
    match gens {
        None => true,
        Some(gs) => gs.contains(g),
    }
}

/// Exec test for [`gen_selected`].
pub fn gen_matches(p: &Pokemon, gens: &Option<Vec<String>>) -> (r: bool)
    ensures
        r == gen_selected(gens_view(*gens), p@.generation),
{
    match gens {
        None => true,
        Some(gs) => {
            let len = gs.len();
            let mut i: usize = 0;
            while i < len
                invariant
                    len == gs@.len(),
                    i <= len,
                    *gens == Some(*gs),
                    forall|j: int| 0 <= j < i ==> gs.deep_view()[j] != p@.generation,
                decreases len - i,
            {
                proof {
                    assert(gs.deep_view()[i as int] == gs@[i as int]@);
                }
                if str_eq(gs[i].as_str(), p.generation.as_str()) {
                    proof {
                        assert(gs.deep_view()[i as int] == p@.generation);
                        assert(gs.deep_view().contains(p@.generation));
                        assert(gen_selected(gens_view(*gens), p@.generation));
                    }
                    return true;
                }
                i += 1;
            }
            proof {
                assert forall|j: int| 0 <= j < gs.deep_view().len() implies gs.deep_view()[j]
                    != p@.generation by {}
            }
            false
        },
    }
}

/// The predicate a generation filter induces on record models.
pub open spec fn selected_by(gens: Option<Seq<Seq<char>>>) -> spec_fn(PokemonView) -> bool {
    |pv: PokemonView| gen_selected(gens, pv.generation)
}

/// All records passing the generation filter, in catalog order.
pub fn filter_by_generations(pokemons: &[Pokemon], gens: &Option<Vec<String>>) -> (r: Vec<Pokemon>)
    ensures
        cat_view(r@) == cat_view(pokemons@).filter(selected_by(gens_view(*gens))),
{
    broadcast use vstd::seq_lib::group_seq_properties;

    let ghost pred = selected_by(gens_view(*gens));
    let len = pokemons.len();
    let mut out: Vec<Pokemon> = Vec::new();
    let mut i: usize = 0;
    proof {
        assert(cat_view(pokemons@).take(0) =~= Seq::<PokemonView>::empty());
        assert(cat_view(out@) =~= Seq::<PokemonView>::empty());
        reveal(Seq::filter);
    }
    while i < len
        invariant
            len == pokemons@.len(),
            i <= len,
            pred == selected_by(gens_view(*gens)),
            cat_view(out@) == cat_view(pokemons@).take(i as int).filter(pred),
        decreases len - i,
    {
        let ghost pre = cat_view(pokemons@).take(i as int);
        let p = &pokemons[i];
        let keep = gen_matches(p, gens);
        proof {
            assert(cat_view(pokemons@).take(i + 1).drop_last() =~= pre);
            assert(cat_view(pokemons@).take(i + 1).last() == p@);
            reveal(Seq::filter);
        }
        if keep {
            out.push(p.clone());
            proof {
                assert(cat_view(out@) =~= cat_view(pokemons@).take(i + 1).filter(pred));
            }
        } else {
            proof {
                assert(cat_view(out@) =~= cat_view(pokemons@).take(i + 1).filter(pred));
            }
        }
        i += 1;
    }
    proof {
        assert(cat_view(pokemons@).take(len as int) =~= cat_view(pokemons@));
    }
    out
}

/// Every record the filter returns carries a selected generation and comes
/// from the catalog; every catalog record with a selected generation appears;
/// and under the unique-name invariant no record appears twice.
pub proof fn lemma_filter_by_generations(s: Seq<Pokemon>, gens: Option<Seq<Seq<char>>>)
    ensures
        forall|i: int| 0 <= i < cat_view(s).filter(selected_by(gens)).len() ==> gen_selected(
            gens,
            (#[trigger] cat_view(s).filter(selected_by(gens))[i]).generation,
        ) && cat_view(s).contains(cat_view(s).filter(selected_by(gens))[i]),
        forall|i: int| 0 <= i < s.len() && gen_selected(gens, (#[trigger] s[i])@.generation)
            ==> cat_view(s).filter(selected_by(gens)).contains(s[i]@),
        unique_names(cat_view(s)) ==> unique_names(cat_view(s).filter(selected_by(gens))),
{
    let pred = selected_by(gens);
    let f = cat_view(s).filter(pred);
    assert forall|i: int| 0 <= i < f.len() implies gen_selected(gens, (#[trigger] f[i]).generation)
        && cat_view(s).contains(f[i]) by {
        cat_view(s).lemma_filter_pred(pred, i);
        lemma_filter_is_subset(cat_view(s), pred, i);
    }
    assert forall|i: int| 0 <= i < s.len() && gen_selected(gens, (#[trigger] s[i])@.generation)
        implies f.contains(s[i]@) by {
        assert(cat_view(s)[i] == s[i]@);
        cat_view(s).lemma_filter_contains(pred, i);
    }
    if unique_names(cat_view(s)) {
        lemma_filter_unique_names(cat_view(s), pred);
    }
}

/// Each element of a filtered sequence is an element of the original.
proof fn lemma_filter_is_subset(s: Seq<PokemonView>, pred: spec_fn(PokemonView) -> bool, i: int)
    requires
        0 <= i < s.filter(pred).len(),
    ensures
        s.contains(s.filter(pred)[i]),
    decreases s.len(),
{
    reveal(Seq::filter);
    if s.len() > 0 {
        let sub = s.drop_last().filter(pred);
        if pred(s.last()) && i == s.filter(pred).len() - 1 {
            assert(s.filter(pred)[i] == s.last());
            assert(s.contains(s.last()));
        } else {
            lemma_filter_is_subset(s.drop_last(), pred, i);
            let j = choose|j: int| 0 <= j < s.drop_last().len() && s.drop_last()[j] == sub[i];
            assert(s[j] == sub[i]);
            assert(s.filter(pred)[i] == sub[i]);
        }
    }
}

/// Filtering preserves the unique-name invariant.
proof fn lemma_filter_unique_names(s: Seq<PokemonView>, pred: spec_fn(PokemonView) -> bool)
    requires
        unique_names(s),
    ensures
        unique_names(s.filter(pred)),
    decreases s.len(),
{
    reveal(Seq::filter);
    if s.len() > 0 {
        assert forall|i: int, j: int| 0 <= i < j < s.drop_last().len() implies
            s.drop_last()[i].name != s.drop_last()[j].name by {
            assert(s[i] == s.drop_last()[i]);
            assert(s[j] == s.drop_last()[j]);
        }
        lemma_filter_unique_names(s.drop_last(), pred);
        let sub = s.drop_last().filter(pred);
        if pred(s.last()) {
            let f = s.filter(pred);
            assert(f == sub.push(s.last()));
            assert forall|i: int, j: int| 0 <= i < j < f.len() implies f[i].name != f[j].name by {
                if j < f.len() - 1 {
                    assert(f[i] == sub[i]);
                    assert(f[j] == sub[j]);
                } else {
                    assert(f[i] == sub[i]);
                    assert(f[j] == s.last());
                    lemma_filter_is_subset(s.drop_last(), pred, i);
                    let k = choose|k: int|
                        0 <= k < s.drop_last().len() && s.drop_last()[k] == sub[i];
                    assert(s[k].name != s[s.len() - 1].name);
                }
            }
        }
    }
}

} // verus!
