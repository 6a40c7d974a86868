//! Choosing a record: exact-name requests, validated generation filters,
//! a uniform random draw from the filtered catalog, and the rare-variant
//! coin flip.

use vstd::prelude::*;
use rand::Rng;
use crate::records::{
    Pokemon, cat_view, filter_by_generations, find_by_name, find_first, gens_view, selected_by,
    valid_generation,
};

verus! {

/// A selection that cannot be carried out.
#[derive(Debug)]
pub enum SelectError {
    /// A requested generation code is not in the recognized set.
    InvalidGeneration(String),
    /// Exact-name lookup has no match.
    NotFound(String),
    /// The generation filter admits no record.
    EmptySelection,
    /// Both an exact name and a generation filter were supplied.
    ConflictingRequest,
}

/// What one invocation asks for: an exact name, or a random draw within an
/// optional generation filter. The two modes cannot be combined.
#[derive(Debug)]
pub enum SelectionRequest {
    ByName(String),
    Random(Option<Vec<String>>),
}

/// Builds a request from the two optional inputs, rejecting the combination
/// of an exact name with a generation filter before any catalog access.
pub fn build_request(name: Option<String>, gens: Option<Vec<String>>) -> (r: Result<
    SelectionRequest,
    SelectError,
>)
    ensures
        name is Some && gens is Some ==> (r matches Err(e) && e is ConflictingRequest),
        gens is None ==> (name matches Some(n) ==> r == Ok::<SelectionRequest, SelectError>(
            SelectionRequest::ByName(n),
        )),
        name is None ==> r == Ok::<SelectionRequest, SelectError>(SelectionRequest::Random(gens)),
{
    match (name, gens) {
        (Some(_), Some(_)) => Err(SelectError::ConflictingRequest),
        (Some(n), None) => Ok(SelectionRequest::ByName(n)),
        (None, g) => Ok(SelectionRequest::Random(g)),
    }
}

/// The first code of the list outside the recognized set, if any.
pub open spec fn first_invalid(gs: Seq<Seq<char>>) -> Option<Seq<char>>
    decreases gs.len(),
{
    if gs.len() == 0 {
        None
    } else if !valid_generation(gs[0]) {
        Some(gs[0])
    } else {
        first_invalid(gs.drop_first())
    }
}

/// `first_invalid` yields `None` exactly when every code is recognized.
pub proof fn lemma_first_invalid_none(gs: Seq<Seq<char>>)
    ensures
        first_invalid(gs) is None <==> forall|i: int|
            0 <= i < gs.len() ==> valid_generation(#[trigger] gs[i]),
    decreases gs.len(),
{
    if gs.len() > 0 {
        lemma_first_invalid_none(gs.drop_first());
        if valid_generation(gs[0]) {
            assert forall|i: int| 0 <= i < gs.len() && !valid_generation(#[trigger] gs[i]) implies
                exists|j: int| 0 <= j < gs.drop_first().len() && !valid_generation(
                    #[trigger] gs.drop_first()[j],
                ) by {
                if i > 0 {
                    assert(gs.drop_first()[i - 1] == gs[i]);
                }
            }
        }
    }
}

/// Checks every supplied generation code against the recognized set,
/// reporting the first offender.
pub fn validate_generations(gens: &Vec<String>) -> (r: Result<(), SelectError>)
    ensures
        match r {
            Ok(_) => first_invalid(gens.deep_view()) is None,
            Err(e) => e matches SelectError::InvalidGeneration(g) && first_invalid(
                gens.deep_view(),
            ) == Some(g@),
        },
{
    let ghost gsv = gens.deep_view();
    let len = gens.len();
    let mut i: usize = 0;
    proof {
        assert(gsv.skip(0) =~= gsv);
    }
    while i < len
        invariant
            len == gens@.len(),
            gsv == gens.deep_view(),
            i <= len,
            first_invalid(gsv) == first_invalid(gsv.skip(i as int)),
        decreases len - i,
    {
        let g = &gens[i];
        proof {
            assert(gsv.skip(i as int)[0] == gsv[i as int]);
            assert(gsv[i as int] == g@);
        }
        if !crate::records::is_valid_generation(g.as_str()) {
            return Err(SelectError::InvalidGeneration(g.clone()));
        }
        proof {
            assert(gsv.skip(i as int).drop_first() =~= gsv.skip(i + 1));
        }
        i += 1;
    }
    proof {
        assert(gsv.skip(len as int) =~= Seq::<Seq<char>>::empty());
    }
    Ok(())
}

/// Relies on rand::Rng::gen_range over rand::thread_rng: a uniformly
/// distributed integer below `n`; it panics only on an empty range, which
/// the precondition excludes.
#[verifier::external_body]
fn random_below(n: u64) -> (r: u64)
    requires
        1 <= n,
    ensures
        r < n,
{
    rand::thread_rng().gen_range(0..n)
}

/// The element a draw lands on.
pub fn pick(pokemons: &Vec<Pokemon>, idx: usize) -> (r: Pokemon)
    requires
        idx < pokemons@.len(),
    ensures
        r@ == pokemons@[idx as int]@,
{
    pokemons[idx].clone()
}

/// Draws one record uniformly from the catalog records passing the filter;
/// `None` exactly when no record passes.
pub fn get_random_pokemon(pokemons: &[Pokemon], gens: &Option<Vec<String>>) -> (r: Option<Pokemon>)
    ensures
        ({
            let filtered = cat_view(pokemons@).filter(selected_by(gens_view(*gens)));
            match r {
                Some(p) => filtered.contains(p@),
                None => filtered.len() == 0,
            }
        }),
{
    let filtered = filter_by_generations(pokemons, gens);
    let len = filtered.len();
    if len == 0 {
        return None;
    }
    let idx_raw = random_below(len as u64);
    let idx = idx_raw as usize;
    proof {
        assert(idx < filtered@.len());
        assert(cat_view(filtered@)[idx as int] == filtered@[idx as int]@);
    }
    Some(pick(&filtered, idx))
}

/// Carries out a selection request against the catalog: names are looked up
/// exactly; filters are validated before the catalog is touched, and only a
/// validated, non-empty filter reaches the random draw.
pub fn select(pokemons: &[Pokemon], request: &SelectionRequest) -> (r: Result<Pokemon, SelectError>)
    ensures
        request matches SelectionRequest::ByName(n) ==> match find_first(pokemons@, n@) {
            Some(pv) => r matches Ok(p) && p@ == pv,
            None => (r matches Err(e) && (e matches SelectError::NotFound(m) && m@ == n@)),
        },
        request matches SelectionRequest::Random(gens) ==> ({
            let bad = (gens matches Some(gs) && first_invalid(gs.deep_view()) is Some);
            &&& bad ==> (r matches Err(e) && (e matches SelectError::InvalidGeneration(g) && (
            gens matches Some(gs) && first_invalid(gs.deep_view()) == Some(g@))))
            &&& !bad ==> ({
                let filtered = cat_view(pokemons@).filter(selected_by(gens_view(*gens)));
                if filtered.len() == 0 {
                    (r matches Err(e) && e is EmptySelection)
                } else {
                    (r matches Ok(p) && filtered.contains(p@))
                }
            })
        }),
{
    match request {
        SelectionRequest::ByName(n) => match find_by_name(n.as_str(), pokemons) {
            Some(p) => Ok(p),
            None => Err(SelectError::NotFound(n.clone())),
        },
        SelectionRequest::Random(gens) => {
            if let Some(gs) = gens {
                if let Err(e) = validate_generations(gs) {
                    return Err(e);
                }
            }
            match get_random_pokemon(pokemons, gens) {
                Some(p) => Ok(p),
                None => Err(SelectError::EmptySelection),
            }
        },
    }
}

/// Rare-variant rule on a uniform draw: rare exactly on the zero sentinel.
pub fn rare_from_draw(draw: u64) -> (b: bool)
    ensures
        b == (draw == 0),
{
    draw == 0
}

/// Flips the rare-variant coin: a uniform draw below the denominator,
/// rare exactly when it hits the zero sentinel, so a denominator of one is
/// always rare.
pub fn draw_rarity(probability_denominator: u32) -> (b: bool)
    requires
        probability_denominator >= 1,
    ensures
        probability_denominator == 1 ==> b,
{
    let draw = random_below(probability_denominator as u64);
    rare_from_draw(draw)
}

} // verus!
