//! The model picker of the input panel: when to look models up, the order
//! the found models are offered in, and the limits a chosen model brings;
//! and the reasoning-strength button beside it.

use crate::settings::providers::Provider;
use crate::text::str_eq;
use vstd::prelude::*;

verus! {

/// A model the provider reported, with its limits.
#[derive(Debug)]
pub struct DiscoveredModel {
    pub model_id: String,
    pub context_window: u32,
    pub max_tokens: u32,
}

/// Models are looked up when there is an API key, and always for the
/// locally hosted Ollama.
pub fn should_discover_models(provider: Provider, api_key: &str) -> (r: bool)
    ensures
        r == (api_key@.len() > 0 || provider == Provider::Ollama),
{
    !api_key.is_empty() || provider == Provider::Ollama
}

/// The first place `x` stands in `s`.
pub open spec fn first_index(s: Seq<Seq<char>>, x: Seq<char>) -> Option<int>
    decreases s.len(),
{
    if s.len() == 0 {
        None
    } else {
        match first_index(s.drop_last(), x) {
            Some(i) => Some(i),
            None => if s.last() == x {
                Some(s.len() - 1)
            } else {
                None
            },
        }
    }
}

/// The models offered after a lookup: nothing changes when none were
/// found; otherwise the found ones in order, with the active model moved
/// (or added) to the top when one is set.
pub open spec fn offered_models(found: Seq<Seq<char>>, active: Seq<char>) -> Option<Seq<Seq<char>>> {
    if found.len() == 0 {
        None
    } else if active.len() == 0 {
        Some(found)
    } else {
        Some(
            seq![active] + match first_index(found, active) {
                Some(i) => found.remove(i),
                None => found,
            },
        )
    }
}

pub open spec fn ids_view(v: Seq<String>) -> Seq<Seq<char>> {
    v.map_values(|s: String| s@)
}

proof fn lemma_first_index_bound(s: Seq<Seq<char>>, x: Seq<char>)
    ensures
        first_index(s, x) matches Some(i) ==> 0 <= i < s.len() && s[i] == x,
    decreases s.len(),
{
    if s.len() > 0 {
        lemma_first_index_bound(s.drop_last(), x);
    }
}

/// See [`offered_models`].
pub fn order_discovered_models(found: Vec<String>, active: &str) -> (r: Option<Vec<String>>)
    ensures
        match r {
            Some(v) => offered_models(ids_view(found@), active@) == Some(ids_view(v@)),
            None => offered_models(ids_view(found@), active@) is None,
        },
{
    let ghost fv = ids_view(found@);
    if found.len() == 0 {
        return None;
    }
    if active.is_empty() {
        return Some(found);
    }
    let mut ids = found;
    let pos = position_of(&ids, active);
    proof {
        lemma_first_index_bound(fv, active@);
    }
    match pos {
        Some(p) => {
            ids.remove(p);
            assert(ids_view(ids@) =~= fv.remove(p as int));
        },
        None => {},
    }
    let ghost rest = ids_view(ids@);
    ids.insert(0, crate::text::owned(active));
    assert(ids_view(ids@) =~= seq![active@] + rest);
    Some(ids)
}

/// The first place `x` stands in `ids`.
fn position_of(ids: &Vec<String>, x: &str) -> (r: Option<usize>)
    ensures
        match r {
            Some(p) => first_index(ids_view(ids@), x@) == Some(p as int),
            None => first_index(ids_view(ids@), x@) is None,
        },
{
    let ghost fv = ids_view(ids@);
    let mut i: usize = 0;
    while i < ids.len()
        invariant
            i <= ids.len(),
            fv == ids_view(ids@),
            first_index(fv.take(i as int), x@) is None,
        decreases ids.len() - i,
    {
        proof {
            assert(fv.take(i + 1).drop_last() =~= fv.take(i as int));
            assert(fv.take(i + 1).last() == ids@[i as int]@);
        }
        if str_eq(ids[i].as_str(), x) {
            proof {
                lemma_first_index_prefix(fv, x@, i as int);
            }
            return Some(i);
        }
        i += 1;
    }
    assert(fv.take(ids.len() as int) =~= fv);
    None
}

/// A first place found among the first `i + 1` entries is the first place.
proof fn lemma_first_index_prefix(s: Seq<Seq<char>>, x: Seq<char>, i: int)
    requires
        0 <= i < s.len(),
        s[i] == x,
        first_index(s.take(i), x) is None,
    ensures
        first_index(s, x) == Some(i),
    decreases s.len(),
{
    if i < s.len() - 1 {
        assert(s.drop_last().take(i) =~= s.take(i));
        lemma_first_index_prefix(s.drop_last(), x, i);
    } else {
        assert(s.drop_last() =~= s.take(i));
    }
}

/// The first model of `models` with id `id`.
pub open spec fn first_model(models: Seq<DiscoveredModel>, id: Seq<char>) -> Option<DiscoveredModel>
    decreases models.len(),
{
    if models.len() == 0 {
        None
    } else if models[0].model_id@ == id {
        Some(models[0])
    } else {
        first_model(models.drop_first(), id)
    }
}

/// The context window and output limit recorded when `selected` is
/// chosen: those of the first looked-up model with that id, else the ones
/// configured before.
pub fn model_limits(models: &Vec<DiscoveredModel>, selected: &str, configured: (u32, u32)) -> (r: (u32, u32))
    ensures
        r == match first_model(models@, selected@) {
            Some(m) => (m.context_window, m.max_tokens),
            None => configured,
        },
{
    let mut i: usize = 0;
    assert(models@.skip(0) =~= models@);
    while i < models.len()
        invariant
            i <= models.len(),
            first_model(models@, selected@) == first_model(models@.skip(i as int), selected@),
        decreases models.len() - i,
    {
        proof {
            assert(models@.skip(i as int)[0] == models@[i as int]);
            assert(models@.skip(i as int).drop_first() =~= models@.skip(i + 1));
        }
        if str_eq(models[i].model_id.as_str(), selected) {
            return (models[i].context_window, models[i].max_tokens);
        }
        i += 1;
    }
    configured
}

/// Files can be attached unless the active provider is Cohere.
pub fn attachments_allowed(active: Option<Provider>) -> (r: bool)
    ensures
        r == (active != Some(Provider::Cohere)),
{
    match active {
        Some(Provider::Cohere) => false,
        _ => true,
    }
}

/// The reasoning strength after a click: Low, Medium and High in turn;
/// any other setting starts over at Low.
pub open spec fn next_reasoning(current: Seq<char>) -> Seq<char> {
    if current == "Low"@ {
        "Medium"@
    } else if current == "Medium"@ {
        "High"@
    } else {
        "Low"@
    }
}

/// See [`next_reasoning`].
pub fn next_reasoning_level(current: &str) -> (r: String)
    ensures
        r@ == next_reasoning(current@),
{
    if str_eq(current, "Low") {
        crate::text::owned("Medium")
    } else if str_eq(current, "Medium") {
        crate::text::owned("High")
    } else {
        crate::text::owned("Low")
    }
}

/// Three clicks bring every strength back to where it was.
pub proof fn lemma_reasoning_cycle(level: Seq<char>)
    requires
        level == "Low"@ || level == "Medium"@ || level == "High"@,
    ensures
        next_reasoning(next_reasoning(next_reasoning(level))) == level,
{
    reveal_strlit("Low");
    reveal_strlit("Medium");
    reveal_strlit("High");
    assert("Low"@.len() == 3 && "Medium"@.len() == 6 && "High"@.len() == 4);
}

} // verus!
