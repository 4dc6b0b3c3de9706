use vstd::prelude::*;

use crate::markdown::segment::SegmentView;
use crate::translator::cache::{CacheView, cache_key, checksum_of, lookup, store};
use crate::translator::pipeline::{Resolution, assemble, needs_translation, resolve};

verus! {

/// A lookup whose key addresses an entry written for another source text
/// misses, when the two texts' checksums differ: a colliding key never
/// yields the other text's translation.
pub proof fn lemma_checksum_guard(
    m: CacheView,
    written_source: Seq<char>,
    translation: Seq<char>,
    written_model: Seq<char>,
    written_pair: Seq<char>,
    source: Seq<char>,
    model: Seq<char>,
    lang_pair: Seq<char>,
)
    requires
        cache_key(written_source, written_model, written_pair) == cache_key(
            source,
            model,
            lang_pair,
        ),
        checksum_of(written_source) != checksum_of(source),
    ensures
        lookup(
            store(m, written_source, translation, written_model, written_pair),
            source,
            model,
            lang_pair,
        ) is None,
{
}

/// The text a unit was settled with, by the cache or by the provider.
pub open spec fn settled_text(r: Resolution) -> Seq<char> {
    match r {
        Resolution::CacheHit(t) => t,
        Resolution::Translated(t) => t,
        _ => Seq::empty(),
    }
}

/// The cache after a run's writes, in the order they were made.
pub open spec fn apply_stores(
    m: CacheView,
    stores: Seq<(Seq<char>, Seq<char>)>,
    model: Seq<char>,
    lang_pair: Seq<char>,
) -> CacheView
    decreases stores.len(),
{
    if stores.len() == 0 {
        m
    } else {
        store(
            apply_stores(m, stores.drop_last(), model, lang_pair),
            stores.last().0,
            stores.last().1,
            model,
            lang_pair,
        )
    }
}

/// The resolutions of a run in which every translatable unit is found in
/// cache `m`.
pub open spec fn all_from_cache(
    inputs: Seq<SegmentView>,
    m: CacheView,
    model: Seq<char>,
    lang_pair: Seq<char>,
) -> Seq<Resolution> {
    Seq::new(
        inputs.len(),
        |i: int|
            if needs_translation(inputs[i]) {
                Resolution::CacheHit(lookup(m, inputs[i].text()->0, model, lang_pair)->0)
            } else {
                Resolution::Passthrough
            },
    )
}

/// A run whose provider calls all succeeded, with one translation per text,
/// leaves the cache holding every translatable unit's translation: a second
/// run over the same units hits the cache for each of them and returns the
/// same units as the first.
///
/// `res` settles the first run; `stores` are the cache writes it made, each
/// the text and translation of a translated unit, in the order they were made;
/// `m0` is the cache before the run. Distinct texts of the document are taken
/// to have distinct cache keys.
pub proof fn lemma_second_run_hits(
    inputs: Seq<SegmentView>,
    res: Seq<Resolution>,
    m0: CacheView,
    stores: Seq<(Seq<char>, Seq<char>)>,
    model: Seq<char>,
    lang_pair: Seq<char>,
)
    requires
        inputs.len() == res.len(),
        forall|i: int|
            0 <= i < inputs.len() ==> (#[trigger] res[i] == Resolution::Passthrough
                <==> !needs_translation(inputs[i])),
        forall|i: int| 0 <= i < inputs.len() ==> #[trigger] res[i] != Resolution::Failed,
        forall|i: int, j: int|
            0 <= i < inputs.len() && 0 <= j < inputs.len() && needs_translation(#[trigger] inputs[i])
                && needs_translation(#[trigger] inputs[j]) && inputs[i].text() == inputs[j].text()
                ==> settled_text(res[i]) == settled_text(res[j]),
        forall|i: int, j: int|
            0 <= i < inputs.len() && 0 <= j < inputs.len() && needs_translation(#[trigger] inputs[i])
                && needs_translation(#[trigger] inputs[j]) && inputs[i].text() != inputs[j].text()
                ==> cache_key(inputs[i].text()->0, model, lang_pair) != cache_key(
                inputs[j].text()->0,
                model,
                lang_pair,
            ),
        forall|k: int|
            #![trigger stores[k]]
            0 <= k < stores.len() ==> exists|i: int|
                0 <= i < inputs.len() && #[trigger] res[i] is Translated && stores[k] == (
                    inputs[i].text()->0,
                    settled_text(res[i]),
                ),
        forall|i: int|
            0 <= i < inputs.len() && #[trigger] res[i] is Translated ==> exists|k: int|
                0 <= k < stores.len() && #[trigger] stores[k].0 == inputs[i].text()->0,
        forall|i: int|
            0 <= i < inputs.len() && #[trigger] res[i] is CacheHit ==> lookup(
                m0,
                inputs[i].text()->0,
                model,
                lang_pair,
            ) == Some(settled_text(res[i])) || exists|k: int|
                0 <= k < stores.len() && #[trigger] stores[k].0 == inputs[i].text()->0,
    ensures
        forall|i: int|
            0 <= i < inputs.len() && needs_translation(#[trigger] inputs[i]) ==> lookup(
                apply_stores(m0, stores, model, lang_pair),
                inputs[i].text()->0,
                model,
                lang_pair,
            ) == Some(settled_text(res[i])),
        assemble(inputs, all_from_cache(inputs, apply_stores(m0, stores, model, lang_pair), model, lang_pair))
            == assemble(inputs, res),
{
    lemma_stores_serve(inputs, res, m0, stores, model, lang_pair);
    let m = apply_stores(m0, stores, model, lang_pair);
    let second = all_from_cache(inputs, m, model, lang_pair);
    assert forall|i: int| 0 <= i < inputs.len() implies #[trigger] assemble(inputs, second)[i]
        == assemble(inputs, res)[i] by {
        if needs_translation(inputs[i]) {
            if res[i] is Translated {
                let k = choose|k: int|
                    0 <= k < stores.len() && #[trigger] stores[k].0 == inputs[i].text()->0;
            }
        }
    }
    assert(assemble(inputs, second) =~= assemble(inputs, res));
}

proof fn lemma_stores_serve(
    inputs: Seq<SegmentView>,
    res: Seq<Resolution>,
    m0: CacheView,
    stores: Seq<(Seq<char>, Seq<char>)>,
    model: Seq<char>,
    lang_pair: Seq<char>,
)
    requires
        inputs.len() == res.len(),
        forall|i: int|
            0 <= i < inputs.len() ==> (#[trigger] res[i] == Resolution::Passthrough
                <==> !needs_translation(inputs[i])),
        forall|i: int, j: int|
            0 <= i < inputs.len() && 0 <= j < inputs.len() && needs_translation(#[trigger] inputs[i])
                && needs_translation(#[trigger] inputs[j]) && inputs[i].text() == inputs[j].text()
                ==> settled_text(res[i]) == settled_text(res[j]),
        forall|i: int, j: int|
            0 <= i < inputs.len() && 0 <= j < inputs.len() && needs_translation(#[trigger] inputs[i])
                && needs_translation(#[trigger] inputs[j]) && inputs[i].text() != inputs[j].text()
                ==> cache_key(inputs[i].text()->0, model, lang_pair) != cache_key(
                inputs[j].text()->0,
                model,
                lang_pair,
            ),
        forall|k: int|
            #![trigger stores[k]]
            0 <= k < stores.len() ==> exists|i: int|
                0 <= i < inputs.len() && #[trigger] res[i] is Translated && stores[k] == (
                    inputs[i].text()->0,
                    settled_text(res[i]),
                ),
    ensures
        forall|i: int|
            0 <= i < inputs.len() && needs_translation(#[trigger] inputs[i]) && (lookup(
                m0,
                inputs[i].text()->0,
                model,
                lang_pair,
            ) == Some(settled_text(res[i])) || exists|k: int|
                0 <= k < stores.len() && #[trigger] stores[k].0 == inputs[i].text()->0) ==> lookup(
                apply_stores(m0, stores, model, lang_pair),
                inputs[i].text()->0,
                model,
                lang_pair,
            ) == Some(settled_text(res[i])),
    decreases stores.len(),
{
    if stores.len() > 0 {
        let prefix = stores.drop_last();
        assert forall|k: int| #![trigger prefix[k]] 0 <= k < prefix.len() implies exists|i: int|
            0 <= i < inputs.len() && #[trigger] res[i] is Translated && prefix[k] == (
                inputs[i].text()->0,
                settled_text(res[i]),
            ) by {
            assert(prefix[k] == stores[k]);
        }
        lemma_stores_serve(inputs, res, m0, prefix, model, lang_pair);
        let last = stores.last();
        let j = choose|j: int|
            0 <= j < inputs.len() && #[trigger] res[j] is Translated && stores[stores.len() - 1]
                == (inputs[j].text()->0, settled_text(res[j]));
        assert forall|i: int|
            0 <= i < inputs.len() && needs_translation(#[trigger] inputs[i]) && (lookup(
                m0,
                inputs[i].text()->0,
                model,
                lang_pair,
            ) == Some(settled_text(res[i])) || exists|k: int|
                0 <= k < stores.len() && #[trigger] stores[k].0 == inputs[i].text()->0) implies lookup(
            apply_stores(m0, stores, model, lang_pair),
            inputs[i].text()->0,
            model,
            lang_pair,
        ) == Some(settled_text(res[i])) by {
            assert(needs_translation(inputs[j]));
            if inputs[i].text() == inputs[j].text() {
            } else {
                if exists|k: int|
                    0 <= k < stores.len() && #[trigger] stores[k].0 == inputs[i].text()->0 {
                    let k = choose|k: int|
                        0 <= k < stores.len() && #[trigger] stores[k].0 == inputs[i].text()->0;
                    assert(k != stores.len() - 1);
                    assert(prefix[k] == stores[k]);
                }
            }
        }
    }
}

} // verus!
