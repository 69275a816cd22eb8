//! Relays, the filtering of a directory snapshot, and capacity-weighted
//! random choice among the remaining candidates.
use crate::filter::{clauses_match, Filter};
use rand::distributions::{Distribution, WeightedError, WeightedIndex};
use rand::rngs::StdRng;
use rand::SeedableRng;
use vstd::prelude::*;

verus! {

#[verifier::external_type_specification]
#[verifier::external_body]
pub struct ExStdRng(StdRng);

/// A `rand::distributions::WeightedIndex` over `usize` weights. Verus refuses
/// a declaration of the generic type (its bound is an outside trait), so it is
/// held here, opaque.
#[verifier::external_body]
pub struct WeightTable {
    dist: WeightedIndex<usize>,
}

#[verifier::external_type_specification]
#[verifier::external_body]
pub struct ExWeightedError(WeightedError);

/// The weights that a `rand::distributions::WeightedIndex` was built from, in order.
pub uninterp spec fn index_weights(d: WeightTable) -> Seq<usize>;

/// The sum of a sequence of weights.
pub open spec fn total_weight(ws: Seq<usize>) -> int
    decreases ws.len(),
{
    if ws.len() == 0 {
        0
    } else {
        total_weight(ws.drop_last()) + ws.last()
    }
}

/// Relies on `rand::distributions::WeightedIndex::new`: with `usize` weights it
/// fails only on an empty list (`NoItem`) or a zero total (`AllWeightsZero`),
/// and keeps the weights it was given. Its running total must not overflow.
#[verifier::external_body]
fn new_weighted_index(weights: &Vec<usize>) -> (r: Result<WeightTable, WeightedError>)
    requires
        total_weight(weights@) <= usize::MAX,
    ensures
        r is Ok <==> (weights@.len() > 0 && total_weight(weights@) > 0),
        r matches Ok(d) ==> index_weights(d) == weights@,
{
    WeightedIndex::new(weights).map(|dist| WeightTable { dist })
}

/// Relies on `WeightedIndex::sample`: it draws an index below the number of
/// weights, and never one whose weight is 0 (the first index whose cumulative
/// weight exceeds a uniform draw below the total).
#[verifier::external_body]
fn sample_weighted_index(d: &WeightTable, rng: &mut StdRng) -> (r: usize)
    ensures
        r < index_weights(*d).len(),
        index_weights(*d)[r as int] > 0,
{
    d.dist.sample(rng)
}

/// Relies on `rand::SeedableRng::from_entropy` for `StdRng`: a generator seeded
/// from the operating system, different in every process.
#[verifier::external_body]
fn std_rng_from_entropy() -> (r: StdRng) {
    StdRng::from_entropy()
}

/// Relies on `rand::SeedableRng::seed_from_u64` for `StdRng`: a generator whose
/// draws are fixed by the seed.
#[verifier::external_body]
fn std_rng_from_seed(seed: u64) -> (r: StdRng) {
    StdRng::seed_from_u64(seed)
}

/// The source of randomness that weighted selection draws from.
pub struct RandomSource {
    rng: StdRng,
}

impl RandomSource {
    /// A source seeded afresh from the operating system.
    pub fn from_entropy() -> (r: RandomSource) {
        RandomSource { rng: std_rng_from_entropy() }
    }

    /// A reproducible source, for tests.
    pub fn seeded(seed: u64) -> (r: RandomSource) {
        RandomSource { rng: std_rng_from_seed(seed) }
    }
}

/// One WireGuard relay of the directory.
#[derive(Clone, Debug)]
pub struct Relay {
    pub hostname: String,
    pub location: String,
    pub active: bool,
    pub provider: String,
    /// Relative capacity; 0 means the relay is never drawn among several.
    pub weight: usize,
    /// The relay's address in text form.
    pub ip: String,
    pub public_key: String,
}

/// An optional filter, as the clauses it holds; no filter lets everything pass.
pub open spec fn optional_match(f: Option<Seq<(Seq<char>, bool)>>, subject: Seq<char>) -> bool {
    match f {
        None => true,
        Some(clauses) => clauses_match(clauses, subject),
    }
}

/// The clauses of an optional filter.
pub open spec fn filter_view(f: Option<&Filter>) -> Option<Seq<(Seq<char>, bool)>> {
    match f {
        None => None,
        Some(f) => Some(f@),
    }
}

/// Whether a relay survives the filters: active if asked, its location or its
/// hostname matched by the location filter, its provider by the provider filter.
pub open spec fn relay_kept(
    r: Relay,
    lh: Option<Seq<(Seq<char>, bool)>>,
    provider: Option<Seq<(Seq<char>, bool)>>,
    require_active: bool,
) -> bool {
    &&& (!require_active || r.active)
    &&& (optional_match(lh, r.location@) || optional_match(lh, r.hostname@))
    &&& optional_match(provider, r.provider@)
}

/// The relays that survive the filters, in directory order.
pub open spec fn candidates(
    rs: Seq<Relay>,
    lh: Option<Seq<(Seq<char>, bool)>>,
    provider: Option<Seq<(Seq<char>, bool)>>,
    require_active: bool,
) -> Seq<Relay>
    decreases rs.len(),
{
    if rs.len() == 0 {
        Seq::empty()
    } else {
        let init = candidates(rs.drop_last(), lh, provider, require_active);
        if relay_kept(rs.last(), lh, provider, require_active) {
            init.push(rs.last())
        } else {
            init
        }
    }
}

/// The weights of a sequence of relays, in order.
pub open spec fn weights_of(rs: Seq<Relay>) -> Seq<usize> {
    rs.map_values(|r: Relay| r.weight)
}

/// The relays that a sequence of references points to.
pub open spec fn deref_all(rs: Seq<&Relay>) -> Seq<Relay> {
    rs.map_values(|r: &Relay| *r)
}

/// Why no relay was selected.
#[derive(Clone, Copy, Debug, PartialEq, Eq)]
pub enum SelectError {
    /// No relay survived the filters.
    NoMatch,
    /// Several relays survived, but their weights are all 0 or their total
    /// does not fit in a `usize`.
    InvalidWeights,
}

/// Whether an optional filter lets `subject` through.
fn matches_optional(f: Option<&Filter>, subject: &str) -> (r: bool)
    ensures
        r == optional_match(filter_view(f), subject@),
{
    match f {
        None => true,
        Some(f) => f.is_match(subject),
    }
}

/// The relays of `relays` that survive the filters, in order.
pub fn get_filtered_relays<'a>(
    relays: &'a Vec<Relay>,
    lh_filter: Option<&Filter>,
    provider_filter: Option<&Filter>,
    require_active: bool,
) -> (r: Vec<&'a Relay>)
    ensures
        deref_all(r@) == candidates(
            relays@,
            filter_view(lh_filter),
            filter_view(provider_filter),
            require_active,
        ),
{
    let ghost lh = filter_view(lh_filter);
    let ghost pv = filter_view(provider_filter);
    let mut out: Vec<&'a Relay> = Vec::new();
    let mut i: usize = 0;
    while i < relays.len()
        invariant
            i <= relays@.len(),
            lh == filter_view(lh_filter),
            pv == filter_view(provider_filter),
            deref_all(out@) == candidates(relays@.take(i as int), lh, pv, require_active),
        decreases relays.len() - i,
    {
        let r = &relays[i];
        let keep = (!require_active || r.active) && (matches_optional(lh_filter, r.location.as_str())
            || matches_optional(lh_filter, r.hostname.as_str())) && matches_optional(
            provider_filter,
            r.provider.as_str(),
        );
        let ghost before = out@;
        proof {
            assert(relays@.take(i + 1).drop_last() =~= relays@.take(i as int));
            assert(relays@.take(i + 1).last() == *r);
        }
        if keep {
            out.push(r);
            assert(deref_all(out@) =~= deref_all(before).push(*r));
        }
        i = i + 1;
    }
    assert(relays@.take(i as int) =~= relays@);
    out
}

/// Adds up the weights, or `None` where the total does not fit in a `usize`.
fn checked_total(ws: &Vec<usize>) -> (r: Option<usize>)
    ensures
        r matches Some(t) ==> t == total_weight(ws@),
        r is None ==> total_weight(ws@) > usize::MAX,
{
    let mut sum: usize = 0;
    let mut i: usize = 0;
    while i < ws.len()
        invariant
            i <= ws@.len(),
            sum == total_weight(ws@.take(i as int)),
        decreases ws.len() - i,
    {
        proof {
            assert(ws@.take(i + 1).drop_last() =~= ws@.take(i as int));
        }
        match sum.checked_add(ws[i]) {
            Some(s) => sum = s,
            None => {
                proof {
                    lemma_total_weight_prefix(ws@, i + 1);
                }
                return None;
            },
        }
        i = i + 1;
    }
    assert(ws@.take(i as int) =~= ws@);
    Some(sum)
}

/// The total of a sequence of weights is 0 exactly when every weight is 0.
pub proof fn lemma_total_zero_iff_all_zero(ws: Seq<usize>)
    ensures
        total_weight(ws) >= 0,
        total_weight(ws) == 0 <==> forall|i: int| 0 <= i < ws.len() ==> ws[i] == 0,
    decreases ws.len(),
{
    if ws.len() > 0 {
        let init = ws.drop_last();
        lemma_total_zero_iff_all_zero(init);
        if total_weight(ws) == 0 {
            assert forall|i: int| 0 <= i < ws.len() implies ws[i] == 0 by {
                if i < ws.len() - 1 {
                    assert(ws[i] == init[i]);
                }
            }
        }
        if forall|i: int| 0 <= i < ws.len() ==> ws[i] == 0 {
            assert forall|i: int| 0 <= i < init.len() implies init[i] == 0 by {
                assert(ws[i] == init[i]);
            }
            assert(ws[ws.len() - 1] == 0);
        }
    }
}

/// The total of a sequence is at least the total of any prefix.
proof fn lemma_total_weight_prefix(ws: Seq<usize>, k: int)
    requires
        0 <= k <= ws.len(),
    ensures
        total_weight(ws.take(k)) <= total_weight(ws),
    decreases ws.len() - k,
{
    if k < ws.len() {
        lemma_total_weight_prefix(ws, k + 1);
        assert(ws.take(k + 1).drop_last() =~= ws.take(k));
    } else {
        assert(ws.take(k) =~= ws);
    }
}

/// Draws one relay with probability proportional to its weight.
pub fn pick<'a>(relays: &Vec<&'a Relay>, rng: &mut RandomSource) -> (r: Result<
    &'a Relay,
    SelectError,
>)
    ensures
        r is Err <==> (relays@.len() == 0 || total_weight(weights_of(deref_all(relays@))) == 0
            || total_weight(weights_of(deref_all(relays@))) > usize::MAX),
        r is Err ==> r == Err::<&'a Relay, SelectError>(SelectError::InvalidWeights),
        r matches Ok(c) ==> exists|i: int| 0 <= i < relays@.len() && *relays@[i] == *c,
        r matches Ok(c) ==> c.weight > 0,
{
    let mut ws: Vec<usize> = Vec::new();
    let mut i: usize = 0;
    while i < relays.len()
        invariant
            i <= relays@.len(),
            ws@ == weights_of(deref_all(relays@)).take(i as int),
        decreases relays.len() - i,
    {
        ws.push(relays[i].weight);
        assert(ws@ =~= weights_of(deref_all(relays@)).take(i + 1));
        i = i + 1;
    }
    assert(ws@ =~= weights_of(deref_all(relays@)));
    match checked_total(&ws) {
        None => Err(SelectError::InvalidWeights),
        Some(_) => match new_weighted_index(&ws) {
            Err(_) => Err(SelectError::InvalidWeights),
            Ok(dist) => {
                let k = sample_weighted_index(&dist, &mut rng.rng);
                assert(ws@[k as int] == relays@[k as int].weight);
                Ok(relays[k])
            },
        },
    }
}

/// Chooses the relay to connect to among those that survive the filters: the
/// only one if there is one, else a weighted random draw among them.
pub fn select<'a>(
    relays: &'a Vec<Relay>,
    lh_filter: Option<&Filter>,
    provider_filter: Option<&Filter>,
    require_active: bool,
    rng: &mut RandomSource,
) -> (r: Result<&'a Relay, SelectError>)
    ensures
        ({
            let cs = candidates(
                relays@,
                filter_view(lh_filter),
                filter_view(provider_filter),
                require_active,
            );
            &&& (r == Err::<&'a Relay, SelectError>(SelectError::NoMatch) <==> cs.len() == 0)
            &&& (r == Err::<&'a Relay, SelectError>(SelectError::InvalidWeights) <==> (cs.len()
                > 1 && (total_weight(weights_of(cs)) == 0 || total_weight(weights_of(cs))
                > usize::MAX)))
            &&& (cs.len() == 1 ==> r == Ok::<&'a Relay, SelectError>(&cs[0]))
            &&& (r matches Ok(c) ==> exists|i: int| 0 <= i < cs.len() && cs[i] == *c)
            &&& (r matches Ok(c) ==> cs.len() > 1 ==> c.weight > 0)
            &&& ((cs.len() > 1 && forall|i: int| 0 <= i < cs.len() ==> #[trigger] cs[i].weight == 0)
                ==> r == Err::<&'a Relay, SelectError>(SelectError::InvalidWeights))
            &&& ((cs.len() > 1 && total_weight(weights_of(cs)) <= usize::MAX && exists|i: int|
                0 <= i < cs.len() && #[trigger] cs[i].weight > 0) ==> (r matches Ok(c)
                && c.weight > 0))
        }),
{
    let found = get_filtered_relays(relays, lh_filter, provider_filter, require_active);
    let ghost cs = candidates(
        relays@,
        filter_view(lh_filter),
        filter_view(provider_filter),
        require_active,
    );
    let n = found.len();
    assert(cs.len() == n);
    proof {
        let ws = weights_of(cs);
        lemma_total_zero_iff_all_zero(ws);
        if forall|i: int| 0 <= i < cs.len() ==> #[trigger] cs[i].weight == 0 {
            assert forall|i: int| 0 <= i < ws.len() implies ws[i] == 0 by {
                assert(ws[i] == cs[i].weight);
            }
        }
        if exists|i: int| 0 <= i < cs.len() && #[trigger] cs[i].weight > 0 {
            let k = choose|i: int| 0 <= i < cs.len() && #[trigger] cs[i].weight > 0;
            assert(ws[k] == cs[k].weight);
        }
        assert(weights_of(deref_all(found@)) == ws);
    }
    if n == 0 {
        Err(SelectError::NoMatch)
    } else if n == 1 {
        assert(cs[0] == *found@[0]);
        Ok(found[0])
    } else {
        let r = pick(&found, rng);
        proof {
            if let Ok(c) = r {
                let i = choose|i: int| 0 <= i < found@.len() && *found@[i] == *c;
                assert(cs[i] == *found@[i]);
            }
        }
        r
    }
}

} // verus!
