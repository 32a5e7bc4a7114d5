//! The population evolution engine: a fixed set of individuals, the loss
//! function that ranks them, and the per-generation step — rank, retire the
//! worst, breed replacements from the fittest, mutate the survivors.

use vstd::prelude::*;
use vstd::assert_multisets_equal;
use vstd::multiset::Multiset;
use crate::chromosome::{breeding_step, crossed64, lemma_crossed_zero, mutation_step, Chromosome};
use crate::env::EnvSettings;
use crate::individual::{genotype_wf, Individual, SpawnableIndividual};
use crate::loss::{rank_of, spec_loss_below, F64_MAX_BITS};
use crate::random::{fresh_rng, next_u64, trial};

verus! {

/// The replacement count for one generation: the spawn fraction of the
/// population (in parts per thousand, rounded down), clamped so the single
/// best individual is always kept, then rounded down to an even number so
/// replacement happens in breeding pairs; an empty population spawns none.
pub open spec fn spec_spawn_count(n: nat, spawn_permille: nat) -> nat {
    if n == 0 {
        0
    } else {
        let raw = (n * spawn_permille) / 1000;
        let clamped = if raw > n - 1 {
            (n - 1) as nat
        } else {
            raw
        };
        (clamped - (clamped % 2)) as nat
    }
}

/// Compute the replacement count: always even, never the whole population.
pub fn spawn_count(population_size: usize, spawn_permille: u32) -> (count: usize)
    ensures
        count == spec_spawn_count(population_size as nat, spawn_permille as nat),
        count % 2 == 0,
        population_size > 0 ==> count <= population_size - 1,
        population_size == 0 ==> count == 0,
{
    if population_size == 0 {
        return 0;
    }
    proof {
        assert((population_size as u128) * (spawn_permille as u128) < 0x1_0000_0000_0000_0000_0000_0000u128)
            by (nonlinear_arith)
            requires
                population_size <= 0xffff_ffff_ffff_ffffu128,
                spawn_permille <= 0xffff_ffffu128,
        ;
    }
    let raw: u128 = (population_size as u128) * (spawn_permille as u128) / 1000;
    let clamped: usize = if raw > (population_size - 1) as u128 {
        population_size - 1
    } else {
        raw as usize
    };
    clamped - clamped % 2
}

/// The fold the minimum-loss scan performs: the accumulator is replaced
/// whenever a later loss is strictly below it under the float `<` policy,
/// so incomparable (NaN) losses never become the minimum.
pub open spec fn spec_fold_min(ls: Seq<u64>, acc: u64) -> u64
    decreases ls.len(),
{
    if ls.len() == 0 {
        acc
    } else {
        spec_fold_min(
            ls.drop_first(),
            if spec_loss_below(ls[0], acc) {
                ls[0]
            } else {
                acc
            },
        )
    }
}

/// Scan a vector of losses for the minimum under the float `<` policy,
/// starting from the largest finite float.
pub fn fold_min_loss(losses: &Vec<u64>) -> (m: u64)
    ensures
        m == spec_fold_min(losses@, F64_MAX_BITS),
{
    let mut acc: u64 = F64_MAX_BITS;
    let mut i: usize = 0;
    proof {
        assert(losses@.skip(0) =~= losses@);
    }
    while i < losses.len()
        invariant
            i <= losses@.len(),
            spec_fold_min(losses@, F64_MAX_BITS) == spec_fold_min(losses@.skip(i as int), acc),
        decreases losses@.len() - i,
    {
        let ghost pre: Seq<u64> = losses@.skip(i as int);
        let l: u64 = losses[i];
        if crate::loss::loss_below(l, acc) {
            acc = l;
        }
        proof {
            assert(pre.drop_first() =~= losses@.skip(i + 1 as int));
        }
        i = i + 1;
    }
    proof {
        assert(losses@.skip(losses@.len() as int) =~= Seq::<u64>::empty());
    }
    acc
}

/// `x` is one of the elements of `s`.
pub open spec fn member_of<T>(x: T, s: Seq<T>) -> bool {
    exists|j: int| 0 <= j < s.len() && x == s[j]
}

/// `r` is the rank of one possible output of the loss function on `x`.
pub open spec fn rank_of_output<I, F: Fn(&I) -> u64>(f: F, x: I, r: u64) -> bool {
    exists|lb: u64| call_ensures(f, (&x,), lb) && r == crate::loss::spec_rank(lb)
}

/// The pair holds an individual together with the rank of one possible
/// output of the loss function on it.
pub open spec fn pair_ranked<I, F: Fn(&I) -> u64>(f: F, p: (u64, I)) -> bool {
    rank_of_output(f, p.1, p.0)
}

/// The individuals of a keyed sequence, keys dropped.
pub open spec fn snds<I>(s: Seq<(u64, I)>) -> Seq<I> {
    s.map_values(|p: (u64, I)| p.1)
}

/// `b` is `a` after one background-mutation pass: the same genotype size,
/// each locus left alone or with exactly one bit toggled.
pub open spec fn mutated_individual<I: Individual>(a: I, b: I) -> bool {
    b.genotype_spec().len() == a.genotype_spec().len() && (forall|j: int|
        0 <= j < a.genotype_spec().len() ==> #[trigger] mutation_step(
            a.genotype_spec()[j],
            b.genotype_spec()[j],
        ))
}

/// `o1`, `o2` are offspring bred from the pair `p1`, `p2`: genotype sizes
/// match, and each homologous locus pair went through one breeding pipeline
/// roll (mutation, crossover, swap).
pub open spec fn bred_offspring<I: Individual>(p1: I, p2: I, o1: I, o2: I) -> bool {
    &&& p1.genotype_spec().len() == p2.genotype_spec().len()
    &&& o1.genotype_spec().len() == p1.genotype_spec().len()
    &&& o2.genotype_spec().len() == p2.genotype_spec().len()
    &&& (forall|j: int|
        0 <= j < p1.genotype_spec().len() ==> #[trigger] breeding_step(
            p1.genotype_spec()[j],
            p2.genotype_spec()[j],
            o1.genotype_spec()[j],
            o2.genotype_spec()[j],
        ))
}

/// What one generation leaves behind, relative to the ranked population
/// `perm` and the replacement count `sc`: the best-ranked individual is
/// kept verbatim in slot 0; each surviving slot between the elite and the
/// spawned tail holds its ranked individual with per-locus mutation rolls
/// applied; and the `sc` tail slots are refilled pairwise with offspring
/// bred from the next-best ranked pairs. The pass breeds in place, so when
/// the tail reaches back into the breeding sources (`2 * sc > n`) a late
/// pair may be bred from already-refilled slots; the tail clause therefore
/// speaks only of the non-overlapping case.
pub open spec fn generation_step<I: Individual>(perm: Seq<I>, result: Seq<I>, sc: nat) -> bool {
    let n = perm.len() as int;
    &&& result.len() == n
    &&& (n > 0 ==> result[0] == perm[0])
    &&& (forall|t: int| 1 <= t < n - sc ==> #[trigger] mutated_individual(perm[t], result[t]))
    &&& (2 * sc <= n ==> (forall|i: int|
        0 <= i < sc && i % 2 == 0 ==> #[trigger] bred_offspring(
            perm[i + 1],
            perm[i + 2],
            result[n - i - 1],
            result[n - i - 2],
        )))
}

/// The generation witness: `perm` is a permutation of the prior population,
/// ascending under rank keys that the loss function produced; the reported
/// loss is a fresh loss-function output on its head; and the final
/// population is one generation step over it.
pub open spec fn evolution_witness<I: Individual, F: Fn(&I) -> u64>(
    f: F,
    before: Seq<I>,
    settings: EnvSettings,
    after: Seq<I>,
    lowest: u64,
    perm: Seq<I>,
    ranks: Seq<u64>,
) -> bool {
    &&& perm.len() == before.len()
    &&& perm.to_multiset() == before.to_multiset()
    &&& ranks.len() == perm.len()
    &&& (forall|t: int| 0 <= t < perm.len() ==> #[trigger] rank_of_output(f, perm[t], ranks[t]))
    &&& (forall|p: int, q: int| 0 <= p < q < ranks.len() ==> ranks[p] <= ranks[q])
    &&& (perm.len() > 0 ==> call_ensures(f, (&perm[0],), lowest))
    &&& generation_step(
        perm,
        after,
        spec_spawn_count(perm.len(), settings.spawn_percentage as nat),
    )
}

/// Sort losses ascending by their rank: comparable losses in numeric order,
/// incomparable (NaN) ones at the end. The result holds exactly the given
/// losses, reordered.
fn sort_losses(losses: &mut Vec<u64>)
    ensures
        final(losses)@.len() == old(losses)@.len(),
        final(losses)@.to_multiset() == old(losses)@.to_multiset(),
        forall|p: int, q: int|
            0 <= p < q < final(losses)@.len() ==> crate::loss::spec_rank(#[trigger] final(losses)@[p])
                <= crate::loss::spec_rank(#[trigger] final(losses)@[q]),
{
    broadcast use vstd::seq_lib::group_to_multiset_ensures;

    let ghost orig: Seq<u64> = losses@;
    let mut out: Vec<u64> = Vec::new();
    proof {
        assert(out@.to_multiset().add(losses@.to_multiset()) =~= orig.to_multiset());
    }
    while losses.len() > 0
        invariant
            out@.len() + losses@.len() == orig.len(),
            out@.to_multiset().add(losses@.to_multiset()) == orig.to_multiset(),
            forall|p: int, q: int|
                0 <= p < q < out@.len() ==> crate::loss::spec_rank(#[trigger] out@[p])
                    <= crate::loss::spec_rank(#[trigger] out@[q]),
            forall|p: int, q: int|
                0 <= p < out@.len() && 0 <= q < losses@.len() ==> crate::loss::spec_rank(
                    #[trigger] out@[p],
                ) <= crate::loss::spec_rank(#[trigger] losses@[q]),
        decreases losses@.len(),
    {
        let mut m: usize = 0;
        let mut j: usize = 1;
        while j < losses.len()
            invariant
                m < losses@.len(),
                1 <= j <= losses@.len(),
                forall|t: int|
                    0 <= t < j ==> crate::loss::spec_rank(losses@[m as int])
                        <= crate::loss::spec_rank(#[trigger] losses@[t]),
            decreases losses@.len() - j,
        {
            if rank_of(losses[j]) < rank_of(losses[m]) {
                m = j;
            }
            j = j + 1;
        }
        let ghost pre: Seq<u64> = losses@;
        let ghost preout: Seq<u64> = out@;
        let v: u64 = losses.remove(m);
        out.push(v);
        proof {
            pre.to_multiset_ensures();
            preout.to_multiset_ensures();
            assert(pre.remove(m as int).to_multiset() =~= pre.to_multiset().remove(v));
            assert(preout.push(v).to_multiset() =~= preout.to_multiset().insert(v));
            assert(pre.to_multiset().count(v) >= 1) by {
                assert(pre.contains(v));
            }
            assert_multisets_equal!(
                preout.to_multiset().insert(v).add(pre.to_multiset().remove(v)),
                preout.to_multiset().add(pre.to_multiset())
            );
        }
    }
    proof {
        assert(losses@.to_multiset() =~= Multiset::<u64>::empty());
        assert(out@.to_multiset().add(losses@.to_multiset()) =~= out@.to_multiset());
    }
    *losses = out;
}

/// The genotype is one that the generator can produce for some draw.
pub open spec fn generated_genotype<L, G: Fn(u64) -> Vec<L>>(gen: G, g: Seq<L>) -> bool {
    exists|seed: u64, v: Vec<L>| #[trigger] call_ensures(gen, (seed,), v) && g == v@
}

/// The population: a fixed number of individuals, the loss function that
/// ranks them, the environment settings, and the random source.
///
/// A loss is carried as the bit pattern of a 64-bit float. The loss
/// function may return any pattern at all for any individual; incomparable
/// (NaN) losses are tolerated and sort after every comparable one.
pub struct Population<I, F> {
    settings: EnvSettings,
    individuals: Vec<I>,
    loss_func: F,
    rng: rand::rngs::ThreadRng,
    size: usize,
}

impl<I, F> Population<I, F> {
    /// The individuals, in their current order.
    pub closed spec fn individuals_spec(&self) -> Seq<I> {
        self.individuals@
    }

    /// The fixed capacity.
    pub closed spec fn size_spec(&self) -> usize {
        self.size
    }

    /// The settings.
    pub closed spec fn settings_spec(&self) -> EnvSettings {
        self.settings
    }

    /// The loss function.
    pub closed spec fn loss_fn_spec(&self) -> F {
        self.loss_func
    }
}

impl<I: SpawnableIndividual, F> Population<I, F> {
    /// The population is empty (not yet initialized) or exactly full, and
    /// every locus of every genotype is valid.
    pub open spec fn storage_wf(&self) -> bool {
        &&& self.individuals_spec().len() == 0 || self.individuals_spec().len() == self.size_spec()
        &&& forall|i: int|
            0 <= i < self.individuals_spec().len() ==> genotype_wf(
                (#[trigger] self.individuals_spec()[i]).genotype_spec(),
            )
    }

    /// Every genotype has the same size as the first: breeding pairs
    /// homologous loci by index and treats a size mismatch as a programming
    /// error, so the engine requires this of the whole population.
    pub open spec fn uniform_genotypes(&self) -> bool {
        forall|i: int|
            0 <= i < self.individuals_spec().len() ==> (#[trigger] self.individuals_spec()[i]).genotype_spec().len()
                == self.individuals_spec()[0].genotype_spec().len()
    }

    /// A population without a loss function yet; one construction path
    /// builds the population first and brings the loss separately.
    pub fn new(population_size: usize, settings: EnvSettings) -> (p: Population<I, ()>)
        ensures
            p.size_spec() == population_size,
            p.individuals_spec().len() == 0,
            p.settings_spec() == settings,
    {
        Population {
            settings,
            individuals: Vec::new(),
            loss_func: (),
            rng: fresh_rng(),
            size: population_size,
        }
    }

    /// Fill every capacity slot by invoking the genotype generator once per
    /// slot, handing it one draw from the population's random source. Every
    /// slot ends up holding an individual spawned from a generator output;
    /// when every output the generator can produce is valid, or all outputs
    /// share one size, the population is well-formed, or uniform, outright.
    pub fn initialize<G: Fn(u64) -> Vec<I::Locus>>(&mut self, genotype_initializer: G)
        requires
            old(self).individuals_spec().len() == 0,
            forall|s: u64| call_requires(genotype_initializer, (s,)),
        ensures
            final(self).individuals_spec().len() == final(self).size_spec(),
            final(self).size_spec() == old(self).size_spec(),
            final(self).settings_spec() == old(self).settings_spec(),
            final(self).loss_fn_spec() == old(self).loss_fn_spec(),
            forall|t: int|
                0 <= t < final(self).individuals_spec().len() ==> generated_genotype(
                    genotype_initializer,
                    (#[trigger] final(self).individuals_spec()[t]).genotype_spec(),
                ),
            (forall|seed: u64, v: Vec<I::Locus>|
                #[trigger] call_ensures(genotype_initializer, (seed,), v) ==> genotype_wf(v@))
                ==> final(self).storage_wf(),
            (forall|s1: u64, v1: Vec<I::Locus>, s2: u64, v2: Vec<I::Locus>|
                #[trigger] call_ensures(genotype_initializer, (s1,), v1) && #[trigger] call_ensures(
                    genotype_initializer,
                    (s2,),
                    v2,
                ) ==> v1@.len() == v2@.len()) ==> final(self).uniform_genotypes(),
    {
        let n: usize = self.size;
        while self.individuals.len() < n
            invariant
                self.individuals@.len() <= n,
                self.size == n,
                self.settings == old(self).settings,
                self.loss_func == old(self).loss_func,
                self.loss_fn_spec() == old(self).loss_fn_spec(),
                forall|s: u64| call_requires(genotype_initializer, (s,)),
                forall|t: int|
                    0 <= t < self.individuals@.len() ==> generated_genotype(
                        genotype_initializer,
                        (#[trigger] self.individuals@[t]).genotype_spec(),
                    ),
            decreases n - self.individuals@.len(),
        {
            let ghost pre: Seq<I> = self.individuals@;
            let seed: u64 = next_u64(&mut self.rng);
            let genome: Vec<I::Locus> = genotype_initializer(seed);
            self.individuals.push(I::spawn(genome));
            proof {
                assert(generated_genotype(
                    genotype_initializer,
                    self.individuals@[pre.len() as int].genotype_spec(),
                )) by {
                    assert(call_ensures(genotype_initializer, (seed,), genome));
                }
            }
        }
        proof {
            if forall|seed: u64, v: Vec<I::Locus>|
                #[trigger] call_ensures(genotype_initializer, (seed,), v) ==> genotype_wf(v@) {
                assert forall|t: int| 0 <= t < self.individuals@.len() implies genotype_wf(
                    (#[trigger] self.individuals_spec()[t]).genotype_spec(),
                ) by {
                    let (sd, v): (u64, Vec<I::Locus>) = choose|sd: u64, v: Vec<I::Locus>|
                        #[trigger] call_ensures(genotype_initializer, (sd,), v)
                            && self.individuals@[t].genotype_spec() == v@;
                    assert(genotype_wf(v@));
                }
            }
            if forall|s1: u64, v1: Vec<I::Locus>, s2: u64, v2: Vec<I::Locus>|
                #[trigger] call_ensures(genotype_initializer, (s1,), v1) && #[trigger] call_ensures(
                    genotype_initializer,
                    (s2,),
                    v2,
                ) ==> v1@.len() == v2@.len() {
                assert forall|t: int|
                    0 <= t < self.individuals@.len() implies (
                    #[trigger] self.individuals_spec()[t]).genotype_spec().len()
                    == self.individuals_spec()[0].genotype_spec().len() by {
                    let (sd, v): (u64, Vec<I::Locus>) = choose|sd: u64, v: Vec<I::Locus>|
                        #[trigger] call_ensures(genotype_initializer, (sd,), v)
                            && self.individuals@[t].genotype_spec() == v@;
                    let (sd0, v0): (u64, Vec<I::Locus>) = choose|sd0: u64, v0: Vec<I::Locus>|
                        #[trigger] call_ensures(genotype_initializer, (sd0,), v0)
                            && self.individuals@[0].genotype_spec() == v0@;
                    assert(v@.len() == v0@.len());
                }
            }
        }
    }
}

impl<I: SpawnableIndividual, F: Fn(&I) -> u64> Population<I, F> {
    /// The loss function accepts every individual. Stated over the public
    /// `loss_fn_spec`, so any step that keeps the function keeps this too.
    pub open spec fn loss_ok(&self) -> bool {
        forall|x: &I| call_requires(self.loss_fn_spec(), (x,))
    }

    /// A population with a capacity, settings and a loss function; empty
    /// until initialized.
    pub fn with_loss(population_size: usize, settings: EnvSettings, loss_func: F) -> (p: Self)
        requires
            forall|x: &I| call_requires(loss_func, (x,)),
        ensures
            p.size_spec() == population_size,
            p.individuals_spec().len() == 0,
            p.settings_spec() == settings,
            p.loss_fn_spec() == loss_func,
            p.loss_ok(),
            p.storage_wf(),
    {
        Population {
            settings,
            individuals: Vec::new(),
            loss_func,
            rng: fresh_rng(),
            size: population_size,
        }
    }

    /// Evaluate every individual's loss, in population order.
    fn evaluate_losses(&self) -> (ls: Vec<u64>)
        requires
            self.loss_ok(),
        ensures
            ls@.len() == self.individuals_spec().len(),
            forall|t: int|
                0 <= t < ls@.len() ==> call_ensures(
                    self.loss_fn_spec(),
                    (&self.individuals_spec()[t],),
                    #[trigger] ls@[t],
                ),
    {
        let mut ls: Vec<u64> = Vec::new();
        let mut i: usize = 0;
        while i < self.individuals.len()
            invariant
                ls@.len() == i,
                i <= self.individuals@.len(),
                self.loss_ok(),
                forall|t: int|
                    0 <= t < i ==> call_ensures(
                        self.loss_fn_spec(),
                        (&self.individuals_spec()[t],),
                        #[trigger] ls@[t],
                    ),
            decreases self.individuals@.len() - i,
        {
            proof {
                assert(call_requires(self.loss_fn_spec(), (&self.individuals@[i as int],)));
            }
            let l: u64 = (self.loss_func)(&self.individuals[i]);
            ls.push(l);
            i = i + 1;
        }
        ls
    }

    /// The minimum loss across all current individuals: a fresh scan under
    /// the float `<` policy, seeded with the largest finite float, so NaN
    /// losses never become the minimum and an empty population reports the
    /// seed itself.
    pub fn loss(&self) -> (lowest: u64)
        requires
            self.loss_ok(),
        ensures
            self.individuals_spec().len() == 0 ==> lowest == F64_MAX_BITS,
            exists|ls: Seq<u64>|
                ls.len() == self.individuals_spec().len() && (forall|t: int|
                    0 <= t < ls.len() ==> call_ensures(
                        self.loss_fn_spec(),
                        (&self.individuals_spec()[t],),
                        #[trigger] ls[t],
                    )) && lowest == spec_fold_min(ls, F64_MAX_BITS),
    {
        let ls: Vec<u64> = self.evaluate_losses();
        let lowest: u64 = fold_min_loss(&ls);
        proof {
            if self.individuals_spec().len() == 0 {
                assert(ls@ =~= Seq::<u64>::empty());
            }
        }
        lowest
    }

    /// All individuals' losses, sorted ascending under the ranking policy:
    /// comparable losses in numeric order, incomparable (NaN) ones at the
    /// very end.
    pub fn losses(&self) -> (ls: Vec<u64>)
        requires
            self.loss_ok(),
        ensures
            ls@.len() == self.individuals_spec().len(),
            forall|p: int, q: int|
                0 <= p < q < ls@.len() ==> crate::loss::spec_rank(#[trigger] ls@[p])
                    <= crate::loss::spec_rank(#[trigger] ls@[q]),
            forall|p: int, q: int|
                0 <= p < q < ls@.len() && crate::loss::spec_is_nan(#[trigger] ls@[p])
                    ==> crate::loss::spec_is_nan(#[trigger] ls@[q]),
            exists|raw: Seq<u64>|
                raw.len() == self.individuals_spec().len() && (forall|t: int|
                    0 <= t < raw.len() ==> call_ensures(
                        self.loss_fn_spec(),
                        (&self.individuals_spec()[t],),
                        #[trigger] raw[t],
                    )) && ls@.to_multiset() == raw.to_multiset(),
    {
        let mut ls: Vec<u64> = self.evaluate_losses();
        sort_losses(&mut ls);
        proof {
            assert forall|p: int, q: int|
                0 <= p < q < ls@.len() && crate::loss::spec_is_nan(#[trigger] ls@[p]) implies
                crate::loss::spec_is_nan(#[trigger] ls@[q]) by {
                crate::loss::lemma_rank_top_is_nan(ls@[p]);
                crate::loss::lemma_rank_top_is_nan(ls@[q]);
            }
        }
        ls
    }

    /// Sort the individuals ascending by loss: each loss is evaluated once,
    /// ranked under the policy (incomparable losses last), and the
    /// population reordered. The result is a permutation of the prior
    /// individuals — nothing is duplicated or lost — and some sequence of
    /// rank keys, each the rank of a loss-function output for its slot,
    /// stands ascending over it.
    fn rank(&mut self)
        requires
            old(self).loss_ok(),
        ensures
            final(self).individuals_spec().len() == old(self).individuals_spec().len(),
            final(self).size_spec() == old(self).size_spec(),
            final(self).settings_spec() == old(self).settings_spec(),
            final(self).loss_fn_spec() == old(self).loss_fn_spec(),
            final(self).loss_ok(),
            final(self).individuals_spec().to_multiset() == old(
                self,
            ).individuals_spec().to_multiset(),
            forall|t: int|
                0 <= t < final(self).individuals_spec().len() ==> #[trigger] member_of(
                    final(self).individuals_spec()[t],
                    old(self).individuals_spec(),
                ),
            exists|ranks: Seq<u64>|
                ranks.len() == final(self).individuals_spec().len() && (forall|t: int|
                    0 <= t < ranks.len() ==> #[trigger] rank_of_output(
                        old(self).loss_fn_spec(),
                        final(self).individuals_spec()[t],
                        ranks[t],
                    )) && (forall|p: int, q: int| 0 <= p < q < ranks.len() ==> ranks[p] <= ranks[q]),
    {
        broadcast use vstd::seq_lib::group_to_multiset_ensures;

        let ghost orig: Seq<I> = self.individuals@;
        let mut keyed: Vec<(u64, I)> = Vec::new();
        proof {
            assert(snds(keyed@) =~= Seq::<I>::empty());
            assert(snds(keyed@).to_multiset().add(self.individuals@.to_multiset())
                =~= orig.to_multiset());
        }
        while self.individuals.len() > 0
            invariant
                keyed@.len() + self.individuals@.len() == orig.len(),
                forall|t: int| 0 <= t < self.individuals@.len() ==> self.individuals@[t] == orig[t],
                forall|t: int|
                    0 <= t < keyed@.len() ==> #[trigger] member_of(keyed@[t].1, orig),
                forall|t: int|
                    0 <= t < keyed@.len() ==> #[trigger] pair_ranked(self.loss_func, keyed@[t]),
                snds(keyed@).to_multiset().add(self.individuals@.to_multiset())
                    == orig.to_multiset(),
                self.loss_ok(),
                self.size == old(self).size,
                self.settings == old(self).settings,
                self.loss_func == old(self).loss_func,
                self.loss_fn_spec() == old(self).loss_fn_spec(),
            decreases self.individuals@.len(),
        {
            let ghost prei: Seq<I> = self.individuals@;
            let ghost prek: Seq<(u64, I)> = keyed@;
            let ghost prelen: int = self.individuals@.len() as int;
            let ind: I = self.individuals.pop().unwrap();
            proof {
                assert(call_requires(self.loss_fn_spec(), (&ind,)));
            }
            let lb: u64 = (self.loss_func)(&ind);
            let r: u64 = rank_of(lb);
            keyed.push((r, ind));
            proof {
                assert(ind == orig[prelen - 1]);
                prei.to_multiset_ensures();
                snds(prek).to_multiset_ensures();
                assert(self.individuals@ =~= prei.remove(prelen - 1));
                assert(prei.remove(prelen - 1).to_multiset() =~= prei.to_multiset().remove(ind));
                assert(snds(keyed@) =~= snds(prek).push(ind));
                assert(snds(prek).push(ind).to_multiset() =~= snds(prek).to_multiset().insert(
                    ind,
                ));
                assert(prei.to_multiset().count(ind) >= 1) by {
                    assert(prei.contains(ind));
                }
                assert_multisets_equal!(
                    snds(prek).to_multiset().insert(ind).add(prei.to_multiset().remove(ind)),
                    snds(prek).to_multiset().add(prei.to_multiset())
                );
                assert(pair_ranked(self.loss_func, keyed@[keyed@.len() - 1])) by {
                    assert(call_ensures(self.loss_func, (&ind,), lb));
                    assert(keyed@[keyed@.len() - 1].0 == crate::loss::spec_rank(lb));
                }
                assert forall|t: int| 0 <= t < keyed@.len() implies #[trigger] member_of(
                    keyed@[t].1,
                    orig,
                ) && #[trigger] pair_ranked(self.loss_func, keyed@[t]) by {
                    if t < keyed@.len() - 1 {
                        assert(keyed@[t] == prek[t]);
                        assert(pair_ranked(self.loss_func, prek[t]));
                    } else {
                        assert(keyed@[t].1 == orig[prelen - 1]);
                    }
                }
            }
        }
        let mut sorted: Vec<(u64, I)> = Vec::new();
        proof {
            assert(snds(sorted@) =~= Seq::<I>::empty());
            assert(snds(sorted@).to_multiset().add(snds(keyed@).to_multiset()) =~= snds(
                keyed@,
            ).to_multiset());
            assert(self.individuals@.to_multiset() =~= Multiset::<I>::empty());
            assert(snds(keyed@).to_multiset().add(self.individuals@.to_multiset()) =~= snds(
                keyed@,
            ).to_multiset());
        }
        while keyed.len() > 0
            invariant
                sorted@.len() + keyed@.len() == orig.len(),
                forall|t: int|
                    0 <= t < keyed@.len() ==> #[trigger] member_of(keyed@[t].1, orig),
                forall|t: int|
                    0 <= t < sorted@.len() ==> #[trigger] member_of(sorted@[t].1, orig),
                forall|t: int|
                    0 <= t < keyed@.len() ==> #[trigger] pair_ranked(self.loss_func, keyed@[t]),
                forall|t: int|
                    0 <= t < sorted@.len() ==> #[trigger] pair_ranked(self.loss_func, sorted@[t]),
                forall|p: int, q: int|
                    0 <= p < q < sorted@.len() ==> (#[trigger] sorted@[p]).0 <= (
                    #[trigger] sorted@[q]).0,
                forall|p: int, q: int|
                    0 <= p < sorted@.len() && 0 <= q < keyed@.len() ==> (#[trigger] sorted@[p]).0
                        <= (#[trigger] keyed@[q]).0,
                snds(sorted@).to_multiset().add(snds(keyed@).to_multiset()) == orig.to_multiset(),
                self.individuals@.len() == 0,
                self.loss_ok(),
                self.size == old(self).size,
                self.settings == old(self).settings,
                self.loss_func == old(self).loss_func,
                self.loss_fn_spec() == old(self).loss_fn_spec(),
            decreases keyed@.len(),
        {
            let mut m: usize = 0;
            let mut j: usize = 1;
            while j < keyed.len()
                invariant
                    m < keyed@.len(),
                    1 <= j <= keyed@.len(),
                    forall|t: int|
                        0 <= t < j ==> keyed@[m as int].0 <= (#[trigger] keyed@[t]).0,
                decreases keyed@.len() - j,
            {
                if keyed[j].0 < keyed[m].0 {
                    m = j;
                }
                j = j + 1;
            }
            let ghost pre: Seq<(u64, I)> = keyed@;
            let ghost pres: Seq<(u64, I)> = sorted@;
            let item: (u64, I) = keyed.remove(m);
            sorted.push(item);
            proof {
                snds(pre).to_multiset_ensures();
                snds(pres).to_multiset_ensures();
                assert(member_of(item.1, orig));
                assert(pair_ranked(self.loss_func, item));
                assert(snds(keyed@) =~= snds(pre).remove(m as int));
                assert(snds(pre).remove(m as int).to_multiset() =~= snds(
                    pre,
                ).to_multiset().remove(item.1));
                assert(snds(sorted@) =~= snds(pres).push(item.1));
                assert(snds(pres).push(item.1).to_multiset() =~= snds(
                    pres,
                ).to_multiset().insert(item.1));
                assert(snds(pre).to_multiset().count(item.1) >= 1) by {
                    assert(snds(pre)[m as int] == item.1);
                    assert(snds(pre).contains(item.1));
                }
                assert_multisets_equal!(
                    snds(pres).to_multiset().insert(item.1).add(
                        snds(pre).to_multiset().remove(item.1)
                    ),
                    snds(pres).to_multiset().add(snds(pre).to_multiset())
                );
                assert forall|t: int| 0 <= t < keyed@.len() implies #[trigger] member_of(
                    keyed@[t].1,
                    orig,
                ) && #[trigger] pair_ranked(self.loss_func, keyed@[t]) by {
                    if t < m {
                        assert(keyed@[t] == pre[t]);
                        assert(pair_ranked(self.loss_func, pre[t]));
                    } else {
                        assert(keyed@[t] == pre[t + 1]);
                        assert(pair_ranked(self.loss_func, pre[t + 1]));
                    }
                }
                assert forall|t: int| 0 <= t < sorted@.len() implies #[trigger] member_of(
                    sorted@[t].1,
                    orig,
                ) && #[trigger] pair_ranked(self.loss_func, sorted@[t]) by {
                    if t < sorted@.len() - 1 {
                        assert(sorted@[t] == pres[t]);
                        assert(pair_ranked(self.loss_func, pres[t]));
                    } else {
                        assert(sorted@[t] == item);
                    }
                }
                assert forall|t: int| 0 <= t < keyed@.len() implies item.0 <= (
                #[trigger] keyed@[t]).0 by {
                    if t < m {
                        assert(keyed@[t] == pre[t]);
                    } else {
                        assert(keyed@[t] == pre[t + 1]);
                    }
                }
            }
        }
        let ghost ssorted: Seq<(u64, I)> = sorted@;
        while sorted.len() > 0
            invariant
                self.individuals@.len() + sorted@.len() == ssorted.len(),
                sorted@ == ssorted.skip(self.individuals@.len() as int),
                forall|t: int|
                    0 <= t < self.individuals@.len() ==> self.individuals@[t] == ssorted[t].1,
                self.loss_ok(),
                self.size == old(self).size,
                self.settings == old(self).settings,
                self.loss_func == old(self).loss_func,
                self.loss_fn_spec() == old(self).loss_fn_spec(),
            decreases sorted@.len(),
        {
            let ghost pres: Seq<(u64, I)> = sorted@;
            let ghost built: int = self.individuals@.len() as int;
            let item: (u64, I) = sorted.remove(0);
            self.individuals.push(item.1);
            proof {
                assert(item == ssorted[built]);
                assert(sorted@ =~= ssorted.skip(built + 1));
            }
        }
        proof {
            assert(self.individuals@ =~= snds(ssorted));
            let ranks: Seq<u64> = ssorted.map_values(|p: (u64, I)| p.0);
            assert forall|t: int| 0 <= t < ranks.len() implies #[trigger] rank_of_output(
                old(self).loss_fn_spec(),
                self.individuals@[t],
                ranks[t],
            ) by {
                assert(pair_ranked(self.loss_func, ssorted[t]));
                assert(self.individuals@[t] == ssorted[t].1);
                assert(ranks[t] == ssorted[t].0);
            }
            assert forall|p: int, q: int| 0 <= p < q < ranks.len() implies ranks[p]
                <= ranks[q] by {
                assert((ssorted[p]).0 <= (ssorted[q]).0);
            }
            assert forall|t: int| 0 <= t < self.individuals@.len() implies #[trigger] member_of(
                self.individuals@[t],
                orig,
            ) by {
                assert(member_of(ssorted[t].1, orig));
            }
            assert(ranks.len() == self.individuals@.len() && (forall|t: int|
                0 <= t < ranks.len() ==> #[trigger] rank_of_output(
                    old(self).loss_fn_spec(),
                    self.individuals@[t],
                    ranks[t],
                )) && (forall|p: int, q: int| 0 <= p < q < ranks.len() ==> ranks[p] <= ranks[q]));
        }
    }

    /// Roll the mutation probability once per locus and mutate the hits:
    /// each locus of the result is its prior self, or its prior self with
    /// exactly one bit toggled.
    fn mutate_genotype(&mut self, genotype: &mut Vec<I::Locus>)
        requires
            genotype_wf(old(genotype)@),
        ensures
            final(genotype)@.len() == old(genotype)@.len(),
            genotype_wf(final(genotype)@),
            forall|j: int|
                0 <= j < old(genotype)@.len() ==> #[trigger] mutation_step(
                    old(genotype)@[j],
                    final(genotype)@[j],
                ),
            final(self).individuals_spec() == old(self).individuals_spec(),
            final(self).size_spec() == old(self).size_spec(),
            final(self).settings_spec() == old(self).settings_spec(),
            final(self).loss_fn_spec() == old(self).loss_fn_spec(),
    {
        let mp: u32 = self.settings.mutate_prob;
        let mut i: usize = 0;
        while i < genotype.len()
            invariant
                i <= genotype@.len(),
                genotype@.len() == old(genotype)@.len(),
                genotype_wf(genotype@),
                forall|j: int|
                    0 <= j < i ==> #[trigger] mutation_step(old(genotype)@[j], genotype@[j]),
                forall|j: int|
                    i <= j < genotype@.len() ==> genotype@[j] == old(genotype)@[j],
                self.individuals@ == old(self).individuals@,
                self.size == old(self).size,
                self.settings == old(self).settings,
                self.loss_func == old(self).loss_func,
                self.loss_fn_spec() == old(self).loss_fn_spec(),
            decreases genotype@.len() - i,
        {
            let ghost a0: I::Locus = genotype@[i as int];
            if trial(&mut self.rng, mp) {
                let mut c: I::Locus = genotype[i];
                c.point_mutation(&mut self.rng);
                genotype[i] = c;
            }
            proof {
                assert(mutation_step(a0, genotype@[i as int]));
            }
            i = i + 1;
        }
    }

    /// One breeding pass over a pair of cloned genotypes: per homologous
    /// locus, roll mutation on each clone independently, then crossover,
    /// then a whole swap. Each locus pair of the result is a possible
    /// outcome of exactly that pipeline on the prior pair.
    fn breed_genotypes(&mut self, gt1: &mut Vec<I::Locus>, gt2: &mut Vec<I::Locus>)
        requires
            old(gt1)@.len() == old(gt2)@.len(),
            genotype_wf(old(gt1)@),
            genotype_wf(old(gt2)@),
        ensures
            final(gt1)@.len() == old(gt1)@.len(),
            final(gt2)@.len() == old(gt2)@.len(),
            genotype_wf(final(gt1)@),
            genotype_wf(final(gt2)@),
            forall|j: int|
                0 <= j < old(gt1)@.len() ==> #[trigger] breeding_step(
                    old(gt1)@[j],
                    old(gt2)@[j],
                    final(gt1)@[j],
                    final(gt2)@[j],
                ),
            final(self).individuals_spec() == old(self).individuals_spec(),
            final(self).size_spec() == old(self).size_spec(),
            final(self).settings_spec() == old(self).settings_spec(),
            final(self).loss_fn_spec() == old(self).loss_fn_spec(),
    {
        let mp: u32 = self.settings.mutate_prob;
        let cp: u32 = self.settings.crossover_prob;
        let sp: u32 = self.settings.swap_homologous_prob;
        let mut j: usize = 0;
        while j < gt1.len()
            invariant
                j <= gt1@.len(),
                gt1@.len() == old(gt1)@.len(),
                gt2@.len() == old(gt2)@.len(),
                gt1@.len() == gt2@.len(),
                genotype_wf(gt1@),
                genotype_wf(gt2@),
                forall|t: int|
                    0 <= t < j ==> #[trigger] breeding_step(
                        old(gt1)@[t],
                        old(gt2)@[t],
                        gt1@[t],
                        gt2@[t],
                    ),
                forall|t: int| j <= t < gt1@.len() ==> gt1@[t] == old(gt1)@[t],
                forall|t: int| j <= t < gt2@.len() ==> gt2@[t] == old(gt2)@[t],
                self.individuals@ == old(self).individuals@,
                self.size == old(self).size,
                self.settings == old(self).settings,
                self.loss_func == old(self).loss_func,
                self.loss_fn_spec() == old(self).loss_fn_spec(),
            decreases gt1@.len() - j,
        {
            let ghost a0: I::Locus = gt1@[j as int];
            let ghost b0: I::Locus = gt2@[j as int];
            let mut c1: I::Locus = gt1[j];
            let mut c2: I::Locus = gt2[j];
            if trial(&mut self.rng, mp) {
                c1.point_mutation(&mut self.rng);
            }
            if trial(&mut self.rng, mp) {
                c2.point_mutation(&mut self.rng);
            }
            let ghost m1: I::Locus = c1;
            let ghost m2: I::Locus = c2;
            proof {
                assert(mutation_step(a0, m1));
                assert(mutation_step(b0, m2));
            }
            let crossed: bool = trial(&mut self.rng, cp);
            if crossed {
                c1.single_point_crossover(&mut c2, &mut self.rng);
            }
            let ghost x1: I::Locus = c1;
            let ghost x2: I::Locus = c2;
            let ghost kk: u64 = if crossed {
                choose|k: u64|
                    k <= <I::Locus as Chromosome>::width_spec() && x1.bits_spec() == crossed64(
                        m1.bits_spec(),
                        m2.bits_spec(),
                        k,
                    ) && x2.bits_spec() == crossed64(m2.bits_spec(), m1.bits_spec(), k)
            } else {
                0
            };
            proof {
                if !crossed {
                    lemma_crossed_zero(m1.bits_spec(), m2.bits_spec());
                    lemma_crossed_zero(m2.bits_spec(), m1.bits_spec());
                }
                assert(kk <= <I::Locus as Chromosome>::width_spec() && x1.bits_spec()
                    == crossed64(m1.bits_spec(), m2.bits_spec(), kk) && x2.bits_spec()
                    == crossed64(m2.bits_spec(), m1.bits_spec(), kk));
            }
            if trial(&mut self.rng, sp) {
                c1.swap(&mut c2);
            }
            gt1[j] = c1;
            gt2[j] = c2;
            proof {
                assert(crossed64(m1.bits_spec(), m2.bits_spec(), kk) == x1.bits_spec());
                assert(breeding_step(a0, b0, gt1@[j as int], gt2@[j as int]));
            }
            j = j + 1;
        }
    }

    /// One generation: rank ascending by loss, report the loss of the new
    /// rank-0 individual, replace the worst-ranked slots with offspring
    /// bred from the next-best pairs (the single best individual is skipped
    /// and preserved verbatim), then mutate every surviving individual
    /// between the elite and the fresh tail. The whole step is stated by
    /// `evolution_witness`: some ranked permutation of the prior population
    /// exists over which the final population is one `generation_step`.
    ///
    /// The reported loss is the rank-0 loss before this generation's
    /// breeding and mutation touch the eventual survivors: an intentional
    /// cheap proxy, not a recomputed post-step loss. An empty population
    /// reports the zero pattern.
    pub fn evolve(&mut self) -> (lowest: u64)
        requires
            old(self).loss_ok(),
            old(self).storage_wf(),
            old(self).uniform_genotypes(),
        ensures
            final(self).loss_ok(),
            final(self).storage_wf(),
            final(self).uniform_genotypes(),
            final(self).individuals_spec().len() == old(self).individuals_spec().len(),
            final(self).size_spec() == old(self).size_spec(),
            final(self).settings_spec() == old(self).settings_spec(),
            final(self).loss_fn_spec() == old(self).loss_fn_spec(),
            old(self).individuals_spec().len() == 0 ==> lowest == 0,
            old(self).individuals_spec().len() > 0 ==> member_of(
                final(self).individuals_spec()[0],
                old(self).individuals_spec(),
            ),
            old(self).individuals_spec().len() > 0 ==> call_ensures(
                old(self).loss_fn_spec(),
                (&final(self).individuals_spec()[0],),
                lowest,
            ),
            exists|perm: Seq<I>, ranks: Seq<u64>|
                #[trigger] evolution_witness(
                    old(self).loss_fn_spec(),
                    old(self).individuals_spec(),
                    old(self).settings_spec(),
                    final(self).individuals_spec(),
                    lowest,
                    perm,
                    ranks,
                ),
    {
        let ghost before: Seq<I> = self.individuals@;
        self.rank();
        let ghost perm: Seq<I> = self.individuals@;
        let ghost ranks: Seq<u64> = choose|r: Seq<u64>|
            r.len() == perm.len() && (forall|t: int|
                0 <= t < r.len() ==> #[trigger] rank_of_output(
                    old(self).loss_fn_spec(),
                    perm[t],
                    r[t],
                )) && (forall|p: int, q: int| 0 <= p < q < r.len() ==> r[p] <= r[q]);
        let n: usize = self.individuals.len();
        let lowest: u64 = if n > 0 {
            proof {
                assert(call_requires(self.loss_fn_spec(), (&self.individuals@[0],)));
            }
            (self.loss_func)(&self.individuals[0])
        } else {
            0
        };
        let ghost glen0: nat = if n > 0 {
            before[0].genotype_spec().len()
        } else {
            0
        };
        proof {
            assert forall|t: int| 0 <= t < self.individuals@.len() implies genotype_wf(
                (#[trigger] self.individuals@[t]).genotype_spec(),
            ) && self.individuals@[t].genotype_spec().len() == glen0 by {
                assert(member_of(self.individuals_spec()[t], before));
                let j: int = choose|j: int|
                    0 <= j < before.len() && self.individuals@[t] == before[j];
                assert(genotype_wf(before[j].genotype_spec()));
                assert(before[j].genotype_spec().len() == before[0].genotype_spec().len());
            }
            if n > 0 {
                assert(self.individuals_spec()[0] == perm[0]);
                assert(call_ensures(old(self).loss_fn_spec(), (&perm[0],), lowest));
            }
        }

        let sc: usize = spawn_count(n, self.settings.spawn_percentage);

        if sc > 0 {
            let mut i: usize = 0;
            while i < sc
                invariant
                    i % 2 == 0,
                    sc % 2 == 0,
                    i <= sc,
                    1 <= n,
                    sc <= n - 1,
                    sc == spec_spawn_count(n as nat, self.settings.spawn_percentage as nat),
                    self.individuals@.len() == n,
                    perm.len() == n,
                    forall|t: int| 0 <= t < n - i ==> self.individuals@[t] == perm[t],
                    2 * sc <= n ==> (forall|ii: int|
                        0 <= ii < i && ii % 2 == 0 ==> #[trigger] bred_offspring(
                            perm[ii + 1],
                            perm[ii + 2],
                            self.individuals@[n - ii - 1],
                            self.individuals@[n - ii - 2],
                        )),
                    member_of(perm[0], before),
                    forall|t: int|
                        0 <= t < n ==> genotype_wf(
                            (#[trigger] self.individuals@[t]).genotype_spec(),
                        ),
                    forall|t: int|
                        0 <= t < n ==> (#[trigger] self.individuals@[t]).genotype_spec().len()
                            == glen0,
                    forall|t: int| 0 <= t < n ==> (#[trigger] perm[t]).genotype_spec().len()
                        == glen0,
                    forall|t: int|
                        0 <= t < n ==> genotype_wf((#[trigger] perm[t]).genotype_spec()),
                    self.loss_ok(),
                    self.size == old(self).size,
                    self.settings == old(self).settings,
                    self.loss_func == old(self).loss_func,
                    self.loss_fn_spec() == old(self).loss_fn_spec(),
                self.loss_fn_spec() == old(self).loss_fn_spec(),
                decreases sc - i,
            {
                let ghost src1: I = self.individuals@[i + 1];
                let ghost src2: I = self.individuals@[i + 2];
                let mut gt1: Vec<I::Locus> = self.individuals[i + 1].genotype();
                let mut gt2: Vec<I::Locus> = self.individuals[i + 2].genotype();
                self.breed_genotypes(&mut gt1, &mut gt2);
                self.individuals[n - i - 1] = I::spawn(gt1);
                self.individuals[n - i - 2] = I::spawn(gt2);
                proof {
                    if 2 * sc <= n {
                        assert(i + 2 < n - i);
                        assert(src1 == perm[i + 1] && src2 == perm[i + 2]);
                        assert(bred_offspring(
                            perm[i + 1],
                            perm[i + 2],
                            self.individuals@[n - i - 1],
                            self.individuals@[n - i - 2],
                        ));
                    }
                }
                i = i + 2;
            }
        }

        let upper: usize = n - sc;
        let mut t: usize = 1;
        while t < upper
            invariant
                1 <= t,
                upper == n - sc,
                sc <= n || sc == 0,
                sc == spec_spawn_count(n as nat, self.settings.spawn_percentage as nat),
                self.individuals@.len() == n,
                perm.len() == n,
                n > 0 ==> self.individuals@[0] == perm[0],
                n > 0 ==> member_of(perm[0], before),
                forall|x: int|
                    1 <= x < t && x < upper ==> #[trigger] mutated_individual(
                        perm[x],
                        self.individuals@[x],
                    ),
                forall|x: int| t <= x < upper ==> self.individuals@[x] == perm[x],
                2 * sc <= n ==> (forall|ii: int|
                    0 <= ii < sc && ii % 2 == 0 ==> #[trigger] bred_offspring(
                        perm[ii + 1],
                        perm[ii + 2],
                        self.individuals@[n - ii - 1],
                        self.individuals@[n - ii - 2],
                    )),
                forall|x: int|
                    0 <= x < n ==> genotype_wf((#[trigger] self.individuals@[x]).genotype_spec()),
                forall|x: int|
                    0 <= x < n ==> (#[trigger] self.individuals@[x]).genotype_spec().len() == glen0,
                self.loss_ok(),
                self.size == old(self).size,
                self.settings == old(self).settings,
                self.loss_func == old(self).loss_func,
                self.loss_fn_spec() == old(self).loss_fn_spec(),
            decreases upper - t,
        {
            let ghost srct: I = self.individuals@[t as int];
            let mut g: Vec<I::Locus> = self.individuals[t].genotype();
            self.mutate_genotype(&mut g);
            self.individuals[t].set_genotype(g);
            proof {
                assert(srct == perm[t as int]);
                assert(mutated_individual(perm[t as int], self.individuals@[t as int]));
            }
            t = t + 1;
        }
        proof {
            assert(generation_step(
                perm,
                self.individuals@,
                spec_spawn_count(n as nat, old(self).settings_spec().spawn_percentage as nat),
            ));
            assert(evolution_witness(
                old(self).loss_fn_spec(),
                old(self).individuals_spec(),
                old(self).settings_spec(),
                self.individuals_spec(),
                lowest,
                perm,
                ranks,
            ));
            assert(exists|p2: Seq<I>, r2: Seq<u64>|
                #[trigger] evolution_witness(
                    old(self).loss_fn_spec(),
                    old(self).individuals_spec(),
                    old(self).settings_spec(),
                    self.individuals_spec(),
                    lowest,
                    p2,
                    r2,
                ));
        }
        lowest
    }
}

} // verus!
