//! Individuals: candidate solutions wrapping one genotype, an ordered,
//! fixed-size collection of loci held as a vector.

use vstd::prelude::*;
use crate::chromosome::Chromosome;

verus! {

/// Every locus of a genotype is valid.
pub open spec fn genotype_wf<L: Chromosome>(g: Seq<L>) -> bool {
    forall|j: int| 0 <= j < g.len() ==> (#[trigger] g[j]).wf()
}

/// A candidate solution wrapping exactly one genotype, read out whole and
/// replaced whole; cloning the genotype out always yields an independent
/// copy.
pub trait Individual: Sized {
    /// The locus type of the genotype.
    type Locus: Chromosome + Copy;

    /// The genotype's content.
    spec fn genotype_spec(&self) -> Seq<Self::Locus>;

    /// Clone the genotype out.
    fn genotype(&self) -> (g: Vec<Self::Locus>)
        ensures
            g@ == self.genotype_spec(),
    ;

    /// Replace the genotype.
    fn set_genotype(&mut self, genotype: Vec<Self::Locus>)
        ensures
            final(self).genotype_spec() == genotype@,
    ;
}

/// An individual that can be created fresh from a bred genotype.
pub trait SpawnableIndividual: Individual {
    /// Create an individual owning the given genotype.
    fn spawn(genotype: Vec<Self::Locus>) -> (r: Self)
        ensures
            r.genotype_spec() == genotype@,
    ;
}

/// An individual that owns its genome storage.
pub struct OwnedGenome<L> {
    /// The genome.
    pub genome: Vec<L>,
}

impl<L: Chromosome + Copy> OwnedGenome<L> {
    /// Wrap an owned genome.
    pub fn new(genome: Vec<L>) -> (r: Self)
        ensures
            r.genome@ == genome@,
    {
        OwnedGenome { genome }
    }
}

impl<L: Chromosome + Copy> Individual for OwnedGenome<L> {
    type Locus = L;

    open spec fn genotype_spec(&self) -> Seq<L> {
        self.genome@
    }

    fn genotype(&self) -> (g: Vec<L>) {
        let mut g: Vec<L> = Vec::new();
        let mut i: usize = 0;
        while i < self.genome.len()
            invariant
                i <= self.genome@.len(),
                g@ == self.genome@.subrange(0, i as int),
            decreases self.genome@.len() - i,
        {
            g.push(self.genome[i]);
            proof {
                assert(g@ =~= self.genome@.subrange(0, i + 1 as int));
            }
            i = i + 1;
        }
        proof {
            assert(g@ =~= self.genome@);
        }
        g
    }

    fn set_genotype(&mut self, genotype: Vec<L>) {
        self.genome = genotype;
    }
}

impl<L: Chromosome + Copy> SpawnableIndividual for OwnedGenome<L> {
    fn spawn(genotype: Vec<L>) -> Self {
        OwnedGenome::new(genotype)
    }
}

} // verus!
