//! Environment settings: the engine's four probabilities, each held in
//! parts per thousand, with their defaults and a builder.

use vstd::prelude::*;

verus! {

/// The tunable probabilities of the engine, each in parts per thousand
/// (0 to 1000); immutable once a population is built around them.
#[derive(Clone, Copy)]
pub struct EnvSettings {
    /// Probability that a homologous pair of loci is crossed while breeding.
    pub crossover_prob: u32,
    /// Probability that a homologous pair of loci is swapped whole.
    pub swap_homologous_prob: u32,
    /// Probability that one locus mutates, rolled independently per locus.
    pub mutate_prob: u32,
    /// Fraction of the population replaced each generation.
    pub spawn_percentage: u32,
}

impl Default for EnvSettings {
    /// The defaults: crossover one half, homologous swap one quarter,
    /// mutation one tenth, and a quarter of the population respawned.
    fn default() -> (s: Self)
        ensures
            s.crossover_prob == 500,
            s.swap_homologous_prob == 250,
            s.mutate_prob == 100,
            s.spawn_percentage == 250,
    {
        EnvSettings {
            crossover_prob: 500,
            swap_homologous_prob: 250,
            mutate_prob: 100,
            spawn_percentage: 250,
        }
    }
}

/// Builds settings, starting from the defaults.
pub struct EnvSettingsBuilder {
    settings: EnvSettings,
}

impl EnvSettingsBuilder {
    /// The settings built so far.
    pub closed spec fn settings_spec(&self) -> EnvSettings {
        self.settings
    }

    /// Start from the default settings.
    pub fn new() -> (b: Self)
        ensures
            b.settings_spec().crossover_prob == 500,
            b.settings_spec().swap_homologous_prob == 250,
            b.settings_spec().mutate_prob == 100,
            b.settings_spec().spawn_percentage == 250,
    {
        EnvSettingsBuilder { settings: EnvSettings::default() }
    }

    /// Override the crossover probability, in parts per thousand.
    pub fn crossover_prob(self, probability: u32) -> (b: Self)
        requires
            probability <= 1000,
        ensures
            b.settings_spec() == (EnvSettings { crossover_prob: probability, ..self.settings_spec() }),
    {
        EnvSettingsBuilder { settings: EnvSettings { crossover_prob: probability, ..self.settings } }
    }

    /// Override the mutation probability, in parts per thousand.
    pub fn mutate_prob(self, probability: u32) -> (b: Self)
        requires
            probability <= 1000,
        ensures
            b.settings_spec() == (EnvSettings { mutate_prob: probability, ..self.settings_spec() }),
    {
        EnvSettingsBuilder { settings: EnvSettings { mutate_prob: probability, ..self.settings } }
    }

    /// The finished settings.
    pub fn build(self) -> (s: EnvSettings)
        ensures
            s == self.settings_spec(),
    {
        self.settings
    }
}

} // verus!
