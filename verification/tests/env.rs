use genetic::env::{EnvSettings, EnvSettingsBuilder};

#[test]
fn default_settings() {
    let s = EnvSettings::default();
    assert_eq!(s.crossover_prob, 500);
    assert_eq!(s.swap_homologous_prob, 250);
    assert_eq!(s.mutate_prob, 100);
    assert_eq!(s.spawn_percentage, 250);
}

#[test]
fn builder_starts_from_defaults() {
    let s = EnvSettingsBuilder::new().build();
    assert_eq!(s.crossover_prob, 500);
    assert_eq!(s.swap_homologous_prob, 250);
    assert_eq!(s.mutate_prob, 100);
    assert_eq!(s.spawn_percentage, 250);
}

#[test]
fn builder_overrides() {
    let s = EnvSettingsBuilder::new().crossover_prob(700).mutate_prob(50).build();
    assert_eq!(s.crossover_prob, 700);
    assert_eq!(s.mutate_prob, 50);
    assert_eq!(s.swap_homologous_prob, 250);
    assert_eq!(s.spawn_percentage, 250);
}
