use glam_cpi_gen::discriminator::compute_discriminator;

#[test]
fn discriminator_of_initialize_matches_fixed_hash() {
    let d = compute_discriminator("initialize");
    assert_eq!(d, [175, 175, 109, 31, 13, 152, 155, 237]);
}

#[test]
fn discriminator_is_deterministic() {
    let a = compute_discriminator("transfer");
    let b = compute_discriminator("transfer");
    assert_eq!(a, b);
    assert_eq!(a, [163, 52, 200, 231, 140, 3, 69, 186]);
}

#[test]
fn distinct_names_yield_distinct_discriminators() {
    let a = compute_discriminator("deposit");
    let b = compute_discriminator("transfer");
    assert_ne!(a, b);
    assert_eq!(a, [242, 35, 198, 137, 82, 225, 242, 182]);
}
