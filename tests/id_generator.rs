use bundler::id_generator::IncrementalIdGenerator;

#[test]
fn string() {
    let mut generator = IncrementalIdGenerator::new();
    assert_eq!(generator.get_id("a"), 1);
    assert_eq!(generator.get_id("b"), 2);
    assert_eq!(generator.get_id("a"), 1);
    assert_eq!(generator.get_id("c"), 3);
    assert_eq!(generator.get_id("b"), 2);
}
