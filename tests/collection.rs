use bundler::collection::to_unique_vector;
use bundler::load_config::{to_unique_map, Index};

fn strings(v: &[&str]) -> Vec<String> {
    v.iter().map(|s| s.to_string()).collect()
}

#[test]
fn make_unique_vector() {
    assert_eq!(to_unique_vector(strings(&[])), strings(&[]));
    assert_eq!(to_unique_vector(strings(&["a"])), strings(&["a"]));
    assert_eq!(to_unique_vector(strings(&["a", "b", "c", "a"])), strings(&["a", "b", "c"]));
}

#[test]
fn unique_vector_is_sorted() {
    assert_eq!(to_unique_vector(strings(&["c", "a", "b", "a", "c"])), strings(&["a", "b", "c"]));
    assert_eq!(to_unique_vector(strings(&["ab", "a", "b"])), strings(&["a", "ab", "b"]));
}

#[test]
fn dedup_of_deduplicated_is_unchanged() {
    let once = to_unique_vector(strings(&["z", "x", "y", "x"]));
    let twice = to_unique_vector(once.clone());
    assert_eq!(once, twice);
}

#[test]
fn make_unique_map() {
    let mut m = Index::new();
    for id in ["1", "2", "3", "1"] {
        m.push(&"a".to_string(), &id.to_string());
    }
    m.ensure_key(&"b".to_string());
    let act = to_unique_map(&m);
    assert_eq!(act.len(), 2);
    assert_eq!(act.get(&"a".to_string()), Some(&strings(&["1", "2", "3"])));
    assert_eq!(act.get(&"b".to_string()), Some(&strings(&[])));
    assert_eq!(act.get(&"c".to_string()), None);
}

#[test]
fn empty_map_stays_empty() {
    let act = to_unique_map(&Index::new());
    assert_eq!(act.len(), 0);
}
