use snarkify_prover::cache::cache_paths;

#[test]
fn cache_layout() {
    let p = cache_paths("/ramdisk", "test", "subquery_aggregation_for_agg");
    assert_eq!(p.pinning, "/ramdisk/configs/test/subquery_aggregation_for_agg.json");
    assert_eq!(p.proving_key, "/ramdisk/data/test/subquery_aggregation_for_agg.pk");
}

#[test]
fn cache_layout_is_stable() {
    let a = cache_paths("d", "e", "n");
    let b = cache_paths("d", "e", "n");
    assert_eq!((a.pinning, a.proving_key), (b.pinning, b.proving_key));
}
