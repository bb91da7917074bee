use snarkify_prover::pipeline::{
    aggregation_params, bytes_equal, vkey_hash_at, Action, Event, FieldElement, Phase, Pipeline,
    PipelineConfig, PipelineError, AGGREGATION_DEGREE,
};

fn fe(x: u64) -> FieldElement {
    FieldElement { l0: x, l1: 0, l2: 0, l3: 0 }
}

/// One instance column whose value at offset 3 is `h`.
fn inst(h: u64) -> Vec<Vec<FieldElement>> {
    vec![vec![fe(10), fe(11), fe(12), fe(h), fe(14)]]
}

fn cfg(check: bool) -> PipelineConfig {
    PipelineConfig::new(1, 2, check)
}

fn drive(p: &mut Pipeline, events: Vec<Event>) -> Action {
    for ev in events {
        p.step(ev);
    }
    p.action()
}

#[test]
fn run_without_check_emits_the_unshifted_index() {
    let mut p = Pipeline::new(cfg(false));
    assert_eq!(p.action(), Action::BuildKeygen);
    p.step(Event::KeygenBuilt { instances: inst(7) });
    assert_eq!(p.action(), Action::DeriveOrLoadKey);
    assert_eq!(p.phase, Phase::AwaitKey { reference: fe(7) });
    p.step(Event::KeyReady);
    assert_eq!(p.action(), Action::BuildProver);
    p.step(Event::Proved { instances: inst(7) });
    assert_eq!(p.action(), Action::Emit { agg_vk_hash_idx: 1 });
}

#[test]
fn run_with_check_builds_the_dummy_first() {
    let mut p = Pipeline::new(cfg(true));
    p.step(Event::KeygenBuilt { instances: inst(7) });
    p.step(Event::KeyReady);
    assert_eq!(p.action(), Action::BuildDummy);
    p.step(Event::DummyBuilt { keygen_vk: vec![1, 2, 3], dummy_vk: vec![1, 2, 3], instances: inst(7) });
    assert_eq!(p.action(), Action::BuildProver);
    p.step(Event::Proved { instances: inst(7) });
    assert_eq!(p.action(), Action::Emit { agg_vk_hash_idx: 1 });
}

#[test]
fn differing_vk_aborts() {
    let mut p = Pipeline::new(cfg(true));
    let a = drive(&mut p, vec![
        Event::KeygenBuilt { instances: inst(7) },
        Event::KeyReady,
        Event::DummyBuilt { keygen_vk: vec![1, 2, 3], dummy_vk: vec![1, 2, 4], instances: inst(7) },
    ]);
    assert_eq!(a, Action::Abort(PipelineError::VkMismatch));
}

#[test]
fn dummy_hash_mismatch_aborts() {
    let mut p = Pipeline::new(cfg(true));
    let a = drive(&mut p, vec![
        Event::KeygenBuilt { instances: inst(7) },
        Event::KeyReady,
        Event::DummyBuilt { keygen_vk: vec![5], dummy_vk: vec![5], instances: inst(8) },
    ]);
    assert_eq!(a, Action::Abort(PipelineError::DummyHashMismatch));
}

#[test]
fn prover_hash_mismatch_aborts() {
    let mut p = Pipeline::new(cfg(false));
    let a = drive(&mut p, vec![
        Event::KeygenBuilt { instances: inst(7) },
        Event::KeyReady,
        Event::Proved { instances: inst(9) },
    ]);
    assert_eq!(a, Action::Abort(PipelineError::ProverHashMismatch));
}

#[test]
fn keygen_without_the_offset_aborts() {
    let mut p = Pipeline::new(cfg(false));
    let a = drive(&mut p, vec![Event::KeygenBuilt { instances: vec![vec![fe(1), fe(2)]] }]);
    assert_eq!(a, Action::Abort(PipelineError::MissingInstance));
}

#[test]
fn out_of_order_event_aborts_and_failure_sticks() {
    let mut p = Pipeline::new(cfg(false));
    let a = drive(&mut p, vec![Event::KeyReady, Event::KeygenBuilt { instances: inst(7) }]);
    assert_eq!(a, Action::Abort(PipelineError::OutOfOrder));
}

#[test]
fn event_after_done_aborts() {
    let mut p = Pipeline::new(cfg(false));
    let a = drive(&mut p, vec![
        Event::KeygenBuilt { instances: inst(7) },
        Event::KeyReady,
        Event::Proved { instances: inst(7) },
        Event::KeyReady,
    ]);
    assert_eq!(a, Action::Abort(PipelineError::OutOfOrder));
}

#[test]
fn hash_is_read_at_the_absolute_offset() {
    let c = cfg(false);
    assert_eq!(vkey_hash_at(&c, &inst(42)), Some(fe(42)));
    assert_eq!(vkey_hash_at(&c, &vec![]), None);
    assert_eq!(vkey_hash_at(&PipelineConfig::new(usize::MAX, 1, false), &inst(42)), None);
}

#[test]
fn byte_comparison() {
    assert!(bytes_equal(&vec![1, 2], &vec![1, 2]));
    assert!(!bytes_equal(&vec![1, 2], &vec![1, 3]));
    assert!(!bytes_equal(&vec![1, 2], &vec![1, 2, 3]));
    assert!(bytes_equal(&vec![], &vec![]));
}

#[test]
fn aggregation_sizing() {
    let p = aggregation_params(AGGREGATION_DEGREE);
    assert_eq!((p.degree, p.lookup_bits), (20, 19));
}
