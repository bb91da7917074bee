use vstd::prelude::*;

verus! {

/// A field element of the proving system, as four 64-bit little-endian limbs
/// of its canonical representation.
#[derive(Clone, Copy, Debug, PartialEq, Eq, Structural)]
pub struct FieldElement {
    pub l0: u64,
    pub l1: u64,
    pub l2: u64,
    pub l3: u64,
}

/// What the pipeline needs to know of the circuit family it drives.
#[derive(Clone, Copy, Debug, PartialEq, Eq, Structural)]
pub struct PipelineConfig {
    /// Where this circuit's own aggregated vkey hash sits among its public
    /// instances, not counting the accumulator.
    pub agg_vk_hash_idx: usize,
    /// How many accumulator elements precede the circuit's own instances.
    pub num_fe_accumulator: usize,
    /// Whether to rebuild the circuit from dummy inputs and compare it with
    /// the keygen build before proving.
    pub check_invariance: bool,
}

impl PipelineConfig {
    pub fn new(agg_vk_hash_idx: usize, num_fe_accumulator: usize, check_invariance: bool) -> (r:
        PipelineConfig)
        ensures
            r.agg_vk_hash_idx == agg_vk_hash_idx,
            r.num_fe_accumulator == num_fe_accumulator,
            r.check_invariance == check_invariance,
    {
        PipelineConfig { agg_vk_hash_idx, num_fe_accumulator, check_invariance }
    }
}

/// Why a proving run stops without a proof. Each is a correctness violation
/// or a misuse, never a transient fault.
#[derive(Clone, Copy, Debug, PartialEq, Eq, Structural)]
pub enum PipelineError {
    /// The keygen build exposes no value at the vkey-hash offset.
    MissingInstance,
    /// The dummy build's verification key differs from the keygen build's.
    VkMismatch,
    /// The dummy build's vkey hash differs from the keygen build's.
    DummyHashMismatch,
    /// The prover build's vkey hash differs from the keygen build's.
    ProverHashMismatch,
    /// An event arrived that the current phase does not expect.
    OutOfOrder,
}

/// Where a proving run stands. `reference` is the keygen build's value at the
/// vkey-hash offset, against which every later build is held.
#[derive(Clone, Copy, Debug, PartialEq, Eq, Structural)]
pub enum Phase {
    Start,
    AwaitKey { reference: FieldElement },
    AwaitCheck { reference: FieldElement },
    AwaitProof { reference: FieldElement },
    Done,
    Failed(PipelineError),
}

/// What the driver of the pipeline must do next.
#[derive(Clone, Copy, Debug, PartialEq, Eq, Structural)]
pub enum Action {
    /// Build the circuit in keygen stage from the request and report its instances.
    BuildKeygen,
    /// Load the proving key and pinning from the cache, or derive and store them.
    DeriveOrLoadKey,
    /// Build the circuit in keygen stage from dummy inputs and report its
    /// verification key beside the keygen build's, and its instances.
    BuildDummy,
    /// Build the circuit in prover stage with the pinning, prove, and report the instances.
    BuildProver,
    /// Emit the proof, tagged with this vkey-hash index.
    Emit { agg_vk_hash_idx: usize },
    /// Stop: no proof may be returned.
    Abort(PipelineError),
}

/// What the driver reports back after doing an action.
pub enum Event {
    KeygenBuilt { instances: Vec<Vec<FieldElement>> },
    KeyReady,
    DummyBuilt { keygen_vk: Vec<u8>, dummy_vk: Vec<u8>, instances: Vec<Vec<FieldElement>> },
    Proved { instances: Vec<Vec<FieldElement>> },
}

pub open spec fn instances_view(v: Vec<Vec<FieldElement>>) -> Seq<Seq<FieldElement>> {
    v@.map_values(|c: Vec<FieldElement>| c@)
}

/// Offset of the vkey hash among all public instances of the first column.
pub open spec fn abs_hash_idx(cfg: PipelineConfig) -> int {
    cfg.agg_vk_hash_idx + cfg.num_fe_accumulator
}

/// The value at the vkey-hash offset of the first instance column, if there is one.
pub open spec fn hash_at(cfg: PipelineConfig, inst: Seq<Seq<FieldElement>>) -> Option<
    FieldElement,
> {
    if inst.len() > 0 && abs_hash_idx(cfg) < inst[0].len() {
        Some(inst[0][abs_hash_idx(cfg)])
    } else {
        None
    }
}

/// The phase after `ev` arrives in phase `p`.
pub open spec fn next_phase(cfg: PipelineConfig, p: Phase, ev: Event) -> Phase {
    match (p, ev) {
        (Phase::Start, Event::KeygenBuilt { instances }) => match hash_at(
            cfg,
            instances_view(instances),
        ) {
            Some(h) => Phase::AwaitKey { reference: h },
            None => Phase::Failed(PipelineError::MissingInstance),
        },
        (Phase::AwaitKey { reference }, Event::KeyReady) => if cfg.check_invariance {
            Phase::AwaitCheck { reference }
        } else {
            Phase::AwaitProof { reference }
        },
        (Phase::AwaitCheck { reference }, Event::DummyBuilt { keygen_vk, dummy_vk, instances }) => {
            if keygen_vk@ != dummy_vk@ {
                Phase::Failed(PipelineError::VkMismatch)
            } else if hash_at(cfg, instances_view(instances)) != Some(reference) {
                Phase::Failed(PipelineError::DummyHashMismatch)
            } else {
                Phase::AwaitProof { reference }
            }
        },
        (Phase::AwaitProof { reference }, Event::Proved { instances }) => if hash_at(
            cfg,
            instances_view(instances),
        ) == Some(reference) {
            Phase::Done
        } else {
            Phase::Failed(PipelineError::ProverHashMismatch)
        },
        (Phase::Failed(e), _) => Phase::Failed(e),
        _ => Phase::Failed(PipelineError::OutOfOrder),
    }
}

/// What the driver must do in phase `p`.
pub open spec fn action_of(cfg: PipelineConfig, p: Phase) -> Action {
    match p {
        Phase::Start => Action::BuildKeygen,
        Phase::AwaitKey { .. } => Action::DeriveOrLoadKey,
        Phase::AwaitCheck { .. } => Action::BuildDummy,
        Phase::AwaitProof { .. } => Action::BuildProver,
        Phase::Done => Action::Emit { agg_vk_hash_idx: cfg.agg_vk_hash_idx },
        Phase::Failed(e) => Action::Abort(e),
    }
}

/// The phase after the events `evs` arrive, in order, in phase `p`.
pub open spec fn run(cfg: PipelineConfig, p: Phase, evs: Seq<Event>) -> Phase
    decreases evs.len(),
{
    if evs.len() == 0 {
        p
    } else {
        run(cfg, next_phase(cfg, p, evs[0]), evs.drop_first())
    }
}

/// `ev` reports a keygen build whose vkey hash is `r`.
pub open spec fn keygen_exposes(cfg: PipelineConfig, ev: Event, r: FieldElement) -> bool {
    match ev {
        Event::KeygenBuilt { instances } => hash_at(cfg, instances_view(instances)) == Some(r),
        _ => false,
    }
}

/// `ev` reports a dummy build whose verification key equals the keygen
/// build's byte for byte and whose vkey hash is `r`.
pub open spec fn dummy_agrees(cfg: PipelineConfig, ev: Event, r: FieldElement) -> bool {
    match ev {
        Event::DummyBuilt { keygen_vk, dummy_vk, instances } => keygen_vk@ == dummy_vk@ && hash_at(
            cfg,
            instances_view(instances),
        ) == Some(r),
        _ => false,
    }
}

/// `ev` reports a prover build whose vkey hash is `r`.
pub open spec fn proves_with(cfg: PipelineConfig, ev: Event, r: FieldElement) -> bool {
    match ev {
        Event::Proved { instances } => hash_at(cfg, instances_view(instances)) == Some(r),
        _ => false,
    }
}

pub open spec fn phase_reference(p: Phase) -> Option<FieldElement> {
    match p {
        Phase::AwaitKey { reference } => Some(reference),
        Phase::AwaitCheck { reference } => Some(reference),
        Phase::AwaitProof { reference } => Some(reference),
        _ => None,
    }
}

proof fn lemma_failed_stays(cfg: PipelineConfig, e: PipelineError, evs: Seq<Event>)
    ensures
        run(cfg, Phase::Failed(e), evs) == Phase::Failed(e),
    decreases evs.len(),
{
    if evs.len() > 0 {
        lemma_failed_stays(cfg, e, evs.drop_first());
    }
}

proof fn lemma_done_is_last(cfg: PipelineConfig, evs: Seq<Event>)
    requires
        run(cfg, Phase::Done, evs) == Phase::Done,
    ensures
        evs.len() == 0,
{
    if evs.len() > 0 {
        lemma_failed_stays(cfg, PipelineError::OutOfOrder, evs.drop_first());
    }
}

proof fn lemma_done_after_reference(cfg: PipelineConfig, p: Phase, evs: Seq<Event>)
    requires
        phase_reference(p) is Some,
        run(cfg, p, evs) == Phase::Done,
    ensures
        exists|k: int|
            0 <= k < evs.len() && #[trigger] proves_with(cfg, evs[k], phase_reference(p)->Some_0),
        (p is AwaitCheck || (p is AwaitKey && cfg.check_invariance)) ==> exists|m: int|
            0 <= m < evs.len() && #[trigger] dummy_agrees(cfg, evs[m], phase_reference(p)->Some_0),
    decreases evs.len(),
{
    let r = phase_reference(p)->Some_0;
    let rest = evs.drop_first();
    let q = next_phase(cfg, p, evs[0]);
    match q {
        Phase::Failed(e) => {
            lemma_failed_stays(cfg, e, rest);
        },
        Phase::Done => {
            assert(proves_with(cfg, evs[0], r));
        },
        Phase::Start => {},
        _ => {
            assert(phase_reference(q) == Some(r));
            lemma_done_after_reference(cfg, q, rest);
            let k = choose|k: int| 0 <= k < rest.len() && #[trigger] proves_with(cfg, rest[k], r);
            assert(rest[k] == evs[k + 1]);
            assert(proves_with(cfg, evs[k + 1], r));
            if p is AwaitCheck {
                assert(dummy_agrees(cfg, evs[0], r));
            } else if p is AwaitKey && cfg.check_invariance {
                let m = choose|m: int|
                    0 <= m < rest.len() && #[trigger] dummy_agrees(cfg, rest[m], r);
                assert(rest[m] == evs[m + 1]);
                assert(dummy_agrees(cfg, evs[m + 1], r));
            }
        },
    }
}

proof fn lemma_done_from_start(cfg: PipelineConfig, evs: Seq<Event>) -> (r: FieldElement)
    requires
        run(cfg, Phase::Start, evs) == Phase::Done,
    ensures
        evs.len() > 0,
        keygen_exposes(cfg, evs[0], r),
        exists|k: int| 0 < k < evs.len() && #[trigger] proves_with(cfg, evs[k], r),
        cfg.check_invariance ==> exists|m: int|
            0 < m < evs.len() && #[trigger] dummy_agrees(cfg, evs[m], r),
{
    let rest = evs.drop_first();
    let q = next_phase(cfg, Phase::Start, evs[0]);
    match q {
        Phase::Failed(e) => {
            lemma_failed_stays(cfg, e, rest);
            arbitrary()
        },
        Phase::AwaitKey { reference } => {
            lemma_done_after_reference(cfg, q, rest);
            let k = choose|k: int|
                0 <= k < rest.len() && #[trigger] proves_with(cfg, rest[k], reference);
            assert(rest[k] == evs[k + 1]);
            assert(proves_with(cfg, evs[k + 1], reference));
            if cfg.check_invariance {
                let m = choose|m: int|
                    0 <= m < rest.len() && #[trigger] dummy_agrees(cfg, rest[m], reference);
                assert(rest[m] == evs[m + 1]);
                assert(dummy_agrees(cfg, evs[m + 1], reference));
            }
            reference
        },
        _ => arbitrary(),
    }
}

/// Stage consistency: whatever events a run is fed, it reaches `Done`, and so
/// emits a proof, only after a keygen build that exposes a vkey hash and a
/// later prover build that exposes the same value at the same offset.
pub proof fn lemma_stage_consistency(cfg: PipelineConfig, evs: Seq<Event>)
    requires
        run(cfg, Phase::Start, evs) == Phase::Done,
    ensures
        exists|r: FieldElement, k: int|
            0 < k < evs.len() && keygen_exposes(cfg, evs[0], r) && #[trigger] proves_with(
                cfg,
                evs[k],
                r,
            ),
{
    let r = lemma_done_from_start(cfg, evs);
    let k = choose|k: int| 0 < k < evs.len() && #[trigger] proves_with(cfg, evs[k], r);
    assert(keygen_exposes(cfg, evs[0], r) && proves_with(cfg, evs[k], r));
}

/// Verification-key invariance: with the invariance check on, a run reaches
/// `Done` only after a dummy build whose verification key equals the keygen
/// build's byte for byte and whose vkey hash equals the keygen build's.
pub proof fn lemma_vkey_invariance(cfg: PipelineConfig, evs: Seq<Event>)
    requires
        cfg.check_invariance,
        run(cfg, Phase::Start, evs) == Phase::Done,
    ensures
        exists|r: FieldElement, m: int|
            0 < m < evs.len() && keygen_exposes(cfg, evs[0], r) && #[trigger] dummy_agrees(
                cfg,
                evs[m],
                r,
            ),
{
    let r = lemma_done_from_start(cfg, evs);
    let m = choose|m: int| 0 < m < evs.len() && #[trigger] dummy_agrees(cfg, evs[m], r);
    assert(keygen_exposes(cfg, evs[0], r) && dummy_agrees(cfg, evs[m], r));
}

/// Compares two byte strings.
pub fn bytes_equal(a: &Vec<u8>, b: &Vec<u8>) -> (r: bool)
    ensures
        r == (a@ == b@),
{
    if a.len() != b.len() {
        return false;
    }
    let mut i: usize = 0;
    while i < a.len()
        invariant
            a@.len() == b@.len(),
            i <= a@.len(),
            forall|j: int| 0 <= j < i ==> a@[j] == b@[j],
        decreases a.len() - i,
    {
        if a[i] != b[i] {
            return false;
        }
        i = i + 1;
    }
    assert(a@ =~= b@);
    true
}

/// The value at the vkey-hash offset of the first instance column, if there is one.
pub fn vkey_hash_at(cfg: &PipelineConfig, instances: &Vec<Vec<FieldElement>>) -> (r: Option<
    FieldElement,
>)
    ensures
        r == hash_at(*cfg, instances_view(*instances)),
{
    if instances.len() == 0 {
        return None;
    }
    let column = &instances[0];
    let width: usize = column.len();
    assert(column@ == instances_view(*instances)[0]);
    let idx = match cfg.agg_vk_hash_idx.checked_add(cfg.num_fe_accumulator) {
        Some(i) => i,
        None => {
            return None;
        },
    };
    if idx < width {
        Some(column[idx])
    } else {
        None
    }
}

/// The decisions of one proving run: keygen build, key derivation, optional
/// dummy-input invariance check, prover build, and the checks that hold every
/// build to the keygen build's vkey hash.
pub struct Pipeline {
    pub config: PipelineConfig,
    pub phase: Phase,
}

impl Pipeline {
    pub fn new(config: PipelineConfig) -> (r: Pipeline)
        ensures
            r.config == config,
            r.phase == Phase::Start,
    {
        Pipeline { config, phase: Phase::Start }
    }

    /// What the driver must do now.
    pub fn action(&self) -> (r: Action)
        ensures
            r == action_of(self.config, self.phase),
    {
        match self.phase {
            Phase::Start => Action::BuildKeygen,
            Phase::AwaitKey { .. } => Action::DeriveOrLoadKey,
            Phase::AwaitCheck { .. } => Action::BuildDummy,
            Phase::AwaitProof { .. } => Action::BuildProver,
            Phase::Done => Action::Emit { agg_vk_hash_idx: self.config.agg_vk_hash_idx },
            Phase::Failed(e) => Action::Abort(e),
        }
    }

    /// Takes in what the driver reports and moves to the next phase.
    pub fn step(&mut self, ev: Event)
        ensures
            final(self).config == old(self).config,
            final(self).phase == next_phase(old(self).config, old(self).phase, ev),
    {
        let ghost e0 = ev;
        let cfg = self.config;
        let next = match (self.phase, ev) {
            (Phase::Start, Event::KeygenBuilt { instances }) => match vkey_hash_at(
                &cfg,
                &instances,
            ) {
                Some(h) => Phase::AwaitKey { reference: h },
                None => Phase::Failed(PipelineError::MissingInstance),
            },
            (Phase::AwaitKey { reference }, Event::KeyReady) => if cfg.check_invariance {
                Phase::AwaitCheck { reference }
            } else {
                Phase::AwaitProof { reference }
            },
            (
                Phase::AwaitCheck { reference },
                Event::DummyBuilt { keygen_vk, dummy_vk, instances },
            ) => {
                if !bytes_equal(&keygen_vk, &dummy_vk) {
                    Phase::Failed(PipelineError::VkMismatch)
                } else {
                    match vkey_hash_at(&cfg, &instances) {
                        Some(h) => if h == reference {
                            Phase::AwaitProof { reference }
                        } else {
                            Phase::Failed(PipelineError::DummyHashMismatch)
                        },
                        None => Phase::Failed(PipelineError::DummyHashMismatch),
                    }
                }
            },
            (Phase::AwaitProof { reference }, Event::Proved { instances }) => match vkey_hash_at(
                &cfg,
                &instances,
            ) {
                Some(h) => if h == reference {
                    Phase::Done
                } else {
                    Phase::Failed(PipelineError::ProverHashMismatch)
                },
                None => Phase::Failed(PipelineError::ProverHashMismatch),
            },
            (Phase::Failed(e), _) => Phase::Failed(e),
            _ => Phase::Failed(PipelineError::OutOfOrder),
        };
        self.phase = next;
    }
}

/// Degree of the aggregation circuit: it has `2^degree` rows.
pub const AGGREGATION_DEGREE: u32 = 20;

/// Sizing of an aggregation circuit before parameter tuning.
#[derive(Clone, Copy, Debug, PartialEq, Eq, Structural)]
pub struct AggregationParams {
    pub degree: u32,
    pub lookup_bits: usize,
}

/// Sizing for a circuit of `2^degree` rows: lookup tables one bit narrower,
/// the widest that fit beside the circuit's other columns.
pub fn aggregation_params(degree: u32) -> (r: AggregationParams)
    requires
        degree >= 1,
    ensures
        r.degree == degree,
        r.lookup_bits == degree - 1,
{
    AggregationParams { degree, lookup_bits: (degree - 1) as usize }
}

} // verus!
