use vstd::prelude::*;

verus! {

/// What one worker hands back: the index of the task it ran and, when it
/// succeeded, the encoded proof.
pub struct Receipt {
    pub index: usize,
    pub payload: Option<String>,
}

/// Why a batch of tasks yields no results.
#[derive(Clone, Copy, Debug, PartialEq, Eq, Structural)]
pub enum DispatchError {
    /// The worker of the task with this index failed.
    WorkerFailed(usize),
    /// A receipt names a task that was never submitted.
    UnknownTask(usize),
    /// A second receipt arrived for the task with this index.
    Duplicate(usize),
    /// No receipt arrived for the task with this index.
    Missing(usize),
}

/// The collected results, one slot per task.
pub type Slots = Seq<Option<Seq<char>>>;

pub open spec fn empty_slots(n: nat) -> Slots {
    Seq::new(n, |i: int| None)
}

/// Takes in one receipt, in arrival order.
pub open spec fn receive(slots: Slots, r: Receipt) -> Result<Slots, DispatchError> {
    if r.index >= slots.len() {
        Err(DispatchError::UnknownTask(r.index))
    } else if r.payload is None {
        Err(DispatchError::WorkerFailed(r.index))
    } else if slots[r.index as int] is Some {
        Err(DispatchError::Duplicate(r.index))
    } else {
        Ok(slots.update(r.index as int, Some(r.payload.unwrap()@)))
    }
}

/// Takes in all receipts in arrival order; the first bad one decides the error.
pub open spec fn receive_all(n: nat, rs: Seq<Receipt>) -> Result<Slots, DispatchError>
    decreases rs.len(),
{
    if rs.len() == 0 {
        Ok(empty_slots(n))
    } else {
        match receive_all(n, rs.drop_last()) {
            Err(e) => Err(e),
            Ok(s) => receive(s, rs.last()),
        }
    }
}

pub open spec fn all_filled(s: Slots) -> bool {
    forall|i: int| 0 <= i < s.len() ==> #[trigger] s[i] is Some
}

pub open spec fn filled_values(s: Slots) -> Seq<Seq<char>> {
    s.map_values(|o: Option<Seq<char>>| o.unwrap())
}

/// `r` is what assembling `rs` for `n` tasks must give: the first bad receipt's
/// error; else, the first task with no receipt as `Missing`; else every task's
/// proof, in task order.
pub open spec fn assembled(n: nat, rs: Seq<Receipt>, r: Result<Seq<Seq<char>>, DispatchError>) -> bool {
    match receive_all(n, rs) {
        Err(e) => r == Err::<Seq<Seq<char>>, DispatchError>(e),
        Ok(s) => if all_filled(s) {
            r == Ok::<Seq<Seq<char>>, DispatchError>(filled_values(s))
        } else {
            exists|i: int|
                0 <= i < s.len() && s[i] is None && (forall|j: int| 0 <= j < i ==> #[trigger] s[j] is Some)
                    && r == Err::<Seq<Seq<char>>, DispatchError>(DispatchError::Missing(i as usize))
        },
    }
}

pub open spec fn strings_view(v: Seq<String>) -> Seq<Seq<char>> {
    v.map_values(|s: String| s@)
}

pub open spec fn result_view(r: Result<Vec<String>, DispatchError>) -> Result<Seq<Seq<char>>, DispatchError> {
    match r {
        Ok(v) => Ok(strings_view(v@)),
        Err(e) => Err(e),
    }
}

pub open spec fn slots_view(v: Seq<Option<String>>) -> Slots {
    v.map_values(|o: Option<String>| match o {
        Some(s) => Some(s@),
        None => None,
    })
}

proof fn lemma_error_persists(n: nat, rs: Seq<Receipt>, k: int)
    requires
        0 <= k <= rs.len(),
        receive_all(n, rs.take(k)) is Err,
    ensures
        receive_all(n, rs) == receive_all(n, rs.take(k)),
    decreases rs.len() - k,
{
    if k == rs.len() {
        assert(rs.take(k) =~= rs);
    } else {
        assert(rs.drop_last().take(k) =~= rs.take(k));
        lemma_error_persists(n, rs.drop_last(), k);
    }
}

/// Some receipt names task `t`.
pub open spec fn delivered(rs: Seq<Receipt>, t: int) -> bool {
    exists|j: int| 0 <= j < rs.len() && (#[trigger] rs[j]).index == t
}

/// Every receipt names a submitted task and carries a proof, and no two name the same task.
pub open spec fn receipts_distinct_ok(n: nat, rs: Seq<Receipt>) -> bool {
    &&& forall|j: int| 0 <= j < rs.len() ==> (#[trigger] rs[j]).index < n && rs[j].payload is Some
    &&& forall|a: int, b: int|
        0 <= a < rs.len() && 0 <= b < rs.len() && a != b ==> (#[trigger] rs[a]).index != (
        #[trigger] rs[b]).index
}

proof fn lemma_receive_distinct(n: nat, rs: Seq<Receipt>)
    requires
        receipts_distinct_ok(n, rs),
    ensures
        receive_all(n, rs) is Ok,
        receive_all(n, rs)->Ok_0.len() == n,
        forall|t: int|
            0 <= t < n ==> ((#[trigger] receive_all(n, rs)->Ok_0[t]) is Some <==> delivered(rs, t)),
        forall|j: int|
            0 <= j < rs.len() ==> receive_all(n, rs)->Ok_0[(#[trigger] rs[j]).index as int]
                == Some(rs[j].payload.unwrap()@),
    decreases rs.len(),
{
    if rs.len() > 0 {
        let p = rs.drop_last();
        assert(receipts_distinct_ok(n, p)) by {
            assert forall|j: int| 0 <= j < p.len() implies #[trigger] p[j] == rs[j] by {}
        }
        lemma_receive_distinct(n, p);
        let s = receive_all(n, p)->Ok_0;
        let last = rs.last();
        let li = rs.len() - 1;
        assert(rs[li] == last);
        if s[last.index as int] is Some {
            let j = choose|j: int| 0 <= j < p.len() && (#[trigger] p[j]).index == last.index;
            assert(p[j] == rs[j]);
        }
        let s2 = s.update(last.index as int, Some(last.payload.unwrap()@));
        assert(receive_all(n, rs) == Ok::<Slots, DispatchError>(s2));
        assert forall|t: int|
            0 <= t < n implies ((#[trigger] s2[t]) is Some <==> delivered(rs, t)) by {
            if s2[t] is Some {
                if t != last.index {
                    let j = choose|j: int| 0 <= j < p.len() && (#[trigger] p[j]).index == t;
                    assert(rs[j] == p[j]);
                } else {
                    assert(rs[li].index == t);
                }
            }
            if delivered(rs, t) {
                let j = choose|j: int| 0 <= j < rs.len() && (#[trigger] rs[j]).index == t;
                if j < li {
                    assert(p[j] == rs[j]);
                }
            }
        }
        assert forall|j: int| 0 <= j < rs.len() implies s2[(#[trigger] rs[j]).index as int]
            == Some(rs[j].payload.unwrap()@) by {
            if j < li {
                assert(p[j] == rs[j]);
                assert(rs[j].index != rs[li].index);
            }
        }
    }
}

/// When each of `n` submitted tasks delivers exactly one successful receipt,
/// in whatever order they arrive, the batch yields exactly `n` proofs, each
/// task's proof in that task's place.
pub proof fn lemma_batch_complete(n: nat, rs: Seq<Receipt>)
    requires
        receipts_distinct_ok(n, rs),
        forall|t: int| 0 <= t < n ==> #[trigger] delivered(rs, t),
    ensures
        forall|r: Result<Seq<Seq<char>>, DispatchError>|
            #[trigger] assembled(n, rs, r) ==> r is Ok && r->Ok_0.len() == n && forall|j: int|
                0 <= j < rs.len() ==> r->Ok_0[(#[trigger] rs[j]).index as int] == rs[j].payload.unwrap()@,
{
    lemma_receive_distinct(n, rs);
    let s = receive_all(n, rs)->Ok_0;
    assert(all_filled(s));
}

/// Gathers the receipts of a batch of `n` tasks, in the order they arrived,
/// into the tasks' proofs in task order. Any failed, unknown, repeated or
/// missing receipt fails the whole batch.
pub fn assemble(n: usize, receipts: &Vec<Receipt>) -> (r: Result<Vec<String>, DispatchError>)
    ensures
        assembled(n as nat, receipts@, result_view(r)),
        r is Ok ==> r->Ok_0@.len() == n,
{
    let mut slots: Vec<Option<String>> = Vec::new();
    let mut i: usize = 0;
    while i < n
        invariant
            i <= n,
            slots@.len() == i,
            forall|t: int| 0 <= t < i ==> #[trigger] slots@[t] is None,
        decreases n - i,
    {
        slots.push(None);
        i = i + 1;
    }
    proof {
        assert(slots_view(slots@) =~= empty_slots(n as nat));
        assert(receipts@.take(0) =~= Seq::<Receipt>::empty());
    }
    let mut k: usize = 0;
    while k < receipts.len()
        invariant
            k <= receipts.len(),
            slots@.len() == n,
            receive_all(n as nat, receipts@.take(k as int)) == Ok::<Slots, DispatchError>(
                slots_view(slots@),
            ),
        decreases receipts.len() - k,
    {
        let rc = &receipts[k];
        proof {
            assert(receipts@.take(k + 1).drop_last() =~= receipts@.take(k as int));
            assert(receipts@.take(k + 1).last() == *rc);
        }
        if rc.index >= n {
            proof {
                lemma_error_persists(n as nat, receipts@, k + 1);
            }
            return Err(DispatchError::UnknownTask(rc.index));
        }
        match &rc.payload {
            None => {
                proof {
                    lemma_error_persists(n as nat, receipts@, k + 1);
                }
                return Err(DispatchError::WorkerFailed(rc.index));
            },
            Some(p) => {
                if slots[rc.index].is_some() {
                    proof {
                        lemma_error_persists(n as nat, receipts@, k + 1);
                    }
                    return Err(DispatchError::Duplicate(rc.index));
                }
                let ghost before = slots@;
                slots.set(rc.index, Some(p.clone()));
                proof {
                    assert(slots_view(slots@) =~= slots_view(before).update(
                        rc.index as int,
                        Some(p@),
                    ));
                }
            },
        }
        k = k + 1;
    }
    proof {
        assert(receipts@.take(receipts@.len() as int) =~= receipts@);
    }
    let mut out: Vec<String> = Vec::new();
    let mut j: usize = 0;
    while j < n
        invariant
            j <= n,
            slots@.len() == n,
            out@.len() == j,
            receive_all(n as nat, receipts@) == Ok::<Slots, DispatchError>(slots_view(slots@)),
            forall|t: int| 0 <= t < j ==> #[trigger] slots_view(slots@)[t] is Some,
            strings_view(out@) =~= filled_values(slots_view(slots@)).take(j as int),
        decreases n - j,
    {
        match &slots[j] {
            None => {
                let ghost sv = slots_view(slots@);
                let r = Err(DispatchError::Missing(j));
                assert(sv[j as int] is None);
                assert(!all_filled(sv));
                return r;
            },
            Some(p) => {
                out.push(p.clone());
            },
        }
        j = j + 1;
    }
    proof {
        assert(filled_values(slots_view(slots@)).take(n as int) =~= filled_values(
            slots_view(slots@),
        ));
    }
    Ok(out)
}

} // verus!
