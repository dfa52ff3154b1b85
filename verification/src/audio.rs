//! Mute control and silencing of playback devices. The endpoint calls are
//! made by the caller, which hands in their outcomes.
use vstd::prelude::*;
use crate::text::chars_of;

verus! {

broadcast use vstd::string::group_string_axioms;

/// The audio controller.
pub struct AudioController;

/// The texts of a vector of strings.
pub open spec fn texts(v: Seq<String>) -> Seq<Seq<char>> {
    v.map_values(|s: String| s@)
}

/// Device `i` is silenced: it is not protected and is the first entry
/// with its id.
pub open spec fn to_silence(ids: Seq<Seq<char>>, protected: Set<Seq<char>>, i: int) -> bool {
    !protected.contains(ids[i]) && forall|j: int| 0 <= j < i ==> ids[j] != ids[i]
}

/// `plan` lists, in increasing order, exactly the devices to silence.
pub open spec fn is_silencing_plan(ids: Seq<Seq<char>>, protected: Set<Seq<char>>, plan: Seq<int>) -> bool {
    &&& forall|j: int| 0 <= j < plan.len() ==> 0 <= #[trigger] plan[j] < ids.len() && to_silence(ids, protected, plan[j])
    &&& forall|j: int, k: int| 0 <= j < k < plan.len() ==> plan[j] < plan[k]
    &&& forall|i: int| 0 <= i < ids.len() && to_silence(ids, protected, i) ==> plan.contains(i)
}

/// The ids of the first `n` planned devices.
pub open spec fn planned_ids(ids: Seq<Seq<char>>, plan: Seq<int>, n: int) -> Seq<Seq<char>> {
    Seq::new(n as nat, |j: int| ids[plan[j]])
}

/// The indices of a plan as integers.
pub open spec fn plan_ints(plan: Seq<usize>) -> Seq<int> {
    plan.map_values(|i: usize| i as int)
}

proof fn lemma_first_occurrence(ids: Seq<Seq<char>>, i: int)
    requires
        0 <= i < ids.len(),
    ensures
        exists|k: int| 0 <= k <= i && ids[k] == ids[i] && forall|j: int| 0 <= j < k ==> ids[j] != ids[i],
    decreases i,
{
    if exists|j: int| 0 <= j < i && ids[j] == ids[i] {
        let j = choose|j: int| 0 <= j < i && ids[j] == ids[i];
        lemma_first_occurrence(ids, j);
    } else {
        assert(0 <= i <= i && ids[i] == ids[i] && forall|j: int| 0 <= j < i ==> ids[j] != ids[i]);
    }
}

/// Silencing follows the plan: no planned device is protected, each device
/// is silenced at most once, and once every planned device is silenced,
/// every device is protected.
pub proof fn law_silencing_protects_every_device(ids: Seq<Seq<char>>, protected: Set<Seq<char>>, plan: Seq<int>)
    requires
        is_silencing_plan(ids, protected, plan),
    ensures
        forall|j: int| 0 <= j < plan.len() ==> !protected.contains(#[trigger] ids[plan[j]]),
        forall|j: int, k: int| 0 <= j < k < plan.len() ==> ids[plan[j]] != ids[plan[k]],
        protected + planned_ids(ids, plan, plan.len() as int).to_set() == protected + ids.to_set(),
{
    let done = planned_ids(ids, plan, plan.len() as int);
    assert forall|j: int, k: int| 0 <= j < k < plan.len() implies ids[plan[j]] != ids[plan[k]] by {
        assert(to_silence(ids, protected, plan[k]));
    }
    assert forall|x: Seq<char>| (protected + done.to_set()).contains(x) <==> (protected + ids.to_set()).contains(x) by {
        if done.to_set().contains(x) {
            let j = choose|j: int| 0 <= j < done.len() && done[j] == x;
            assert(ids[plan[j]] == x);
        }
        if ids.to_set().contains(x) && !protected.contains(x) {
            let i = choose|i: int| 0 <= i < ids.len() && ids[i] == x;
            lemma_first_occurrence(ids, i);
            let k = choose|k: int| 0 <= k <= i && ids[k] == ids[i] && forall|j: int| 0 <= j < k ==> ids[j] != ids[i];
            assert(to_silence(ids, protected, k));
            assert(plan.contains(k));
            let j = choose|j: int| 0 <= j < plan.len() && plan[j] == k;
            assert(done[j] == x);
        }
    }
    assert(protected + done.to_set() =~= protected + ids.to_set());
}

impl AudioController {
    /// The controller.
    pub fn new() -> (r: AudioController) {
        AudioController
    }

    /// The mute state: what the endpoint reported, or not muted when it
    /// could not be read.
    pub fn get_mute_state(&self, native: Result<bool, String>) -> (r: bool)
        ensures
            r == match native {
                Ok(m) => m,
                Err(_) => false,
            },
    {
        match native {
            Ok(muted) => muted,
            Err(_) => false,
        }
    }

    /// Whether setting the mute state succeeded.
    pub fn set_mute(&self, native: Result<(), String>) -> (r: bool)
        ensures
            r == native is Ok,
    {
        match native {
            Ok(_) => true,
            Err(_) => false,
        }
    }

    /// Flips the mute state: reads it with `get`, asks for the opposite with
    /// `set`; answers whether that succeeded and the state asked for.
    pub fn toggle_mute<G: FnOnce() -> Result<bool, String>, S: FnOnce(bool) -> Result<(), String>>(
        &self,
        get: G,
        set: S,
    ) -> (r: (bool, bool))
        requires
            call_requires(get, ()),
            forall|b: bool| call_requires(set, (b,)),
        ensures
            exists|g: Result<bool, String>, s: Result<(), String>|
                #![trigger call_ensures(get, (), g), call_ensures(set, (r.1,), s)]
                call_ensures(get, (), g) && r.1 == !match g {
                    Ok(m) => m,
                    Err(_) => false,
                } && call_ensures(set, (r.1,), s) && r.0 == s is Ok,
    {
        let g = get();
        let current = self.get_mute_state(g);
        let muted = !current;
        let s = set(muted);
        let ok = self.set_mute(s);
        let r = (ok, muted);
        assert(call_ensures(get, (), g) && r.1 == !match g {
            Ok(m) => m,
            Err(_) => false,
        } && call_ensures(set, (r.1,), s) && r.0 == s is Ok);
        r
    }

    /// The playback devices to silence, by index: those whose id is not
    /// protected and not listed before, in order. A protected device is
    /// never in the plan.
    pub fn silencing_plan(&self, ids: &Vec<String>, protected_ids: &Vec<String>) -> (r: Vec<usize>)
        ensures
            is_silencing_plan(texts(ids@), texts(protected_ids@).to_set(), plan_ints(r@)),
    {
        let ghost v = texts(ids@);
        let ghost p0 = texts(protected_ids@).to_set();
        let ghost pv = texts(protected_ids@);
        let mut plan: Vec<usize> = Vec::new();
        let n = ids.len();
        for i in 0..n
            invariant
                n == ids@.len() == v.len(),
                v == texts(ids@),
                pv == texts(protected_ids@),
                p0 == pv.to_set(),
                forall|j: int| 0 <= j < plan@.len() ==> 0 <= #[trigger] plan@[j] < i && to_silence(v, p0, plan@[j] as int),
                forall|j: int, k: int| 0 <= j < k < plan@.len() ==> plan@[j] < plan@[k],
                forall|t: int| 0 <= t < i && to_silence(v, p0, t) ==> plan_ints(plan@).contains(t),
        {
            let id = chars_of(ids[i].as_str());
            assert(id@ == v[i as int]);
            let mut seen = false;
            let m = protected_ids.len();
            for q in 0..m
                invariant
                    m == protected_ids@.len(),
                    pv == texts(protected_ids@),
                    id@ == v[i as int],
                    i < v.len(),
                    !seen ==> forall|t: int| 0 <= t < q ==> pv[t] != id@,
                    seen ==> pv.contains(id@),
            {
                let other = chars_of(protected_ids[q].as_str());
                if !seen && crate::text::chars_eq(&other, &id) {
                    assert(pv[q as int] == id@);
                    seen = true;
                }
            }
            for q in 0..i
                invariant
                    n == ids@.len() == v.len(),
                    v == texts(ids@),
                    id@ == v[i as int],
                    i < n,
                    pv == texts(protected_ids@),
                    !seen ==> forall|t: int| 0 <= t < pv.len() ==> pv[t] != id@,
                    !seen ==> forall|t: int| 0 <= t < q ==> v[t] != id@,
                    seen ==> pv.contains(id@) || exists|t: int| 0 <= t < i && v[t] == id@,
            {
                let other = chars_of(ids[q].as_str());
                assert(other@ == v[q as int]);
                if !seen && crate::text::chars_eq(&other, &id) {
                    seen = true;
                }
            }
            proof {
                assert(seen == !to_silence(v, p0, i as int)) by {
                    if seen {
                        if pv.contains(id@) {
                            let t = choose|t: int| 0 <= t < pv.len() && pv[t] == id@;
                            assert(pv.to_set().contains(pv[t]));
                        }
                    } else {
                        if p0.contains(v[i as int]) {
                            assert(pv.contains(v[i as int]));
                            let t = choose|t: int| 0 <= t < pv.len() && pv[t] == v[i as int];
                            assert(pv[t] != id@);
                        }
                    }
                }
            }
            let ghost before = plan@;
            if !seen {
                plan.push(i);
                proof {
                    assert(plan_ints(plan@) =~= plan_ints(before).push(i as int));
                    assert(plan_ints(plan@)[plan@.len() - 1] == i as int);
                    assert forall|t: int| 0 <= t < i + 1 && to_silence(v, p0, t) implies plan_ints(plan@).contains(t) by {
                        if t < i {
                            let j = choose|j: int| 0 <= j < plan_ints(before).len() && plan_ints(before)[j] == t;
                            assert(plan_ints(plan@)[j] == t);
                        }
                    }
                }
            }
        }
        proof {
            let pi = plan_ints(plan@);
            assert forall|j: int| 0 <= j < pi.len() implies 0 <= #[trigger] pi[j] < v.len() && to_silence(v, p0, pi[j]) by {
                assert(pi[j] == plan@[j] as int);
            }
        }
        plan
    }

    /// Takes back the outcome of silencing: `devices` is the enumeration (or
    /// its error), `plan` the devices to silence and `zeroed` how many of
    /// them, from the start of the plan, were silenced before the first
    /// failure. The silenced devices become protected. Answers success and
    /// the number silenced; after a failure the number is 0, though the
    /// devices silenced before it stay protected.
    pub fn zero_unprotected_render_devices(
        &self,
        devices: &Result<Vec<String>, String>,
        plan: &Vec<usize>,
        zeroed: usize,
        protected_ids: &mut Vec<String>,
    ) -> (r: (bool, usize))
        requires
            zeroed <= plan@.len(),
            devices matches Ok(ids) ==> forall|j: int| 0 <= j < plan@.len() ==> #[trigger] plan@[j] < ids@.len(),
        ensures
            devices is Err ==> r == (false, 0usize) && final(protected_ids)@ == old(protected_ids)@,
            devices matches Ok(ids) ==> texts(final(protected_ids)@) == texts(old(protected_ids)@) + planned_ids(
                texts(ids@),
                plan_ints(plan@),
                zeroed as int,
            ) && r == (if zeroed == plan@.len() {
                (true, zeroed)
            } else {
                (false, 0usize)
            }),
    {
        let ids = match devices {
            Ok(ids) => ids,
            Err(_) => return (false, 0),
        };
        let ghost v = texts(ids@);
        let ghost start = texts(protected_ids@);
        for j in 0..zeroed
            invariant
                zeroed <= plan@.len(),
                forall|k: int| 0 <= k < plan@.len() ==> #[trigger] plan@[k] < ids@.len(),
                v == texts(ids@),
                texts(protected_ids@) == start + planned_ids(v, plan_ints(plan@), j as int),
        {
            let ghost before = protected_ids@;
            let i = plan[j];
            protected_ids.push(ids[i].clone());
            proof {
                assert(texts(protected_ids@) =~= texts(before).push(v[i as int]));
                assert(plan_ints(plan@)[j as int] == i as int);
                assert(planned_ids(v, plan_ints(plan@), j + 1) =~= planned_ids(v, plan_ints(plan@), j as int).push(v[i as int]));
            }
        }
        if zeroed == plan.len() {
            (true, zeroed)
        } else {
            (false, 0)
        }
    }
}

} // verus!
