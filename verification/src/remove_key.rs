//! The handoff surface for removing keys in a remote translation service:
//! the request configuration, the result shape, and the pure bookkeeping
//! that splits per-key query outcomes into found ids and unknown keys. The
//! network calls themselves are outside the core.

use vstd::prelude::*;

verus! {

/// Which remote module and route the removal targets.
pub struct RemoveI18nKeyConfig {
    pub module_id: u32,
    pub route_id: u32,
    pub operate: String,
}

/// The outcome of a removal run: ids that were found (and deleted), and
/// keys the service did not know.
pub struct RemoveI18nKeyResult {
    pub ids: Vec<u32>,
    pub unknowns: Vec<String>,
}

/// The ids of the successful outcomes among the first `i`, in order.
pub open spec fn ids_of(outcomes: Seq<(Seq<char>, Option<u32>)>, i: int) -> Seq<u32>
    decreases i,
{
    if i <= 0 {
        Seq::empty()
    } else {
        ids_of(outcomes, i - 1) + (match outcomes[i - 1].1 {
            Some(id) => seq![id],
            None => Seq::empty(),
        })
    }
}

/// The keys of the failed outcomes among the first `i`, in order.
pub open spec fn unknowns_of(outcomes: Seq<(Seq<char>, Option<u32>)>, i: int) -> Seq<Seq<char>>
    decreases i,
{
    if i <= 0 {
        Seq::empty()
    } else {
        unknowns_of(outcomes, i - 1) + (match outcomes[i - 1].1 {
            Some(id) => Seq::empty(),
            None => seq![outcomes[i - 1].0],
        })
    }
}

/// Splits per-key query outcomes into the ids that were found and the
/// keys that were not, each in query order.
pub fn collect_removal_outcomes(outcomes: &Vec<(String, Option<u32>)>) -> (r: RemoveI18nKeyResult)
    ensures
        r.ids@ == ids_of(outcomes.deep_view(), outcomes@.len() as int),
        r.unknowns.deep_view() == unknowns_of(outcomes.deep_view(), outcomes@.len() as int),
{
    let ghost om = outcomes.deep_view();
    let mut ids: Vec<u32> = Vec::new();
    let mut unknowns: Vec<String> = Vec::new();
    proof {
        assert(ids@ =~= ids_of(om, 0));
        assert(unknowns.deep_view() =~~= unknowns_of(om, 0));
    }
    let mut i: usize = 0;
    while i < outcomes.len()
        invariant
            i <= outcomes@.len(),
            om == outcomes.deep_view(),
            ids@ == ids_of(om, i as int),
            unknowns.deep_view() == unknowns_of(om, i as int),
        decreases outcomes@.len() - i,
    {
        proof {
            assert(om[i as int] == (outcomes@[i as int].0@, outcomes@[i as int].1.deep_view()));
        }
        match &outcomes[i].1 {
            Some(id) => {
                ids.push(*id);
                proof {
                    assert(ids@ =~= ids_of(om, i as int + 1));
                }
            },
            None => {
                let ghost u0 = unknowns.deep_view();
                unknowns.push(outcomes[i].0.clone());
                proof {
                    assert(unknowns.deep_view() =~~= u0.push(om[i as int].0));
                    assert(u0.push(om[i as int].0) =~~= unknowns_of(om, i as int + 1));
                }
            },
        }
        i += 1;
    }
    RemoveI18nKeyResult { ids, unknowns }
}

} // verus!
