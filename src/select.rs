use vstd::prelude::*;
use vstd::set_lib::{set_int_range, lemma_int_range};
use crate::config::Channel;
use crate::error::CCSwitchError;

verus! {

/// Candidate `a` is probed before candidate `b`: lower priority first, and
/// between equal priorities the one that comes first among the candidates.
pub open spec fn precedes(c: Seq<&Channel>, a: int, b: int) -> bool {
    c[a].priority < c[b].priority || (c[a].priority == c[b].priority && a < b)
}

/// Candidate `j` comes after `after` in probe order (every candidate does
/// when nothing was probed yet).
pub open spec fn comes_after(c: Seq<&Channel>, after: Option<usize>, j: int) -> bool {
    match after {
        Some(a) => precedes(c, a as int, j),
        None => true,
    }
}

/// Candidate `i` is the next one in probe order after `after`.
pub open spec fn is_next(c: Seq<&Channel>, after: Option<usize>, i: int) -> bool {
    &&& 0 <= i < c.len()
    &&& comes_after(c, after, i)
    &&& forall|j: int| 0 <= j < c.len() && j != i && comes_after(c, after, j) ==> precedes(c, i, j)
}

/// No candidate comes after `after` in probe order.
pub open spec fn none_after(c: Seq<&Channel>, after: Option<usize>) -> bool {
    forall|j: int| 0 <= j < c.len() ==> !comes_after(c, after, j)
}

/// `p` lists candidates of `c` strictly in probe order.
pub open spec fn in_probe_order(c: Seq<&Channel>, p: Seq<usize>) -> bool {
    &&& forall|k: int| 0 <= k < p.len() ==> p[k] < c.len()
    &&& forall|k1: int, k2: int| 0 <= k1 < k2 < p.len() ==> precedes(c, p[k1] as int, p[k2] as int)
}

fn precedes_exec(c: &Vec<&Channel>, a: usize, b: usize) -> (r: bool)
    requires
        a < c@.len(),
        b < c@.len(),
    ensures
        r == precedes(c@, a as int, b as int),
{
    c[a].priority < c[b].priority || (c[a].priority == c[b].priority && a < b)
}

/// The next candidate in probe order after `after`, if any is left.
pub fn next_candidate(c: &Vec<&Channel>, after: Option<usize>) -> (r: Option<usize>)
    requires
        match after {
            Some(a) => a < c@.len(),
            None => true,
        },
    ensures
        match r {
            Some(i) => is_next(c@, after, i as int),
            None => none_after(c@, after),
        },
{
    let mut best: Option<usize> = None;
    let mut j: usize = 0;
    while j < c.len()
        invariant
            j <= c@.len(),
            match after {
                Some(a) => a < c@.len(),
                None => true,
            },
            match best {
                Some(b) => b < j && comes_after(c@, after, b as int) && forall|k: int|
                    0 <= k < j && k != b && comes_after(c@, after, k) ==> precedes(c@, b as int, k),
                None => forall|k: int| 0 <= k < j ==> !comes_after(c@, after, k),
            },
        decreases c@.len() - j,
    {
        let eligible = match after {
            Some(a) => precedes_exec(c, a, j),
            None => true,
        };
        if eligible {
            match best {
                Some(b) => {
                    if precedes_exec(c, j, b) {
                        best = Some(j);
                    }
                },
                None => {
                    best = Some(j);
                },
            }
        }
        j = j + 1;
    }
    best
}

/// What the selector asks for next.
#[derive(Debug, Clone, PartialEq)]
pub enum SelectStep {
    /// Probe this candidate and report whether it is available.
    Probe(usize),
    /// Use this candidate.
    Select(usize),
    /// Selection is over without a channel.
    Fail(CCSwitchError),
}

/// The first step of selecting a channel for `model` among `c`.
pub fn begin_selection(c: &Vec<&Channel>, model: &str) -> (r: SelectStep)
    ensures
        c@.len() == 0 ==> (match r {
            SelectStep::Fail(CCSwitchError::NoAvailableChannels(m)) => m@ == model@,
            _ => false,
        }),
        c@.len() > 0 ==> (match r {
            SelectStep::Probe(i) => is_next(c@, None, i as int),
            _ => false,
        }),
{
    match next_candidate(c, None) {
        Some(i) => SelectStep::Probe(i),
        None => {
            proof {
                if c@.len() > 0 {
                    assert(!comes_after(c@, None, 0));
                }
            }
            SelectStep::Fail(CCSwitchError::NoAvailableChannels(model.to_owned()))
        },
    }
}

/// The step after candidate `probed` was probed: use it when it is
/// available, else probe the next candidate, else fail.
pub fn after_probe(c: &Vec<&Channel>, probed: usize, available: bool) -> (r: SelectStep)
    requires
        probed < c@.len(),
    ensures
        available ==> r == SelectStep::Select(probed),
        !available ==> (match r {
            SelectStep::Probe(i) => is_next(c@, Some(probed), i as int),
            SelectStep::Fail(CCSwitchError::AllChannelsFailed) => none_after(c@, Some(probed)),
            _ => false,
        }),
{
    if available {
        SelectStep::Select(probed)
    } else {
        match next_candidate(c, Some(probed)) {
            Some(i) => SelectStep::Probe(i),
            None => SelectStep::Fail(CCSwitchError::AllChannelsFailed),
        }
    }
}

/// Candidates listed strictly in probe order are distinct, so there are at
/// most as many as candidates, and as many when every candidate is listed.
proof fn lemma_probe_count(c: Seq<&Channel>, p: Seq<usize>)
    requires
        in_probe_order(c, p),
        c.len() <= usize::MAX,
    ensures
        p.len() <= c.len(),
        (forall|j: usize| j < c.len() ==> #[trigger] p.contains(j)) ==> p.len() == c.len(),
{
    let q = p.map_values(|x: usize| x as int);
    assert(q.no_duplicates()) by {
        assert forall|a: int, b: int| 0 <= a < q.len() && 0 <= b < q.len() && a != b
            implies q[a] != q[b] by {
            if a < b {
                assert(precedes(c, p[a] as int, p[b] as int));
            } else {
                assert(precedes(c, p[b] as int, p[a] as int));
            }
        }
    }
    q.unique_seq_to_set();
    lemma_int_range(0, c.len() as int);
    let r = set_int_range(0, c.len() as int);
    assert(q.to_set().subset_of(r)) by {
        assert forall|x: int| q.to_set().contains(x) implies r.contains(x) by {
            let k = choose|k: int| 0 <= k < q.len() && q[k] == x;
            assert(p[k] < c.len());
        }
    }
    vstd::set_lib::lemma_len_subset(q.to_set(), r);
    if forall|j: usize| j < c.len() ==> #[trigger] p.contains(j) {
        assert(q.to_set() =~= r) by {
            assert forall|x: int| r.contains(x) implies q.to_set().contains(x) by {
                assert(p.contains(x as usize));
                let k = choose|k: int| 0 <= k < p.len() && p[k] == x as usize;
                assert(q[k] == x);
            }
        }
    }
}

/// The candidate probed last, if any.
pub open spec fn last_probed(p: Seq<usize>) -> Option<usize> {
    if p.len() == 0 {
        None
    } else {
        Some(p.last())
    }
}

/// Runs a whole selection among `c` for `model` in which probing candidate
/// `i` reports `outcomes[i]`. Returns the selected candidate, or the error,
/// with the candidates probed, in the order they were probed.
///
/// Candidates are probed strictly in probe order (ascending priority, then
/// position) and the first available one is selected; when there are none,
/// nothing is probed; when none is available, every candidate is probed
/// exactly once.
pub fn run_selection(c: &Vec<&Channel>, model: &str, outcomes: &Vec<bool>) -> (r: (
    Result<usize, CCSwitchError>,
    Vec<usize>,
))
    requires
        outcomes@.len() == c@.len(),
    ensures
        in_probe_order(c@, r.1@),
        forall|j: int, k: int| 0 <= j < c@.len() && 0 <= k < r.1@.len()
            && precedes(c@, j, r.1@[k] as int) ==> r.1@.contains(j as usize),
        match r.0 {
            Ok(i) => i < c@.len() && outcomes@[i as int] && r.1@.len() > 0 && r.1@.last() == i
                && forall|j: int| 0 <= j < c@.len() && precedes(c@, j, i as int) ==> !outcomes@[j],
            Err(CCSwitchError::NoAvailableChannels(m)) => c@.len() == 0 && m@ == model@
                && r.1@.len() == 0,
            Err(CCSwitchError::AllChannelsFailed) => c@.len() > 0 && r.1@.len() == c@.len()
                && forall|j: int| 0 <= j < c@.len() ==> !outcomes@[j],
            _ => false,
        },
{
    let n: usize = c.len();
    let mut probes: Vec<usize> = Vec::new();
    let mut step = begin_selection(c, model);
    loop
        invariant
            outcomes@.len() == c@.len(),
            n == c@.len(),
            in_probe_order(c@, probes@),
            probes@.len() <= c@.len(),
            forall|j: int, k: int| 0 <= j < c@.len() && 0 <= k < probes@.len()
                && precedes(c@, j, probes@[k] as int) ==> probes@.contains(j as usize),
            match step {
                SelectStep::Probe(i) => is_next(c@, last_probed(probes@), i as int)
                    && forall|k: int| 0 <= k < probes@.len() ==> !outcomes@[probes@[k] as int],
                SelectStep::Select(i) => probes@.len() > 0 && probes@.last() == i && outcomes@[i as int]
                    && forall|k: int| 0 <= k < probes@.len() - 1 ==> !outcomes@[probes@[k] as int],
                SelectStep::Fail(CCSwitchError::NoAvailableChannels(m)) => c@.len() == 0
                    && m@ == model@ && probes@.len() == 0,
                SelectStep::Fail(CCSwitchError::AllChannelsFailed) => c@.len() > 0
                    && probes@.len() > 0 && none_after(c@, last_probed(probes@))
                    && forall|k: int| 0 <= k < probes@.len() ==> !outcomes@[probes@[k] as int],
                _ => false,
            },
        ensures
            !(step is Probe),
        decreases c@.len() - probes@.len(),
    {
        match step {
            SelectStep::Probe(i) => {
                let ghost before = probes@;
                probes.push(i);
                proof {
                    assert forall|k: int| 0 <= k < before.len() implies
                        precedes(c@, before[k] as int, i as int) by {
                        assert(precedes(c@, before[k] as int, before.last() as int) || k == before.len() - 1);
                    }
                    assert forall|j: int, k: int| 0 <= j < c@.len() && 0 <= k < probes@.len()
                        && precedes(c@, j, probes@[k] as int) implies probes@.contains(j as usize) by {
                        if k < before.len() {
                            assert(before.contains(j as usize));
                            let m = choose|m: int| 0 <= m < before.len() && before[m] == j as usize;
                            assert(probes@[m] == j as usize);
                        } else if before.len() == 0 {
                            if j != i as int {
                                assert(comes_after(c@, None, j));
                                assert(precedes(c@, i as int, j));
                            }
                            assert(false);
                        } else {
                            let last = before.len() - 1;
                            if j == before[last] as int {
                                assert(probes@[last] == j as usize);
                            } else {
                                assert(!comes_after(c@, Some(before[last]), j));
                                assert(precedes(c@, j, before[last] as int));
                                assert(before.contains(j as usize));
                                let m = choose|m: int| 0 <= m < before.len() && before[m] == j as usize;
                                assert(probes@[m] == j as usize);
                            }
                        }
                    }
                    lemma_probe_count(c@, probes@);
                }
                step = after_probe(c, i, outcomes[i]);
            },
            _ => {
                break;
            },
        }
    }
    proof {
        lemma_probe_count(c@, probes@);
    }
    match step {
        SelectStep::Select(i) => {
            proof {
                assert forall|j: int| 0 <= j < c@.len() && precedes(c@, j, i as int)
                    implies !outcomes@[j] by {
                    let k = probes@.len() - 1;
                    assert(probes@.contains(j as usize));
                    let m = choose|m: int| 0 <= m < probes@.len() && probes@[m] == j as usize;
                    assert(m != k);
                }
            }
            (Ok(i), probes)
        },
        SelectStep::Fail(e) => {
            proof {
                if e is AllChannelsFailed {
                    let last = probes@.len() - 1;
                    assert forall|j: usize| j < c@.len() implies #[trigger] probes@.contains(j) by {
                        if j != probes@[last] {
                            assert(!comes_after(c@, Some(probes@[last]), j as int));
                            assert(precedes(c@, j as int, probes@[last] as int));
                        } else {
                            assert(probes@[last] == j);
                        }
                    }
                    lemma_probe_count(c@, probes@);
                    assert forall|j: int| 0 <= j < c@.len() implies !outcomes@[j] by {
                        assert(probes@.contains(j as usize));
                        let m = choose|m: int| 0 <= m < probes@.len() && probes@[m] == j as usize;
                    }
                }
            }
            (Err(e), probes)
        },
        SelectStep::Probe(_) => {
            proof { assert(false); }
            (Err(CCSwitchError::AllChannelsFailed), probes)
        },
    }
}

} // verus!
