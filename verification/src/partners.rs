//! Which particles act on a given particle in one step of the direct-summation update:
//! the scan over the particle list that skips the particle itself (recognised by its
//! name) and the particles that are too close to it.
use vstd::prelude::*;
use crate::naming::{lemma_particle_names_distinct, particle_name_of};

verus! {

/// How the scan over the other particles treats a particle that does not act: the
/// parallel update stops the scan there (`break`), the sequential one passes over it
/// (`continue`).
#[derive(Clone, Copy, Debug, PartialEq, Eq, Structural)]
pub enum PartnerScan {
    StopAtFirstExcluded,
    SkipExcluded,
}

/// Particle `j` does not act on particle `index`: it bears the same name, or it is
/// closer than the cut-off distance.
pub open spec fn is_excluded(names: Seq<String>, too_close: Seq<bool>, index: int, j: int) -> bool {
    names[j]@ == names[index]@ || too_close[j]
}

/// The particles among the first `count` that act on particle `index` when excluded
/// ones are passed over, in list order.
pub open spec fn kept_partners(names: Seq<String>, too_close: Seq<bool>, index: int, count: nat) -> Seq<
    usize,
>
    decreases count,
{
    if count == 0 {
        Seq::empty()
    } else {
        let before = kept_partners(names, too_close, index, (count - 1) as nat);
        if is_excluded(names, too_close, index, count - 1) {
            before
        } else {
            before.push((count - 1) as usize)
        }
    }
}

/// The position of the first excluded particle at or after `from`, or the length of the
/// list when there is none.
pub open spec fn first_excluded(names: Seq<String>, too_close: Seq<bool>, index: int, from: nat) -> nat
    decreases names.len() - from,
{
    if from >= names.len() {
        names.len()
    } else if is_excluded(names, too_close, index, from as int) {
        from
    } else {
        first_excluded(names, too_close, index, from + 1)
    }
}

/// The indices `0, 1, ..., count - 1`.
pub open spec fn index_range(count: nat) -> Seq<usize> {
    Seq::new(count, |k: int| k as usize)
}

/// The particles that act on particle `index` in one update step, in list order; `None`
/// when particle `index` is stationary and is not updated at all. With `SkipExcluded`
/// they are all particles that are not excluded; with `StopAtFirstExcluded` they are the
/// particles before the first excluded one.
pub fn interaction_partners(
    names: &Vec<String>,
    stationary: &Vec<bool>,
    too_close: &Vec<bool>,
    index: usize,
    scan: PartnerScan,
) -> (partners: Option<Vec<usize>>)
    requires
        index < names.len(),
        stationary.len() == names.len(),
        too_close.len() == names.len(),
    ensures
        partners is None <==> stationary[index as int],
        partners matches Some(p) ==> p@ == match scan {
            PartnerScan::SkipExcluded => kept_partners(
                names@,
                too_close@,
                index as int,
                names.len() as nat,
            ),
            PartnerScan::StopAtFirstExcluded => index_range(
                first_excluded(names@, too_close@, index as int, 0),
            ),
        },
{
    if stationary[index] {
        return None;
    }
    let mut partners: Vec<usize> = Vec::new();
    let n = names.len();
    let mut j: usize = 0;
    while j < n
        invariant
            n == names.len(),
            too_close.len() == n,
            index < n,
            j <= n,
            scan == PartnerScan::SkipExcluded ==> partners@ == kept_partners(
                names@,
                too_close@,
                index as int,
                j as nat,
            ),
            scan == PartnerScan::StopAtFirstExcluded ==> {
                &&& partners@ == index_range(j as nat)
                &&& first_excluded(names@, too_close@, index as int, 0) == first_excluded(
                    names@,
                    too_close@,
                    index as int,
                    j as nat,
                )
            },
        ensures
            scan == PartnerScan::SkipExcluded ==> partners@ == kept_partners(
                names@,
                too_close@,
                index as int,
                n as nat,
            ),
            scan == PartnerScan::StopAtFirstExcluded ==> partners@ == index_range(
                first_excluded(names@, too_close@, index as int, 0),
            ),
        decreases n - j,
    {
        let excluded = names[j] == names[index] || too_close[j];
        assert(excluded == is_excluded(names@, too_close@, index as int, j as int));
        if excluded {
            match scan {
                PartnerScan::StopAtFirstExcluded => {
                    break ;
                },
                PartnerScan::SkipExcluded => {},
            }
        } else {
            partners.push(j);
        }
        j = j + 1;
    }
    Some(partners)
}

/// The passing-over scan keeps exactly the particles that are not excluded, each once
/// and in increasing order; in particular particle `index` never acts on itself.
pub proof fn lemma_skip_scan_keeps_exactly_the_acting_particles(
    names: Seq<String>,
    too_close: Seq<bool>,
    index: int,
    count: nat,
)
    requires
        0 <= index < names.len() <= usize::MAX,
        too_close.len() == names.len(),
        count <= names.len(),
    ensures
        ({
            let kept = kept_partners(names, too_close, index, count);
            &&& forall|k: int|
                0 <= k < kept.len() ==> #[trigger] kept[k] < count && !is_excluded(
                    names,
                    too_close,
                    index,
                    kept[k] as int,
                )
            &&& forall|j: int|
                0 <= j < count && !is_excluded(names, too_close, index, j) ==> #[trigger] kept.contains(
                    j as usize,
                )
            &&& forall|k1: int, k2: int| 0 <= k1 < k2 < kept.len() ==> kept[k1] < kept[k2]
            &&& !kept.contains(index as usize)
        }),
    decreases count,
{
    let kept = kept_partners(names, too_close, index, count);
    if count > 0 {
        lemma_skip_scan_keeps_exactly_the_acting_particles(names, too_close, index, (count - 1) as nat);
        let before = kept_partners(names, too_close, index, (count - 1) as nat);
        assert forall|j: int|
            0 <= j < count && !is_excluded(names, too_close, index, j) implies #[trigger] kept.contains(
            j as usize,
        ) by {
            if j < count - 1 {
                assert(before.contains(j as usize));
                let k = choose|k: int| 0 <= k < before.len() && before[k] == j as usize;
                assert(kept[k] == j as usize);
            } else {
                assert(kept[kept.len() - 1] == j as usize);
            }
        }
    }
    assert(is_excluded(names, too_close, index, index));
}

/// The prefix of a passing-over scan that comes before the first excluded particle is the
/// run of indices `0, 1, ...` up to that particle.
proof fn lemma_skip_scan_starts_with_a_run(
    names: Seq<String>,
    too_close: Seq<bool>,
    index: int,
    count: nat,
)
    requires
        count <= first_excluded(names, too_close, index, 0),
        first_excluded(names, too_close, index, 0) <= names.len(),
    ensures
        kept_partners(names, too_close, index, count) == index_range(count),
    decreases count,
{
    if count > 0 {
        lemma_skip_scan_starts_with_a_run(names, too_close, index, (count - 1) as nat);
        lemma_no_exclusion_before_first(names, too_close, index, 0, (count - 1) as nat);
        assert(kept_partners(names, too_close, index, count) =~= index_range(count));
    }
}

proof fn lemma_no_exclusion_before_first(
    names: Seq<String>,
    too_close: Seq<bool>,
    index: int,
    from: nat,
    j: nat,
)
    requires
        from <= j < first_excluded(names, too_close, index, from),
    ensures
        !is_excluded(names, too_close, index, j as int),
        first_excluded(names, too_close, index, from) <= names.len(),
    decreases names.len() - from,
{
    if from < names.len() && !is_excluded(names, too_close, index, from as int) {
        if from < j {
            lemma_no_exclusion_before_first(names, too_close, index, from + 1, j);
        } else {
            lemma_first_excluded_bounds(names, too_close, index, from + 1);
        }
    }
}

proof fn lemma_first_excluded_bounds(names: Seq<String>, too_close: Seq<bool>, index: int, from: nat)
    ensures
        first_excluded(names, too_close, index, from) <= names.len() || from > names.len(),
        from <= names.len() ==> from <= first_excluded(names, too_close, index, from),
        first_excluded(names, too_close, index, from) < names.len() ==> is_excluded(
            names,
            too_close,
            index,
            first_excluded(names, too_close, index, from) as int,
        ),
    decreases names.len() - from,
{
    if from < names.len() && !is_excluded(names, too_close, index, from as int) {
        lemma_first_excluded_bounds(names, too_close, index, from + 1);
    }
}

proof fn lemma_kept_partners_extend(
    names: Seq<String>,
    too_close: Seq<bool>,
    index: int,
    short: nat,
    long: nat,
)
    requires
        short <= long,
    ensures
        kept_partners(names, too_close, index, short).len() <= kept_partners(
            names,
            too_close,
            index,
            long,
        ).len(),
        kept_partners(names, too_close, index, long).subrange(
            0,
            kept_partners(names, too_close, index, short).len() as int,
        ) == kept_partners(names, too_close, index, short),
    decreases long,
{
    if short < long {
        lemma_kept_partners_extend(names, too_close, index, short, (long - 1) as nat);
        let a = kept_partners(names, too_close, index, short);
        let b = kept_partners(names, too_close, index, (long - 1) as nat);
        let c = kept_partners(names, too_close, index, long);
        assert(c.subrange(0, a.len() as int) =~= b.subrange(0, a.len() as int));
    } else {
        let a = kept_partners(names, too_close, index, short);
        assert(a.subrange(0, a.len() as int) =~= a);
    }
}

/// The scan that stops at the first excluded particle keeps a prefix of what the scan
/// that passes over excluded particles keeps: stopping only ever loses partners.
pub proof fn lemma_stop_scan_is_prefix_of_skip_scan(
    names: Seq<String>,
    too_close: Seq<bool>,
    index: int,
)
    ensures
        ({
            let stopped = index_range(first_excluded(names, too_close, index, 0));
            let skipped = kept_partners(names, too_close, index, names.len());
            &&& stopped.len() <= skipped.len()
            &&& skipped.subrange(0, stopped.len() as int) == stopped
        }),
{
    lemma_first_excluded_bounds(names, too_close, index, 0);
    let f = first_excluded(names, too_close, index, 0);
    lemma_skip_scan_starts_with_a_run(names, too_close, index, f);
    lemma_kept_partners_extend(names, too_close, index, f, names.len());
}

/// When the particles carry the names that `particle_name` gives them, a particle is
/// excluded exactly when it is the updated particle itself or too close to it: the
/// passing-over scan then keeps every other particle that is not too close, and the
/// stopping scan keeps only particles that come before the updated one in the list.
pub proof fn lemma_scans_over_generated_names(
    names: Seq<String>,
    too_close: Seq<bool>,
    index: int,
)
    requires
        0 <= index < names.len() <= usize::MAX,
        too_close.len() == names.len(),
        forall|j: int| 0 <= j < names.len() ==> #[trigger] names[j]@ == particle_name_of(j as nat),
    ensures
        forall|j: int|
            0 <= j < names.len() ==> (is_excluded(names, too_close, index, j) <==> (j == index
                || #[trigger] too_close[j])),
        forall|j: int|
            0 <= j < names.len() && j != index && !too_close[j] ==> #[trigger] kept_partners(
                names,
                too_close,
                index,
                names.len(),
            ).contains(j as usize),
        first_excluded(names, too_close, index, 0) <= index,
{
    assert forall|j: int|
        0 <= j < names.len() implies (is_excluded(names, too_close, index, j) <==> (j == index
        || #[trigger] too_close[j])) by {
        if j != index {
            lemma_particle_names_distinct(j as nat, index as nat);
        }
    }
    lemma_skip_scan_keeps_exactly_the_acting_particles(names, too_close, index, names.len());
    lemma_first_excluded_bounds(names, too_close, index, 0);
    if first_excluded(names, too_close, index, 0) > index {
        lemma_no_exclusion_before_first(names, too_close, index, 0, index as nat);
    }
}

} // verus!
