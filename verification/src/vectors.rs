//! Component-wise vector arithmetic, generic in the component type.
use vstd::prelude::*;
use core::ops::{Add, Sub};
use vstd::std_specs::ops::{AddSpec, SubSpec};

verus! {

/// Component `i` of the sum of two vectors.
pub open spec fn sum_component<T: Add<Output = T>>(v1: Seq<T>, v2: Seq<T>, i: int) -> T {
    v1[i].add_spec(v2[i])
}

/// Adds two vectors component by component; the result has the length of `vector1`,
/// and `vector2` must have at least that many components.
pub fn add_vectors<T: Copy + Add<Output = T>>(vector1: &Vec<T>, vector2: &Vec<T>) -> (sum: Vec<T>)
    requires
        vector1.len() <= vector2.len(),
        forall|i: int| 0 <= i < vector1.len() ==> #[trigger] vector1[i].add_req(vector2[i]),
    ensures
        sum.len() == vector1.len(),
        T::obeys_add_spec() ==> forall|i: int| 0 <= i < sum.len() ==>
            #[trigger] sum[i] == sum_component(vector1@, vector2@, i),
        T::obeys_add_spec() ==> forall|i: int| 0 <= i < sum.len() ==>
            #[trigger] sum[i] == vector1[i].add_spec(vector2[i]),
{
    let mut sum: Vec<T> = Vec::new();
    let n = vector1.len();
    for k in 0..n
        invariant
            n == vector1.len(),
            n <= vector2.len(),
            forall|i: int| 0 <= i < vector1.len() ==> #[trigger] vector1[i].add_req(vector2[i]),
            sum.len() == k,
            T::obeys_add_spec() ==> forall|i: int| 0 <= i < k ==>
                #[trigger] sum[i] == sum_component(vector1@, vector2@, i),
    {
        let c = vector1[k] + vector2[k];
        sum.push(c);
    }
    sum
}

/// Component `i` of the difference of two vectors.
pub open spec fn difference_component<T: Sub<Output = T>>(v1: Seq<T>, v2: Seq<T>, i: int) -> T {
    v1[i].sub_spec(v2[i])
}

/// Subtracts `vector2` from `vector1` component by component; the result has the length
/// of `vector1`, which must not be empty, and `vector2` must have at least that many
/// components.
pub fn sub_vectors<T: Copy + Sub<Output = T>>(vector1: &Vec<T>, vector2: &Vec<T>) -> (difference: Vec<T>)
    requires
        1 <= vector1.len() <= vector2.len(),
        forall|i: int| 0 <= i < vector1.len() ==> #[trigger] vector1[i].sub_req(vector2[i]),
    ensures
        difference.len() == vector1.len(),
        T::obeys_sub_spec() ==> forall|i: int| 0 <= i < difference.len() ==>
            #[trigger] difference[i] == difference_component(vector1@, vector2@, i),
        T::obeys_sub_spec() ==> forall|i: int| 0 <= i < difference.len() ==>
            #[trigger] difference[i] == vector1[i].sub_spec(vector2[i]),
{
    let mut difference: Vec<T> = Vec::new();
    for k in 0..vector1.len()
        invariant
            vector1.len() <= vector2.len(),
            forall|i: int| 0 <= i < vector1.len() ==> #[trigger] vector1[i].sub_req(vector2[i]),
            difference.len() == k,
            T::obeys_sub_spec() ==> forall|i: int| 0 <= i < k ==>
                #[trigger] difference[i] == difference_component(vector1@, vector2@, i),
    {
        let c = vector1[k] - vector2[k];
        difference.push(c);
    }
    difference
}

/// Every component of a sum is the sum of the two components at that position, for
/// every position and whatever the lengths of the vectors.
pub proof fn lemma_sum_components_add<T: Add<Output = T>>(v1: Seq<T>, v2: Seq<T>)
    ensures
        forall|i: int| #[trigger] sum_component(v1, v2, i) == v1[i].add_spec(v2[i]),
{
}

/// Every component of a difference is the difference of the two components at that
/// position, for every position and whatever the lengths of the vectors.
pub proof fn lemma_difference_components_subtract<T: Sub<Output = T>>(v1: Seq<T>, v2: Seq<T>)
    ensures
        forall|i: int| #[trigger] difference_component(v1, v2, i) == v1[i].sub_spec(v2[i]),
{
}

/// For integer components, component `i` of the sum is the integer sum
/// `v1[i] + v2[i]`, and component `i` of the difference is `v1[i] - v2[i]`.
pub proof fn lemma_integer_components(v1: Seq<i64>, v2: Seq<i64>, i: int)
    requires
        0 <= i < v1.len(),
        i < v2.len(),
    ensures
        v1[i].add_req(v2[i]) ==> sum_component(v1, v2, i) as int == v1[i] as int + v2[i] as int,
        v1[i].sub_req(v2[i]) ==> difference_component(v1, v2, i) as int == v1[i] as int
            - v2[i] as int,
{
}

/// Subtracting a vector undoes adding it: for integer components, component `i` of
/// `(v1 + v2) - v2` is `v1[i]`.
pub proof fn lemma_sub_undoes_add(v1: Seq<i64>, v2: Seq<i64>, sum: Seq<i64>, i: int)
    requires
        0 <= i < v1.len(),
        i < v2.len(),
        i < sum.len(),
        v1[i].add_req(v2[i]),
        sum[i] == sum_component(v1, v2, i),
    ensures
        sum[i].sub_req(v2[i]),
        difference_component(sum, v2, i) == v1[i],
{
}

} // verus!
