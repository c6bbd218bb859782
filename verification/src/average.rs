//! Means on fixed-point integers.
//!
//! Every averaged quantity is a whole number: of thousandths where the
//! quantity is a fraction by nature, of units where it is a count. A mean is
//! the sum of the values over their number, to the nearest whole number. It
//! is carried from one value to the next as that sum and that number, so
//! that it is rounded once, when it is asked for, however many values went
//! into it.

use vstd::prelude::*;

verus! {

/// How many thousandths make one unit.
pub const THOUSANDTHS_PER_UNIT: i128 = 1000;

/// The largest magnitude of a value that can be taken into a mean: with as
/// many such values as a machine can count, their sum still fits the machine
/// integer that carries it.
pub const VALUE_LIMIT: i128 = 0x1_0000_0000_0000_0000;

/// The sum of a series.
pub open spec fn sum(values: Seq<int>) -> int
    decreases values.len(),
{
    if values.len() == 0 {
        0
    } else {
        sum(values.drop_last()) + values.last()
    }
}

/// A total that is not negative over a count that is positive, to the
/// nearest whole number, a half going up.
pub open spec fn rounded_quotient(total: int, count: int) -> int {
    if 2 * (total % count) >= count {
        total / count + 1
    } else {
        total / count
    }
}

/// A total over a count, to the nearest whole number, a half going away
/// from zero; zero where there is nothing to count.
pub open spec fn nearest(total: int, count: int) -> int {
    if count <= 0 {
        0
    } else if total >= 0 {
        rounded_quotient(total, count)
    } else {
        -rounded_quotient(-total, count)
    }
}

/// The mean of a series: its sum over its length, to the nearest whole
/// number. The mean of no values is zero.
pub open spec fn mean_of(values: Seq<int>) -> int {
    nearest(sum(values), values.len() as int)
}

/// The readings that are present, in their order.
pub open spec fn present<T>(readings: Seq<Option<T>>) -> Seq<T>
    decreases readings.len(),
{
    if readings.len() == 0 {
        Seq::empty()
    } else {
        match readings.last() {
            Some(v) => present(readings.drop_last()).push(v),
            None => present(readings.drop_last()),
        }
    }
}

/// A series of zeroes.
pub open spec fn zeros(count: nat) -> Seq<int> {
    Seq::new(count, |i: int| 0int)
}

/// The length of the longest of a series of lists.
pub open spec fn longest(lists: Seq<Seq<int>>) -> nat
    decreases lists.len(),
{
    if lists.len() == 0 {
        0
    } else if lists.last().len() > longest(lists.drop_last()) {
        lists.last().len()
    } else {
        longest(lists.drop_last())
    }
}

/// What a series of lists counts for one position, list by list: the value
/// that the list has there, and for a list too short to have one the mean
/// of what was counted for the position before it. That mean is zero until
/// a list has the position, so that a position counts as zero in the lists
/// before the first that has it.
pub open spec fn counted(lists: Seq<Seq<int>>, position: int) -> Seq<int>
    decreases lists.len(),
{
    if lists.len() == 0 {
        Seq::empty()
    } else {
        let before = counted(lists.drop_last(), position);
        if 0 <= position < lists.last().len() {
            before.push(lists.last()[position])
        } else {
            before.push(mean_of(before))
        }
    }
}

/// The means of a series of lists, position by position, as many as the
/// longest list has positions: each the mean of what the lists count for
/// the position.
pub open spec fn means_of_lists(lists: Seq<Seq<int>>) -> Seq<int> {
    Seq::new(longest(lists), |position: int| mean_of(counted(lists, position)))
}

/// A series of machine integers as mathematical integers.
pub open spec fn as_ints(values: Seq<i64>) -> Seq<int> {
    Seq::new(values.len(), |i: int| values[i] as int)
}

/// The sum of a series with one more value is the sum of the series and
/// the value.
pub proof fn lemma_sum_push(values: Seq<int>, value: int)
    ensures
        sum(values.push(value)) == sum(values) + value,
{
    assert(values.push(value).drop_last() =~= values);
}

/// The sum of a series lies between as many times the least of its values
/// and as many times the greatest as it has values.
pub proof fn lemma_sum_bounds(values: Seq<int>, lo: int, hi: int)
    requires
        forall|j: int| 0 <= j < values.len() ==> lo <= #[trigger] values[j] <= hi,
    ensures
        values.len() * lo <= sum(values) <= values.len() * hi,
    decreases values.len(),
{
    if values.len() > 0 {
        let rest = values.drop_last();
        assert forall|j: int| 0 <= j < rest.len() implies lo <= #[trigger] rest[j] <= hi by {
            assert(rest[j] == values[j]);
        }
        lemma_sum_bounds(rest, lo, hi);
        let n = rest.len() as int;
        assert((n + 1) * lo == n * lo + lo) by (nonlinear_arith);
        assert((n + 1) * hi == n * hi + hi) by (nonlinear_arith);
    }
}

/// A total that is not negative, rounded over its count, lies between two
/// whole numbers wherever the total lies between as many times the one and
/// the other.
proof fn lemma_rounded_quotient_bounds(total: int, count: int, lo: int, hi: int)
    requires
        count >= 1,
        total >= 0,
        count * lo <= total <= count * hi,
    ensures
        lo <= rounded_quotient(total, count) <= hi,
        0 <= rounded_quotient(total, count),
{
    let q = total / count;
    let r = total % count;
    vstd::arithmetic::div_mod::lemma_fundamental_div_mod(total, count);
    vstd::arithmetic::div_mod::lemma_mod_bound(total, count);
    assert(total == count * q + r);
    assert(q >= 0) by (nonlinear_arith)
        requires
            total == count * q + r,
            total >= 0,
            0 <= r < count,
            count >= 1,
    ;
    assert(lo <= q) by (nonlinear_arith)
        requires
            total == count * q + r,
            count * lo <= total,
            0 <= r < count,
            count >= 1,
    ;
    assert(q <= hi) by (nonlinear_arith)
        requires
            total == count * q + r,
            total <= count * hi,
            0 <= r < count,
            count >= 1,
    ;
    if q == hi {
        assert(r == 0) by (nonlinear_arith)
            requires
                total == count * q + r,
                total <= count * hi,
                q == hi,
                0 <= r,
        ;
    }
}

/// A total over its count, to the nearest whole number, lies between two
/// whole numbers wherever the total lies between as many times the one and
/// the other.
pub proof fn lemma_nearest_bounds(total: int, count: int, lo: int, hi: int)
    requires
        count >= 1,
        count * lo <= total <= count * hi,
    ensures
        lo <= nearest(total, count) <= hi,
{
    if total >= 0 {
        lemma_rounded_quotient_bounds(total, count, lo, hi);
    } else {
        assert(count * (-hi) == -(count * hi)) by (nonlinear_arith);
        assert(count * (-lo) == -(count * lo)) by (nonlinear_arith);
        lemma_rounded_quotient_bounds(-total, count, -hi, -lo);
    }
}

/// A total over its count, to the nearest whole number, is no further from
/// the total over the count than half of one: as many times it as the
/// count is within half the count of the total.
pub proof fn lemma_nearest_is_nearest(total: int, count: int)
    requires
        count >= 1,
    ensures
        -count <= 2 * (count * nearest(total, count) - total) <= count,
{
    let size = if total >= 0 {
        total
    } else {
        -total
    };
    let q = size / count;
    let r = size % count;
    vstd::arithmetic::div_mod::lemma_fundamental_div_mod(size, count);
    vstd::arithmetic::div_mod::lemma_mod_bound(size, count);
    assert(count * (q + 1) == count * q + count) by (nonlinear_arith);
    assert(count * (-q) == -(count * q)) by (nonlinear_arith);
    assert(count * (-(q + 1)) == -(count * q) - count) by (nonlinear_arith);
}

/// The mean of a series lies between the least and the greatest of its
/// values. (The mean of no values is zero.)
pub proof fn lemma_mean_of_bounds(values: Seq<int>, lo: int, hi: int)
    requires
        forall|j: int| 0 <= j < values.len() ==> lo <= #[trigger] values[j] <= hi,
        values.len() > 0 || lo <= 0 <= hi,
    ensures
        lo <= mean_of(values) <= hi,
{
    if values.len() > 0 {
        lemma_sum_bounds(values, lo, hi);
        lemma_nearest_bounds(sum(values), values.len() as int, lo, hi);
    }
}

/// The mean of a single value is that value.
pub proof fn lemma_mean_of_single(value: int)
    ensures
        mean_of(seq![value]) == value,
{
    let s = seq![value];
    assert(s[0] == value);
    lemma_mean_of_bounds(s, value, value);
}

/// The sum and the mean of nothing but zeroes are zero.
pub proof fn lemma_zeros(count: nat)
    ensures
        sum(zeros(count)) == 0,
        mean_of(zeros(count)) == 0,
    decreases count,
{
    if count > 0 {
        lemma_zeros((count - 1) as nat);
        assert(zeros(count).drop_last() =~= zeros((count - 1) as nat));
        lemma_mean_of_bounds(zeros(count), 0, 0);
    }
}

/// There are no more present readings than readings.
pub proof fn lemma_present_len<T>(readings: Seq<Option<T>>)
    ensures
        present(readings).len() <= readings.len(),
    decreases readings.len(),
{
    if readings.len() > 0 {
        lemma_present_len(readings.drop_last());
    }
}

/// The present readings of two series, one after the other, are those of
/// the first followed by those of the second.
pub proof fn lemma_present_add<T>(first: Seq<Option<T>>, second: Seq<Option<T>>)
    ensures
        present(first + second) == present(first) + present(second),
    decreases second.len(),
{
    if second.len() == 0 {
        assert(first + second =~= first);
        assert(present(first) + present(second) =~= present(first));
    } else {
        lemma_present_add(first, second.drop_last());
        assert((first + second).drop_last() =~= first + second.drop_last());
        assert(present(first + second) =~= present(first) + present(second));
    }
}

/// Every present reading is one of the readings: a bound on all of them is
/// a bound on the present ones.
pub proof fn lemma_present_bounds(readings: Seq<Option<int>>, lo: int, hi: int)
    requires
        forall|k: int|
            0 <= k < readings.len() ==> (#[trigger] readings[k] matches Some(v) ==> lo <= v <= hi),
    ensures
        forall|j: int|
            0 <= j < present(readings).len() ==> lo <= #[trigger] present(readings)[j] <= hi,
    decreases readings.len(),
{
    if readings.len() > 0 {
        let rest = readings.drop_last();
        assert forall|k: int| 0 <= k < rest.len() implies (#[trigger] rest[k] matches Some(v)
            ==> lo <= v <= hi) by {
            assert(rest[k] == readings[k]);
        }
        lemma_present_bounds(rest, lo, hi);
        let last = readings[readings.len() - 1];
        assert(last == readings.last());
        assert forall|j: int| 0 <= j < present(readings).len() implies lo <= #[trigger] present(
            readings,
        )[j] <= hi by {
            if j < present(rest).len() {
                assert(present(readings)[j] == present(rest)[j]);
            }
        }
    }
}

/// What is counted for a position is one value for each list, each within
/// the bounds of the values of the lists.
pub proof fn lemma_counted_bounds(lists: Seq<Seq<int>>, position: int, lo: int, hi: int)
    requires
        lo <= 0 <= hi,
        forall|j: int, k: int|
            0 <= j < lists.len() && 0 <= k < lists[j].len() ==> lo <= #[trigger] lists[j][k] <= hi,
    ensures
        counted(lists, position).len() == lists.len(),
        forall|j: int|
            0 <= j < lists.len() ==> lo <= #[trigger] counted(lists, position)[j] <= hi,
        lo <= mean_of(counted(lists, position)) <= hi,
    decreases lists.len(),
{
    if lists.len() > 0 {
        let rest = lists.drop_last();
        assert forall|j: int, k: int| 0 <= j < rest.len() && 0 <= k < rest[j].len() implies lo
            <= #[trigger] rest[j][k] <= hi by {
            assert(rest[j] == lists[j]);
        }
        lemma_counted_bounds(rest, position, lo, hi);
        if 0 <= position < lists.last().len() {
            assert(lo <= lists[lists.len() - 1][position] <= hi);
        }
    }
    lemma_mean_of_bounds(counted(lists, position), lo, hi);
}

/// A position that none of the lists has counts as zero in all of them.
pub proof fn lemma_counted_unseen(lists: Seq<Seq<int>>, position: int)
    requires
        position >= longest(lists),
    ensures
        counted(lists, position) == zeros(lists.len()),
    decreases lists.len(),
{
    if lists.len() > 0 {
        let rest = lists.drop_last();
        lemma_counted_unseen(rest, position);
        lemma_zeros(rest.len());
        assert(counted(lists, position) =~= zeros(lists.len()));
    } else {
        assert(counted(lists, position) =~= zeros(lists.len()));
    }
}

/// Whether every list of a series has a position.
pub open spec fn in_every_list(lists: Seq<Seq<int>>, position: int) -> bool {
    forall|j: int| 0 <= j < lists.len() ==> #[trigger] has_position(lists[j], position)
}

/// Whether a list has a position.
pub open spec fn has_position(list: Seq<int>, position: int) -> bool {
    0 <= position < list.len()
}

/// What the lists of a series have at a position that each of them has.
pub open spec fn column(lists: Seq<Seq<int>>, position: int) -> Seq<int> {
    Seq::new(lists.len(), |j: int| lists[j][position])
}

/// Where every list has the position, what is counted for it is what the
/// lists have there, and so its mean is the sum of that over the number of
/// lists, to the nearest whole number.
pub proof fn lemma_counted_in_every_list(lists: Seq<Seq<int>>, position: int)
    requires
        in_every_list(lists, position),
    ensures
        counted(lists, position) == column(lists, position),
    decreases lists.len(),
{
    if lists.len() > 0 {
        let rest = lists.drop_last();
        let last = lists.len() - 1;
        assert forall|j: int| 0 <= j < rest.len() implies #[trigger] has_position(
            rest[j],
            position,
        ) by {
            assert(rest[j] == lists[j]);
            assert(has_position(lists[j], position));
        }
        lemma_counted_in_every_list(rest, position);
        assert(lists.last() == lists[last]);
        assert(has_position(lists[last], position));
        assert(column(lists, position).drop_last() =~= column(rest, position));
        assert(counted(lists, position) =~= column(lists, position));
    } else {
        assert(counted(lists, position) =~= column(lists, position));
    }
}

/// A mean in the making: the sum of the values taken in so far, held as
/// what the values above zero and the values below zero come to, and their
/// number.
pub struct RunningMean {
    positive: u128,
    negative: u128,
    count: usize,
    values: Ghost<Seq<int>>,
}

impl RunningMean {
    /// The sum and the count are those of the values taken in so far, none
    /// of which was beyond the limit.
    pub closed spec fn wf(&self) -> bool {
        &&& self.count == self.values@.len()
        &&& self.positive - self.negative == sum(self.values@)
        &&& self.positive <= self.count * VALUE_LIMIT
        &&& self.negative <= self.count * VALUE_LIMIT
        &&& forall|j: int|
            0 <= j < self.values@.len() ==> -VALUE_LIMIT <= #[trigger] self.values@[j]
                <= VALUE_LIMIT
    }

    /// The values taken in so far, in their order.
    pub closed spec fn values(&self) -> Seq<int> {
        self.values@
    }

    /// A mean of no values yet.
    pub fn new() -> (fresh: RunningMean)
        ensures
            fresh.wf(),
            fresh.values() == Seq::<int>::empty(),
    {
        RunningMean { positive: 0, negative: 0, count: 0, values: Ghost(Seq::empty()) }
    }

    /// A mean of as many zeroes as asked for.
    pub fn zeros(count: usize) -> (fresh: RunningMean)
        ensures
            fresh.wf(),
            fresh.values() == zeros(count as nat),
    {
        proof {
            lemma_zeros(count as nat);
            assert(0 <= count * VALUE_LIMIT) by (nonlinear_arith)
                requires
                    count >= 0,
            ;
        }
        RunningMean { positive: 0, negative: 0, count, values: Ghost(zeros(count as nat)) }
    }

    /// The mean with one more value taken in.
    pub fn updated_average(&self, new_value: i128) -> (updated: RunningMean)
        requires
            self.wf(),
            self.values().len() < usize::MAX,
            -VALUE_LIMIT <= new_value <= VALUE_LIMIT,
        ensures
            updated.wf(),
            updated.values() == self.values().push(new_value as int),
    {
        proof {
            lemma_sum_push(self.values@, new_value as int);
            let n = self.count as int;
            assert((n + 1) * VALUE_LIMIT == n * VALUE_LIMIT + VALUE_LIMIT) by (nonlinear_arith);
            assert((n + 1) * VALUE_LIMIT <= usize::MAX * VALUE_LIMIT) by (nonlinear_arith)
                requires
                    n + 1 <= usize::MAX,
            ;
        }
        if new_value >= 0 {
            RunningMean {
                positive: self.positive + new_value as u128,
                negative: self.negative,
                count: self.count + 1,
                values: Ghost(self.values@.push(new_value as int)),
            }
        } else {
            RunningMean {
                positive: self.positive,
                negative: self.negative + (-new_value) as u128,
                count: self.count + 1,
                values: Ghost(self.values@.push(new_value as int)),
            }
        }
    }

    /// The mean of the values taken in so far; zero where there was none.
    pub fn mean(&self) -> (mean: i128)
        requires
            self.wf(),
        ensures
            mean == mean_of(self.values()),
            -VALUE_LIMIT <= mean <= VALUE_LIMIT,
    {
        proof {
            lemma_mean_of_bounds(self.values@, -VALUE_LIMIT as int, VALUE_LIMIT as int);
        }
        if self.count == 0 {
            0
        } else if self.positive >= self.negative {
            rounded(self.positive - self.negative, self.count) as i128
        } else {
            -(rounded(self.negative - self.positive, self.count) as i128)
        }
    }

    /// How many values were taken in so far.
    pub fn count(&self) -> (count: usize)
        requires
            self.wf(),
        ensures
            count == self.values().len(),
    {
        self.count
    }
}

/// A total over a count, to the nearest whole number, a half going up.
fn rounded(total: u128, count: usize) -> (quotient: u128)
    requires
        count >= 1,
        rounded_quotient(total as int, count as int) <= VALUE_LIMIT,
    ensures
        quotient == rounded_quotient(total as int, count as int),
{
    let whole: u128 = total / count as u128;
    let rest: u128 = total % count as u128;
    if rest >= count as u128 - rest {
        whole + 1
    } else {
        whole
    }
}

/// Takes one more list of values into a list of means, position by
/// position.
///
/// `n` is the number of lists taken in, the new one included. Where the new
/// list is the longer, the means are first extended to its length with means
/// of nothing but zeroes; a mean beyond the end of the new list takes in
/// what it has come to so far, and so stays what it is.
pub fn update_averages(averages: &mut Vec<RunningMean>, new_values: &[i64], n: usize)
    requires
        n >= 1,
        forall|k: int|
            0 <= k < old(averages).len() ==> (#[trigger] old(averages)[k]).wf() && old(
                averages,
            )[k].values().len() == n - 1,
    ensures
        final(averages).len() == if old(averages).len() >= new_values.len() {
            old(averages).len()
        } else {
            new_values.len()
        },
        forall|k: int| 0 <= k < final(averages).len() ==> (#[trigger] final(averages)[k]).wf(),
        forall|k: int|
            0 <= k < final(averages).len() ==> (#[trigger] final(averages)[k]).values() == (if k
                < old(averages).len() {
                old(averages)[k].values()
            } else {
                zeros((n - 1) as nat)
            }).push(
                if k < new_values.len() {
                    new_values[k] as int
                } else {
                    mean_of(old(averages)[k].values())
                },
            ),
{
    let ghost before = averages@;
    while averages.len() < new_values.len()
        invariant
            n >= 1,
            before.len() <= averages.len(),
            averages.len() <= before.len() || averages.len() <= new_values.len(),
            forall|k: int| 0 <= k < before.len() ==> averages[k] == before[k],
            forall|k: int|
                0 <= k < averages.len() ==> (#[trigger] averages[k]).wf()
                    && averages[k].values().len() == n - 1,
            forall|k: int|
                before.len() <= k < averages.len() ==> (#[trigger] averages[k]).values() == zeros(
                    (n - 1) as nat,
                ),
        decreases new_values.len() - averages.len(),
    {
        averages.push(RunningMean::zeros(n - 1));
    }
    let ghost padded = averages@;
    let mut i: usize = 0;
    while i < averages.len()
        invariant
            n >= 1,
            i <= averages.len(),
            new_values.len() <= averages.len(),
            averages.len() == padded.len(),
            forall|k: int|
                0 <= k < padded.len() ==> (#[trigger] padded[k]).wf() && padded[k].values().len()
                    == n - 1,
            forall|k: int| i <= k < averages.len() ==> #[trigger] averages[k] == padded[k],
            forall|k: int| 0 <= k < i ==> (#[trigger] averages[k]).wf(),
            forall|k: int|
                0 <= k < i ==> (#[trigger] averages[k]).values() == padded[k].values().push(
                    if k < new_values.len() {
                        new_values[k] as int
                    } else {
                        mean_of(padded[k].values())
                    },
                ),
        decreases averages.len() - i,
    {
        let new_value: i128 = if i < new_values.len() {
            new_values[i] as i128
        } else {
            averages[i].mean()
        };
        let updated = averages[i].updated_average(new_value);
        averages.set(i, updated);
        i += 1;
    }
    proof {
        lemma_zeros((n - 1) as nat);
    }
}

} // verus!
