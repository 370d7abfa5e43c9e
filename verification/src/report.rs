//! A summary of the instructions that were left out.

use vstd::prelude::*;

use crate::address::Address;
use crate::output::Untranslated;
use crate::text::{comes_before, same_text};
#[allow(unused_imports)]
use crate::text::{text_before, text_before_irreflexive, text_before_total, text_before_transitive};

verus! {

/// How often a reason occurs, and where it occurs first.
#[derive(Debug)]
pub struct ReasonCount {
    pub reason: String,
    pub count: usize,
    pub first: Address,
}

/// What a [`ReasonCount`] says.
pub struct ReasonCountView {
    pub reason: Seq<char>,
    pub count: usize,
    pub first: Address,
}

impl View for ReasonCount {
    type V = ReasonCountView;

    open spec fn view(&self) -> ReasonCountView {
        ReasonCountView { reason: self.reason@, count: self.count, first: self.first }
    }
}

/// How many of `instructions` were left out for `reason`.
pub open spec fn occurrences(instructions: Seq<Untranslated>, reason: Seq<char>) -> nat
    decreases instructions.len(),
{
    if instructions.len() == 0 {
        0
    } else {
        let earlier = occurrences(instructions.drop_last(), reason);
        if instructions.last().reason@ == reason {
            earlier + 1
        } else {
            earlier
        }
    }
}

/// Where the first of `instructions` is that was left out for `reason`, if there is one.
pub open spec fn first_occurrence(instructions: Seq<Untranslated>, reason: Seq<char>) -> Option<
    Address,
>
    decreases instructions.len(),
{
    if instructions.len() == 0 {
        None
    } else {
        match first_occurrence(instructions.drop_last(), reason) {
            Some(address) => Some(address),
            None => if instructions.last().reason@ == reason {
                Some(instructions.last().address)
            } else {
                None
            },
        }
    }
}

/// Whether `row` is what is to be said of its reason.
pub open spec fn tallies(row: ReasonCountView, instructions: Seq<Untranslated>) -> bool {
    &&& row.count == occurrences(instructions, row.reason)
    &&& first_occurrence(instructions, row.reason) == Some(row.first)
}

/// Whether `left` stands before `right` in a report: the more frequent reason first, and of two
/// that are equally frequent, the one that comes first as a text.
pub open spec fn stands_before(left: ReasonCountView, right: ReasonCountView) -> bool {
    left.count > right.count || (left.count == right.count && text_before(
        left.reason,
        right.reason,
    ))
}

/// Rows as what they say.
pub open spec fn rows_said(rows: Seq<ReasonCount>) -> Seq<ReasonCountView> {
    rows.map_values(|row: ReasonCount| row@)
}

/// Whether `rows` has a row for `reason`.
pub open spec fn mentions(rows: Seq<ReasonCountView>, reason: Seq<char>) -> bool {
    exists|i: int| 0 <= i < rows.len() && (#[trigger] rows[i]).reason == reason
}

/// Whether `rows` says of each reason that occurs what is to be said of it.
pub open spec fn accounts_for(rows: Seq<ReasonCountView>, instructions: Seq<Untranslated>) -> bool {
    &&& forall|i: int| 0 <= i < rows.len() ==> tallies(#[trigger] rows[i], instructions)
    &&& forall|reason: Seq<char>| #[trigger]
        occurrences(instructions, reason) > 0 ==> mentions(rows, reason)
}

/// Whether `rows` is the report on `instructions`: it says of each reason that occurs what is to
/// be said of it, in the order of reports.
pub open spec fn reports(rows: Seq<ReasonCountView>, instructions: Seq<Untranslated>) -> bool {
    &&& accounts_for(rows, instructions)
    &&& forall|i: int, j: int|
        0 <= i < j < rows.len() ==> stands_before(#[trigger] rows[i], #[trigger] rows[j])
}

/// A reason occurs if and only if it has a first occurrence.
pub proof fn occurs_somewhere(instructions: Seq<Untranslated>, reason: Seq<char>)
    ensures
        occurrences(instructions, reason) > 0 <==> first_occurrence(instructions, reason) is Some,
        occurrences(instructions, reason) <= instructions.len(),
    decreases instructions.len(),
{
    if instructions.len() > 0 {
        occurs_somewhere(instructions.drop_last(), reason);
    }
}

/// The row of `rows` for `reason`, if there is one.
fn find_reason(rows: &Vec<ReasonCount>, reason: &str) -> (found: Option<usize>)
    ensures
        match found {
            Some(i) => i < rows@.len() && rows@[i as int].reason@ == reason@,
            None => forall|i: int| 0 <= i < rows@.len() ==> (#[trigger] rows@[i]).reason@ != reason@,
        },
{
    for i in 0..rows.len()
        invariant
            forall|j: int| 0 <= j < i ==> (#[trigger] rows@[j]).reason@ != reason@,
    {
        if same_text(rows[i].reason.as_str(), reason) {
            return Some(i);
        }
    }
    None
}

/// Whether no two rows are for the same reason.
spec fn distinct(rows: Seq<ReasonCount>) -> bool {
    forall|i: int, j: int|
        0 <= i < j < rows.len() ==> (#[trigger] rows[i]).reason@ != (#[trigger] rows[j]).reason@
}

/// Counts the reasons, in the order in which they occur first.
fn count_reasons(instructions: &[Untranslated]) -> (rows: Vec<ReasonCount>)
    ensures
        distinct(rows@),
        accounts_for(rows_said(rows@), instructions@),
{
    let mut rows: Vec<ReasonCount> = Vec::new();
    let mut n: usize = 0;
    while n < instructions.len()
        invariant
            n <= instructions@.len(),
            distinct(rows@),
            forall|i: int|
                0 <= i < rows@.len() ==> tallies((#[trigger] rows@[i])@, instructions@.take(n as int)),
            forall|reason: Seq<char>| #[trigger]
                occurrences(instructions@.take(n as int), reason) > 0 ==> exists|i: int|
                    0 <= i < rows@.len() && (#[trigger] rows@[i]).reason@ == reason,
        decreases instructions@.len() - n,
    {
        let ghost before = instructions@.take(n as int);
        let ghost after = instructions@.take(n + 1);
        let ghost earlier = rows@;
        let ghost reason = instructions@[n as int].reason@;
        proof {
            assert(after.drop_last() == before);
            assert(after.last() == instructions@[n as int]);
            occurs_somewhere(before, reason);
            occurs_somewhere(after, reason);
        }
        match find_reason(&rows, instructions[n].reason()) {
            Some(i) => {
                let count = rows[i].count;
                assert(tallies(rows@[i as int]@, before));
                let row = ReasonCount {
                    reason: rows[i].reason.clone(),
                    count: count + 1,
                    first: rows[i].first,
                };
                rows.set(i, row);
                assert forall|j: int| 0 <= j < rows@.len() implies tallies(
                    (#[trigger] rows@[j])@,
                    after,
                ) by {
                    assert(tallies(earlier[j]@, before));
                }
                assert forall|other: Seq<char>| #[trigger]
                    occurrences(after, other) > 0 implies exists|j: int|
                    0 <= j < rows@.len() && (#[trigger] rows@[j]).reason@ == other by {
                    if other != reason {
                        assert(occurrences(before, other) > 0);
                        let j = choose|j: int|
                            0 <= j < earlier.len() && (#[trigger] earlier[j]).reason@ == other;
                        assert(rows@[j].reason@ == other);
                    } else {
                        assert(rows@[i as int].reason@ == other);
                    }
                }
            },
            None => {
                proof {
                    if occurrences(before, reason) > 0 {
                        let j = choose|j: int|
                            0 <= j < earlier.len() && (#[trigger] earlier[j]).reason@ == reason;
                        assert(earlier[j].reason@ != reason);
                    }
                }
                rows.push(
                    ReasonCount {
                        reason: instructions[n].reason.clone(),
                        count: 1,
                        first: instructions[n].address(),
                    },
                );
                assert forall|j: int| 0 <= j < rows@.len() implies tallies(
                    (#[trigger] rows@[j])@,
                    after,
                ) by {
                    if j < earlier.len() {
                        assert(tallies(earlier[j]@, before));
                        assert(rows@[j] == earlier[j]);
                    }
                }
                assert forall|other: Seq<char>| #[trigger]
                    occurrences(after, other) > 0 implies exists|j: int|
                    0 <= j < rows@.len() && (#[trigger] rows@[j]).reason@ == other by {
                    if other != reason {
                        assert(occurrences(before, other) > 0);
                        let j = choose|j: int|
                            0 <= j < earlier.len() && (#[trigger] earlier[j]).reason@ == other;
                        assert(rows@[j].reason@ == other);
                    } else {
                        assert(rows@[earlier.len() as int].reason@ == other);
                    }
                }
            },
        }
        n += 1;
    }
    proof {
        assert(instructions@.take(instructions@.len() as int) == instructions@);
        let said = rows_said(rows@);
        assert forall|i: int| 0 <= i < said.len() implies tallies(
            #[trigger] said[i],
            instructions@,
        ) by {
            assert(said[i] == rows@[i]@);
        }
        assert forall|reason: Seq<char>| #[trigger]
            occurrences(instructions@, reason) > 0 implies mentions(said, reason) by {
            let i = choose|i: int| 0 <= i < rows@.len() && (#[trigger] rows@[i]).reason@ == reason;
            assert(said[i].reason == reason);
        }
    }
    rows
}

/// The order of reports is transitive.
pub proof fn stands_before_transitive(a: ReasonCountView, b: ReasonCountView, c: ReasonCountView)
    requires
        stands_before(a, b),
        stands_before(b, c),
    ensures
        stands_before(a, c),
{
    if a.count == b.count && b.count == c.count {
        text_before_transitive(a.reason, b.reason, c.reason);
    }
}

/// No row stands before itself.
pub proof fn stands_before_irreflexive(row: ReasonCountView)
    ensures
        !stands_before(row, row),
{
    text_before_irreflexive(row.reason);
}

/// Of two rows for different reasons, one stands before the other.
pub proof fn stands_before_total(a: ReasonCountView, b: ReasonCountView)
    requires
        a.reason != b.reason,
    ensures
        stands_before(a, b) || stands_before(b, a),
{
    text_before_total(a.reason, b.reason);
}

/// Whether `left` stands before `right` in a report.
fn is_before(left: &ReasonCount, right: &ReasonCount) -> (before: bool)
    ensures
        before == stands_before(left@, right@),
{
    left.count > right.count || (left.count == right.count && comes_before(
        left.reason.as_str(),
        right.reason.as_str(),
    ))
}

/// Whether `rows` is in the order of reports.
spec fn ordered(rows: Seq<ReasonCount>) -> bool {
    forall|i: int, j: int|
        0 <= i < j < rows.len() ==> stands_before((#[trigger] rows[i])@, (#[trigger] rows[j])@)
}

/// Puts `row` in its place among rows for other reasons.
fn insert_row(rows: &mut Vec<ReasonCount>, row: ReasonCount)
    requires
        ordered(old(rows)@),
        forall|i: int|
            0 <= i < old(rows)@.len() ==> (#[trigger] old(rows)@[i]).reason@ != row.reason@,
    ensures
        ordered(final(rows)@),
        exists|place: int|
            0 <= place <= old(rows)@.len() && final(rows)@ == #[trigger] old(rows)@.insert(place, row),
{
    let ghost earlier = rows@;
    let mut place: usize = 0;
    while place < rows.len() && !is_before(&row, &rows[place])
        invariant
            rows@ == earlier,
            place <= rows@.len(),
            forall|i: int| 0 <= i < place ==> !stands_before(row@, (#[trigger] rows@[i])@),
        decreases rows@.len() - place,
    {
        place += 1;
    }
    let ghost inserted = row;
    rows.insert(place, row);
    proof {
        assert(rows@ == earlier.insert(place as int, inserted));
        assert forall|i: int, j: int| 0 <= i < j < rows@.len() implies stands_before(
            (#[trigger] rows@[i])@,
            (#[trigger] rows@[j])@,
        ) by {
            let p = place as int;
            if j < p {
                assert(rows@[i] == earlier[i] && rows@[j] == earlier[j]);
            } else if j == p {
                assert(rows@[i] == earlier[i]);
                stands_before_total(earlier[i]@, inserted@);
            } else if i < p {
                assert(rows@[i] == earlier[i] && rows@[j] == earlier[j - 1]);
            } else if i == p {
                assert(rows@[j] == earlier[j - 1]);
                if j - 1 > p {
                    assert(stands_before(earlier[p]@, earlier[j - 1]@));
                    stands_before_transitive(inserted@, earlier[p]@, earlier[j - 1]@);
                }
            } else {
                assert(rows@[i] == earlier[i - 1] && rows@[j] == earlier[j - 1]);
            }
        }
    }
}

/// Whether one of `rows` is for `reason`.
spec fn has_reason(rows: Seq<ReasonCount>, reason: Seq<char>) -> bool {
    exists|i: int| 0 <= i < rows.len() && (#[trigger] rows[i]).reason@ == reason
}

/// Sums up which instructions were left out: each reason with its number of occurrences and the
/// first of them, the most frequent reason first.
pub fn report_untranslated(instructions: &[Untranslated]) -> (rows: Vec<ReasonCount>)
    ensures
        reports(rows_said(rows@), instructions@),
{
    let mut counted = count_reasons(instructions);
    let mut rows: Vec<ReasonCount> = Vec::new();
    proof {
        let said = rows_said(counted@);
        assert forall|i: int| 0 <= i < counted@.len() implies tallies(
            (#[trigger] counted@[i])@,
            instructions@,
        ) by {
            assert(said[i] == counted@[i]@);
        }
        assert forall|reason: Seq<char>| #[trigger]
            occurrences(instructions@, reason) > 0 implies has_reason(counted@, reason) by {
            let i = choose|i: int| 0 <= i < said.len() && (#[trigger] said[i]).reason == reason;
            assert(counted@[i].reason@ == reason);
        }
    }
    while counted.len() > 0
        invariant
            distinct(counted@),
            ordered(rows@),
            forall|i: int, j: int|
                0 <= i < counted@.len() && 0 <= j < rows@.len() ==> (#[trigger] counted@[i]).reason@
                    != (#[trigger] rows@[j]).reason@,
            forall|i: int|
                0 <= i < counted@.len() ==> tallies((#[trigger] counted@[i])@, instructions@),
            forall|i: int| 0 <= i < rows@.len() ==> tallies((#[trigger] rows@[i])@, instructions@),
            forall|reason: Seq<char>| #[trigger]
                occurrences(instructions@, reason) > 0 ==> has_reason(counted@, reason)
                    || has_reason(rows@, reason),
        decreases counted@.len(),
    {
        let ghost more = counted@;
        let ghost fewer = rows@;
        let row = counted.pop().unwrap();
        let ghost moved = row;
        assert(moved == more.last());
        insert_row(&mut rows, row);
        proof {
            let place = choose|place: int|
                0 <= place <= fewer.len() && rows@ == #[trigger] fewer.insert(place, moved);
            assert forall|j: int| 0 <= j < rows@.len() implies (#[trigger] rows@[j]) == moved
                || exists|k: int| 0 <= k < fewer.len() && rows@[j] == #[trigger] fewer[k] by {
                if j < place {
                    assert(rows@[j] == fewer[j]);
                } else if j > place {
                    assert(rows@[j] == fewer[j - 1]);
                }
            }
            assert forall|reason: Seq<char>| #[trigger]
                occurrences(instructions@, reason) > 0 implies has_reason(counted@, reason)
                || has_reason(rows@, reason) by {
                if has_reason(more, reason) {
                    let i = choose|i: int|
                        0 <= i < more.len() && (#[trigger] more[i]).reason@ == reason;
                    if i < counted@.len() {
                        assert(counted@[i].reason@ == reason);
                    } else {
                        assert(rows@[place].reason@ == reason);
                    }
                } else {
                    let i = choose|i: int|
                        0 <= i < fewer.len() && (#[trigger] fewer[i]).reason@ == reason;
                    if i < place {
                        assert(rows@[i].reason@ == reason);
                    } else {
                        assert(rows@[i + 1].reason@ == reason);
                    }
                }
            }
        }
    }
    proof {
        let said = rows_said(rows@);
        assert forall|i: int| 0 <= i < said.len() implies tallies(
            #[trigger] said[i],
            instructions@,
        ) by {
            assert(said[i] == rows@[i]@);
        }
        assert forall|reason: Seq<char>| #[trigger]
            occurrences(instructions@, reason) > 0 implies mentions(said, reason) by {
            let i = choose|i: int| 0 <= i < rows@.len() && (#[trigger] rows@[i]).reason@ == reason;
            assert(said[i].reason == reason);
        }
        assert forall|i: int, j: int| 0 <= i < j < said.len() implies stands_before(
            #[trigger] said[i],
            #[trigger] said[j],
        ) by {
            assert(said[i] == rows@[i]@ && said[j] == rows@[j]@);
        }
    }
    rows
}

/// How many instructions the rows speak of.
pub open spec fn total(rows: Seq<ReasonCountView>) -> nat
    decreases rows.len(),
{
    if rows.len() == 0 {
        0
    } else {
        total(rows.drop_last()) + rows.last().count as nat
    }
}

/// How many of `instructions` were left out for one of the first `n` reasons of `rows`.
spec fn occurrences_of_first(
    rows: Seq<ReasonCountView>,
    n: int,
    instructions: Seq<Untranslated>,
) -> nat
    decreases n,
{
    if n <= 0 {
        0
    } else {
        occurrences_of_first(rows, n - 1, instructions) + occurrences(
            instructions,
            rows[n - 1].reason,
        )
    }
}

/// One more instruction is one more occurrence of its reason, if a row is for it.
proof fn occurrences_grow(rows: Seq<ReasonCountView>, n: int, instructions: Seq<Untranslated>)
    requires
        0 <= n <= rows.len(),
        instructions.len() > 0,
        forall|i: int, j: int| 0 <= i < j < rows.len() ==> rows[i].reason != rows[j].reason,
    ensures
        occurrences_of_first(rows, n, instructions) == occurrences_of_first(
            rows,
            n,
            instructions.drop_last(),
        ) + if exists|i: int|
            0 <= i < n && (#[trigger] rows[i]).reason == instructions.last().reason@ {
            1nat
        } else {
            0nat
        },
    decreases n,
{
    if n > 0 {
        occurrences_grow(rows, n - 1, instructions);
        let reason = instructions.last().reason@;
        if rows[n - 1].reason == reason {
            assert(!exists|i: int| 0 <= i < n - 1 && (#[trigger] rows[i]).reason == reason);
        } else {
            if exists|i: int| 0 <= i < n && (#[trigger] rows[i]).reason == reason {
                let i = choose|i: int| 0 <= i < n && (#[trigger] rows[i]).reason == reason;
                assert(0 <= i < n - 1 && rows[i].reason == reason);
            }
        }
    }
}

/// Every instruction is an occurrence of a reason that a row is for.
proof fn occurrences_are_all(rows: Seq<ReasonCountView>, instructions: Seq<Untranslated>)
    requires
        forall|i: int, j: int| 0 <= i < j < rows.len() ==> rows[i].reason != rows[j].reason,
        forall|k: int|
            0 <= k < instructions.len() ==> mentions(rows, (#[trigger] instructions[k]).reason@),
    ensures
        occurrences_of_first(rows, rows.len() as int, instructions) == instructions.len(),
    decreases instructions.len(),
{
    if instructions.len() == 0 {
        no_occurrences(rows, rows.len() as int, instructions);
    } else {
        occurrences_grow(rows, rows.len() as int, instructions);
        assert(mentions(rows, instructions[instructions.len() - 1].reason@));
        assert forall|k: int| 0 <= k < instructions.drop_last().len() implies mentions(
            rows,
            (#[trigger] instructions.drop_last()[k]).reason@,
        ) by {
            assert(instructions.drop_last()[k] == instructions[k]);
        }
        occurrences_are_all(rows, instructions.drop_last());
    }
}

/// Of no instructions, none was left out for any reason.
proof fn no_occurrences(rows: Seq<ReasonCountView>, n: int, instructions: Seq<Untranslated>)
    requires
        instructions.len() == 0,
    ensures
        occurrences_of_first(rows, n, instructions) == 0,
    decreases n,
{
    if n > 0 {
        no_occurrences(rows, n - 1, instructions);
    }
}

/// The counts of rows are the occurrences of their reasons.
proof fn total_is_occurrences(
    rows: Seq<ReasonCountView>,
    n: int,
    instructions: Seq<Untranslated>,
)
    requires
        0 <= n <= rows.len(),
        forall|i: int| 0 <= i < rows.len() ==> tallies(#[trigger] rows[i], instructions),
    ensures
        total(rows.take(n)) == occurrences_of_first(rows, n, instructions),
    decreases n,
{
    if n > 0 {
        total_is_occurrences(rows, n - 1, instructions);
        assert(rows.take(n).drop_last() == rows.take(n - 1));
        assert(tallies(rows[n - 1], instructions));
    }
}

/// An instruction is an occurrence of its reason.
proof fn instruction_occurs(instructions: Seq<Untranslated>, k: int)
    requires
        0 <= k < instructions.len(),
    ensures
        occurrences(instructions, instructions[k].reason@) > 0,
    decreases instructions.len(),
{
    if k < instructions.len() - 1 {
        instruction_occurs(instructions.drop_last(), k);
        assert(instructions.drop_last()[k] == instructions[k]);
    }
}

/// No two rows of a report are for the same reason.
pub proof fn report_reasons_differ(rows: Seq<ReasonCountView>, instructions: Seq<Untranslated>)
    requires
        reports(rows, instructions),
    ensures
        forall|i: int, j: int| 0 <= i < j < rows.len() ==> rows[i].reason != rows[j].reason,
{
    assert forall|i: int, j: int| 0 <= i < j < rows.len() implies rows[i].reason
        != rows[j].reason by {
        if rows[i].reason == rows[j].reason {
            assert(tallies(rows[i], instructions) && tallies(rows[j], instructions));
            assert(rows[i] == rows[j]);
            assert(stands_before(rows[i], rows[j]));
            stands_before_irreflexive(rows[i]);
        }
    }
}

/// A report speaks of every instruction once: its counts add up to how many there are.
pub proof fn report_is_complete(rows: Seq<ReasonCountView>, instructions: Seq<Untranslated>)
    requires
        reports(rows, instructions),
    ensures
        total(rows) == instructions.len(),
{
    report_reasons_differ(rows, instructions);
    assert forall|k: int| 0 <= k < instructions.len() implies mentions(
        rows,
        (#[trigger] instructions[k]).reason@,
    ) by {
        instruction_occurs(instructions, k);
    }
    occurrences_are_all(rows, instructions);
    total_is_occurrences(rows, rows.len() as int, instructions);
    assert(rows.take(rows.len() as int) == rows);
}

/// There is one report on given instructions.
pub proof fn report_is_unique(
    left: Seq<ReasonCountView>,
    right: Seq<ReasonCountView>,
    instructions: Seq<Untranslated>,
)
    requires
        reports(left, instructions),
        reports(right, instructions),
    ensures
        left == right,
{
    assert forall|i: int| 0 <= i < left.len() implies right.contains(#[trigger] left[i]) by {
        report_has_row(left, right, instructions, i);
    }
    assert forall|i: int| 0 <= i < right.len() implies left.contains(#[trigger] right[i]) by {
        report_has_row(right, left, instructions, i);
    }
    ordered_rows_are_equal(left, right);
}

/// Each row of one report stands in every other.
proof fn report_has_row(
    left: Seq<ReasonCountView>,
    right: Seq<ReasonCountView>,
    instructions: Seq<Untranslated>,
    i: int,
)
    requires
        reports(left, instructions),
        reports(right, instructions),
        0 <= i < left.len(),
    ensures
        right.contains(left[i]),
{
    let reason = left[i].reason;
    assert(tallies(left[i], instructions));
    occurs_somewhere(instructions, reason);
    assert(mentions(right, reason));
    let j = choose|j: int| 0 <= j < right.len() && (#[trigger] right[j]).reason == reason;
    assert(tallies(right[j], instructions));
    assert(right[j] == left[i]);
}

/// Rows that are in the order of reports, and are the same rows, are the same in every place.
proof fn ordered_rows_are_equal(left: Seq<ReasonCountView>, right: Seq<ReasonCountView>)
    requires
        forall|i: int, j: int|
            0 <= i < j < left.len() ==> stands_before(#[trigger] left[i], #[trigger] left[j]),
        forall|i: int, j: int|
            0 <= i < j < right.len() ==> stands_before(#[trigger] right[i], #[trigger] right[j]),
        forall|i: int| 0 <= i < left.len() ==> right.contains(#[trigger] left[i]),
        forall|i: int| 0 <= i < right.len() ==> left.contains(#[trigger] right[i]),
    ensures
        left == right,
    decreases left.len(),
{
    if left.len() == 0 {
        if right.len() > 0 {
            assert(left.contains(right[0]));
        }
        assert(left == right);
    } else {
        assert(right.contains(left[0]));
        let m = left.len() - 1;
        let n = right.len() - 1;
        let last = left[m];
        assert(right.contains(last) && left.contains(right[n]));
        let i = choose|i: int| 0 <= i < right.len() && right[i] == last;
        let j = choose|j: int| 0 <= j < left.len() && left[j] == right[n];
        if i < n && j < m {
            assert(stands_before(right[i], right[n]) && stands_before(left[j], left[m]));
            stands_before_transitive(last, right[n], last);
            stands_before_irreflexive(last);
        }
        assert(right[n] == last);
        assert forall|k: int| 0 <= k < left.drop_last().len() implies right.drop_last().contains(
            #[trigger] left.drop_last()[k],
        ) by {
            assert(right.contains(left[k]));
            let l = choose|l: int| 0 <= l < right.len() && right[l] == left[k];
            if l == n {
                assert(stands_before(left[k], left[m]));
                stands_before_irreflexive(last);
            }
            assert(right.drop_last()[l] == left[k]);
        }
        assert forall|k: int| 0 <= k < right.drop_last().len() implies left.drop_last().contains(
            #[trigger] right.drop_last()[k],
        ) by {
            assert(left.contains(right[k]));
            let l = choose|l: int| 0 <= l < left.len() && left[l] == right[k];
            if l == m {
                assert(stands_before(right[k], right[n]));
                stands_before_irreflexive(last);
            }
            assert(left.drop_last()[l] == right[k]);
        }
        ordered_rows_are_equal(left.drop_last(), right.drop_last());
        assert(left == left.drop_last().push(last));
        assert(right == right.drop_last().push(last));
    }
}

/// The count of a reason is the number of instructions that were left out for it.
pub proof fn occurrences_are_counted(instructions: Seq<Untranslated>, reason: Seq<char>)
    ensures
        occurrences(instructions, reason) == instructions.filter(
            |instruction: Untranslated| instruction.reason@ == reason,
        ).len(),
    decreases instructions.len(),
{
    reveal(Seq::filter);
    if instructions.len() > 0 {
        occurrences_are_counted(instructions.drop_last(), reason);
    }
}

/// The first occurrence of a reason is the address of the first instruction that was left out for
/// it.
pub proof fn first_occurrence_is_the_first(
    instructions: Seq<Untranslated>,
    reason: Seq<char>,
    first: int,
)
    requires
        0 <= first < instructions.len(),
        instructions[first].reason@ == reason,
        forall|i: int| 0 <= i < first ==> (#[trigger] instructions[i]).reason@ != reason,
    ensures
        first_occurrence(instructions, reason) == Some(instructions[first].address),
    decreases instructions.len(),
{
    let shorter = instructions.drop_last();
    if first < shorter.len() {
        first_occurrence_is_the_first(shorter, reason, first);
    } else {
        assert forall|i: int| 0 <= i < shorter.len() implies (#[trigger] shorter[i]).reason@
            != reason by {
            assert(shorter[i] == instructions[i]);
        }
        no_first_occurrence(shorter, reason);
    }
}

/// A reason that no instruction has does not occur.
proof fn no_first_occurrence(instructions: Seq<Untranslated>, reason: Seq<char>)
    requires
        forall|i: int| 0 <= i < instructions.len() ==> (#[trigger] instructions[i]).reason@ != reason,
    ensures
        first_occurrence(instructions, reason) is None,
    decreases instructions.len(),
{
    if instructions.len() > 0 {
        let shorter = instructions.drop_last();
        assert forall|i: int| 0 <= i < shorter.len() implies (#[trigger] shorter[i]).reason@
            != reason by {
            assert(shorter[i] == instructions[i]);
        }
        no_first_occurrence(shorter, reason);
        assert(instructions[instructions.len() - 1].reason@ != reason);
    }
}

/// Each instruction that was left out has a row in a report, for its reason.
pub proof fn report_mentions_every_instruction(
    rows: Seq<ReasonCount>,
    instructions: Seq<Untranslated>,
    place: int,
)
    requires
        reports(rows_said(rows), instructions),
        0 <= place < instructions.len(),
    ensures
        exists|i: int|
            0 <= i < rows.len() && (#[trigger] rows[i]).reason@ == instructions[place].reason@,
{
    let said = rows_said(rows);
    let reason = instructions[place].reason@;
    instruction_occurs(instructions, place);
    assert(mentions(said, reason));
    let i = choose|i: int| 0 <= i < said.len() && (#[trigger] said[i]).reason == reason;
    assert(said[i] == rows[i]@);
}

/// In a report each row has the number of instructions that were left out for its reason and the
/// address of the first of them; and a row stands before another only if its reason is more frequent,
/// or as frequent and earlier as a text.
pub proof fn report_counts_and_orders(rows: Seq<ReasonCount>, instructions: Seq<Untranslated>)
    requires
        reports(rows_said(rows), instructions),
    ensures
        forall|i: int|
            0 <= i < rows.len() ==> (#[trigger] rows[i]).count == instructions.filter(
                |instruction: Untranslated| instruction.reason@ == rows[i].reason@,
            ).len(),
        forall|i: int, k: int|
            0 <= i < rows.len() && 0 <= k < instructions.len() && (
            #[trigger] instructions[k]).reason@ == (#[trigger] rows[i]).reason@ && (forall|j: int|
                0 <= j < k ==> (#[trigger] instructions[j]).reason@ != rows[i].reason@)
                ==> rows[i].first == instructions[k].address,
        forall|i: int, j: int|
            0 <= i < j < rows.len() ==> (#[trigger] rows[i]).count > (#[trigger] rows[j]).count || (
            rows[i].count == rows[j].count && text_before(rows[i].reason@, rows[j].reason@)),
{
    let said = rows_said(rows);
    assert forall|i: int| 0 <= i < rows.len() implies (#[trigger] rows[i]).count
        == instructions.filter(
        |instruction: Untranslated| instruction.reason@ == rows[i].reason@,
    ).len() by {
        assert(said[i] == rows[i]@);
        assert(tallies(said[i], instructions));
        let reason = rows[i].reason@;
        occurrences_are_counted(instructions, reason);
        assert((|instruction: Untranslated| instruction.reason@ == rows[i].reason@) =~= (
        |instruction: Untranslated| instruction.reason@ == reason));
    }
    assert forall|i: int, k: int|
        0 <= i < rows.len() && 0 <= k < instructions.len() && (#[trigger] instructions[k]).reason@
            == (#[trigger] rows[i]).reason@ && (forall|j: int|
            0 <= j < k ==> (#[trigger] instructions[j]).reason@
                != rows[i].reason@) implies rows[i].first == instructions[k].address by {
        assert(said[i] == rows[i]@);
        assert(tallies(said[i], instructions));
        first_occurrence_is_the_first(instructions, rows[i].reason@, k);
    }
    assert forall|i: int, j: int| 0 <= i < j < rows.len() implies (#[trigger] rows[i]).count > (
    #[trigger] rows[j]).count || (rows[i].count == rows[j].count && text_before(
        rows[i].reason@,
        rows[j].reason@,
    )) by {
        assert(said[i] == rows[i]@ && said[j] == rows[j]@);
        assert(stands_before(said[i], said[j]));
    }
}

} // verus!
