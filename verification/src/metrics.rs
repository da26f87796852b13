//! What a load test measures: how many operations succeeded and failed, and how long they took.

use crate::protocol::ClientError;
use crate::server::total;
use vstd::prelude::*;

verus! {

/// The measurements of one operation, as mathematical values.
#[verifier::ext_equal]
pub struct MetricsView {
    pub operation: Seq<char>,
    pub success_count: nat,
    pub failure_count: nat,
    pub total_duration_ms: nat,
    pub min_duration_ms: nat,
    pub max_duration_ms: nat,
}

/// The measurements of one operation.
pub struct OperationMetrics {
    pub operation: String,
    pub success_count: usize,
    pub failure_count: usize,
    pub total_duration_ms: u128,
    pub min_duration_ms: u128,
    pub max_duration_ms: u128,
}

impl View for OperationMetrics {
    type V = MetricsView;

    open spec fn view(&self) -> MetricsView {
        MetricsView {
            operation: self.operation@,
            success_count: self.success_count as nat,
            failure_count: self.failure_count as nat,
            total_duration_ms: self.total_duration_ms as nat,
            min_duration_ms: self.min_duration_ms as nat,
            max_duration_ms: self.max_duration_ms as nat,
        }
    }
}

/// No measurements yet.
pub open spec fn no_metrics(operation: Seq<char>) -> MetricsView {
    MetricsView {
        operation,
        success_count: 0,
        failure_count: 0,
        total_duration_ms: 0,
        min_duration_ms: u128::MAX as nat,
        max_duration_ms: 0,
    }
}

/// The measurements after one more success.
pub open spec fn with_success(metrics: MetricsView, duration_ms: nat) -> MetricsView {
    MetricsView {
        success_count: metrics.success_count + 1,
        total_duration_ms: metrics.total_duration_ms + duration_ms,
        min_duration_ms: if metrics.success_count == 0 || duration_ms < metrics.min_duration_ms {
            duration_ms
        } else {
            metrics.min_duration_ms
        },
        max_duration_ms: if duration_ms > metrics.max_duration_ms {
            duration_ms
        } else {
            metrics.max_duration_ms
        },
        ..metrics
    }
}

/// The measurements after one more failure.
pub open spec fn with_failure(metrics: MetricsView) -> MetricsView {
    MetricsView { failure_count: metrics.failure_count + 1, ..metrics }
}

impl OperationMetrics {
    /// No measurements yet.
    pub fn new(operation: &str) -> (metrics: OperationMetrics)
        ensures
            metrics@ == no_metrics(operation@),
    {
        OperationMetrics {
            operation: operation.to_owned(),
            success_count: 0,
            failure_count: 0,
            total_duration_ms: 0,
            min_duration_ms: u128::MAX,
            max_duration_ms: 0,
        }
    }

    /// Counts one success.
    pub fn record_success(&mut self, duration_ms: u128)
        requires
            old(self).success_count < usize::MAX,
            old(self).total_duration_ms + duration_ms <= u128::MAX,
        ensures
            final(self)@ == with_success(old(self)@, duration_ms as nat),
    {
        self.success_count = self.success_count + 1;
        self.total_duration_ms = self.total_duration_ms + duration_ms;
        if self.success_count == 1 || duration_ms < self.min_duration_ms {
            self.min_duration_ms = duration_ms;
        }
        if duration_ms > self.max_duration_ms {
            self.max_duration_ms = duration_ms;
        }
    }

    /// Counts one failure.
    pub fn record_failure(&mut self)
        requires
            old(self).failure_count < usize::MAX,
        ensures
            final(self)@ == with_failure(old(self)@),
    {
        self.failure_count = self.failure_count + 1;
    }

    /// How often the operation was tried.
    pub fn tries(&self) -> (tries: u128)
        ensures
            tries == self@.success_count + self@.failure_count,
    {
        self.success_count as u128 + self.failure_count as u128
    }
}

/// Whether measurements sum up these durations of successes and this many failures.
pub open spec fn sums_up(metrics: MetricsView, durations: Seq<u128>, failures: nat) -> bool {
    &&& metrics.success_count == durations.len()
    &&& metrics.failure_count == failures
    &&& metrics.total_duration_ms == total(durations)
    &&& forall|i: int|
        0 <= i < durations.len() ==> metrics.min_duration_ms <= #[trigger] durations[i]
            <= metrics.max_duration_ms
    &&& durations.len() > 0 ==> {
        &&& exists|i: int|
            0 <= i < durations.len() && #[trigger] durations[i] == metrics.min_duration_ms
        &&& exists|i: int|
            0 <= i < durations.len() && #[trigger] durations[i] == metrics.max_duration_ms
    }
    &&& durations.len() == 0 ==> metrics.min_duration_ms == u128::MAX && metrics.max_duration_ms
        == 0
}

/// Measurements that start from nothing sum up what was recorded: the count, the sum, the
/// shortest and the longest of the durations, and the number of failures.
pub proof fn law_metrics_sum_up(
    operation: Seq<char>,
    metrics: MetricsView,
    durations: Seq<u128>,
    failures: nat,
    duration: u128,
)
    requires
        sums_up(metrics, durations, failures),
    ensures
        sums_up(no_metrics(operation), Seq::empty(), 0),
        sums_up(with_success(metrics, duration as nat), durations.push(duration), failures),
        sums_up(with_failure(metrics), durations, failures + 1),
{
    let more = durations.push(duration);
    let after = with_success(metrics, duration as nat);
    assert(more.drop_last() =~= durations);
    assert(more[durations.len() as int] == duration);
    if durations.len() > 0 {
        let low = choose|i: int|
            0 <= i < durations.len() && #[trigger] durations[i] == metrics.min_duration_ms;
        let high = choose|i: int|
            0 <= i < durations.len() && #[trigger] durations[i] == metrics.max_duration_ms;
        assert(more[low] == durations[low]);
        assert(more[high] == durations[high]);
    }
    assert forall|i: int| 0 <= i < more.len() implies after.min_duration_ms <= #[trigger] more[i]
        <= after.max_duration_ms by {
        if i < durations.len() {
            assert(more[i] == durations[i]);
        }
    }
}

/// The measurements of a load test, by operation.
pub struct MetricsTable {
    pub rows: Vec<OperationMetrics>,
}

/// The index of the row of an operation, or the number of rows where it has none.
pub open spec fn row_of(rows: Seq<MetricsView>, operation: Seq<char>) -> int
    decreases rows.len(),
{
    if rows.len() == 0 || rows[0].operation == operation {
        0
    } else {
        1 + row_of(rows.skip(1), operation)
    }
}

/// The measurements after one more try.
pub open spec fn with_try(metrics: MetricsView, success: bool, duration_ms: nat) -> MetricsView {
    if success {
        with_success(metrics, duration_ms)
    } else {
        with_failure(metrics)
    }
}

/// The rows after one more try of an operation. An operation without a row gets one.
pub open spec fn recorded(
    rows: Seq<MetricsView>,
    operation: Seq<char>,
    success: bool,
    duration_ms: nat,
) -> Seq<MetricsView> {
    let at = row_of(rows, operation);
    if at < rows.len() {
        rows.update(at, with_try(rows[at], success, duration_ms))
    } else {
        rows.push(with_try(no_metrics(operation), success, duration_ms))
    }
}

/// Whether one more try can be counted.
pub open spec fn countable(metrics: MetricsView, success: bool, duration_ms: nat) -> bool {
    if success {
        &&& metrics.success_count < usize::MAX
        &&& metrics.total_duration_ms + duration_ms <= u128::MAX
    } else {
        metrics.failure_count < usize::MAX
    }
}

proof fn lemma_row_of(rows: Seq<MetricsView>, operation: Seq<char>, at: int)
    requires
        0 <= at <= rows.len(),
        at < rows.len() ==> rows[at].operation == operation,
        forall|i: int| 0 <= i < at ==> (#[trigger] rows[i]).operation != operation,
    ensures
        row_of(rows, operation) == at,
    decreases at,
{
    if at > 0 {
        assert(rows[0].operation != operation);
        let rest = rows.skip(1);
        assert forall|i: int| 0 <= i < at - 1 implies (#[trigger] rest[i]).operation
            != operation by {
            assert(rows[i + 1].operation != operation);
        }
        lemma_row_of(rest, operation, at - 1);
    }
}

/// The operations that a load test starts with.
pub open spec fn first_rows() -> Seq<MetricsView> {
    seq![no_metrics("issue"@), no_metrics("spend"@), no_metrics("combine"@), no_metrics("split"@)]
}

/// The sum of the tries of some rows.
pub open spec fn all_tries(rows: Seq<MetricsView>) -> nat
    decreases rows.len(),
{
    if rows.len() == 0 {
        0
    } else {
        all_tries(rows.drop_last()) + rows.last().success_count + rows.last().failure_count
    }
}

proof fn lemma_tries_grow(rows: Seq<MetricsView>, i: int)
    requires
        0 <= i <= rows.len(),
    ensures
        all_tries(rows.take(i)) <= all_tries(rows),
    decreases rows.len() - i,
{
    if i == rows.len() {
        assert(rows.take(i) =~= rows);
    } else {
        assert(rows.take(i + 1).drop_last() =~= rows.take(i));
        lemma_tries_grow(rows, i + 1);
    }
}

/// The sum of the successes of some rows.
pub open spec fn all_successes(rows: Seq<MetricsView>) -> nat
    decreases rows.len(),
{
    if rows.len() == 0 {
        0
    } else {
        all_successes(rows.drop_last()) + rows.last().success_count
    }
}

/// One row of a report.
pub struct ReportRow {
    pub operation: String,
    pub requests: u128,
    pub success: usize,
    pub failures: usize,
    pub total_duration_ms: u128,
    pub min_duration_ms: u128,
    pub max_duration_ms: u128,
}

/// Whether a row reports these measurements. Without a success, no duration is reported.
pub open spec fn reports(row: ReportRow, metrics: MetricsView) -> bool {
    &&& row.operation@ == metrics.operation
    &&& row.requests == metrics.success_count + metrics.failure_count
    &&& row.success == metrics.success_count
    &&& row.failures == metrics.failure_count
    &&& row.total_duration_ms == metrics.total_duration_ms
    &&& row.min_duration_ms == if metrics.success_count > 0 { metrics.min_duration_ms } else { 0 }
    &&& row.max_duration_ms == if metrics.success_count > 0 { metrics.max_duration_ms } else { 0 }
}

/// The rows that have been tried at all.
pub open spec fn tried(rows: Seq<MetricsView>) -> Seq<MetricsView> {
    rows.filter(|row: MetricsView| row.success_count + row.failure_count > 0)
}

/// Whether a report has one row for each operation that has been tried, in order.
pub open spec fn reports_all(report: Seq<ReportRow>, rows: Seq<MetricsView>) -> bool {
    &&& report.len() == tried(rows).len()
    &&& forall|i: int| 0 <= i < report.len() ==> reports(#[trigger] report[i], tried(rows)[i])
}

impl View for MetricsTable {
    type V = Seq<MetricsView>;

    open spec fn view(&self) -> Seq<MetricsView> {
        self.rows@.map_values(|row: OperationMetrics| row@)
    }
}

impl MetricsTable {
    /// The table that a load test starts with.
    pub fn new() -> (table: MetricsTable)
        ensures
            table@ == first_rows(),
    {
        let mut rows: Vec<OperationMetrics> = Vec::new();
        rows.push(OperationMetrics::new("issue"));
        rows.push(OperationMetrics::new("spend"));
        rows.push(OperationMetrics::new("combine"));
        rows.push(OperationMetrics::new("split"));
        let table = MetricsTable { rows };
        assert(table@ =~= first_rows());
        table
    }

    fn find(&self, operation: &String) -> (at: usize)
        ensures
            at == row_of(self@, operation@),
            at <= self.rows.len(),
    {
        let mut at: usize = 0;
        while at < self.rows.len()
            invariant
                at <= self.rows.len(),
                forall|i: int| 0 <= i < at ==> (#[trigger] self@[i]).operation != operation@,
            decreases self.rows.len() - at,
        {
            if self.rows[at].operation == *operation {
                proof {
                    assert(self@[at as int].operation == operation@);
                    lemma_row_of(self@, operation@, at as int);
                }
                return at;
            }
            at = at + 1;
        }
        proof {
            lemma_row_of(self@, operation@, at as int);
        }
        at
    }

    /// Whether one more try of an operation can be counted.
    pub fn can_record(&self, operation: &String, success: bool, duration_ms: u128) -> (yes: bool)
        ensures
            yes == countable(
                if row_of(self@, operation@) < self@.len() {
                    self@[row_of(self@, operation@)]
                } else {
                    no_metrics(operation@)
                },
                success,
                duration_ms as nat,
            ),
    {
        let at: usize = self.find(operation);
        if at == self.rows.len() {
            return true;
        }
        let row = &self.rows[at];
        if success {
            row.success_count < usize::MAX && row.total_duration_ms.checked_add(
                duration_ms,
            ).is_some()
        } else {
            row.failure_count < usize::MAX
        }
    }

    /// Counts one more try of an operation.
    pub fn record(&mut self, operation: &String, success: bool, duration_ms: u128)
        requires
            row_of(old(self)@, operation@) < old(self)@.len() ==> countable(
                old(self)@[row_of(old(self)@, operation@)],
                success,
                duration_ms as nat,
            ),
        ensures
            final(self)@ == recorded(old(self)@, operation@, success, duration_ms as nat),
    {
        let at: usize = self.find(operation);
        if at < self.rows.len() {
            assert(self@[at as int] == self.rows@[at as int]@);
            if success {
                self.rows[at].record_success(duration_ms);
            } else {
                self.rows[at].record_failure();
            }
            assert(self@ =~= recorded(old(self)@, operation@, success, duration_ms as nat));
        } else {
            let mut row = OperationMetrics::new(operation.as_str());
            if success {
                row.record_success(duration_ms);
            } else {
                row.record_failure();
            }
            self.rows.push(row);
            assert(self@ =~= recorded(old(self)@, operation@, success, duration_ms as nat));
        }
    }

    /// How many operations were tried, and how many of them succeeded, where that can be counted.
    pub fn totals(&self) -> (totals: Option<(usize, usize)>)
        ensures
            totals matches Some((tries, successes)) ==> tries == all_tries(self@) && successes
                == all_successes(self@),
            totals is None ==> all_tries(self@) > usize::MAX,
    {
        let mut tries: usize = 0;
        let mut successes: usize = 0;
        let mut i: usize = 0;
        assert(self@.take(0) =~= Seq::empty());
        while i < self.rows.len()
            invariant
                i <= self.rows.len(),
                tries == all_tries(self@.take(i as int)),
                successes == all_successes(self@.take(i as int)),
                successes <= tries,
            decreases self.rows.len() - i,
        {
            let row = &self.rows[i];
            proof {
                assert(self@.take(i + 1).drop_last() =~= self@.take(i as int));
                assert(self@.take(i + 1).last() == row@);
                lemma_tries_grow(self@, i + 1);
            }
            let more: u128 = tries as u128 + row.tries();
            if more > usize::MAX as u128 {
                return None;
            }
            tries = more as usize;
            successes = successes + row.success_count;
            i = i + 1;
        }
        assert(self@.take(i as int) =~= self@);
        Some((tries, successes))
    }

    /// The rows of a report: one for each operation that was tried.
    pub fn report_rows(&self) -> (report: Vec<ReportRow>)
        ensures
            reports_all(report@, self@),
    {
        let mut report: Vec<ReportRow> = Vec::new();
        let mut i: usize = 0;
        assert(self@.take(0) =~= Seq::empty());
        proof {
            reveal(Seq::filter);
        }
        while i < self.rows.len()
            invariant
                i <= self.rows.len(),
                reports_all(report@, self@.take(i as int)),
            decreases self.rows.len() - i,
        {
            let row = &self.rows[i];
            let ghost before = report@;
            proof {
                reveal(Seq::filter);
                assert(self@.take(i + 1).drop_last() =~= self@.take(i as int));
                assert(self@.take(i + 1).last() == row@);
            }
            if row.tries() > 0 {
                let any = row.success_count > 0;
                report.push(
                    ReportRow {
                        operation: row.operation.clone(),
                        requests: row.tries(),
                        success: row.success_count,
                        failures: row.failure_count,
                        total_duration_ms: row.total_duration_ms,
                        min_duration_ms: if any { row.min_duration_ms } else { 0 },
                        max_duration_ms: if any { row.max_duration_ms } else { 0 },
                    },
                );
                assert forall|j: int| 0 <= j < report@.len() implies reports(
                    #[trigger] report@[j],
                    tried(self@.take(i + 1))[j],
                ) by {
                    if j < before.len() {
                        assert(report@[j] == before[j]);
                    }
                }
            }
            i = i + 1;
        }
        assert(self@.take(i as int) =~= self@);
        report
    }
}

/// Checks that the shares of a load test's operations add up to a hundred percent.
pub fn check_mix(spend: u8, combine: u8, split: u8) -> (checked: Result<(), ClientError>)
    ensures
        if spend + combine + split == 100 {
            checked is Ok
        } else {
            &&& checked matches Err(ClientError::Interaction(detail))
            &&& detail@ == "Operation percentages must sum to 100"@
        },
{
    let sum: u16 = spend as u16 + combine as u16 + split as u16;
    if sum != 100 {
        return Err(
            ClientError::Interaction(String::from_str("Operation percentages must sum to 100")),
        );
    }
    Ok(())
}

proof fn lemma_row_is_found(rows: Seq<MetricsView>, operation: Seq<char>)
    ensures
        0 <= row_of(rows, operation) <= rows.len(),
        row_of(rows, operation) < rows.len() ==> rows[row_of(rows, operation)].operation
            == operation,
    decreases rows.len(),
{
    if rows.len() > 0 && rows[0].operation != operation {
        lemma_row_is_found(rows.skip(1), operation);
    }
}

proof fn lemma_tries_after_update(rows: Seq<MetricsView>, at: int, row: MetricsView)
    requires
        0 <= at < rows.len(),
    ensures
        all_tries(rows.update(at, row)) + rows[at].success_count + rows[at].failure_count
            == all_tries(rows) + row.success_count + row.failure_count,
        all_successes(rows.update(at, row)) + rows[at].success_count == all_successes(rows)
            + row.success_count,
    decreases rows.len(),
{
    let after = rows.update(at, row);
    if at == rows.len() - 1 {
        assert(after.drop_last() =~= rows.drop_last());
    } else {
        lemma_tries_after_update(rows.drop_last(), at, row);
        assert(after.drop_last() =~= rows.drop_last().update(at, row));
    }
}

/// One more try counts once: as a success or as a failure, for its operation and for no other.
pub proof fn law_a_try_counts_once(
    rows: Seq<MetricsView>,
    operation: Seq<char>,
    success: bool,
    duration_ms: nat,
)
    ensures
        ({
            let after = recorded(rows, operation, success, duration_ms);
            &&& all_tries(after) == all_tries(rows) + 1
            &&& all_successes(after) == all_successes(rows) + if success { 1nat } else { 0 }
            &&& rows.len() <= after.len() <= rows.len() + 1
            &&& forall|i: int|
                0 <= i < rows.len() && (#[trigger] rows[i]).operation != operation ==> after[i]
                    == rows[i]
            &&& exists|i: int|
                0 <= i < after.len() && (#[trigger] after[i]).operation == operation
        }),
{
    lemma_row_is_found(rows, operation);
    let at = row_of(rows, operation);
    let after = recorded(rows, operation, success, duration_ms);
    if at < rows.len() {
        lemma_tries_after_update(rows, at, with_try(rows[at], success, duration_ms));
        assert(after[at].operation == operation);
    } else {
        assert(after.drop_last() =~= rows);
        assert(after[rows.len() as int].operation == operation);
    }
}

/// All requests of the rows of a report.
pub open spec fn all_requests(report: Seq<ReportRow>) -> nat
    decreases report.len(),
{
    if report.len() == 0 {
        0
    } else {
        all_requests(report.drop_last()) + report.last().requests as nat
    }
}

proof fn lemma_tried_rows_have_all_tries(rows: Seq<MetricsView>)
    ensures
        all_tries(tried(rows)) == all_tries(rows),
    decreases rows.len(),
{
    reveal(Seq::filter);
    if rows.len() > 0 {
        lemma_tried_rows_have_all_tries(rows.drop_last());
        let before = tried(rows.drop_last());
        if rows.last().success_count + rows.last().failure_count > 0 {
            assert(tried(rows) =~= before.push(rows.last()));
            assert(tried(rows).drop_last() =~= before);
        }
    }
}

proof fn lemma_requests_are_tries(report: Seq<ReportRow>, rows: Seq<MetricsView>)
    requires
        report.len() == rows.len(),
        forall|i: int| 0 <= i < report.len() ==> reports(#[trigger] report[i], rows[i]),
    ensures
        all_requests(report) == all_tries(rows),
    decreases rows.len(),
{
    if rows.len() > 0 {
        assert(reports(report.last(), rows.last())) by {
            assert(reports(report[report.len() - 1], rows[rows.len() - 1]));
        }
        assert forall|i: int| 0 <= i < report.drop_last().len() implies reports(
            #[trigger] report.drop_last()[i],
            rows.drop_last()[i],
        ) by {
            assert(reports(report[i], rows[i]));
        }
        lemma_requests_are_tries(report.drop_last(), rows.drop_last());
    }
}

/// A report loses no try: its requests are all that were made, each a success or a failure, and
/// durations are reported just where something has succeeded.
pub proof fn law_reports_are_complete(table: MetricsTable, report: Vec<ReportRow>)
    requires
        call_ensures(MetricsTable::report_rows, (&table,), report),
    ensures
        all_requests(report@) == all_tries(table@),
        forall|i: int|
            #![trigger report@[i]]
            0 <= i < report.len() ==> {
                &&& report@[i].requests == report@[i].success + report@[i].failures
                &&& report@[i].requests > 0
                &&& report@[i].success == 0 ==> report@[i].min_duration_ms == 0
                    && report@[i].max_duration_ms == 0
            },
{
    lemma_tried_rows_have_all_tries(table@);
    lemma_requests_are_tries(report@, tried(table@));
    assert forall|i: int| #![trigger report@[i]] 0 <= i < report.len() implies {
        &&& report@[i].requests == report@[i].success + report@[i].failures
        &&& report@[i].requests > 0
        &&& report@[i].success == 0 ==> report@[i].min_duration_ms == 0
            && report@[i].max_duration_ms == 0
    } by {
        assert(reports(report@[i], tried(table@)[i]));
        lemma_tried(table@, i);
    }
}

proof fn lemma_tried(rows: Seq<MetricsView>, i: int)
    requires
        0 <= i < tried(rows).len(),
    ensures
        tried(rows)[i].success_count + tried(rows)[i].failure_count > 0,
    decreases rows.len(),
{
    reveal(Seq::filter);
    if rows.len() > 0 && i < tried(rows.drop_last()).len() {
        lemma_tried(rows.drop_last(), i);
    }
}

proof fn lemma_successes_are_tries(rows: Seq<MetricsView>)
    ensures
        all_successes(rows) <= all_tries(rows),
    decreases rows.len(),
{
    if rows.len() > 0 {
        lemma_successes_are_tries(rows.drop_last());
    }
}

/// There are never more successes than tries, and the shares of a load test are accepted just
/// where they make a hundred percent.
pub proof fn law_totals_and_shares_add_up(
    table: MetricsTable,
    totals: Option<(usize, usize)>,
    spend: u8,
    combine: u8,
    split: u8,
    checked: Result<(), ClientError>,
)
    requires
        call_ensures(MetricsTable::totals, (&table,), totals),
        call_ensures(check_mix, (spend, combine, split), checked),
    ensures
        totals matches Some((tries, successes)) ==> {
            &&& successes <= tries
            &&& tries == all_tries(table@)
            &&& successes == all_successes(table@)
        },
        totals is Some <==> all_tries(table@) <= usize::MAX,
        checked is Ok <==> spend + combine + split == 100,
{
    lemma_successes_are_tries(table@);
}

} // verus!
