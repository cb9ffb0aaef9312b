use vstd::prelude::*;
use vstd::string::StringExecFns;

use crate::layout::Key;
use crate::logger::{
    lemma_unseen_counts_zero, moved_count, offset_count, offset_order, repeat_count, KeyLogger,
    CATEGORIES,
};

verus! {

/// Number of metric rows in a report: total movement, same-finger usage and
/// one row per offset category.
pub const METRICS: usize = 11;

/// Labels of the offset categories, in canonical order.
pub open spec fn movement_labels() -> Seq<Seq<char>> {
    seq![
        "No Movement"@,
        "Up Movement"@,
        "Down Movement"@,
        "Right Movement"@,
        "Left Movement"@,
        "Top Right Movement"@,
        "Top Left Movement"@,
        "Bottom Right Movement"@,
        "Bottom Left Movement"@,
    ]
}

/// Labels of the report's rows, in order.
pub open spec fn row_labels() -> Seq<Seq<char>> {
    seq!["Finger Movements"@, "Same Finger Usage"@] + movement_labels()
}

/// The offset counts of a history, in canonical order.
pub open spec fn category_counts(h: Seq<Key>) -> Seq<int> {
    Seq::new(CATEGORIES as nat, |i: int| offset_count(h, offset_order()[i]) as int)
}

/// The metrics of one logger: keys that moved off home, same-finger repeats,
/// then the count of each offset category.
pub open spec fn logger_row(l: KeyLogger) -> Seq<int> {
    seq![moved_count(l.history()) as int, repeat_count(l.history()) as int] + category_counts(
        l.history(),
    )
}

/// A category that a logger never saw is reported as zero.
pub proof fn lemma_unobserved_category_reports_zero(l: KeyLogger, i: int)
    requires
        0 <= i < CATEGORIES,
        forall|j: int| 0 <= j < l.history().len() ==> l.history()[j].pos != offset_order()[i],
    ensures
        logger_row(l)[i + 2] == 0,
{
    lemma_unseen_counts_zero(l.history(), offset_order()[i], 0);
}

/// Statistics of several named loggers, laid out as a table with one column
/// per logger, in the order in which they were first added.
pub struct LogReport<'a> {
    key_loggers: Vec<(String, &'a KeyLogger)>,
    row_headers: Vec<String>,
    movement_header_map: Vec<((i8, i8), String)>,
}

impl<'a> LogReport<'a> {
    /// Names of the columns, in order.
    pub closed spec fn names(&self) -> Seq<Seq<char>> {
        self.key_loggers@.map_values(|e: (String, &'a KeyLogger)| e.0@)
    }

    /// The logger of each column, in order.
    pub closed spec fn loggers(&self) -> Seq<KeyLogger> {
        self.key_loggers@.map_values(|e: (String, &'a KeyLogger)| *e.1)
    }

    pub closed spec fn wf(&self) -> bool {
        &&& forall|j: int| 0 <= j < self.key_loggers@.len() ==> (#[trigger] self.key_loggers@[j]).1.wf()
        &&& forall|j: int, k: int|
            0 <= j < k < self.key_loggers@.len() ==> (#[trigger] self.key_loggers@[j]).0@
                != (#[trigger] self.key_loggers@[k]).0@
        &&& self.row_headers@.map_values(|s: String| s@) == row_labels()
        &&& self.movement_header_map@.map_values(|e: ((i8, i8), String)| e.0) == offset_order()
        &&& self.movement_header_map@.map_values(|e: ((i8, i8), String)| e.1@) == movement_labels()
    }

    /// An empty report with the fixed row labels.
    pub fn new() -> (r: LogReport<'a>)
        ensures
            r.wf(),
            r.names() == Seq::<Seq<char>>::empty(),
            r.loggers() == Seq::<KeyLogger>::empty(),
    {
        let mut movement_header_map: Vec<((i8, i8), String)> = Vec::new();
        movement_header_map.push(((0, 0), String::from_str("No Movement")));
        movement_header_map.push(((0, 1), String::from_str("Up Movement")));
        movement_header_map.push(((0, -1), String::from_str("Down Movement")));
        movement_header_map.push(((1, 0), String::from_str("Right Movement")));
        movement_header_map.push(((-1, 0), String::from_str("Left Movement")));
        movement_header_map.push(((1, 1), String::from_str("Top Right Movement")));
        movement_header_map.push(((-1, 1), String::from_str("Top Left Movement")));
        movement_header_map.push(((1, -1), String::from_str("Bottom Right Movement")));
        movement_header_map.push(((-1, -1), String::from_str("Bottom Left Movement")));
        assert(movement_header_map@.map_values(|e: ((i8, i8), String)| e.0) =~= offset_order());
        assert(movement_header_map@.map_values(|e: ((i8, i8), String)| e.1@) =~= movement_labels());

        let mut row_headers: Vec<String> = Vec::new();
        row_headers.push(String::from_str("Finger Movements"));
        row_headers.push(String::from_str("Same Finger Usage"));
        let mut i: usize = 0;
        while i < CATEGORIES
            invariant
                i <= CATEGORIES,
                movement_header_map@.len() == CATEGORIES,
                movement_header_map@.map_values(|e: ((i8, i8), String)| e.1@) == movement_labels(),
                row_headers@.len() == 2 + i,
                row_headers@[0]@ == "Finger Movements"@,
                row_headers@[1]@ == "Same Finger Usage"@,
                forall|j: int| 0 <= j < i ==> #[trigger] row_headers@[2 + j]@ == movement_labels()[j],
            decreases CATEGORIES - i,
        {
            let label = movement_header_map[i].1.clone();
            assert(movement_header_map@.map_values(|e: ((i8, i8), String)| e.1@)[i as int]
                == movement_header_map@[i as int].1@);
            row_headers.push(label);
            i = i + 1;
        }
        let ghost labels = row_headers@.map_values(|s: String| s@);
        assert forall|j: int| 0 <= j < METRICS implies #[trigger] labels[j] == row_labels()[j] by {
            if j >= 2 {
                assert(row_headers@[2 + (j - 2)]@ == movement_labels()[j - 2]);
            }
        }
        assert(labels =~= row_labels());
        let r = LogReport { key_loggers: Vec::new(), row_headers, movement_header_map };
        assert(r.names() =~= Seq::<Seq<char>>::empty());
        assert(r.loggers() =~= Seq::<KeyLogger>::empty());
        r
    }

    /// Adds a column for `logger` under `name`. A name already present keeps
    /// its column and takes the new logger.
    pub fn add_logger(&mut self, name: String, logger: &'a KeyLogger)
        requires
            old(self).wf(),
            logger.wf(),
        ensures
            final(self).wf(),
            !old(self).names().contains(name@) ==> final(self).names() == old(self).names().push(
                name@,
            ) && final(self).loggers() == old(self).loggers().push(*logger),
            forall|j: int|
                0 <= j < old(self).names().len() && #[trigger] old(self).names()[j] == name@
                    ==> final(self).names() == old(self).names() && final(self).loggers() == old(
                    self,
                ).loggers().update(j, *logger),
    {
        let ghost old_names = self.names();
        let ghost old_loggers = self.loggers();
        let mut i: usize = 0;
        while i < self.key_loggers.len()
            invariant
                self.wf(),
                logger.wf(),
                old_names == old(self).names(),
                old_loggers == old(self).loggers(),
                i <= self.key_loggers@.len(),
                self.names() == old_names,
                self.loggers() == old_loggers,
                forall|j: int| 0 <= j < i ==> old_names[j] != name@,
            decreases self.key_loggers@.len() - i,
        {
            let same = self.key_loggers[i].0 == name;
            assert(self.names()[i as int] == self.key_loggers@[i as int].0@);
            if same {
                let ghost name_view = name@;
                let ghost before = self.key_loggers@;
                assert(old_names[i as int] == before[i as int].0@);
                assert(old_names.contains(name_view));
                self.key_loggers.set(i, (name, logger));
                assert forall|j: int| 0 <= j < before.len() implies #[trigger] self.key_loggers@[j].0@
                    == before[j].0@ && self.key_loggers@[j].1.wf() by {}
                assert forall|j: int, k: int|
                    0 <= j < k < self.key_loggers@.len() implies (#[trigger] self.key_loggers@[j]).0@
                    != (#[trigger] self.key_loggers@[k]).0@ by {
                    assert(before[j].0@ != before[k].0@);
                }
                assert(self.names() =~= old_names);
                assert(self.loggers() =~= old_loggers.update(i as int, *logger));
                assert(old_names[i as int] == name_view);
                assert forall|j: int| 0 <= j < self.key_loggers@.len() implies #[trigger] self.key_loggers@[j].0@
                    == old_names[j] by {
                    assert(self.names()[j] == self.key_loggers@[j].0@);
                }
                assert forall|j: int|
                    0 <= j < old_names.len() && old_names[j] == name_view implies j == i by {
                    if j != i {
                        assert(old_names[j] == self.key_loggers@[j].0@);
                    }
                }
                return;
            }
            i = i + 1;
        }
        let ghost name_view = name@;
        self.key_loggers.push((name, logger));
        assert(self.names() =~= old_names.push(name_view));
        assert(self.loggers() =~= old_loggers.push(*logger));
        assert(!old_names.contains(name_view));
        assert forall|j: int, k: int|
            0 <= j < k < self.key_loggers@.len() implies (#[trigger] self.key_loggers@[j]).0@
            != (#[trigger] self.key_loggers@[k]).0@ by {
            if k == old_names.len() {
                assert(old_names[j] == self.key_loggers@[j].0@);
            }
        }
    }

    /// The fixed row labels.
    pub fn get_row_headers(&self) -> (r: &Vec<String>)
        requires
            self.wf(),
        ensures
            r@.map_values(|s: String| s@) == row_labels(),
    {
        &self.row_headers
    }

    /// The column names, in column order.
    pub fn get_table_header_data(&self) -> (r: Vec<String>)
        requires
            self.wf(),
        ensures
            r@.map_values(|s: String| s@) == self.names(),
    {
        let mut r: Vec<String> = Vec::new();
        let mut i: usize = 0;
        while i < self.key_loggers.len()
            invariant
                i <= self.key_loggers@.len(),
                r@.len() == i,
                forall|j: int| 0 <= j < i ==> #[trigger] r@[j]@ == self.key_loggers@[j].0@,
            decreases self.key_loggers@.len() - i,
        {
            r.push(self.key_loggers[i].0.clone());
            i = i + 1;
        }
        assert(r@.map_values(|s: String| s@) =~= self.names());
        r
    }

    /// The metrics of one logger, in row order.
    fn logger_data(&self, logger: &KeyLogger) -> (r: Vec<u64>)
        requires
            self.wf(),
            logger.wf(),
        ensures
            r@.len() == METRICS,
            forall|k: int| 0 <= k < METRICS ==> r@[k] as int == #[trigger] logger_row(*logger)[k],
    {
        let mut row: Vec<u64> = Vec::new();
        row.push(logger.finger_movements_total());
        row.push(logger.same_finger_usage());
        let mut i: usize = 0;
        while i < self.movement_header_map.len()
            invariant
                self.wf(),
                logger.wf(),
                i <= CATEGORIES,
                row@.len() == 2 + i,
                row@[0] == moved_count(logger.history()),
                row@[1] == repeat_count(logger.history()),
                forall|j: int|
                    0 <= j < i ==> #[trigger] row@[2 + j] as int == category_counts(
                        logger.history(),
                    )[j],
            decreases CATEGORIES - i,
        {
            let pos = self.movement_header_map[i].0;
            assert(self.movement_header_map@.map_values(|e: ((i8, i8), String)| e.0)[i as int]
                == pos);
            let n = match logger.finger_movement(pos) {
                Some(n) => n,
                None => 0,
            };
            row.push(n);
            assert(category_counts(logger.history())[i as int] == offset_count(
                logger.history(),
                offset_order()[i as int],
            ));
            assert(row@[2 + i as int] as int == category_counts(logger.history())[i as int]);
            i = i + 1;
        }
        assert forall|k: int| 0 <= k < METRICS implies row@[k] as int == #[trigger] logger_row(
            *logger,
        )[k] by {
            if k >= 2 {
                assert(row@[2 + (k - 2)] as int == category_counts(logger.history())[k - 2]);
            }
        }
        row
    }

    /// One row of metrics per logger, in column order.
    pub fn get_log_data_from_key_logger(&self) -> (r: Vec<Vec<u64>>)
        requires
            self.wf(),
        ensures
            r@.len() == self.loggers().len(),
            forall|j: int|
                0 <= j < r@.len() ==> (#[trigger] r@[j])@.len() == METRICS && forall|k: int|
                    0 <= k < METRICS ==> r@[j]@[k] as int == logger_row(self.loggers()[j])[k],
    {
        let mut r: Vec<Vec<u64>> = Vec::new();
        let mut i: usize = 0;
        while i < self.key_loggers.len()
            invariant
                self.wf(),
                i <= self.key_loggers@.len(),
                r@.len() == i,
                forall|j: int|
                    0 <= j < i ==> (#[trigger] r@[j])@.len() == METRICS && forall|k: int|
                        0 <= k < METRICS ==> r@[j]@[k] as int == logger_row(self.loggers()[j])[k],
            decreases self.key_loggers@.len() - i,
        {
            let logger = self.key_loggers[i].1;
            assert(self.loggers()[i as int] == *logger);
            let row = self.logger_data(logger);
            r.push(row);
            i = i + 1;
        }
        r
    }

    /// The report's table: one row per metric, in the order of the row
    /// labels, and one column per logger, in column order.
    pub fn get_table_body_data(&self) -> (r: Vec<Vec<u64>>)
        requires
            self.wf(),
        ensures
            r@.len() == METRICS,
            forall|i: int|
                0 <= i < METRICS ==> (#[trigger] r@[i])@.len() == self.loggers().len() && forall|
                    j: int,
                |
                    0 <= j < self.loggers().len() ==> r@[i]@[j] as int == logger_row(
                        self.loggers()[j],
                    )[i],
    {
        let log_data = self.get_log_data_from_key_logger();
        let logger_count = log_data.len();
        let mut data_table: Vec<Vec<u64>> = Vec::new();
        let mut cell_idx: usize = 0;
        while cell_idx < METRICS
            invariant
                cell_idx <= METRICS,
                logger_count == log_data@.len(),
                log_data@.len() == self.loggers().len(),
                forall|j: int|
                    0 <= j < log_data@.len() ==> (#[trigger] log_data@[j])@.len() == METRICS
                        && forall|k: int|
                        0 <= k < METRICS ==> log_data@[j]@[k] as int == logger_row(
                            self.loggers()[j],
                        )[k],
                data_table@.len() == cell_idx,
                forall|i: int|
                    0 <= i < cell_idx ==> (#[trigger] data_table@[i])@.len() == logger_count
                        && forall|j: int|
                        0 <= j < logger_count ==> data_table@[i]@[j] as int == logger_row(
                            self.loggers()[j],
                        )[i],
            decreases METRICS - cell_idx,
        {
            let mut row: Vec<u64> = Vec::new();
            let mut row_idx: usize = 0;
            while row_idx < logger_count
                invariant
                    cell_idx < METRICS,
                    row_idx <= logger_count,
                    logger_count == log_data@.len(),
                    forall|j: int|
                        0 <= j < log_data@.len() ==> (#[trigger] log_data@[j])@.len() == METRICS,
                    row@.len() == row_idx,
                    forall|j: int| 0 <= j < row_idx ==> #[trigger] row@[j] == log_data@[j]@[cell_idx as int],
                decreases logger_count - row_idx,
            {
                row.push(log_data[row_idx][cell_idx]);
                row_idx = row_idx + 1;
            }
            data_table.push(row);
            cell_idx = cell_idx + 1;
        }
        data_table
    }
}

} // verus!
