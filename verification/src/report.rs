//! Report bookkeeping around the classifier: per-dataset verdict tallies,
//! the per-column usage record, and the textual pieces of the CSV
//! comparison report.
use crate::strings::{spec_dec_nat, u64_to_dec_string};
use crate::suggestion::{
    spec_comments_string, spec_suggestion_name, Suggestion, SuggestionView,
};
use vstd::prelude::*;
use vstd::string::StrSliceExecFns;
use vstd::string::StringExecFns;

verus! {

/// Per-dataset tallies of the three verdicts.
#[derive(Debug)]
pub struct DatasetHealth {
    pub matching: usize,
    pub missing: usize,
    pub bad: usize,
}

impl DatasetHealth {
    /// Fresh tallies, all zero.
    pub fn new() -> (r: DatasetHealth)
        ensures
            r.matching == 0,
            r.missing == 0,
            r.bad == 0,
    {
        DatasetHealth { matching: 0, missing: 0, bad: 0 }
    }

    /// Counts one verdict into the tally it belongs to.
    pub fn record(&mut self, suggestion: &Suggestion)
        requires
            old(self).matching < usize::MAX,
            old(self).missing < usize::MAX,
            old(self).bad < usize::MAX,
        ensures
            final (self).matching == old(self).matching + (if suggestion@ is Matching {
                1int
            } else {
                0int
            }),
            final (self).missing == old(self).missing + (if suggestion@ is Missing {
                1int
            } else {
                0int
            }),
            final (self).bad == old(self).bad + (if suggestion@ is Bad {
                1int
            } else {
                0int
            }),
    {
        match suggestion {
            Suggestion::Matching => {
                self.matching += 1;
            },
            Suggestion::Missing(_) => {
                self.missing += 1;
            },
            Suggestion::Bad(_) => {
                self.bad += 1;
            },
        }
    }
}

/// The fields of one remote column record that the report reads: the
/// observed name and its declared type.
#[derive(Debug, Clone)]
pub struct ColumnInfo {
    pub key_name: String,
    pub column_type: String,
}

/// One observed column with its verdict and the datasets it appears in,
/// recorded positionally.
#[derive(Debug)]
pub struct ColumnUsage {
    pub column: ColumnInfo,
    pub datasets: Vec<bool>,
    pub suggestion: Suggestion,
}

/// How many of the flags are set.
pub open spec fn spec_count_true(ds: Seq<bool>) -> int
    decreases ds.len(),
{
    if ds.len() == 0 {
        0
    } else {
        spec_count_true(ds.drop_last()) + if ds.last() {
            1int
        } else {
            0int
        }
    }
}

/// The per-dataset cells of a CSV usage row: a marked cell for each dataset
/// the column appears in, an empty cell otherwise.
pub open spec fn spec_usage_flags(ds: Seq<bool>) -> Seq<char>
    decreases ds.len(),
{
    if ds.len() == 0 {
        Seq::empty()
    } else {
        spec_usage_flags(ds.drop_last()) + if ds.last() {
            "x,"@
        } else {
            ","@
        }
    }
}

/// The set flags never outnumber the flags.
proof fn lemma_count_true_bound(ds: Seq<bool>)
    ensures
        0 <= spec_count_true(ds) <= ds.len(),
    decreases ds.len(),
{
    if ds.len() > 0 {
        lemma_count_true_bound(ds.drop_last());
    }
}

impl ColumnUsage {
    /// A fresh usage record: the column, its verdict, and one flag per
    /// dataset, only the given one set.
    pub fn new(
        column: ColumnInfo,
        suggestion: Suggestion,
        dataset_len: usize,
        initial_true: usize,
    ) -> (r: ColumnUsage)
        requires
            initial_true < dataset_len,
        ensures
            r.column == column,
            r.suggestion == suggestion,
            r.datasets@.len() == dataset_len,
            forall|i: int| 0 <= i < dataset_len ==> r.datasets@[i] == (i == initial_true),
    {
        let mut datasets = vec![false; dataset_len];
        datasets[initial_true] = true;
        ColumnUsage { column, datasets, suggestion }
    }

    /// The usage cells of the CSV row: the count of datasets the column
    /// appears in, then one cell per dataset.
    pub fn datasets_as_string(&self) -> (r: String)
        ensures
            r@ == spec_dec_nat(spec_count_true(self.datasets@) as nat) + ","@ + spec_usage_flags(
                self.datasets@,
            ),
    {
        let mut flags = String::new();
        let mut total: usize = 0;
        let mut i: usize = 0;
        while i < self.datasets.len()
            invariant
                i <= self.datasets@.len(),
                total == spec_count_true(self.datasets@.take(i as int)),
                flags@ =~= spec_usage_flags(self.datasets@.take(i as int)),
            decreases self.datasets@.len() - i,
        {
            proof {
                lemma_count_true_bound(self.datasets@.take(i as int));
            }
            if self.datasets[i] {
                flags.append("x,");
                total += 1;
            } else {
                flags.append(",");
            }
            i += 1;
            proof {
                assert(self.datasets@.take(i as int).drop_last() =~= self.datasets@.take(i - 1));
            }
        }
        proof {
            assert(self.datasets@.take(self.datasets@.len() as int) =~= self.datasets@);
        }
        let mut r = u64_to_dec_string(total as u64);
        r.append(",");
        r.append(flags.as_str());
        r
    }

    /// One row of the CSV comparison report: name, type, verdict name,
    /// plain comments and the usage cells, comma-separated.
    pub fn csv_row(&self) -> (r: String)
        ensures
            r@ == self.column.key_name@ + ","@ + self.column.column_type@ + ","@
                + spec_suggestion_name(self.suggestion@) + ","@ + spec_comments_string(
                self.suggestion@,
                false,
            ) + ","@ + spec_dec_nat(spec_count_true(self.datasets@) as nat) + ","@
                + spec_usage_flags(self.datasets@),
    {
        let mut r = self.column.key_name.clone();
        r.append(",");
        r.append(self.column.column_type.as_str());
        r.append(",");
        let name = self.suggestion.get_name();
        r.append(name.as_str());
        r.append(",");
        let comments = self.suggestion.get_comments_string(false);
        r.append(comments.as_str());
        r.append(",");
        let usage = self.datasets_as_string();
        r.append(usage.as_str());
        proof {
            assert(r@ =~= self.column.key_name@ + ","@ + self.column.column_type@ + ","@
                + spec_suggestion_name(self.suggestion@) + ","@ + spec_comments_string(
                self.suggestion@,
                false,
            ) + ","@ + spec_dec_nat(spec_count_true(self.datasets@) as nat) + ","@
                + spec_usage_flags(self.datasets@));
        }
        r
    }
}

/// The larger of the base width and the longest column name, in
/// characters.
pub open spec fn spec_max_name_len(cols: Seq<ColumnUsage>, base: int) -> int
    decreases cols.len(),
{
    if cols.len() == 0 {
        base
    } else {
        let rest = spec_max_name_len(cols.drop_last(), base);
        let l = cols.last().column.key_name@.len() as int;
        if l > rest {
            l
        } else {
            rest
        }
    }
}

/// The width of the report's name column: the header width of six
/// characters, or the longest column name if longer.
pub fn longest_column_name(columns: &Vec<ColumnUsage>) -> (r: usize)
    ensures
        r == spec_max_name_len(columns@, 6),
{
    let mut r: usize = 6;
    let mut i: usize = 0;
    while i < columns.len()
        invariant
            i <= columns@.len(),
            r == spec_max_name_len(columns@.take(i as int), 6),
        decreases columns@.len() - i,
    {
        let l = columns[i].column.key_name.as_str().unicode_len();
        if l > r {
            r = l;
        }
        i += 1;
        proof {
            assert(columns@.take(i as int).drop_last() =~= columns@.take(i - 1));
        }
    }
    proof {
        assert(columns@.take(columns@.len() as int) =~= columns@);
    }
    r
}

} // verus!
