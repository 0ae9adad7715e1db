use vstd::prelude::*;

use crate::models::ImportConfig;

verus! {

/// The position of the first header equal to `name`.
pub open spec fn first_header_index(headers: Seq<String>, name: Seq<char>) -> Option<int>
    decreases headers.len(),
{
    if headers.len() == 0 {
        Option::None
    } else if headers[0]@ == name {
        Option::Some(0int)
    } else {
        match first_header_index(headers.subrange(1, headers.len() as int), name) {
            Option::Some(i) => Option::Some(i + 1),
            Option::None => Option::None,
        }
    }
}

/// A scan that matched at `i` after rejecting everything before it
/// found the first match.
proof fn lemma_first_header_index_found(headers: Seq<String>, name: Seq<char>, i: int)
    requires
        0 <= i < headers.len(),
        headers[i]@ == name,
        forall|j: int| 0 <= j < i ==> (#[trigger] headers[j])@ != name,
    ensures
        first_header_index(headers, name) == Option::Some(i),
    decreases headers.len(),
{
    if i == 0 {
    } else {
        let tail = headers.subrange(1, headers.len() as int);
        assert forall|j: int| 0 <= j < i - 1 implies (#[trigger] tail[j])@ != name by {
            assert(tail[j] == headers[j + 1]);
        }
        assert(tail[i - 1] == headers[i]);
        lemma_first_header_index_found(tail, name, i - 1);
    }
}

/// A scan that rejected every header found no match.
proof fn lemma_first_header_index_none(headers: Seq<String>, name: Seq<char>)
    requires
        forall|j: int| 0 <= j < headers.len() ==> (#[trigger] headers[j])@ != name,
    ensures
        first_header_index(headers, name) is None,
    decreases headers.len(),
{
    if headers.len() > 0 {
        let tail = headers.subrange(1, headers.len() as int);
        assert forall|j: int| 0 <= j < tail.len() implies (#[trigger] tail[j])@ != name by {
            assert(tail[j] == headers[j + 1]);
        }
        lemma_first_header_index_none(tail, name);
    }
}

/// Find the first column whose header equals `name`.
pub fn find_column(headers: &Vec<String>, name: &str) -> (r: Option<usize>)
    ensures
        match r {
            Option::Some(i) => i < headers@.len() && first_header_index(headers@, name@)
                == Option::Some(i as int),
            Option::None => first_header_index(headers@, name@) is None,
        },
{
    let owned = name.to_owned();
    let n = headers.len();
    let mut i: usize = 0;
    while i < n
        invariant
            i <= n,
            n == headers@.len(),
            owned@ == name@,
            forall|j: int| 0 <= j < i ==> (#[trigger] headers@[j])@ != name@,
        decreases n - i,
    {
        if headers[i] == owned {
            proof {
                lemma_first_header_index_found(headers@, name@, i as int);
            }
            return Option::Some(i);
        }
        i = i + 1;
    }
    proof {
        lemma_first_header_index_none(headers@, name@);
    }
    Option::None
}

/// Where in a CSV file each configured series lives: the time column's
/// position, and for every configured series the position of its
/// column, absent when the file lacks it (such series are skipped).
#[derive(Clone, Debug)]
pub struct ImportPlan {
    pub time_index: usize,
    pub series_columns: Vec<Option<usize>>,
}

/// One planned series column agrees with the headers.
pub open spec fn series_column_matches(
    col: Option<usize>,
    headers: Seq<String>,
    ident: Seq<char>,
) -> bool {
    match col {
        Option::Some(i) => first_header_index(headers, ident) == Option::Some(i as int),
        Option::None => first_header_index(headers, ident) is None,
    }
}

/// Resolve an import configuration against a CSV header row.  Fails
/// only when the configured time column is missing; a configured series
/// whose column is missing is planned as absent.
pub fn plan_import(headers: &Vec<String>, config: &ImportConfig) -> (r: Option<ImportPlan>)
    ensures
        match r {
            Option::Some(plan) => {
                &&& first_header_index(headers@, config.time_column@) == Option::Some(
                    plan.time_index as int,
                )
                &&& plan.series_columns@.len() == config.timeseries@.len()
                &&& forall|i: int|
                    0 <= i < config.timeseries@.len() ==> series_column_matches(
                        #[trigger] plan.series_columns@[i],
                        headers@,
                        config.timeseries@[i].identifier@,
                    )
            },
            Option::None => first_header_index(headers@, config.time_column@) is None,
        },
{
    let time_index = match find_column(headers, config.time_column.as_str()) {
        Option::Some(i) => i,
        Option::None => {
            return Option::None;
        },
    };
    let mut series_columns: Vec<Option<usize>> = Vec::new();
    let n = config.timeseries.len();
    let mut i: usize = 0;
    while i < n
        invariant
            i <= n,
            n == config.timeseries@.len(),
            series_columns@.len() == i,
            forall|j: int|
                0 <= j < i ==> series_column_matches(
                    #[trigger] series_columns@[j],
                    headers@,
                    config.timeseries@[j].identifier@,
                ),
        decreases n - i,
    {
        let col = find_column(headers, config.timeseries[i].identifier.as_str());
        series_columns.push(col);
        i = i + 1;
    }
    Option::Some(ImportPlan { time_index, series_columns })
}

} // verus!
