use vstd::prelude::*;

use crate::models::NewDatapoint;
use crate::models::TimeseriesMeta;

verus! {

/// The position of the first metadata row carrying `ident`.
pub open spec fn first_meta_index(metas: Seq<TimeseriesMeta>, ident: Seq<char>) -> Option<int>
    decreases metas.len(),
{
    if metas.len() == 0 {
        Option::None
    } else if metas[0].identifier@ == ident {
        Option::Some(0int)
    } else {
        match first_meta_index(metas.subrange(1, metas.len() as int), ident) {
            Option::Some(i) => Option::Some(i + 1),
            Option::None => Option::None,
        }
    }
}

/// A scan that matched at `i` after rejecting everything before it
/// found the first match.
proof fn lemma_first_meta_index_found(metas: Seq<TimeseriesMeta>, ident: Seq<char>, i: int)
    requires
        0 <= i < metas.len(),
        metas[i].identifier@ == ident,
        forall|j: int| 0 <= j < i ==> (#[trigger] metas[j]).identifier@ != ident,
    ensures
        first_meta_index(metas, ident) == Option::Some(i),
    decreases metas.len(),
{
    if i == 0 {
    } else {
        let tail = metas.subrange(1, metas.len() as int);
        assert forall|j: int| 0 <= j < i - 1 implies (#[trigger] tail[j]).identifier@ != ident by {
            assert(tail[j] == metas[j + 1]);
        }
        assert(tail[i - 1] == metas[i]);
        lemma_first_meta_index_found(tail, ident, i - 1);
    }
}

/// A scan that rejected every row found no match.
proof fn lemma_first_meta_index_none(metas: Seq<TimeseriesMeta>, ident: Seq<char>)
    requires
        forall|j: int| 0 <= j < metas.len() ==> (#[trigger] metas[j]).identifier@ != ident,
    ensures
        first_meta_index(metas, ident) is None,
    decreases metas.len(),
{
    if metas.len() > 0 {
        let tail = metas.subrange(1, metas.len() as int);
        assert forall|j: int| 0 <= j < tail.len() implies (#[trigger] tail[j]).identifier@
            != ident by {
            assert(tail[j] == metas[j + 1]);
        }
        lemma_first_meta_index_none(tail, ident);
    }
}

/// Find the first metadata row carrying `ident`.
pub fn find_meta_index(metas: &Vec<TimeseriesMeta>, ident: &str) -> (r: Option<usize>)
    ensures
        match r {
            Option::Some(i) => i < metas@.len() && first_meta_index(metas@, ident@)
                == Option::Some(i as int),
            Option::None => first_meta_index(metas@, ident@) is None,
        },
{
    let owned = ident.to_owned();
    let n = metas.len();
    let mut i: usize = 0;
    while i < n
        invariant
            i <= n,
            n == metas@.len(),
            owned@ == ident@,
            forall|j: int| 0 <= j < i ==> (#[trigger] metas@[j]).identifier@ != ident@,
        decreases n - i,
    {
        if metas[i].identifier == owned {
            proof {
                lemma_first_meta_index_found(metas@, ident@, i as int);
            }
            return Option::Some(i);
        }
        i = i + 1;
    }
    proof {
        lemma_first_meta_index_none(metas@, ident@);
    }
    Option::None
}

/// The store rows (timestamp, value, metadata id) that a batch of new
/// datapoints inserts: each point joined with the first metadata row
/// carrying its identifier; points without metadata are dropped.
pub open spec fn matched_rows(points: Seq<NewDatapoint>, metas: Seq<TimeseriesMeta>) -> Seq<
    (i64, i64, i32),
>
    decreases points.len(),
{
    if points.len() == 0 {
        Seq::empty()
    } else {
        let rest = matched_rows(points.drop_last(), metas);
        let p = points.last();
        match first_meta_index(metas, p.identifier@) {
            Option::Some(i) => rest.push((p.timestamp, p.value, metas[i].id)),
            Option::None => rest,
        }
    }
}

/// Join new datapoints with their metadata.
pub fn match_datapoints(points: &Vec<NewDatapoint>, metas: &Vec<TimeseriesMeta>) -> (r: Vec<
    (i64, i64, i32),
>)
    ensures
        r@ == matched_rows(points@, metas@),
{
    let mut out: Vec<(i64, i64, i32)> = Vec::new();
    let n = points.len();
    proof {
        assert(points@.subrange(0, 0) =~= Seq::<NewDatapoint>::empty());
    }
    let mut i: usize = 0;
    while i < n
        invariant
            i <= n,
            n == points@.len(),
            out@ == matched_rows(points@.subrange(0, i as int), metas@),
        decreases n - i,
    {
        let p = &points[i];
        proof {
            let pre = points@.subrange(0, i as int + 1);
            assert(pre.drop_last() =~= points@.subrange(0, i as int));
            assert(pre.last() == points@[i as int]);
        }
        match find_meta_index(metas, p.identifier.as_str()) {
            Option::Some(mi) => {
                let meta_id = metas[mi].id;
                out.push((p.timestamp, p.value, meta_id));
            },
            Option::None => {},
        }
        i = i + 1;
    }
    proof {
        assert(points@.subrange(0, n as int) =~= points@);
    }
    out
}

/// The identifiers of a batch of new datapoints, in order.
pub fn collect_identifiers(points: &Vec<NewDatapoint>) -> (r: Vec<String>)
    ensures
        r@.len() == points@.len(),
        forall|i: int| 0 <= i < points@.len() ==> (#[trigger] r@[i])@ == points@[i].identifier@,
{
    let mut out: Vec<String> = Vec::new();
    let n = points.len();
    let mut i: usize = 0;
    while i < n
        invariant
            i <= n,
            n == points@.len(),
            out@.len() == i,
            forall|j: int| 0 <= j < i ==> (#[trigger] out@[j])@ == points@[j].identifier@,
        decreases n - i,
    {
        out.push(points[i].identifier.clone());
        i = i + 1;
    }
    out
}

/// A sequence of strings with runs of consecutive equal entries
/// collapsed to their first entry.
pub open spec fn dedup_adjacent_spec(s: Seq<String>) -> Seq<String>
    decreases s.len(),
{
    if s.len() == 0 {
        Seq::empty()
    } else if s.len() == 1 {
        s
    } else if s.last()@ == s[s.len() - 2]@ {
        dedup_adjacent_spec(s.drop_last())
    } else {
        dedup_adjacent_spec(s.drop_last()).push(s.last())
    }
}

/// Collapse consecutive duplicate identifiers, keeping order.
pub fn dedup_identifiers(xs: &Vec<String>) -> (r: Vec<String>)
    ensures
        r@ == dedup_adjacent_spec(xs@),
{
    let mut out: Vec<String> = Vec::new();
    let n = xs.len();
    proof {
        assert(xs@.subrange(0, 0) =~= Seq::<String>::empty());
    }
    let mut i: usize = 0;
    while i < n
        invariant
            i <= n,
            n == xs@.len(),
            out@ == dedup_adjacent_spec(xs@.subrange(0, i as int)),
        decreases n - i,
    {
        proof {
            let pre = xs@.subrange(0, i as int + 1);
            assert(pre.drop_last() =~= xs@.subrange(0, i as int));
            assert(pre.last() == xs@[i as int]);
            if i > 0 {
                assert(pre[pre.len() - 2] == xs@[i as int - 1]);
            }
        }
        if i == 0 {
            out.push(xs[i].clone());
            proof {
                assert(out@ =~= dedup_adjacent_spec(xs@.subrange(0, i as int + 1)));
            }
        } else if xs[i] == xs[i - 1] {
        } else {
            out.push(xs[i].clone());
        }
        i = i + 1;
    }
    proof {
        assert(xs@.subrange(0, n as int) =~= xs@);
    }
    out
}

} // verus!
