//! The listing order of the job table: rows sorted by creation date,
//! newest first, ties keeping their stored order, and the page window
//! taken out of that ordering.

use vstd::prelude::*;

use crate::model::Job;

verus! {

/// `j` placed into `s` after every row whose creation date is no older:
/// the insertion step of a stable descending sort.
pub open spec fn insert_by_date_desc(s: Seq<Job>, j: Job) -> Seq<Job>
    decreases s.len(),
{
    if s.len() == 0 {
        seq![j]
    } else if j.creation_date > s[0].creation_date {
        seq![j] + s
    } else {
        seq![s[0]] + insert_by_date_desc(s.drop_first(), j)
    }
}

/// `s` sorted by creation date, newest first; rows with equal dates keep
/// their order in `s`.
pub open spec fn sort_by_date_desc(s: Seq<Job>) -> Seq<Job>
    decreases s.len(),
{
    if s.len() == 0 {
        Seq::<Job>::empty()
    } else {
        insert_by_date_desc(sort_by_date_desc(s.drop_last()), s.last())
    }
}

/// No row is followed by a row with a newer creation date.
pub open spec fn sorted_by_date_desc(s: Seq<Job>) -> bool {
    forall|i: int, k: int|
        0 <= i < k < s.len() ==> s[i].creation_date >= s[k].creation_date
}

/// The page window: up to `page_size` rows of `s` starting at `offset`.
pub open spec fn spec_page(s: Seq<Job>, page_size: int, offset: int) -> Seq<Job>
    recommends
        page_size >= 0,
        offset >= 0,
{
    let start = if offset < s.len() as int {
        offset
    } else {
        s.len() as int
    };
    let end = if offset + page_size < s.len() as int {
        offset + page_size
    } else {
        s.len() as int
    };
    s.subrange(start, end)
}

/// Inserting a row anywhere adds exactly that row to the contents.
proof fn lemma_to_multiset_insert(s: Seq<Job>, p: int, j: Job)
    requires
        0 <= p <= s.len(),
    ensures
        s.insert(p, j).to_multiset() == s.to_multiset().insert(j),
{
    broadcast use vstd::seq_lib::group_to_multiset_ensures;
    broadcast use vstd::multiset::group_multiset_axioms;

    let t = s.insert(p, j);
    assert(t.remove(p) =~= s);
    assert(t[p] == j);
    assert(t.remove(p).to_multiset() == t.to_multiset().remove(j));
    assert(t.to_multiset().contains(j)) by {
        assert(t.contains(j));
    }
    assert(t.to_multiset() =~= s.to_multiset().insert(j));
}

/// Where the insertion step puts the new row: at `p`, the first position
/// whose row is strictly older.
proof fn lemma_insert_at(s: Seq<Job>, j: Job, p: int)
    requires
        0 <= p <= s.len(),
        forall|q: int| 0 <= q < p ==> s[q].creation_date >= j.creation_date,
        p < s.len() ==> s[p].creation_date < j.creation_date,
    ensures
        insert_by_date_desc(s, j) == s.insert(p, j),
    decreases p,
{
    if p == 0 {
        if s.len() == 0 {
            assert(insert_by_date_desc(s, j) =~= s.insert(0, j));
        } else {
            assert(s[0].creation_date < j.creation_date);
            assert(insert_by_date_desc(s, j) =~= s.insert(0, j));
        }
    } else {
        assert(s[0].creation_date >= j.creation_date);
        assert(forall|q: int|
            0 <= q < p - 1 ==> s.drop_first()[q].creation_date >= j.creation_date);
        lemma_insert_at(s.drop_first(), j, p - 1);
        assert(insert_by_date_desc(s, j) =~= s.insert(p, j));
    }
}

/// The insertion step keeps the contents (plus the new row), keeps order,
/// and adds one to the length.
proof fn lemma_insert_desc_properties(s: Seq<Job>, j: Job)
    ensures
        insert_by_date_desc(s, j).len() == s.len() + 1,
        insert_by_date_desc(s, j).to_multiset() == s.to_multiset().insert(j),
        sorted_by_date_desc(s) ==> sorted_by_date_desc(insert_by_date_desc(s, j)),
        forall|k: int|
            0 <= k < s.len() + 1 ==> (#[trigger] insert_by_date_desc(s, j)[k] == j || s.contains(
                insert_by_date_desc(s, j)[k],
            )),
    decreases s.len(),
{
    broadcast use vstd::seq_lib::group_to_multiset_ensures;
    broadcast use vstd::multiset::group_multiset_axioms;

    let r = insert_by_date_desc(s, j);
    if s.len() == 0 {
        assert(r =~= s.insert(0, j));
        lemma_to_multiset_insert(s, 0, j);
    } else if j.creation_date > s[0].creation_date {
        assert(r =~= s.insert(0, j));
        lemma_to_multiset_insert(s, 0, j);
        if sorted_by_date_desc(s) {
            assert forall|i: int, k: int| 0 <= i < k < r.len() implies r[i].creation_date
                >= r[k].creation_date by {
                if i > 0 {
                    assert(r[i] == s[i - 1]);
                    assert(r[k] == s[k - 1]);
                }
            }
        }
        assert forall|k: int| 0 <= k < s.len() + 1 implies (r[k] == j || s.contains(r[k])) by {
            if k > 0 {
                assert(r[k] == s[k - 1]);
            }
        }
    } else {
        let d = s.drop_first();
        let inner = insert_by_date_desc(d, j);
        lemma_insert_desc_properties(d, j);
        assert(r =~= seq![s[0]] + inner);
        assert(r =~= inner.insert(0, s[0]));
        lemma_to_multiset_insert(inner, 0, s[0]);
        assert(s =~= d.insert(0, s[0]));
        lemma_to_multiset_insert(d, 0, s[0]);
        assert(r.to_multiset() =~= s.to_multiset().insert(j));
        assert forall|k: int| 0 <= k < s.len() + 1 implies (r[k] == j || s.contains(r[k])) by {
            if k > 0 {
                assert(r[k] == inner[k - 1]);
                if inner[k - 1] != j {
                    assert(d.contains(inner[k - 1]));
                    let q = choose|q: int| 0 <= q < d.len() && d[q] == inner[k - 1];
                    assert(s[q + 1] == d[q]);
                }
            }
        }
        if sorted_by_date_desc(s) {
            assert(sorted_by_date_desc(d)) by {
                assert(forall|i: int, k: int|
                    0 <= i < k < d.len() ==> d[i] == s[i + 1] && d[k] == s[k + 1]);
            }
            assert forall|i: int, k: int| 0 <= i < k < r.len() implies r[i].creation_date
                >= r[k].creation_date by {
                if i > 0 {
                    assert(r[i] == inner[i - 1] && r[k] == inner[k - 1]);
                } else {
                    assert(r[k] == inner[k - 1]);
                    if inner[k - 1] == j {
                        assert(s[0].creation_date >= j.creation_date);
                    } else {
                        assert(d.contains(inner[k - 1]));
                        let q = choose|q: int| 0 <= q < d.len() && d[q] == inner[k - 1];
                        assert(s[q + 1] == d[q]);
                        assert(s[0].creation_date >= s[q + 1].creation_date);
                    }
                }
            }
        }
    }
}

/// The sorted listing holds exactly the stored rows, newest first.
pub proof fn lemma_sort_by_date_desc_properties(s: Seq<Job>)
    ensures
        sort_by_date_desc(s).len() == s.len(),
        sort_by_date_desc(s).to_multiset() == s.to_multiset(),
        sorted_by_date_desc(sort_by_date_desc(s)),
    decreases s.len(),
{
    broadcast use vstd::seq_lib::group_to_multiset_ensures;
    broadcast use vstd::multiset::group_multiset_axioms;

    if s.len() == 0 {
    } else {
        let d = s.drop_last();
        lemma_sort_by_date_desc_properties(d);
        lemma_insert_desc_properties(sort_by_date_desc(d), s.last());
        assert(s =~= d.push(s.last()));
        assert(d.push(s.last()).to_multiset() == d.to_multiset().insert(s.last()));
    }
}

/// A page over the sorted listing holds exactly `page_size` rows — fewer
/// only when the table runs out past `offset` — and is itself ordered by
/// creation date descending.
pub proof fn lemma_page_shape(s: Seq<Job>, page_size: int, offset: int)
    requires
        page_size >= 0,
        offset >= 0,
    ensures
        spec_page(sort_by_date_desc(s), page_size, offset).len() == if offset >= s.len() {
            0int
        } else if page_size <= s.len() - offset {
            page_size
        } else {
            s.len() - offset
        },
        sorted_by_date_desc(spec_page(sort_by_date_desc(s), page_size, offset)),
{
    lemma_sort_by_date_desc_properties(s);
    let sorted = sort_by_date_desc(s);
    let page = spec_page(sorted, page_size, offset);
    assert forall|i: int, k: int| 0 <= i < k < page.len() implies page[i].creation_date
        >= page[k].creation_date by {
        let start = if offset < sorted.len() as int {
            offset
        } else {
            sorted.len() as int
        };
        assert(page[i] == sorted[start + i]);
        assert(page[k] == sorted[start + k]);
    }
}

/// The stored rows in listing order, newest first.
pub fn sorted_jobs(jobs: &Vec<Job>) -> (r: Vec<Job>)
    ensures
        r@ == sort_by_date_desc(jobs@),
{
    let n = jobs.len();
    let mut r: Vec<Job> = Vec::new();
    let mut i: usize = 0;
    while i < n
        invariant
            i <= n,
            n == jobs.len(),
            r@ == sort_by_date_desc(jobs@.subrange(0, i as int)),
        decreases n - i,
    {
        let j = jobs[i].clone();
        let mut p: usize = 0;
        while p < r.len() && r[p].creation_date >= j.creation_date
            invariant
                p <= r.len(),
                forall|q: int| 0 <= q < p ==> r@[q].creation_date >= j.creation_date,
            decreases r.len() - p,
        {
            p = p + 1;
        }
        proof {
            lemma_insert_at(r@, j, p as int);
            assert(jobs@.subrange(0, (i + 1) as int).drop_last() =~= jobs@.subrange(0, i as int));
            assert(jobs@.subrange(0, (i + 1) as int).last() == jobs@[i as int]);
        }
        r.insert(p, j);
        i = i + 1;
    }
    proof {
        assert(jobs@.subrange(0, n as int) =~= jobs@);
    }
    r
}

} // verus!
