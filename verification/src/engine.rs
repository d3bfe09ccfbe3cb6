//! The job repository: an in-process job table with the six domain
//! operations and their exact contracts. Rows are kept in insertion order;
//! identifiers are unique; listing sorts by creation date, newest first.

use vstd::prelude::*;
use vstd::string::StringExecFns;

use crate::errors::Error;
use crate::model::{Job, JobInfo, NewJob, PaginationDTO};
use crate::order::{sort_by_date_desc, sorted_jobs, spec_page};
use crate::utils::{current_timestamp, generate_job_id};

verus! {

/// No two rows carry the same identifier.
pub open spec fn unique_ids(s: Seq<Job>) -> bool {
    forall|i: int, k: int| 0 <= i < k < s.len() ==> s[i].id@ != s[k].id@
}

/// Some row carries the identifier `id`.
pub open spec fn contains_id(s: Seq<Job>, id: Seq<char>) -> bool {
    exists|i: int| 0 <= i < s.len() && s[i].id@ == id
}

/// The position of the row carrying `id` (meaningful when present and
/// identifiers are unique).
pub open spec fn index_of_id(s: Seq<Job>, id: Seq<char>) -> int {
    choose|i: int| 0 <= i < s.len() && s[i].id@ == id
}

/// What the update operation writes back: only the name, the total size and
/// the active flag of `inc`; every other field of the row stays.
pub open spec fn apply_update(row: Job, inc: Job) -> Job {
    Job { name: inc.name, total_size: inc.total_size, is_active: inc.is_active, ..row }
}

/// The remaining size `total - downloaded`, wrapped into `i32` the way
/// two's-complement subtraction wraps.
pub open spec fn spec_remaining(total: int, downloaded: int) -> int {
    let d = total - downloaded;
    if d > i32::MAX {
        d - 0x1_0000_0000
    } else if d < i32::MIN {
        d + 0x1_0000_0000
    } else {
        d
    }
}

/// The job table. Its abstract state is the sequence of rows in insertion
/// order.
pub struct JobStore {
    jobs: Vec<Job>,
}

impl View for JobStore {
    type V = Seq<Job>;

    closed spec fn view(&self) -> Seq<Job> {
        self.jobs@
    }
}

impl JobStore {
    /// Well-formed: identifiers unique, and the row count within what the
    /// count operation can report.
    pub open spec fn wf(&self) -> bool {
        unique_ids(self@) && self@.len() <= i64::MAX
    }

    /// An empty job table.
    pub fn new() -> (r: JobStore)
        ensures
            r.wf(),
            r@ == Seq::<Job>::empty(),
    {
        JobStore { jobs: Vec::new() }
    }
}

/// The row position `find_index` reports agrees with `index_of_id`.
proof fn lemma_index_of_id_unique(s: Seq<Job>, i: int)
    requires
        unique_ids(s),
        0 <= i < s.len(),
    ensures
        index_of_id(s, s[i].id@) == i,
{
    assert(contains_id(s, s[i].id@));
    let k = index_of_id(s, s[i].id@);
    assert(0 <= k < s.len() && s[k].id@ == s[i].id@);
}

/// The position of the row carrying `id`, if any.
fn find_index(jobs: &Vec<Job>, id: &String) -> (r: Option<usize>)
    ensures
        match r {
            Some(i) => i < jobs@.len() && jobs@[i as int].id@ == id@,
            None => !contains_id(jobs@, id@),
        },
{
    let n = jobs.len();
    let mut i: usize = 0;
    while i < n
        invariant
            i <= n,
            n == jobs@.len(),
            forall|k: int| 0 <= k < i ==> jobs@[k].id@ != id@,
        decreases n - i,
    {
        let row = &jobs[i];
        if row.id == *id {
            return Some(i);
        }
        i = i + 1;
    }
    None
}

/// Inserts a new row built from `new_job` with the given identifier and
/// creation instant: downloaded size and percent zero, status "Active", no
/// expiration. Fails with `DuplicationError`, leaving the table unchanged,
/// exactly when the identifier is already taken.
pub fn add_job_with_id(new_job: &NewJob, id: String, now: i64, store: &mut JobStore) -> (r:
    Result<Job, Error>)
    requires
        old(store).wf(),
        old(store)@.len() < i64::MAX,
    ensures
        final(store).wf(),
        (r is Ok) <==> !contains_id(old(store)@, id@),
        r matches Ok(j) ==> {
            &&& final(store)@ == old(store)@.push(j)
            &&& j.id == id
            &&& j.name == new_job.name
            &&& j.total_size == new_job.total_size
            &&& j.is_active == new_job.is_active
            &&& j.downloaded_size == 0
            &&& j.percent_downloaded == 0
            &&& j.status@ == "Active"@
            &&& j.creation_date == now
            &&& j.expiration_date is None
        },
        r is Err ==> (r matches Err(Error::DuplicationError) && final(store)@ == old(store)@),
{
    match find_index(&store.jobs, &id) {
        Some(_) => Err(Error::DuplicationError),
        None => {
            let j = Job {
                id,
                name: new_job.name.clone(),
                total_size: new_job.total_size,
                downloaded_size: 0,
                percent_downloaded: 0,
                status: String::from_str("Active"),
                is_active: new_job.is_active,
                creation_date: now,
                expiration_date: None,
            };
            let out = j.clone();
            proof {
                assert forall|a: int, b: int|
                    0 <= a < b < old(store)@.push(j).len() implies old(store)@.push(j)[a].id@
                    != old(store)@.push(j)[b].id@ by {
                    if b < old(store)@.len() {
                    } else {
                        assert(old(store)@.push(j)[b] == j);
                        assert(!contains_id(old(store)@, j.id@));
                    }
                }
            }
            store.jobs.push(j);
            Ok(out)
        },
    }
}

impl NewJob {
    /// Inserts this request as a new row: a freshly generated identifier,
    /// the clock's creation instant, downloaded size and percent zero,
    /// status "Active", no expiration. The identifier is random, so a
    /// collision — and with it `DuplicationError` — can never be ruled out;
    /// on failure the table is unchanged.
    pub fn add_job(&self, store: &mut JobStore) -> (r: Result<Job, Error>)
        requires
            old(store).wf(),
            old(store)@.len() < i64::MAX,
        ensures
            final(store).wf(),
            r matches Ok(j) ==> {
                &&& final(store)@ == old(store)@.push(j)
                &&& !contains_id(old(store)@, j.id@)
                &&& j.id@.len() == 36
                &&& j.name == self.name
                &&& j.total_size == self.total_size
                &&& j.is_active == self.is_active
                &&& j.downloaded_size == 0
                &&& j.percent_downloaded == 0
                &&& j.status@ == "Active"@
                &&& j.expiration_date is None
            },
            r is Err ==> (r matches Err(Error::DuplicationError) && final(store)@ == old(
                store,
            )@),
    {
        let id = generate_job_id();
        let now = current_timestamp();
        add_job_with_id(self, id, now, store)
    }
}

/// Inserts every given row as it stands. Succeeds exactly when the
/// identifiers of the table and of all given rows are distinct together;
/// otherwise fails with `DuplicationError` and leaves the table unchanged.
pub fn create_bulk_jobs(other_jobs: &Vec<Job>, store: &mut JobStore) -> (r: Result<
    Vec<Job>,
    Error,
>)
    requires
        old(store).wf(),
        old(store)@.len() + other_jobs@.len() <= i64::MAX,
    ensures
        final(store).wf(),
        (r is Ok) <==> unique_ids(old(store)@ + other_jobs@),
        r matches Ok(v) ==> final(store)@ == old(store)@ + other_jobs@ && v@ == other_jobs@,
        r is Err ==> (r matches Err(Error::DuplicationError) && final(store)@ == old(store)@),
{
    let ghost all = old(store)@ + other_jobs@;
    let n = other_jobs.len();
    let mut k: usize = 0;
    while k < n
        invariant
            k <= n,
            n == other_jobs@.len(),
            store == old(store),
            store.wf(),
            unique_ids(old(store)@ + other_jobs@.subrange(0, k as int)),
            all == old(store)@ + other_jobs@,
        decreases n - k,
    {
        let row = &other_jobs[k];
        match find_index(&store.jobs, &row.id) {
            Some(found) => {
                proof {
                    assert(all[found as int] == old(store)@[found as int]);
                    assert(all[old(store)@.len() + k as int] == other_jobs@[k as int]);
                    assert(all[found as int].id@ == all[old(store)@.len() + k as int].id@);
                    assert(!unique_ids(all));
                }
                return Err(Error::DuplicationError);
            },
            None => {},
        }
        let mut m: usize = 0;
        while m < k
            invariant
                m <= k < n,
                n == other_jobs@.len(),
                store == old(store),
                store.wf(),
                all == old(store)@ + other_jobs@,
                forall|q: int| 0 <= q < m ==> other_jobs@[q].id@ != other_jobs@[k as int].id@,
            decreases k - m,
        {
            let earlier = &other_jobs[m];
            let current = &other_jobs[k];
            if earlier.id == current.id {
                proof {
                    let a = old(store)@.len() + m as int;
                    let b = old(store)@.len() + k as int;
                    assert(all[a] == other_jobs@[m as int]);
                    assert(all[b] == other_jobs@[k as int]);
                    assert(!unique_ids(all));
                }
                return Err(Error::DuplicationError);
            }
            m = m + 1;
        }
        proof {
            let ghost ext = old(store)@ + other_jobs@.subrange(0, k as int + 1);
            assert forall|a: int, b: int| 0 <= a < b < ext.len() implies ext[a].id@
                != ext[b].id@ by {
                let prev = old(store)@ + other_jobs@.subrange(0, k as int);
                if b < ext.len() - 1 {
                    assert(ext[a] == prev[a] && ext[b] == prev[b]);
                } else {
                    assert(ext[b] == other_jobs@[k as int]);
                    if a < old(store)@.len() {
                        assert(ext[a] == old(store)@[a]);
                        assert(!contains_id(old(store)@, other_jobs@[k as int].id@));
                    } else {
                        assert(ext[a] == other_jobs@[a - old(store)@.len()]);
                    }
                }
            }
        }
        k = k + 1;
    }
    proof {
        assert(other_jobs@.subrange(0, n as int) =~= other_jobs@);
    }
    let mut inserted: Vec<Job> = Vec::new();
    let mut t: usize = 0;
    while t < n
        invariant
            t <= n,
            n == other_jobs@.len(),
            store@ == old(store)@ + other_jobs@.subrange(0, t as int),
            inserted@ == other_jobs@.subrange(0, t as int),
            unique_ids(old(store)@ + other_jobs@),
        decreases n - t,
    {
        let row = other_jobs[t].clone();
        let out = row.clone();
        store.jobs.push(row);
        inserted.push(out);
        proof {
            assert(other_jobs@.subrange(0, t as int + 1) =~= other_jobs@.subrange(
                0,
                t as int,
            ).push(other_jobs@[t as int]));
            assert(store@ =~= old(store)@ + other_jobs@.subrange(0, t as int + 1));
        }
        t = t + 1;
    }
    proof {
        assert(other_jobs@.subrange(0, n as int) =~= other_jobs@);
    }
    Ok(inserted)
}

/// Every row of the table, in insertion order.
pub fn get_all_jobs(store: &JobStore) -> (r: Result<Vec<Job>, Error>)
    ensures
        r matches Ok(v) && v@ == store@,
{
    let n = store.jobs.len();
    let mut out: Vec<Job> = Vec::new();
    let mut i: usize = 0;
    while i < n
        invariant
            i <= n,
            n == store@.len(),
            out@ == store@.subrange(0, i as int),
        decreases n - i,
    {
        let row = store.jobs[i].clone();
        out.push(row);
        proof {
            assert(store@.subrange(0, i as int + 1) =~= store@.subrange(0, i as int).push(
                store@[i as int],
            ));
        }
        i = i + 1;
    }
    proof {
        assert(store@.subrange(0, n as int) =~= store@);
    }
    Ok(out)
}

/// Up to `page_size` rows, ordered by creation date descending, starting at
/// `offset`. Negative parameters are not rejected here: they are handed to
/// the store, which refuses them, and that refusal comes back as a store
/// error — exactly when either parameter is negative.
pub fn get_all_paginated_jobs(pagination_dto: &PaginationDTO, store: &JobStore) -> (r: Result<
    Vec<Job>,
    Error,
>)
    requires
        store.wf(),
    ensures
        (r is Ok) <==> (pagination_dto.page_size >= 0 && pagination_dto.offset >= 0),
        r matches Ok(v) ==> v@ == spec_page(
            sort_by_date_desc(store@),
            pagination_dto.page_size as int,
            pagination_dto.offset as int,
        ),
        r is Err ==> r matches Err(Error::DBError(_)),
{
    if pagination_dto.page_size < 0 || pagination_dto.offset < 0 {
        return Err(Error::DBError(String::from_str("LIMIT and OFFSET must not be negative")));
    }
    let sorted = sorted_jobs(&store.jobs);
    proof {
        crate::order::lemma_sort_by_date_desc_properties(store@);
    }
    let len = sorted.len();
    let start: usize = if pagination_dto.offset >= len as i64 {
        len
    } else {
        pagination_dto.offset as usize
    };
    let remaining = len - start;
    let take: usize = if pagination_dto.page_size >= remaining as i64 {
        remaining
    } else {
        pagination_dto.page_size as usize
    };
    let mut out: Vec<Job> = Vec::new();
    let mut i: usize = 0;
    while i < take
        invariant
            i <= take,
            start + take <= len,
            len == sorted@.len(),
            out@ == sorted@.subrange(start as int, start as int + i as int),
        decreases take - i,
    {
        let row = sorted[start + i].clone();
        out.push(row);
        proof {
            assert(sorted@.subrange(start as int, start as int + i as int + 1)
                =~= sorted@.subrange(start as int, start as int + i as int).push(
                sorted@[start as int + i as int],
            ));
        }
        i = i + 1;
    }
    proof {
        assert(out@ =~= spec_page(
            sort_by_date_desc(store@),
            pagination_dto.page_size as int,
            pagination_dto.offset as int,
        ));
    }
    Ok(out)
}

/// The total row count, independent of any pagination.
pub fn count_jobs(store: &JobStore) -> (r: Result<i64, Error>)
    requires
        store.wf(),
    ensures
        r matches Ok(c) && c == store@.len(),
{
    Ok(store.jobs.len() as i64)
}

/// Deletes and returns the row carrying `other_job_id`. Fails with
/// `NotFound`, leaving the table unchanged, exactly when no row carries it.
pub fn delete_job_by_id(other_job_id: &String, store: &mut JobStore) -> (r: Result<Job, Error>)
    requires
        old(store).wf(),
    ensures
        final(store).wf(),
        (r is Ok) <==> contains_id(old(store)@, other_job_id@),
        r matches Ok(j) ==> {
            &&& j == old(store)@[index_of_id(old(store)@, other_job_id@)]
            &&& final(store)@ == old(store)@.remove(index_of_id(old(store)@, other_job_id@))
        },
        r is Err ==> (r matches Err(Error::NotFound(m)) && m@ == crate::errors::spec_message_of(
            crate::errors::StateCode::NotFound,
        ) && final(store)@ == old(store)@),
{
    match find_index(&store.jobs, other_job_id) {
        Some(i) => {
            proof {
                lemma_index_of_id_unique(store@, i as int);
                let after = store@.remove(i as int);
                assert forall|a: int, b: int| 0 <= a < b < after.len() implies after[a].id@
                    != after[b].id@ by {
                    let ai = if a < i as int { a } else { a + 1 };
                    let bi = if b < i as int { b } else { b + 1 };
                    assert(after[a] == store@[ai]);
                    assert(after[b] == store@[bi]);
                }
            }
            let j = store.jobs.remove(i);
            Ok(j)
        },
        None => Err(Error::NotFound(String::from_str("Cannot find the object in the Server."))),
    }
}

/// Sets the active flag of the row carrying `other_job_id` and reports how
/// many rows that touched: one when the row exists, zero when it does not.
/// Every other field of every row stays as it was.
pub fn set_activate_job(other_job_id: &String, activate: bool, store: &mut JobStore) -> (r:
    Result<usize, Error>)
    requires
        old(store).wf(),
    ensures
        final(store).wf(),
        r matches Ok(n) ==> {
            &&& contains_id(old(store)@, other_job_id@) ==> {
                &&& n == 1
                &&& final(store)@ == old(store)@.update(
                    index_of_id(old(store)@, other_job_id@),
                    Job {
                        is_active: activate,
                        ..old(store)@[index_of_id(old(store)@, other_job_id@)]
                    },
                )
            }
            &&& !contains_id(old(store)@, other_job_id@) ==> n == 0 && final(store)@ == old(
                store,
            )@
        },
        r is Ok,
{
    match find_index(&store.jobs, other_job_id) {
        Some(i) => {
            proof {
                lemma_index_of_id_unique(store@, i as int);
            }
            let mut row = store.jobs.remove(i);
            row.is_active = activate;
            store.jobs.insert(i, row);
            proof {
                let updated = old(store)@.update(
                    index_of_id(old(store)@, other_job_id@),
                    Job {
                        is_active: activate,
                        ..old(store)@[index_of_id(old(store)@, other_job_id@)]
                    },
                );
                assert(store@ =~= updated);
                assert forall|a: int, b: int| 0 <= a < b < updated.len() implies updated[a].id@
                    != updated[b].id@ by {
                    assert(updated[a].id@ == old(store)@[a].id@);
                    assert(updated[b].id@ == old(store)@[b].id@);
                }
            }
            Ok(1)
        },
        None => Ok(0),
    }
}

/// Empties the table and reports how many rows were removed.
pub fn delete_all_jobs(store: &mut JobStore) -> (r: Result<usize, Error>)
    requires
        old(store).wf(),
    ensures
        final(store).wf(),
        r matches Ok(n) && n == old(store)@.len() && final(store)@ == Seq::<Job>::empty(),
{
    let n = store.jobs.len();
    store.jobs.clear();
    Ok(n)
}

/// Returns the row carrying `other_job_id`, or fails with `NotFound`
/// exactly when no row carries it.
pub fn find_job_by_id(other_job_id: &String, store: &JobStore) -> (r: Result<Job, Error>)
    requires
        store.wf(),
    ensures
        (r is Ok) <==> contains_id(store@, other_job_id@),
        r matches Ok(j) ==> j == store@[index_of_id(store@, other_job_id@)],
        r is Err ==> (r matches Err(Error::NotFound(m)) && m@ == crate::errors::spec_message_of(
            crate::errors::StateCode::NotFound,
        )),
{
    match find_index(&store.jobs, other_job_id) {
        Some(i) => {
            proof {
                lemma_index_of_id_unique(store@, i as int);
            }
            Ok(store.jobs[i].clone())
        },
        None => Err(Error::NotFound(String::from_str("Cannot find the object in the Server."))),
    }
}

/// Writes back the name, the total size and the active flag of
/// `incoming_job` onto the row carrying its identifier, leaves every other
/// field of that row as stored, and returns the row as now stored. Fails
/// with a store error, leaving the table unchanged, exactly when no row
/// carries the identifier.
pub fn update_job(incoming_job: &Job, store: &mut JobStore) -> (r: Result<Job, Error>)
    requires
        old(store).wf(),
    ensures
        final(store).wf(),
        (r is Ok) <==> contains_id(old(store)@, incoming_job.id@),
        r matches Ok(j) ==> {
            &&& j == apply_update(
                old(store)@[index_of_id(old(store)@, incoming_job.id@)],
                *incoming_job,
            )
            &&& final(store)@ == old(store)@.update(
                index_of_id(old(store)@, incoming_job.id@),
                j,
            )
        },
        r is Err ==> (r matches Err(Error::DBError(_)) && final(store)@ == old(store)@),
{
    match find_index(&store.jobs, &incoming_job.id) {
        Some(i) => {
            proof {
                lemma_index_of_id_unique(store@, i as int);
            }
            let mut row = store.jobs.remove(i);
            row.name = incoming_job.name.clone();
            row.total_size = incoming_job.total_size;
            row.is_active = incoming_job.is_active;
            let out = row.clone();
            store.jobs.insert(i, row);
            proof {
                let idx = index_of_id(old(store)@, incoming_job.id@);
                let updated = old(store)@.update(idx, apply_update(old(store)@[idx], *incoming_job));
                assert(store@ =~= updated);
                assert forall|a: int, b: int| 0 <= a < b < updated.len() implies updated[a].id@
                    != updated[b].id@ by {
                    assert(updated[a].id@ == old(store)@[a].id@);
                    assert(updated[b].id@ == old(store)@[b].id@);
                }
            }
            Ok(out)
        },
        None => Err(Error::DBError(String::from_str("NotFound"))),
    }
}

/// Composes a lookup with the remaining-size computation:
/// `remaining = total_size - downloaded_size` (wrapped as `i32`
/// subtraction wraps). Propagates the lookup's error unchanged.
pub fn get_job_info(other_job_id: &String, store: &JobStore) -> (r: Result<JobInfo, Error>)
    requires
        store.wf(),
    ensures
        (r is Ok) <==> contains_id(store@, other_job_id@),
        r matches Ok(info) ==> {
            let j = store@[index_of_id(store@, other_job_id@)];
            &&& info.name == j.name
            &&& info.downloaded_size == j.downloaded_size
            &&& info.remaining_size == spec_remaining(
                j.total_size as int,
                j.downloaded_size as int,
            )
        },
        r is Err ==> (r matches Err(Error::NotFound(m)) && m@ == crate::errors::spec_message_of(
            crate::errors::StateCode::NotFound,
        )),
{
    match find_job_by_id(other_job_id, store) {
        Ok(found_job) => {
            let wide: i64 = found_job.total_size as i64 - found_job.downloaded_size as i64;
            let remaining: i32 = if wide > i32::MAX as i64 {
                (wide - 0x1_0000_0000) as i32
            } else if wide < i32::MIN as i64 {
                (wide + 0x1_0000_0000) as i32
            } else {
                wide as i32
            };
            Ok(JobInfo {
                name: found_job.name,
                downloaded_size: found_job.downloaded_size,
                remaining_size: remaining,
            })
        },
        Err(e) => Err(e),
    }
}

/// The update operation writes back only the name, the total size and the
/// active flag: the identifier, the sizes of progress, the status and the
/// dates of the stored row all stay.
pub proof fn lemma_update_narrowing(row: Job, inc: Job)
    ensures
        apply_update(row, inc).id == row.id,
        apply_update(row, inc).name == inc.name,
        apply_update(row, inc).total_size == inc.total_size,
        apply_update(row, inc).is_active == inc.is_active,
        apply_update(row, inc).downloaded_size == row.downloaded_size,
        apply_update(row, inc).percent_downloaded == row.percent_downloaded,
        apply_update(row, inc).status == row.status,
        apply_update(row, inc).creation_date == row.creation_date,
        apply_update(row, inc).expiration_date == row.expiration_date,
{
}

/// Two updates of the same row, each written from its own stale read: the
/// later write wins and the earlier one is lost without trace — the row
/// ends exactly as if only the later update had run.
pub proof fn lemma_update_last_wins(row: Job, a: Job, b: Job)
    ensures
        apply_update(apply_update(row, a), b) == apply_update(row, b),
{
}

/// The lost update seen at the table: applying update `a` and then update
/// `b` to the row both carry the identifier of leaves the table exactly as
/// applying `b` alone would have.
pub proof fn lemma_store_update_last_wins(s: Seq<Job>, a: Job, b: Job)
    requires
        unique_ids(s),
        a.id@ == b.id@,
        contains_id(s, a.id@),
    ensures
        ({
            let i = index_of_id(s, a.id@);
            let s1 = s.update(i, apply_update(s[i], a));
            &&& contains_id(s1, b.id@)
            &&& index_of_id(s1, b.id@) == i
            &&& s1.update(i, apply_update(s1[i], b)) == s.update(i, apply_update(s[i], b))
        }),
{
    let i = index_of_id(s, a.id@);
    assert(0 <= i < s.len() && s[i].id@ == a.id@);
    let s1 = s.update(i, apply_update(s[i], a));
    assert(s1[i].id@ == b.id@);
    assert(contains_id(s1, b.id@));
    assert forall|a2: int, b2: int| 0 <= a2 < b2 < s1.len() implies s1[a2].id@
        != s1[b2].id@ by {
        assert(s1[a2].id@ == s[a2].id@);
        assert(s1[b2].id@ == s[b2].id@);
    }
    lemma_index_of_id_unique(s1, i);
    assert(s1.update(i, apply_update(s1[i], b)) =~= s.update(i, apply_update(s[i], b)));
}

} // verus!
