//! The request flows: validate the input, make the repository call (or, for
//! update, the read then the write), and map every outcome to its response
//! payload or its fixed (code, message) error pair.

use vstd::prelude::*;

use crate::engine::{
    contains_id, count_jobs, delete_job_by_id, find_job_by_id, get_all_paginated_jobs,
    index_of_id, set_activate_job, update_job, JobStore,
};
use crate::errors::{
    ec_views, spec_code_of, spec_message_of, spec_name_violations, Error, ErrorCode, Errors,
    StateCode,
};
use crate::model::{spec_valid_name, Job, JobInfo, NewJob, PaginatedResponseDTO, PaginationDTO};
use crate::order::{sort_by_date_desc, spec_page};

verus! {

/// Validates the request's name, then inserts it as a new job. A name that
/// breaks the rules is refused with the full list of violations; a
/// colliding generated identifier surfaces as the duplication error pair.
pub fn add_job(new_job: &NewJob, store: &mut JobStore) -> (r: Result<Job, Errors>)
    requires
        old(store).wf(),
        old(store)@.len() < i64::MAX,
    ensures
        final(store).wf(),
        !spec_valid_name(new_job.name@) ==> (r matches Err(Errors::BadReq(v)) && ec_views(v@)
            == spec_name_violations(new_job.name@) && final(store)@ == old(store)@),
        spec_valid_name(new_job.name@) ==> match r {
            Ok(j) => {
                &&& final(store)@ == old(store)@.push(j)
                &&& !contains_id(old(store)@, j.id@)
                &&& j.id@.len() == 36
                &&& j.name == new_job.name
                &&& j.total_size == new_job.total_size
                &&& j.is_active == new_job.is_active
                &&& j.downloaded_size == 0
                &&& j.percent_downloaded == 0
                &&& j.status@ == "Active"@
                &&& j.expiration_date is None
            },
            Err(e) => {
                &&& e matches Errors::InternalServerError(ec)
                &&& ec.error_code@ == spec_code_of(StateCode::DuplicationError)
                &&& ec.message@ == spec_message_of(StateCode::DuplicationError)
                &&& final(store)@ == old(store)@
            },
        },
{
    let mut violations: Vec<ErrorCode> = Vec::new();
    ErrorCode::validate_errors(new_job.name.as_str(), &mut violations);
    if violations.len() > 0 {
        proof {
            assert(ec_views(violations@).len() == violations@.len());
            assert(spec_valid_name(new_job.name@) ==> spec_name_violations(
                new_job.name@,
            ).len() == 0);
        }
        return Err(Errors::BadReq(violations));
    }
    proof {
        assert(ec_views(violations@).len() == 0);
        assert(!spec_valid_name(new_job.name@) ==> spec_name_violations(new_job.name@).len()
            > 0);
    }
    match new_job.add_job(store) {
        Ok(job) => Ok(job),
        Err(e) => match e {
            Error::DuplicationError => Err(
                Errors::InternalServerError(ErrorCode::from(StateCode::DuplicationError)),
            ),
            _ => Err(Errors::InternalServerError(ErrorCode::from(StateCode::InternalServerError))),
        },
    }
}

/// Counts the jobs, takes the requested page newest-first, and returns both.
/// Pagination parameters the store refuses — a negative page size or offset
/// — come back as the pagination error pair, and only those do.
pub fn list_paginated_jobs(pagination_dto: &PaginationDTO, store: &JobStore) -> (r: Result<
    PaginatedResponseDTO<Job>,
    Errors,
>)
    requires
        store.wf(),
    ensures
        (r is Ok) <==> (pagination_dto.page_size >= 0 && pagination_dto.offset >= 0),
        r matches Ok(resp) ==> resp.count == store@.len() && resp.paginated_list@ == spec_page(
            sort_by_date_desc(store@),
            pagination_dto.page_size as int,
            pagination_dto.offset as int,
        ),
        r matches Err(e) ==> {
            &&& e matches Errors::BadRequest(ec)
            &&& ec.error_code@ == spec_code_of(StateCode::PaginationError)
            &&& ec.message@ == spec_message_of(StateCode::PaginationError)
        },
{
    match count_jobs(store) {
        Ok(jobs_count) => match get_all_paginated_jobs(pagination_dto, store) {
            Ok(paginated_list) => Ok(
                PaginatedResponseDTO { paginated_list, count: jobs_count },
            ),
            Err(_) => Err(Errors::BadRequest(ErrorCode::from(StateCode::PaginationError))),
        },
        Err(_) => Err(Errors::InternalServerError(ErrorCode::from(StateCode::DBError))),
    }
}

/// Deletes the addressed job and returns it; any repository failure —
/// including the row being absent — surfaces as the store error pair.
pub fn remove_job_by_id(job_id: &String, store: &mut JobStore) -> (r: Result<Job, Errors>)
    requires
        old(store).wf(),
    ensures
        final(store).wf(),
        (r is Ok) <==> contains_id(old(store)@, job_id@),
        r matches Ok(j) ==> {
            &&& j == old(store)@[index_of_id(old(store)@, job_id@)]
            &&& final(store)@ == old(store)@.remove(index_of_id(old(store)@, job_id@))
        },
        r matches Err(e) ==> {
            &&& e matches Errors::InternalServerError(ec)
            &&& ec.error_code@ == spec_code_of(StateCode::DBError)
            &&& ec.message@ == spec_message_of(StateCode::DBError)
            &&& final(store)@ == old(store)@
        },
{
    match delete_job_by_id(job_id, store) {
        Ok(deleted_job) => Ok(deleted_job),
        Err(_) => Err(Errors::InternalServerError(ErrorCode::from(StateCode::DBError))),
    }
}

/// Reads the addressed row, copies every mutable field but the name from
/// the request onto it, and writes it back — two separate repository calls,
/// not one atomic step. Because the write persists only the name, the total
/// size and the active flag, the request's changes to any other field (its
/// status among them) are not persisted: the row keeps its stored values
/// there, a deliberate reproduction of the store's narrowing.
pub fn update_job_api(incoming_job: &Job, store: &mut JobStore) -> (r: Result<Job, Errors>)
    requires
        old(store).wf(),
    ensures
        final(store).wf(),
        (r is Ok) <==> contains_id(old(store)@, incoming_job.id@),
        r matches Ok(j) ==> ({
            let row = old(store)@[index_of_id(old(store)@, incoming_job.id@)];
            let updated = Job {
                total_size: incoming_job.total_size,
                is_active: incoming_job.is_active,
                ..row
            };
            &&& j == updated
            &&& final(store)@ == old(store)@.update(
                index_of_id(old(store)@, incoming_job.id@),
                updated,
            )
        }),
        r matches Err(e) ==> {
            &&& e matches Errors::NotFound(ec)
            &&& ec.error_code@ == spec_code_of(StateCode::NotFound)
            &&& ec.message@ == spec_message_of(StateCode::NotFound)
            &&& final(store)@ == old(store)@
        },
{
    match find_job_by_id(&incoming_job.id, store) {
        Ok(mut found_job) => {
            found_job.total_size = incoming_job.total_size;
            found_job.downloaded_size = incoming_job.downloaded_size;
            found_job.percent_downloaded = incoming_job.percent_downloaded;
            found_job.status = incoming_job.status.clone();
            found_job.is_active = incoming_job.is_active;
            found_job.creation_date = incoming_job.creation_date;
            found_job.expiration_date = incoming_job.expiration_date;
            match update_job(&found_job, store) {
                Ok(updated_job) => Ok(updated_job),
                Err(_) => Err(Errors::InternalServerError(ErrorCode::from(StateCode::DBError))),
            }
        },
        Err(_) => Err(Errors::NotFound(ErrorCode::from(StateCode::NotFound))),
    }
}

/// Sets the active flag of the addressed job. A row count of one from the
/// store answers `true`; a count of zero means the row is absent and
/// surfaces as the not-found error pair.
pub fn activate_job(job_id: &String, is_active: bool, store: &mut JobStore) -> (r: Result<
    bool,
    Errors,
>)
    requires
        old(store).wf(),
    ensures
        final(store).wf(),
        (r is Ok) <==> contains_id(old(store)@, job_id@),
        r matches Ok(b) ==> b == true && final(store)@ == old(store)@.update(
            index_of_id(old(store)@, job_id@),
            Job { is_active: is_active, ..old(store)@[index_of_id(old(store)@, job_id@)] },
        ),
        r matches Err(e) ==> {
            &&& e matches Errors::NotFound(ec)
            &&& ec.error_code@ == spec_code_of(StateCode::NotFound)
            &&& ec.message@ == spec_message_of(StateCode::NotFound)
            &&& final(store)@ == old(store)@
        },
{
    match set_activate_job(job_id, is_active, store) {
        Ok(state) => {
            if state == 1 {
                Ok(true)
            } else {
                Err(Errors::NotFound(ErrorCode::from(StateCode::NotFound)))
            }
        },
        Err(_) => Err(Errors::InternalServerError(ErrorCode::from(StateCode::DBError))),
    }
}

/// Returns the download summary of the addressed job. Every repository
/// failure — a genuine not-found included — surfaces as an
/// internal-server-error payload carrying the not-found pair: a deliberate
/// reproduction of the flow's mapping, odd as it reads.
pub fn download_info(job_id: &String, store: &JobStore) -> (r: Result<JobInfo, Errors>)
    requires
        store.wf(),
    ensures
        (r is Ok) <==> contains_id(store@, job_id@),
        r matches Ok(info) ==> ({
            let j = store@[index_of_id(store@, job_id@)];
            &&& info.name == j.name
            &&& info.downloaded_size == j.downloaded_size
            &&& info.remaining_size == crate::engine::spec_remaining(
                j.total_size as int,
                j.downloaded_size as int,
            )
        }),
        r matches Err(e) ==> {
            &&& e matches Errors::InternalServerError(ec)
            &&& ec.error_code@ == spec_code_of(StateCode::NotFound)
            &&& ec.message@ == spec_message_of(StateCode::NotFound)
        },
{
    match crate::engine::get_job_info(job_id, store) {
        Ok(job_info) => Ok(job_info),
        Err(_) => Err(Errors::InternalServerError(ErrorCode::from(StateCode::NotFound))),
    }
}

} // verus!
