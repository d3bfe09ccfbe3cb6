use yugabyte::engine::{
    add_job_with_id, count_jobs, create_bulk_jobs, delete_all_jobs, delete_job_by_id,
    find_job_by_id, get_all_jobs, get_all_paginated_jobs, set_activate_job, update_job,
    JobStore,
};
use yugabyte::errors::{Error, ErrorCode, Errors, StateCode};
use yugabyte::handler::{
    activate_job, add_job, download_info, list_paginated_jobs, remove_job_by_id, update_job_api,
};
use yugabyte::model::{Job, JobInfo, NewJob, PaginatedResponseDTO, PaginationDTO};
use yugabyte::utils::{current_timestamp, expiration_date};

fn new_job(name: &str, total_size: i32, is_active: bool) -> NewJob {
    NewJob {
        name: name.to_string(),
        total_size,
        is_active,
    }
}

fn seeded_job(id: &str, name: &str, total_size: i32, creation_date: i64) -> Job {
    Job {
        id: id.to_string(),
        name: name.to_string(),
        total_size,
        downloaded_size: 0,
        percent_downloaded: 0,
        status: "Active".to_string(),
        is_active: true,
        creation_date,
        expiration_date: None,
    }
}

fn seed(store: &mut JobStore, id: &str, name: &str, total_size: i32, creation_date: i64) -> Job {
    add_job_with_id(
        &new_job(name, total_size, true),
        id.to_string(),
        creation_date,
        store,
    )
    .expect("seeding a fresh id must succeed")
}

#[test]
fn name_two_chars_fails_three_succeeds() {
    let mut store = JobStore::new();
    let short = add_job(&new_job("ab", 10, true), &mut store);
    match short {
        Err(Errors::BadReq(violations)) => {
            assert_eq!(violations.len(), 1);
            assert_eq!(violations[0].error_code, "name-length-error");
        }
        _ => panic!("two-character name must fail validation"),
    }
    let ok = add_job(&new_job("abc", 10, true), &mut store);
    assert!(ok.is_ok());
}

#[test]
fn name_digits_fail_allowed_punctuation_succeeds() {
    let mut store = JobStore::new();
    let digits = add_job(&new_job("abc123", 10, true), &mut store);
    match digits {
        Err(Errors::BadReq(violations)) => {
            assert_eq!(violations.len(), 1);
            assert_eq!(violations[0].error_code, "regex");
        }
        _ => panic!("digits must fail validation"),
    }
    let ok = add_job(&new_job("abc-def_ghi.jkl", 10, true), &mut store);
    assert!(ok.is_ok());
}

#[test]
fn name_violations_are_collected_not_first_only() {
    let mut errors: Vec<ErrorCode> = Vec::new();
    ErrorCode::validate_errors("a1", &mut errors);
    assert_eq!(errors.len(), 2);
    assert_eq!(errors[0].error_code, "name-length-error");
    assert_eq!(
        errors[0].message,
        "Name must be between 3 and 49 characters long."
    );
    assert_eq!(errors[1].error_code, "regex");
    assert_eq!(
        errors[1].message,
        "Name may contain only letters, spaces, dots, underscores and hyphens."
    );
    let mut none: Vec<ErrorCode> = Vec::new();
    ErrorCode::validate_errors("abc", &mut none);
    assert!(none.is_empty());
}

#[test]
fn create_sets_defaults_and_fresh_id() {
    let mut store = JobStore::new();
    let job = new_job("x y", 100, true)
        .add_job(&mut store)
        .expect("creation must succeed");
    assert_eq!(job.downloaded_size, 0);
    assert_eq!(job.percent_downloaded, 0);
    assert_eq!(job.status, "Active");
    assert_eq!(job.total_size, 100);
    assert!(job.is_active);
    assert_eq!(job.id.len(), 36);
    assert!(job.expiration_date.is_none());
    let second = new_job("x y", 100, true)
        .add_job(&mut store)
        .expect("a second creation must succeed");
    assert_ne!(job.id, second.id, "generated identifiers must be unique");
    assert_eq!(count_jobs(&store).unwrap(), 2);
}

#[test]
fn pagination_window_and_count() {
    let mut store = JobStore::new();
    seed(&mut store, "id-1", "one", 1, 10);
    seed(&mut store, "id-2", "two", 2, 50);
    seed(&mut store, "id-3", "three", 3, 30);
    seed(&mut store, "id-4", "four", 4, 40);
    seed(&mut store, "id-5", "five", 5, 20);
    let page: PaginatedResponseDTO<Job> = list_paginated_jobs(
        &PaginationDTO {
            page_size: 2,
            offset: 0,
        },
        &store,
    )
    .expect("listing must succeed");
    assert_eq!(page.count, 5, "count is independent of pagination");
    assert_eq!(page.paginated_list.len(), 2);
    assert_eq!(page.paginated_list[0].creation_date, 50);
    assert_eq!(page.paginated_list[1].creation_date, 40);
    let rest = get_all_paginated_jobs(
        &PaginationDTO {
            page_size: 10,
            offset: 2,
        },
        &store,
    )
    .expect("listing must succeed");
    let dates: Vec<i64> = rest.iter().map(|j| j.creation_date).collect();
    assert_eq!(dates, vec![30, 20, 10]);
}

#[test]
fn pagination_equal_dates_keep_stored_order() {
    let mut store = JobStore::new();
    seed(&mut store, "id-a", "aaa", 1, 7);
    seed(&mut store, "id-b", "bbb", 2, 7);
    seed(&mut store, "id-c", "ccc", 3, 9);
    let page = get_all_paginated_jobs(
        &PaginationDTO {
            page_size: 3,
            offset: 0,
        },
        &store,
    )
    .expect("listing must succeed");
    assert_eq!(page[0].id, "id-c");
    assert_eq!(page[1].id, "id-a");
    assert_eq!(page[2].id, "id-b");
}

#[test]
fn negative_pagination_is_refused_by_the_store() {
    let store = JobStore::new();
    let by_page = get_all_paginated_jobs(
        &PaginationDTO {
            page_size: -1,
            offset: 0,
        },
        &store,
    );
    assert!(matches!(by_page, Err(Error::DBError(_))));
    let by_offset = list_paginated_jobs(
        &PaginationDTO {
            page_size: 1,
            offset: -1,
        },
        &store,
    );
    match by_offset {
        Err(Errors::BadRequest(ec)) => {
            assert_eq!(ec.error_code, "pagination-error");
            assert_eq!(ec.message, "Paginated Data is not valid.");
        }
        _ => panic!("negative offset must surface as a pagination error"),
    }
}

#[test]
fn delete_missing_fails_delete_existing_removes() {
    let mut store = JobStore::new();
    let missing = delete_job_by_id(&"no-such-id".to_string(), &mut store);
    assert!(matches!(missing, Err(Error::NotFound(_))));
    let job = seed(&mut store, "id-1", "abc", 10, 1);
    let deleted = delete_job_by_id(&job.id, &mut store).expect("deleting an existing id");
    assert_eq!(deleted.id, "id-1");
    assert_eq!(count_jobs(&store).unwrap(), 0);
    let found = find_job_by_id(&job.id, &store);
    assert!(matches!(found, Err(Error::NotFound(_))));
    let handler_missing = remove_job_by_id(&"id-1".to_string(), &mut store);
    match handler_missing {
        Err(Errors::InternalServerError(ec)) => assert_eq!(ec.error_code, "db-error"),
        _ => panic!("the remove flow maps every failure to the store error pair"),
    }
}

#[test]
fn set_active_reports_affected_rows() {
    let mut store = JobStore::new();
    let created = add_job_with_id(&new_job("abc", 10, false), "id-1".to_string(), 1, &mut store)
        .expect("creation must succeed");
    assert!(!created.is_active);
    let affected = set_activate_job(&created.id, true, &mut store).unwrap();
    assert_eq!(affected, 1);
    let found = find_job_by_id(&created.id, &store).unwrap();
    assert!(found.is_active);
    let none = set_activate_job(&"no-such-id".to_string(), true, &mut store).unwrap();
    assert_eq!(none, 0);
    let flow = activate_job(&"no-such-id".to_string(), true, &mut store);
    match flow {
        Err(Errors::NotFound(ec)) => {
            assert_eq!(ec.error_code, "not-found");
            assert_eq!(ec.message, "Cannot find the object in the Server.");
        }
        _ => panic!("activating a missing id must answer not-found"),
    }
    let deactivated = activate_job(&created.id, false, &mut store).expect("existing id");
    assert!(deactivated, "the activate flow answers true for an existing id");
}

#[test]
fn get_info_computes_remaining_size() {
    let mut store = JobStore::new();
    // downloaded_size is not among the fields the update operation writes,
    // so seed rows that already carry one.
    let mut raw = seeded_job("id-2", "abc", 100, 2);
    raw.downloaded_size = 30;
    let mut raw2 = seeded_job("id-3", "abc", 100, 3);
    raw2.downloaded_size = 40;
    create_bulk_jobs(&vec![raw, raw2], &mut store).expect("bulk insert of fresh ids");
    let info: JobInfo = download_info(&"id-2".to_string(), &store).expect("info of id-2");
    assert_eq!(info.name, "abc");
    assert_eq!(info.downloaded_size, 30);
    assert_eq!(info.remaining_size, 70);
    let info2 = download_info(&"id-3".to_string(), &store).expect("info of id-3");
    assert_eq!(info2.remaining_size, 60);
    let missing = download_info(&"no-such-id".to_string(), &store);
    match missing {
        Err(Errors::InternalServerError(ec)) => assert_eq!(ec.error_code, "not-found"),
        _ => panic!("the info flow maps not-found to an internal-server-error payload"),
    }
}

#[test]
fn update_persists_only_name_total_size_and_active() {
    let mut store = JobStore::new();
    seed(&mut store, "id-1", "abc", 100, 5);
    let mut fetched = find_job_by_id(&"id-1".to_string(), &store).unwrap();
    fetched.status = "Paused".to_string();
    fetched.downloaded_size = 77;
    fetched.percent_downloaded = 77;
    fetched.creation_date = 999;
    fetched.expiration_date = Some(123);
    fetched.total_size = 200;
    fetched.is_active = false;
    let updated = update_job_api(&fetched, &mut store).expect("updating an existing id");
    // Only name, total_size and is_active are written back; the read-then-
    // write flow keeps the stored name, so of the request only total_size
    // and is_active survive.
    assert_eq!(updated.status, "Active", "status change must not persist");
    assert_eq!(updated.downloaded_size, 0);
    assert_eq!(updated.percent_downloaded, 0);
    assert_eq!(updated.creation_date, 5);
    assert_eq!(updated.expiration_date, None);
    assert_eq!(updated.total_size, 200);
    assert!(!updated.is_active);
    let stored = find_job_by_id(&"id-1".to_string(), &store).unwrap();
    assert_eq!(stored.status, "Active");
    assert_eq!(stored.total_size, 200);
    let missing = update_job_api(&seeded_job("no-such-id", "abc", 1, 1), &mut store);
    match missing {
        Err(Errors::NotFound(ec)) => assert_eq!(ec.error_code, "not-found"),
        _ => panic!("updating a missing id must answer not-found"),
    }
}

#[test]
fn repository_update_writes_the_name_it_is_given() {
    let mut store = JobStore::new();
    seed(&mut store, "id-1", "abc", 100, 5);
    let mut stale = find_job_by_id(&"id-1".to_string(), &store).unwrap();
    stale.name = "def".to_string();
    stale.status = "Paused".to_string();
    let written = update_job(&stale, &mut store).expect("updating an existing id");
    assert_eq!(written.name, "def");
    assert_eq!(written.status, "Active", "status is not a persisted field");
    let missing = update_job(&seeded_job("no-such-id", "abc", 1, 1), &mut store);
    assert!(matches!(missing, Err(Error::DBError(_))));
}

#[test]
fn concurrent_updates_from_one_read_lose_the_earlier_write() {
    let mut store = JobStore::new();
    seed(&mut store, "id-1", "abc", 100, 5);
    let initial = find_job_by_id(&"id-1".to_string(), &store).unwrap();
    let mut first = initial.clone();
    let mut second = initial.clone();
    first.total_size = 111;
    first.name = "first".to_string();
    second.total_size = 222;
    second.name = "second".to_string();
    update_job(&first, &mut store).expect("first writer");
    update_job(&second, &mut store).expect("second writer");
    let stored = find_job_by_id(&"id-1".to_string(), &store).unwrap();
    assert_eq!(stored.total_size, 222, "the later write wins");
    assert_eq!(stored.name, "second");
    assert_ne!(stored.total_size, 111, "the earlier write is lost");
}

#[test]
fn bulk_insert_is_all_or_nothing_on_duplicates() {
    let mut store = JobStore::new();
    seed(&mut store, "id-1", "abc", 1, 1);
    let clash = vec![
        seeded_job("id-9", "abc", 1, 1),
        seeded_job("id-1", "abc", 1, 1),
    ];
    let refused = create_bulk_jobs(&clash, &mut store);
    assert!(matches!(refused, Err(Error::DuplicationError)));
    assert_eq!(count_jobs(&store).unwrap(), 1, "a refused batch changes nothing");
    let twins = vec![
        seeded_job("id-8", "abc", 1, 1),
        seeded_job("id-8", "abc", 1, 1),
    ];
    assert!(matches!(
        create_bulk_jobs(&twins, &mut store),
        Err(Error::DuplicationError)
    ));
    let fresh = vec![
        seeded_job("id-2", "abc", 1, 1),
        seeded_job("id-3", "abc", 1, 1),
    ];
    let inserted = create_bulk_jobs(&fresh, &mut store).expect("fresh ids must insert");
    assert_eq!(inserted.len(), 2);
    assert_eq!(count_jobs(&store).unwrap(), 3);
}

#[test]
fn get_all_and_delete_all() {
    let mut store = JobStore::new();
    seed(&mut store, "id-1", "abc", 1, 1);
    seed(&mut store, "id-2", "abc", 2, 2);
    let all = get_all_jobs(&store).unwrap();
    assert_eq!(all.len(), 2);
    assert_eq!(all[0].id, "id-1");
    assert_eq!(all[1].id, "id-2");
    let removed = delete_all_jobs(&mut store).unwrap();
    assert_eq!(removed, 2);
    assert_eq!(count_jobs(&store).unwrap(), 0);
}

#[test]
fn duplicate_generated_id_is_a_duplication_error() {
    let mut store = JobStore::new();
    seed(&mut store, "id-1", "abc", 1, 1);
    let collision = add_job_with_id(&new_job("abc", 1, true), "id-1".to_string(), 2, &mut store);
    assert!(matches!(collision, Err(Error::DuplicationError)));
    assert_eq!(count_jobs(&store).unwrap(), 1);
}

#[test]
fn state_codes_and_messages_are_stable() {
    assert_eq!(StateCode::InternalServerError.get_code(), "internal-server-error");
    assert_eq!(StateCode::NotFound.get_code(), "not-found");
    assert_eq!(StateCode::DBError.get_code(), "db-error");
    assert_eq!(StateCode::PaginationError.get_code(), "pagination-error");
    assert_eq!(StateCode::DuplicationError.get_code(), "duplication-error");
    assert_eq!(StateCode::InternalServerError.get_message(), "Internal server error");
    assert_eq!(
        StateCode::NotFound.get_message(),
        "Cannot find the object in the Server."
    );
    assert_eq!(
        StateCode::DBError.get_message(),
        "There is an error in dealing with Database."
    );
    assert_eq!(
        StateCode::PaginationError.get_message(),
        "Paginated Data is not valid."
    );
    assert_eq!(
        StateCode::DuplicationError.get_message(),
        "The object is duplicated."
    );
    let pair: ErrorCode = StateCode::DuplicationError.into();
    assert_eq!(pair.error_code, "duplication-error");
    assert_eq!(pair.message, "The object is duplicated.");
}

#[test]
fn string_becomes_an_http_request_error() {
    let e: Error = Error::from("boom".to_string());
    assert!(matches!(e, Error::HttpRequest(ref s) if s == "boom"));
}

#[test]
fn calendar_timestamps_are_exact() {
    assert_eq!(expiration_date(1970, 1, 1, 0, 0, 0), 0);
    assert_eq!(expiration_date(2021, 6, 1, 12, 30, 45), 1_622_550_645_000_000);
    assert_eq!(expiration_date(2024, 2, 29, 0, 0, 0), 1_709_164_800_000_000);
}

#[test]
fn default_values_are_empty() {
    let nj = NewJob::default();
    assert_eq!(nj.name, "");
    assert_eq!(nj.total_size, 0);
    assert!(!nj.is_active);
    let info = JobInfo::default();
    assert_eq!(info.name, "");
    assert_eq!(info.remaining_size, 0);
    let p = PaginationDTO::default();
    assert_eq!(p.page_size, 0);
    assert_eq!(p.offset, 0);
    let resp: PaginatedResponseDTO<Job> = PaginatedResponseDTO::default();
    assert!(resp.paginated_list.is_empty());
    assert_eq!(resp.count, 0);
}

#[test]
fn the_clock_moves_forward() {
    let t = current_timestamp();
    assert!(t > 1_600_000_000_000_000, "the clock reads after September 2020");
}

#[test]
fn generated_ids_are_hyphenated_uuids() {
    let mut store = JobStore::new();
    let job = new_job("abc", 1, true)
        .add_job(&mut store)
        .expect("creation must succeed");
    let bytes = job.id.as_bytes();
    assert_eq!(bytes.len(), 36);
    for (i, b) in bytes.iter().enumerate() {
        if i == 8 || i == 13 || i == 18 || i == 23 {
            assert_eq!(*b, b'-');
        } else {
            assert!(b.is_ascii_hexdigit());
        }
    }
}
