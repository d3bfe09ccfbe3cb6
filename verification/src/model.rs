//! The job entity and its request/response shapes, together with the name
//! validation rules: a job name is 3 to 49 characters drawn from letters,
//! spaces, dots, underscores and hyphens.
//!
//! Identifiers are carried as their 36-character hyphenated text form, and
//! timestamps as microseconds since the Unix epoch.

use vstd::prelude::*;

verus! {

/// A persisted job row.
pub struct Job {
    pub id: String,
    pub name: String,
    pub total_size: i32,
    pub downloaded_size: i32,
    pub percent_downloaded: i32,
    pub status: String,
    pub is_active: bool,
    pub creation_date: i64,
    pub expiration_date: Option<i64>,
}

impl Clone for Job {
    fn clone(&self) -> (r: Self)
        ensures
            r == *self,
    {
        Job {
            id: self.id.clone(),
            name: self.name.clone(),
            total_size: self.total_size,
            downloaded_size: self.downloaded_size,
            percent_downloaded: self.percent_downloaded,
            status: self.status.clone(),
            is_active: self.is_active,
            creation_date: self.creation_date,
            expiration_date: self.expiration_date,
        }
    }
}

/// A creation request: the strict subset of fields a caller may choose.
pub struct NewJob {
    pub name: String,
    pub total_size: i32,
    pub is_active: bool,
}

impl Default for NewJob {
    fn default() -> (r: Self)
        ensures
            r.name@ == Seq::<char>::empty(),
            r.total_size == 0,
            r.is_active == false,
    {
        NewJob { name: String::new(), total_size: 0, is_active: false }
    }
}

/// The read projection of a job: its name, progress, and what is left.
pub struct JobInfo {
    pub name: String,
    pub downloaded_size: i32,
    pub remaining_size: i32,
}

impl Default for JobInfo {
    fn default() -> (r: Self)
        ensures
            r.name@ == Seq::<char>::empty(),
            r.downloaded_size == 0,
            r.remaining_size == 0,
    {
        JobInfo { name: String::new(), downloaded_size: 0, remaining_size: 0 }
    }
}

/// Pagination parameters, passed through to the store without range checks.
pub struct PaginationDTO {
    pub page_size: i64,
    pub offset: i64,
}

impl Default for PaginationDTO {
    fn default() -> (r: Self)
        ensures
            r.page_size == 0,
            r.offset == 0,
    {
        PaginationDTO { page_size: 0, offset: 0 }
    }
}

/// One page of rows together with the total row count.
pub struct PaginatedResponseDTO<T> {
    pub paginated_list: Vec<T>,
    pub count: i64,
}

impl<T> Default for PaginatedResponseDTO<T> {
    fn default() -> (r: Self)
        ensures
            r.paginated_list@ == Seq::<T>::empty(),
            r.count == 0,
    {
        PaginatedResponseDTO { paginated_list: Vec::new(), count: 0 }
    }
}

/// A character the name rules allow: a letter, a space, a dot, an
/// underscore or a hyphen.
pub open spec fn allowed_name_char(c: char) -> bool {
    ('a' <= c && c <= 'z') || ('A' <= c && c <= 'Z') || c == ' ' || c == '.' || c == '_' || c
        == '-'
}

/// The name length rule: 3 to 49 characters.
pub open spec fn spec_name_len_ok(s: Seq<char>) -> bool {
    3 <= s.len() <= 49
}

/// The name character-set rule: every character is allowed.
pub open spec fn spec_name_charset_ok(s: Seq<char>) -> bool {
    forall|i: int| 0 <= i < s.len() ==> allowed_name_char(#[trigger] s[i])
}

/// A valid job name meets both rules.
pub open spec fn spec_valid_name(s: Seq<char>) -> bool {
    spec_name_len_ok(s) && spec_name_charset_ok(s)
}

/// Whether `c` is allowed in a job name.
pub fn is_allowed_name_char(c: char) -> (r: bool)
    ensures
        r == allowed_name_char(c),
{
    ('a' <= c && c <= 'z') || ('A' <= c && c <= 'Z') || c == ' ' || c == '.' || c == '_' || c
        == '-'
}

} // verus!
