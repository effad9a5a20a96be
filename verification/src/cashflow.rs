//! The cashflow entity: its stored row, its request and response shapes,
//! and the field constraints create and update requests must satisfy.
//! The `cashflow_type` field is the free-form category the API calls
//! `type`; `recap_type` is the secondary grouping.

use vstd::prelude::*;

use crate::error::AppError;
use crate::pagination::PaginatedResult;

verus! {

/// A stored cashflow row.
pub struct Cashflow {
    pub id: i32,
    pub note: String,
    pub nominal: i32,
    pub cashflow_type: String,
    pub recap_type: String,
    pub created_at: Option<i64>,
    pub updated_at: Option<i64>,
    pub deleted_at: Option<i64>,
}

impl Cashflow {
    /// The row is visible: it has not been soft-deleted.
    pub open spec fn is_active(&self) -> bool {
        self.deleted_at is None
    }
}

impl Clone for Cashflow {
    fn clone(&self) -> (res: Self)
        ensures
            res == *self,
    {
        Cashflow {
            id: self.id,
            note: self.note.clone(),
            nominal: self.nominal,
            cashflow_type: self.cashflow_type.clone(),
            recap_type: self.recap_type.clone(),
            created_at: self.created_at,
            updated_at: self.updated_at,
            deleted_at: self.deleted_at,
        }
    }
}

/// The payload for creating a cashflow record.
pub struct CreateCashflowRequest {
    pub note: String,
    pub nominal: i32,
    pub cashflow_type: String,
    pub recap_type: String,
}

impl CreateCashflowRequest {
    pub open spec fn note_ok(&self) -> bool {
        1 <= self.note@.len() <= 500
    }

    pub open spec fn nominal_ok(&self) -> bool {
        self.nominal >= 1
    }

    pub open spec fn type_ok(&self) -> bool {
        1 <= self.cashflow_type@.len() <= 50
    }

    pub open spec fn recap_ok(&self) -> bool {
        1 <= self.recap_type@.len() <= 50
    }

    pub open spec fn spec_valid(&self) -> bool {
        self.note_ok() && self.nominal_ok() && self.type_ok() && self.recap_ok()
    }

    /// Checks the declarative field constraints: a note of 1 to 500
    /// characters, a positive nominal, and category fields of 1 to 50
    /// characters.
    pub fn validate(&self) -> (r: Result<(), AppError>)
        ensures
            r is Ok <==> self.spec_valid(),
            !self.note_ok() ==> (r matches Err(AppError::ValidationError(m)) && m@
                == "Note must be between 1 and 500 characters"@),
            self.note_ok() && !self.nominal_ok() ==> (r matches Err(AppError::ValidationError(m))
                && m@ == "Nominal must be positive"@),
            self.note_ok() && self.nominal_ok() && !self.type_ok() ==> (r matches Err(
                AppError::ValidationError(m),
            ) && m@ == "Type must be between 1 and 50 characters"@),
            self.note_ok() && self.nominal_ok() && self.type_ok() && !self.recap_ok() ==> (
            r matches Err(AppError::ValidationError(m)) && m@
                == "Recap type must be between 1 and 50 characters"@),
    {
        let note_len = self.note.as_str().unicode_len();
        if note_len < 1 || note_len > 500 {
            return Err(
                AppError::ValidationError("Note must be between 1 and 500 characters".to_owned()),
            );
        }
        if self.nominal < 1 {
            return Err(AppError::ValidationError("Nominal must be positive".to_owned()));
        }
        let type_len = self.cashflow_type.as_str().unicode_len();
        if type_len < 1 || type_len > 50 {
            return Err(
                AppError::ValidationError("Type must be between 1 and 50 characters".to_owned()),
            );
        }
        let recap_len = self.recap_type.as_str().unicode_len();
        if recap_len < 1 || recap_len > 50 {
            return Err(
                AppError::ValidationError(
                    "Recap type must be between 1 and 50 characters".to_owned(),
                ),
            );
        }
        Ok(())
    }
}

/// The payload for fetching one cashflow record by id.
pub struct GetCashflowRequest {
    pub id: i32,
}

impl GetCashflowRequest {
    pub open spec fn spec_valid(&self) -> bool {
        self.id >= 1
    }

    /// Checks that the id is positive.
    pub fn validate(&self) -> (r: Result<(), AppError>)
        ensures
            r is Ok <==> self.spec_valid(),
            !self.spec_valid() ==> (r matches Err(AppError::ValidationError(m)) && m@
                == "ID must be positive"@),
    {
        if self.id < 1 {
            return Err(AppError::ValidationError("ID must be positive".to_owned()));
        }
        Ok(())
    }
}

/// The string-typed query parameters of a cashflow list request. The
/// `cashflow_type` and `recap_type` filters match their columns exactly
/// after trimming.
pub struct GetListCashflowQuery {
    pub limit: Option<String>,
    pub page: Option<String>,
    pub search: Option<String>,
    pub order_by: Option<String>,
    pub direction: Option<String>,
    pub cashflow_type: Option<String>,
    pub recap_type: Option<String>,
}

/// The payload for a partial cashflow update; absent fields are left
/// untouched.
pub struct UpdateCashflowRequest {
    pub note: Option<String>,
    pub nominal: Option<i32>,
    pub cashflow_type: Option<String>,
    pub recap_type: Option<String>,
}

impl UpdateCashflowRequest {
    pub open spec fn note_ok(&self) -> bool {
        match self.note {
            Some(n) => 1 <= n@.len() <= 500,
            None => true,
        }
    }

    pub open spec fn nominal_ok(&self) -> bool {
        match self.nominal {
            Some(v) => v >= 1,
            None => true,
        }
    }

    pub open spec fn type_ok(&self) -> bool {
        match self.cashflow_type {
            Some(t) => 1 <= t@.len() <= 50,
            None => true,
        }
    }

    pub open spec fn recap_ok(&self) -> bool {
        match self.recap_type {
            Some(t) => 1 <= t@.len() <= 50,
            None => true,
        }
    }

    pub open spec fn spec_valid(&self) -> bool {
        self.note_ok() && self.nominal_ok() && self.type_ok() && self.recap_ok()
    }

    /// Checks the declarative field constraints on every supplied field.
    pub fn validate(&self) -> (r: Result<(), AppError>)
        ensures
            r is Ok <==> self.spec_valid(),
            !self.note_ok() ==> (r matches Err(AppError::ValidationError(m)) && m@
                == "Note must be between 1 and 500 characters"@),
            self.note_ok() && !self.nominal_ok() ==> (r matches Err(AppError::ValidationError(m))
                && m@ == "Nominal must be positive"@),
            self.note_ok() && self.nominal_ok() && !self.type_ok() ==> (r matches Err(
                AppError::ValidationError(m),
            ) && m@ == "Type must be between 1 and 50 characters"@),
            self.note_ok() && self.nominal_ok() && self.type_ok() && !self.recap_ok() ==> (
            r matches Err(AppError::ValidationError(m)) && m@
                == "Recap type must be between 1 and 50 characters"@),
    {
        if let Some(note) = &self.note {
            let len = note.as_str().unicode_len();
            if len < 1 || len > 500 {
                return Err(
                    AppError::ValidationError(
                        "Note must be between 1 and 500 characters".to_owned(),
                    ),
                );
            }
        }
        if let Some(nominal) = &self.nominal {
            if *nominal < 1 {
                return Err(AppError::ValidationError("Nominal must be positive".to_owned()));
            }
        }
        if let Some(t) = &self.cashflow_type {
            let len = t.as_str().unicode_len();
            if len < 1 || len > 50 {
                return Err(
                    AppError::ValidationError(
                        "Type must be between 1 and 50 characters".to_owned(),
                    ),
                );
            }
        }
        if let Some(t) = &self.recap_type {
            let len = t.as_str().unicode_len();
            if len < 1 || len > 50 {
                return Err(
                    AppError::ValidationError(
                        "Recap type must be between 1 and 50 characters".to_owned(),
                    ),
                );
            }
        }
        Ok(())
    }
}

/// The response shape of a single cashflow record.
pub struct CashflowResponse {
    pub id: i32,
    pub note: String,
    pub nominal: i32,
    pub cashflow_type: String,
    pub recap_type: String,
    pub created_at: Option<i64>,
    pub updated_at: Option<i64>,
}

/// The response shape a stored cashflow row maps to.
pub open spec fn cashflow_response_of(m: Cashflow) -> CashflowResponse {
    CashflowResponse {
        id: m.id,
        note: m.note,
        nominal: m.nominal,
        cashflow_type: m.cashflow_type,
        recap_type: m.recap_type,
        created_at: m.created_at,
        updated_at: m.updated_at,
    }
}

impl From<Cashflow> for CashflowResponse {
    fn from(m: Cashflow) -> (r: Self) {
        CashflowResponse {
            id: m.id,
            note: m.note,
            nominal: m.nominal,
            cashflow_type: m.cashflow_type,
            recap_type: m.recap_type,
            created_at: m.created_at,
            updated_at: m.updated_at,
        }
    }
}

impl vstd::std_specs::convert::FromSpecImpl<Cashflow> for CashflowResponse {
    open spec fn obeys_from_spec() -> bool {
        true
    }

    open spec fn from_spec(m: Cashflow) -> Self {
        cashflow_response_of(m)
    }
}

/// The response shape of a cashflow list request.
pub struct ListCashflowResponse {
    pub data: Vec<CashflowResponse>,
    pub total: u64,
    pub page: u64,
    pub limit: u64,
    pub total_pages: u64,
}

impl ListCashflowResponse {
    /// Maps every row of a page to its response shape, keeping the
    /// paging metadata.
    pub fn from_result(pr: PaginatedResult<Cashflow>) -> (r: Self)
        ensures
            r.data@ == pr.data@.map_values(|m: Cashflow| cashflow_response_of(m)),
            r.total == pr.total,
            r.page == pr.page,
            r.limit == pr.limit,
            r.total_pages == pr.total_pages,
    {
        let mut rows = pr.data;
        let ghost all = rows@;
        let mut data: Vec<CashflowResponse> = Vec::new();
        while rows.len() > 0
            invariant
                all.map_values(|m: Cashflow| cashflow_response_of(m)) == data@
                    + rows@.map_values(|m: Cashflow| cashflow_response_of(m)),
            decreases rows.len(),
        {
            let m = rows.remove(0);
            data.push(CashflowResponse::from(m));
            proof {
                assert(all.map_values(|m: Cashflow| cashflow_response_of(m)) =~= data@
                    + rows@.map_values(|m: Cashflow| cashflow_response_of(m)));
            }
        }
        proof {
            assert(data@ =~= all.map_values(|m: Cashflow| cashflow_response_of(m)));
        }
        ListCashflowResponse {
            data,
            total: pr.total,
            page: pr.page,
            limit: pr.limit,
            total_pages: pr.total_pages,
        }
    }
}

} // verus!
