use vstd::prelude::*;
use crate::auth::Claims;
use crate::error::AppError;
use crate::models::{RequestStatus, RequestType};

verus! {

/// The largest page that a listing returns.
pub const MAX_PAGE_SIZE: i64 = 100;

/// The page size of a listing that names none.
pub fn default_page_size() -> (r: i64)
    ensures
        r == 20,
{
    20
}

/// Which page of a listing to return.
pub struct PaginationParams {
    pub page: i64,
    pub size: i64,
}

impl PaginationParams {
    /// The page and the page size to use: `InvalidInput` for a negative page
    /// or a size below 1; sizes above the maximum are cut to it.
    pub fn bounds(&self) -> (r: Result<(i64, i64), AppError>)
        ensures
            self.page < 0 || self.size < 1 ==> r == Err::<(i64, i64), AppError>(AppError::InvalidInput),
            self.page >= 0 && self.size >= 1 ==> r == Ok::<(i64, i64), AppError>(
                (
                    self.page,
                    if self.size < MAX_PAGE_SIZE {
                        self.size
                    } else {
                        MAX_PAGE_SIZE
                    },
                ),
            ),
    {
        if self.page < 0 || self.size < 1 {
            return Err(AppError::InvalidInput);
        }
        let size = if self.size < MAX_PAGE_SIZE {
            self.size
        } else {
            MAX_PAGE_SIZE
        };
        Ok((self.page, size))
    }
}

/// The query of a listing of one's cards.
pub struct CardListParams {
    pub page: i64,
    pub size: i64,
    pub card_type_code: Option<String>,
}

/// The query of a listing of change requests.
pub struct ListRequestsParams {
    pub page: i64,
    pub size: i64,
    pub status: Option<String>,
}

/// The outcome of a review: a quality from 0 to 5.
pub struct ReviewRequest {
    pub quality: i32,
}

/// A manager's decision on a change request.
pub struct ApprovalRequest {
    pub approved: bool,
    pub reason: Option<String>,
}

/// How many cards an initialization created and how many it skipped.
pub struct InitializeCardsResponse {
    pub created: i64,
    pub skipped: i64,
}

/// A sign-in by name.
pub struct LoginRequest {
    pub username: String,
    pub password: String,
}

/// The token issued at sign-in and the user it was issued for.
pub struct AuthResponse {
    pub token: String,
    pub user: AuthUser,
}

pub struct AuthUser {
    pub id: String,
    pub username: String,
    pub role: String,
}

pub open spec fn is_digit(c: char) -> bool {
    '0' <= c && c <= '9'
}

pub open spec fn all_digits(s: Seq<char>) -> bool {
    forall|i: int| 0 <= i < s.len() ==> is_digit(#[trigger] s[i])
}

/// The number that a string of decimal digits writes.
pub open spec fn digits_value(s: Seq<char>) -> int
    decreases s.len(),
{
    if s.len() == 0 {
        0
    } else {
        digits_value(s.drop_last()) * 10 + (s.last() as int - '0' as int)
    }
}

proof fn lemma_digits_grow(s: Seq<char>, i: int)
    requires
        all_digits(s),
        0 <= i <= s.len(),
    ensures
        0 <= digits_value(s.take(i)) <= digits_value(s),
    decreases s.len(),
{
    if s.len() > 0 {
        if i == s.len() {
            assert(s.take(i) =~= s);
            lemma_digits_grow(s.drop_last(), s.len() - 1);
            assert(s.drop_last().take(s.len() - 1) =~= s.drop_last());
        } else {
            lemma_digits_grow(s.drop_last(), i);
            assert(s.drop_last().take(i) =~= s.take(i));
            lemma_digits_grow(s.drop_last(), s.len() - 1);
            assert(s.drop_last().take(s.len() - 1) =~= s.drop_last());
        }
    }
}

/// The account id that a token names: its subject, a non-empty string of
/// decimal digits whose value fits an `i64`; `InvalidInput` otherwise.
pub fn account_id_of(claims: &Claims) -> (r: Result<i64, AppError>)
    ensures
        ({
            let s = claims.sub@;
            let ok = s.len() > 0 && all_digits(s) && digits_value(s) <= i64::MAX;
            &&& ok ==> r == Ok::<i64, AppError>(digits_value(s) as i64)
            &&& !ok ==> r == Err::<i64, AppError>(AppError::InvalidInput)
        }),
{
    let text = claims.sub.as_str();
    let ghost s = text@;
    let n = text.unicode_len();
    if n == 0 {
        return Err(AppError::InvalidInput);
    }
    let mut value: i64 = 0;
    let mut i: usize = 0;
    while i < n
        invariant
            n == s.len(),
            s == claims.sub@,
            text@ == s,
            i <= n,
            all_digits(s.take(i as int)),
            value == digits_value(s.take(i as int)),
            value >= 0,
        decreases n - i,
    {
        let c = text.get_char(i);
        proof {
            assert(s.take(i as int + 1).drop_last() =~= s.take(i as int));
        }
        if c < '0' || c > '9' {
            assert(!is_digit(s[i as int]));
            return Err(AppError::InvalidInput);
        }
        let d = (c as u32 - '0' as u32) as i64;
        if value > (i64::MAX - d) / 10 {
            proof {
                assert(value * 10 + d > i64::MAX) by (nonlinear_arith)
                    requires
                        value > (i64::MAX - d) / 10,
                        0 <= d <= 9,
                ;
                assert(is_digit(c));
                assert(all_digits(s.take(i as int + 1)));
                assert(digits_value(s.take(i as int + 1)) == value * 10 + d);
                if all_digits(s) {
                    lemma_digits_grow(s, i as int + 1);
                }
            }
            return Err(AppError::InvalidInput);
        }
        assert(value * 10 + d <= i64::MAX) by (nonlinear_arith)
            requires
                0 <= value <= (i64::MAX - d) / 10,
                0 <= d <= 9,
        ;
        value = value * 10 + d;
        i = i + 1;
    }
    assert(s.take(n as int) =~= s);
    Ok(value)
}

impl RequestType {
    pub open spec fn spec_name(self) -> Seq<char> {
        match self {
            RequestType::Create => seq!['C', 'R', 'E', 'A', 'T', 'E'],
            RequestType::Update => seq!['U', 'P', 'D', 'A', 'T', 'E'],
            RequestType::Delete => seq!['D', 'E', 'L', 'E', 'T', 'E'],
        }
    }

    /// The kind as it is written in responses.
    pub fn name(&self) -> (r: &'static str)
        ensures
            r@ == self.spec_name(),
    {
        match self {
            RequestType::Create => {
                proof {
                    reveal_strlit("CREATE");
                    assert("CREATE"@ =~= RequestType::Create.spec_name());
                }
                "CREATE"
            },
            RequestType::Update => {
                proof {
                    reveal_strlit("UPDATE");
                    assert("UPDATE"@ =~= RequestType::Update.spec_name());
                }
                "UPDATE"
            },
            RequestType::Delete => {
                proof {
                    reveal_strlit("DELETE");
                    assert("DELETE"@ =~= RequestType::Delete.spec_name());
                }
                "DELETE"
            },
        }
    }
}

impl RequestStatus {
    pub open spec fn spec_name(self) -> Seq<char> {
        match self {
            RequestStatus::Pending => seq!['P', 'E', 'N', 'D', 'I', 'N', 'G'],
            RequestStatus::Approved => seq!['A', 'P', 'P', 'R', 'O', 'V', 'E', 'D'],
            RequestStatus::Rejected => seq!['R', 'E', 'J', 'E', 'C', 'T', 'E', 'D'],
        }
    }

    /// The status as it is written in requests and responses.
    pub fn name(&self) -> (r: &'static str)
        ensures
            r@ == self.spec_name(),
    {
        match self {
            RequestStatus::Pending => {
                proof {
                    reveal_strlit("PENDING");
                    assert("PENDING"@ =~= RequestStatus::Pending.spec_name());
                }
                "PENDING"
            },
            RequestStatus::Approved => {
                proof {
                    reveal_strlit("APPROVED");
                    assert("APPROVED"@ =~= RequestStatus::Approved.spec_name());
                }
                "APPROVED"
            },
            RequestStatus::Rejected => {
                proof {
                    reveal_strlit("REJECTED");
                    assert("REJECTED"@ =~= RequestStatus::Rejected.spec_name());
                }
                "REJECTED"
            },
        }
    }

    /// The status with this name; `InvalidInput` for any other text.
    pub fn from_name(s: &str) -> (r: Result<RequestStatus, AppError>)
        ensures
            s@ == RequestStatus::Pending.spec_name() ==> r == Ok::<RequestStatus, AppError>(RequestStatus::Pending),
            s@ == RequestStatus::Approved.spec_name() ==> r == Ok::<RequestStatus, AppError>(RequestStatus::Approved),
            s@ == RequestStatus::Rejected.spec_name() ==> r == Ok::<RequestStatus, AppError>(RequestStatus::Rejected),
            s@ != RequestStatus::Pending.spec_name() && s@ != RequestStatus::Approved.spec_name() && s@
                != RequestStatus::Rejected.spec_name() ==> r == Err::<RequestStatus, AppError>(AppError::InvalidInput),
    {
        if crate::text::text_eq(s, RequestStatus::Pending.name()) {
            Ok(RequestStatus::Pending)
        } else if crate::text::text_eq(s, RequestStatus::Approved.name()) {
            Ok(RequestStatus::Approved)
        } else if crate::text::text_eq(s, RequestStatus::Rejected.name()) {
            Ok(RequestStatus::Rejected)
        } else {
            Err(AppError::InvalidInput)
        }
    }
}

} // verus!
