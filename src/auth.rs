use vstd::prelude::*;
use crate::error::AppError;
use crate::text::text_eq;

verus! {

/// How long an issued token stays valid, in seconds (24 hours).
pub const TOKEN_LIFETIME_SECS: u64 = 86400;

pub open spec fn client_role() -> Seq<char> {
    seq!['c', 'l', 'i', 'e', 'n', 't']
}

pub open spec fn operator_role() -> Seq<char> {
    seq!['o', 'p', 'e', 'r', 'a', 't', 'o', 'r']
}

pub open spec fn manager_role() -> Seq<char> {
    seq!['o', 'p', 'e', 'r', 'a', 't', 'o', 'r', '_', 'm', 'a', 'n', 'a', 'g', 'e', 'r']
}

/// The roles, ordered by what they may do: a manager may do all that an
/// operator may, and an operator all that a client may.
#[derive(Clone, Copy, Debug, PartialEq, Eq, Structural)]
pub enum Role {
    Client,
    Operator,
    OperatorManager,
}

impl Role {
    pub open spec fn spec_name(self) -> Seq<char> {
        match self {
            Role::Client => client_role(),
            Role::Operator => operator_role(),
            Role::OperatorManager => manager_role(),
        }
    }

    /// The role's name as it stands in a token.
    pub fn name(&self) -> (r: &'static str)
        ensures
            r@ == self.spec_name(),
    {
        match self {
            Role::Client => {
                proof {
                    reveal_strlit("client");
                    assert("client"@ =~= client_role());
                }
                "client"
            },
            Role::Operator => {
                proof {
                    reveal_strlit("operator");
                    assert("operator"@ =~= operator_role());
                }
                "operator"
            },
            Role::OperatorManager => {
                proof {
                    reveal_strlit("operator_manager");
                    assert("operator_manager"@ =~= manager_role());
                }
                "operator_manager"
            },
        }
    }

    /// The role given to a user at login: `operator` is an operator, `admin`
    /// a manager, anyone else a client.
    pub open spec fn spec_for_username(username: Seq<char>) -> Role {
        if username == operator_role() {
            Role::Operator
        } else if username == seq!['a', 'd', 'm', 'i', 'n'] {
            Role::OperatorManager
        } else {
            Role::Client
        }
    }

    pub fn for_username(username: &str) -> (r: Role)
        ensures
            r == Role::spec_for_username(username@),
    {
        proof {
            reveal_strlit("operator");
            assert("operator"@ =~= operator_role());
            reveal_strlit("admin");
            assert("admin"@ =~= seq!['a', 'd', 'm', 'i', 'n']);
        }
        if text_eq(username, "operator") {
            Role::Operator
        } else if text_eq(username, "admin") {
            Role::OperatorManager
        } else {
            Role::Client
        }
    }
}

/// The identity that a token carries: the account id, the role name and the
/// expiry time in seconds since the epoch.
#[derive(Debug)]
pub struct Claims {
    pub sub: String,
    pub role: String,
    pub exp: u64,
}

impl Claims {
    /// Claims for the account, valid for 24 hours from `now`.
    pub fn new(account_id: &str, role: &str, now: u64) -> (r: Claims)
        requires
            now <= u64::MAX - TOKEN_LIFETIME_SECS,
        ensures
            r.sub@ == account_id@,
            r.role@ == role@,
            r.exp == now + TOKEN_LIFETIME_SECS,
    {
        Claims {
            sub: account_id.to_string(),
            role: role.to_string(),
            exp: now + TOKEN_LIFETIME_SECS,
        }
    }

    pub fn is_client(&self) -> (r: bool)
        ensures
            r == (self.role@ == client_role()),
    {
        proof {
            reveal_strlit("client");
            assert("client"@ =~= client_role());
        }
        text_eq(self.role.as_str(), "client")
    }

    pub fn is_operator(&self) -> (r: bool)
        ensures
            r == (self.role@ == operator_role()),
    {
        proof {
            reveal_strlit("operator");
            assert("operator"@ =~= operator_role());
        }
        text_eq(self.role.as_str(), "operator")
    }

    pub fn is_operator_manager(&self) -> (r: bool)
        ensures
            r == (self.role@ == manager_role()),
    {
        proof {
            reveal_strlit("operator_manager");
            assert("operator_manager"@ =~= manager_role());
        }
        text_eq(self.role.as_str(), "operator_manager")
    }
}

/// Clients, operators and managers may act as clients.
pub fn require_client_role(claims: &Claims) -> (r: Result<(), AppError>)
    ensures
        r is Ok <==> (claims.role@ == client_role() || claims.role@ == operator_role()
            || claims.role@ == manager_role()),
        r is Err ==> r == Err::<(), AppError>(AppError::Forbidden),
{
    if claims.is_client() || claims.is_operator() || claims.is_operator_manager() {
        Ok(())
    } else {
        Err(AppError::Forbidden)
    }
}

/// Operators and managers may act as operators.
pub fn require_operator_role(claims: &Claims) -> (r: Result<(), AppError>)
    ensures
        r is Ok <==> (claims.role@ == operator_role() || claims.role@ == manager_role()),
        r is Err ==> r == Err::<(), AppError>(AppError::Forbidden),
{
    if claims.is_operator() || claims.is_operator_manager() {
        Ok(())
    } else {
        Err(AppError::Forbidden)
    }
}

/// Only managers may act as managers.
pub fn require_manager_role(claims: &Claims) -> (r: Result<(), AppError>)
    ensures
        r is Ok <==> claims.role@ == manager_role(),
        r is Err ==> r == Err::<(), AppError>(AppError::Forbidden),
{
    if claims.is_operator_manager() {
        Ok(())
    } else {
        Err(AppError::Forbidden)
    }
}

} // verus!
