use vstd::prelude::*;
use crate::auth::{Claims, Role};
use crate::codes::{decimal_text, padded_digits};
use crate::error::AppError;
use crate::models::Account;
use crate::store::Store;

verus! {

/// The characters with the Unicode `White_Space` property.
pub open spec fn is_white_space(c: char) -> bool {
    ('\u{9}' <= c && c <= '\u{d}') || c == ' ' || c == '\u{85}' || c == '\u{a0}' || c == '\u{1680}' || (
    '\u{2000}' <= c && c <= '\u{200a}') || c == '\u{2028}' || c == '\u{2029}' || c == '\u{202f}' || c
        == '\u{205f}' || c == '\u{3000}'
}

/// The text without its leading white space.
pub open spec fn trim_start(s: Seq<char>) -> Seq<char>
    decreases s.len(),
{
    if s.len() > 0 && is_white_space(s[0]) {
        trim_start(s.drop_first())
    } else {
        s
    }
}

/// The text without its trailing white space.
pub open spec fn trim_end(s: Seq<char>) -> Seq<char>
    decreases s.len(),
{
    if s.len() > 0 && is_white_space(s.last()) {
        trim_end(s.drop_last())
    } else {
        s
    }
}

/// The text without leading and trailing white space.
pub open spec fn trimmed(s: Seq<char>) -> Seq<char> {
    trim_end(trim_start(s))
}

/// Relies on `str::trim`, which removes leading and trailing characters with
/// the Unicode `White_Space` property.
#[verifier::external_body]
fn trim_text(s: &str) -> (r: &str)
    ensures
        r@ == trimmed(s@),
{
    s.trim()
}

pub open spec fn has_account(s: Store, username: Seq<char>) -> bool {
    exists|i: int| 0 <= i < s.accounts@.len() && #[trigger] s.accounts@[i].username@ == username
}

/// The position of the account with this name.
pub open spec fn account_pos(s: Store, username: Seq<char>) -> int {
    choose|i: int| 0 <= i < s.accounts@.len() && #[trigger] s.accounts@[i].username@ == username
}

/// What finding or creating the account leaves: the account found unchanged,
/// or a new one added under the next identity.
pub open spec fn account_post(a: Store, b: Store, username: Seq<char>, now: i64, acc: Account) -> bool {
    &&& b.knowledge == a.knowledge
    &&& b.card_types == a.card_types
    &&& b.cards == a.cards
    &&& b.history == a.history
    &&& b.requests == a.requests
    &&& b.knowledge_rels == a.knowledge_rels
    &&& b.templates == a.templates
    &&& b.template_rels == a.template_rels
    &&& if has_account(a, username) {
        &&& b == a
        &&& acc == a.accounts@[account_pos(a, username)]
    } else {
        &&& acc.id == a.next_account_id
        &&& acc.username@ == username
        &&& acc.created_at == now
        &&& acc.updated_at == now
        &&& acc.created_by is None
        &&& acc.updated_by is None
        &&& b.accounts@ == a.accounts@.push(acc)
        &&& b.next_account_id == a.next_account_id + 1
    }
}

/// The account with this name, created at time `now` when there is none.
/// `Internal`, changing nothing, when account identities have run out.
pub fn find_or_create_account(store: &mut Store, username: &str, now: i64) -> (r: Result<Account, AppError>)
    requires
        old(store).wf(),
    ensures
        final(store).wf(),
        r is Err <==> !has_account(*old(store), username@) && old(store).next_account_id == i64::MAX,
        r is Err ==> r == Err::<Account, AppError>(AppError::Internal) && *final(store) == *old(store),
        r matches Ok(acc) ==> account_post(*old(store), *final(store), username@, now, acc),
{
    let mut i: usize = 0;
    while i < store.accounts.len()
        invariant
            store.wf(),
            i <= store.accounts@.len(),
            forall|j: int| 0 <= j < i ==> #[trigger] store.accounts@[j].username@ != username@,
        decreases store.accounts@.len() - i,
    {
        if crate::text::text_eq(store.accounts[i].username.as_str(), username) {
            proof {
                let p = account_pos(*store, username@);
                assert(store.accounts@[p].username@ == store.accounts@[i as int].username@);
            }
            return Ok(store.accounts[i].copy());
        }
        i = i + 1;
    }
    if store.next_account_id == i64::MAX {
        return Err(AppError::Internal);
    }
    let account = Account {
        id: store.next_account_id,
        username: username.to_string(),
        created_at: now,
        updated_at: now,
        created_by: None,
        updated_by: None,
    };
    let result = account.copy();
    let ghost a = *store;
    store.accounts.push(account);
    store.next_account_id = store.next_account_id + 1;
    proof {
        let b = *store;
        let n = a.accounts@.len() as int;
        assert forall|x: int, y: int|
            0 <= x < b.accounts@.len() && 0 <= y < b.accounts@.len() && x != y implies #[trigger] b.accounts@[x].id
                != #[trigger] b.accounts@[y].id && b.accounts@[x].username@ != b.accounts@[y].username@ by {
            if x < n {
                assert(b.accounts@[x] == a.accounts@[x]);
            }
            if y < n {
                assert(b.accounts@[y] == a.accounts@[y]);
            }
        }
        assert forall|x: int| 0 <= x < b.accounts@.len() implies 1 <= #[trigger] b.accounts@[x].id < b.next_account_id by {
            if x < n {
                assert(b.accounts@[x] == a.accounts@[x]);
            }
        }
    }
    Ok(result)
}

pub open spec fn has_account_id(s: Store, id: i64) -> bool {
    exists|i: int| 0 <= i < s.accounts@.len() && #[trigger] s.accounts@[i].id == id
}

/// The account with this id; `NotFound` when there is none.
pub fn get_account_by_id(store: &Store, id: i64) -> (r: Result<Account, AppError>)
    requires
        store.wf(),
    ensures
        !has_account_id(*store, id) ==> r == Err::<Account, AppError>(AppError::NotFound),
        has_account_id(*store, id) ==> r == Ok::<Account, AppError>(
            store.accounts@[choose|i: int| 0 <= i < store.accounts@.len() && #[trigger] store.accounts@[i].id == id],
        ),
{
    let mut i: usize = 0;
    while i < store.accounts.len()
        invariant
            store.wf(),
            i <= store.accounts@.len(),
            forall|j: int| 0 <= j < i ==> #[trigger] store.accounts@[j].id != id,
        decreases store.accounts@.len() - i,
    {
        if store.accounts[i].id == id {
            proof {
                let p = choose|p: int| 0 <= p < store.accounts@.len() && #[trigger] store.accounts@[p].id == id;
                assert(store.accounts@[p].id == store.accounts@[i as int].id);
            }
            return Ok(store.accounts[i].copy());
        }
        i = i + 1;
    }
    Err(AppError::NotFound)
}

/// Signs a user in at time `now`: finds or creates the account and issues
/// claims for it, valid for 24 hours, with the role that the name gives.
/// `InvalidInput` when the name is blank.
pub fn login(store: &mut Store, username: &str, now: i64) -> (r: Result<(Account, Claims), AppError>)
    requires
        old(store).wf(),
        now >= 0,
    ensures
        final(store).wf(),
        trimmed(username@).len() == 0 ==> r == Err::<(Account, Claims), AppError>(AppError::InvalidInput)
            && *final(store) == *old(store),
        trimmed(username@).len() != 0 && !has_account(*old(store), username@) && old(store).next_account_id
            == i64::MAX ==> r == Err::<(Account, Claims), AppError>(AppError::Internal) && *final(store)
            == *old(store),
        r matches Ok((acc, claims)) ==> trimmed(username@).len() != 0 && account_post(*old(store), *final(store), username@, now, acc)
            && claims.sub@ == padded_digits(acc.id as nat, 1) && claims.role@ == Role::spec_for_username(
            username@,
        ).spec_name() && claims.exp == now + crate::auth::TOKEN_LIFETIME_SECS,
        trimmed(username@).len() != 0 && (has_account(*old(store), username@) || old(store).next_account_id
            < i64::MAX) ==> r is Ok,
{
    if trim_text(username).is_empty() {
        return Err(AppError::InvalidInput);
    }
    let account = match find_or_create_account(store, username, now) {
        Ok(a) => a,
        Err(e) => {
            return Err(e);
        },
    };
    let role = Role::for_username(username);
    let id_text = decimal_text(account.id as u64);
    let claims = Claims::new(id_text.as_str(), role.name(), now as u64);
    Ok((account, claims))
}

} // verus!
