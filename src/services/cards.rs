use vstd::prelude::*;
use crate::error::AppError;
use crate::models::{AccountCard, Page, ReviewHistory};
use crate::paging::{page_bounds, window_end, window_start};
use crate::sm2::{valid_quality, SchedulingState, Sm2Algorithm};
use crate::store::{time_fits, Store, SECONDS_PER_DAY};

verus! {

broadcast use vstd::seq_lib::group_filter_ensures;

/// Reviews of cards and the creation of an account's cards.
pub struct AccountCardService;

/// The card after a review of quality `quality` at time `now`: the new
/// scheduling state, due `interval` days after `now`.
pub open spec fn reviewed(c: AccountCard, quality: int, now: i64) -> AccountCard {
    let s = c.scheduling().after_review(quality);
    AccountCard {
        ease_factor: s.ease_factor,
        interval_days: s.interval_days,
        repetitions: s.repetitions,
        next_review_date: (now + s.interval_days * SECONDS_PER_DAY) as i64,
        last_reviewed_at: Some(now),
        updated_at: now,
        ..c
    }
}

/// Everything but the cards, the history and their counters is the same.
pub open spec fn same_but_cards(a: Store, b: Store) -> bool {
    &&& b.knowledge == a.knowledge
    &&& b.card_types == a.card_types
    &&& b.requests == a.requests
    &&& b.last_code_cs == a.last_code_cs
    &&& b.last_code_st == a.last_code_st
    &&& b.next_request_id == a.next_request_id
    &&& b.accounts == a.accounts
    &&& b.next_account_id == a.next_account_id
    &&& b.knowledge_rels == a.knowledge_rels
    &&& b.templates == a.templates
    &&& b.template_rels == a.template_rels
}

/// What a successful review leaves: the one card updated and one history
/// record appended.
pub open spec fn review_post(
    a: Store,
    b: Store,
    card_id: i64,
    account_id: i64,
    quality: i32,
    now: i64,
) -> bool {
    let i = a.card_pos(card_id, account_id);
    &&& same_but_cards(a, b)
    &&& b.cards@ == a.cards@.update(i, reviewed(a.cards@[i], quality as int, now))
    &&& b.history@ == a.history@.push(
        ReviewHistory {
            id: a.next_history_id,
            account_card_id: card_id,
            quality,
            reviewed_at: now,
            created_at: now,
        },
    )
    &&& b.next_card_id == a.next_card_id
    &&& b.next_history_id == a.next_history_id + 1
}

/// A card made by initialization for the account: for an item and a card type
/// of the catalog that the account had no card for, in the initial state and
/// due one day after `now`.
pub open spec fn initialized_card(a: Store, c: AccountCard, account_id: i64, now: i64) -> bool {
    &&& c.account_id == account_id
    &&& a.has_knowledge(c.knowledge_code@)
    &&& a.has_card_type(c.card_type_code@)
    &&& !a.has_card_for(account_id, c.knowledge_code@, c.card_type_code@)
    &&& c.scheduling() == SchedulingState::initial()
    &&& c.next_review_date == now + SECONDS_PER_DAY
    &&& c.last_reviewed_at is None
    &&& c.created_at == now
    &&& c.updated_at == now
    &&& c.created_by is None
    &&& c.updated_by is None
}

/// Whether the account has no card for catalog item `k` and card type `t`.
pub open spec fn pair_missing(a: Store, account_id: i64, k: int, t: int) -> bool {
    !a.has_card_for(account_id, a.knowledge@[k].code@, a.card_types@[t].code@)
}

/// How many of the first `t` card types the account lacks a card of for item `k`.
pub open spec fn missing_in_row(a: Store, account_id: i64, k: int, t: int) -> int
    decreases t,
{
    if t <= 0 {
        0
    } else {
        missing_in_row(a, account_id, k, t - 1) + if pair_missing(a, account_id, k, t - 1) {
            1int
        } else {
            0int
        }
    }
}

/// How many pairs of the first `k` items and any card type lack a card.
pub open spec fn missing_before(a: Store, account_id: i64, k: int) -> int
    decreases k,
{
    if k <= 0 {
        0
    } else {
        missing_before(a, account_id, k - 1) + missing_in_row(a, account_id, k - 1, a.card_types@.len() as int)
    }
}

/// How many pairs of catalog item and card type the account has no card for.
pub open spec fn missing_count(a: Store, account_id: i64) -> int {
    missing_before(a, account_id, a.knowledge@.len() as int)
}

proof fn lemma_row_bounds(a: Store, account_id: i64, k: int, t: int, u: int)
    requires
        0 <= t <= u,
    ensures
        0 <= missing_in_row(a, account_id, k, t) <= t,
        missing_in_row(a, account_id, k, t) <= missing_in_row(a, account_id, k, u),
        missing_in_row(a, account_id, k, u) - missing_in_row(a, account_id, k, t) <= u - t,
    decreases u,
{
    if u > t {
        lemma_row_bounds(a, account_id, k, t, u - 1);
    } else if t > 0 {
        lemma_row_bounds(a, account_id, k, t - 1, t - 1);
    }
}

proof fn lemma_before_mono(a: Store, account_id: i64, k: int, l: int)
    requires
        0 <= k <= l,
    ensures
        0 <= missing_before(a, account_id, k) <= missing_before(a, account_id, l),
    decreases l,
{
    if l > k {
        lemma_before_mono(a, account_id, k, l - 1);
        lemma_row_bounds(a, account_id, l - 1, 0, a.card_types@.len() as int);
    } else if k > 0 {
        lemma_before_mono(a, account_id, k - 1, k - 1);
        lemma_row_bounds(a, account_id, k - 1, 0, a.card_types@.len() as int);
    }
}

/// What initialization leaves: the old cards kept, new cards appended only for
/// the pairs that lacked one, and a card for every pair of catalog item and
/// card type.
pub open spec fn init_post(a: Store, b: Store, account_id: i64, now: i64, created: i64, skipped: i64) -> bool {
    &&& same_but_cards(a, b)
    &&& b.history == a.history
    &&& b.next_history_id == a.next_history_id
    &&& b.cards@.len() == a.cards@.len() + created
    &&& b.cards@.subrange(0, a.cards@.len() as int) == a.cards@
    &&& b.next_card_id == a.next_card_id + created
    &&& forall|j: int|
        a.cards@.len() <= j < b.cards@.len() ==> initialized_card(a, #[trigger] b.cards@[j], account_id, now)
    &&& forall|k: int, t: int|
        0 <= k < a.knowledge@.len() && 0 <= t < a.card_types@.len() ==> b.has_card_for(
            account_id,
            #[trigger] a.knowledge@[k].code@,
            #[trigger] a.card_types@[t].code@,
        )
    &&& created >= 0
    &&& skipped >= 0
    &&& created + skipped == a.knowledge@.len() * a.card_types@.len()
    &&& a.knowledge@.len() * a.card_types@.len() <= i64::MAX
    &&& created == missing_count(a, account_id)
}

/// `a` comes no later than `b` in due order: earlier due time first, and
/// among cards due at the same time the older card (smaller id) first.
pub open spec fn due_le(a: AccountCard, b: AccountCard) -> bool {
    a.next_review_date < b.next_review_date || (a.next_review_date == b.next_review_date && a.id <= b.id)
}

pub open spec fn due_sorted(s: Seq<AccountCard>) -> bool {
    forall|i: int, j: int| 0 <= i < j < s.len() ==> due_le(#[trigger] s[i], #[trigger] s[j])
}

/// `content` is page `page` of `size` of `ord`, which holds the cards of
/// `sel` in due order.
pub open spec fn due_page(
    content: Seq<AccountCard>,
    ord: Seq<AccountCard>,
    sel: Seq<AccountCard>,
    page: int,
    size: int,
) -> bool {
    &&& ord.to_multiset() == sel.to_multiset()
    &&& due_sorted(ord)
    &&& content == ord.subrange(window_start(sel.len() as int, page, size), window_end(sel.len() as int, page, size))
}

/// `content` is page `page` of `size` of the cards of `sel` in due order.
pub open spec fn due_listing(content: Seq<AccountCard>, sel: Seq<AccountCard>, page: int, size: int) -> bool {
    exists|ord: Seq<AccountCard>| #[trigger] due_page(content, ord, sel, page, size)
}

pub open spec fn opt_view(o: Option<String>) -> Option<Seq<char>> {
    match o {
        Some(s) => Some(s@),
        None => None,
    }
}

pub open spec fn card_listed(account_id: i64, card_type_code: Option<Seq<char>>, c: AccountCard) -> bool {
    c.account_id == account_id && match card_type_code {
        Some(t) => c.card_type_code@ == t,
        None => true,
    }
}

/// The cards that a listing of the account's cards shows, of one card type
/// or of all.
pub open spec fn listed_by(account_id: i64, card_type_code: Option<Seq<char>>) -> spec_fn(AccountCard) -> bool {
    |c: AccountCard| card_listed(account_id, card_type_code, c)
}

/// The account's cards that are due at time `now`.
pub open spec fn due_by(account_id: i64, now: i64) -> spec_fn(AccountCard) -> bool {
    |c: AccountCard| c.account_id == account_id && c.next_review_date <= now
}

/// The cards in `sel`, ordered by due time, page `page` of `size`.
fn due_ordered_page(sel: Vec<AccountCard>, page: i64, size: i64) -> (r: Page<AccountCard>)
    requires
        page >= 0,
        size > 0,
        sel@.len() <= i64::MAX,
    ensures
        due_listing(r.content@, sel@, page as int, size as int),
        r.page.number == page,
        r.page.size == size,
        r.page.total_elements == sel@.len(),
        r.page.total_pages == crate::models::page_count(sel@.len() as int, size as int),
{
    let n = sel.len();
    let mut sorted: Vec<AccountCard> = Vec::new();
    let mut i: usize = 0;
    assert(sel@.take(0) =~= Seq::<AccountCard>::empty());
    while i < n
        invariant
            i <= n,
            n == sel@.len(),
            sorted@.to_multiset() == sel@.take(i as int).to_multiset(),
            due_sorted(sorted@),
            sorted@.len() == i,
        decreases n - i,
    {
        let c = sel[i].copy();
        let mut j: usize = sorted.len();
        while j > 0 && (sorted[j - 1].next_review_date > c.next_review_date || (sorted[j - 1].next_review_date
            == c.next_review_date && sorted[j - 1].id > c.id))
            invariant
                j <= sorted@.len(),
                forall|k: int| j <= k < sorted@.len() ==> !due_le(#[trigger] sorted@[k], c),
            decreases j,
        {
            j = j - 1;
        }
        let ghost old_sorted = sorted@;
        sorted.insert(j, c);
        proof {
            assert(sel@.take(i as int + 1) =~= sel@.take(i as int).push(sel@[i as int]));
            assert(sorted@ == old_sorted.insert(j as int, c));
            vstd::seq_lib::to_multiset_insert(old_sorted, j as int, c);
            vstd::seq_lib::to_multiset_build(sel@.take(i as int), sel@[i as int]);
            assert forall|x: int, y: int| 0 <= x < y < sorted@.len() implies due_le(
                #[trigger] sorted@[x],
                #[trigger] sorted@[y],
            ) by {
                let jj = j as int;
                if y < jj {
                    assert(sorted@[x] == old_sorted[x] && sorted@[y] == old_sorted[y]);
                } else if y == jj {
                    assert(sorted@[x] == old_sorted[x]);
                    if x < jj - 1 {
                        assert(due_le(old_sorted[x], old_sorted[jj - 1]));
                    }
                } else if x < jj {
                    assert(sorted@[x] == old_sorted[x] && sorted@[y] == old_sorted[y - 1]);
                    assert(due_le(old_sorted[x], old_sorted[y - 1]));
                } else if x == jj {
                    assert(sorted@[y] == old_sorted[y - 1]);
                    assert(!due_le(old_sorted[y - 1], c));
                } else {
                    assert(sorted@[x] == old_sorted[x - 1] && sorted@[y] == old_sorted[y - 1]);
                }
            }
        }
        i = i + 1;
    }
    assert(sel@.take(n as int) =~= sel@);
    let (lo, hi) = page_bounds(n, page, size);
    let mut content: Vec<AccountCard> = Vec::new();
    let mut j: usize = lo;
    while j < hi
        invariant
            lo <= j <= hi <= n,
            n == sorted@.len(),
            content@ == sorted@.subrange(lo as int, j as int),
        decreases hi - j,
    {
        content.push(sorted[j].copy());
        j = j + 1;
        assert(content@ =~= sorted@.subrange(lo as int, j as int));
    }
    assert(due_page(content@, sorted@, sel@, page as int, size as int));
    Page::new(content, page, size, n as i64)
}

impl AccountCardService {
    /// The account's card with this id; `NotFound` when it is absent or
    /// belongs to another account.
    pub fn get_card_by_id(store: &Store, card_id: i64, account_id: i64) -> (r: Result<AccountCard, AppError>)
        requires
            store.wf(),
        ensures
            !store.has_card(card_id, account_id) ==> r == Err::<AccountCard, AppError>(AppError::NotFound),
            store.has_card(card_id, account_id) ==> r == Ok::<AccountCard, AppError>(
                store.cards@[store.card_pos(card_id, account_id)],
            ),
    {
        match store.find_card(card_id, account_id) {
            Some(i) => Ok(store.cards[i].copy()),
            None => Err(AppError::NotFound),
        }
    }

    /// Page `page` of the account's cards, of one card type or of all, the
    /// earliest due first.
    pub fn get_cards(
        store: &Store,
        account_id: i64,
        page: i64,
        size: i64,
        card_type_code: Option<String>,
    ) -> (r: Page<AccountCard>)
        requires
            page >= 0,
            size > 0,
            store.cards@.len() <= i64::MAX,
        ensures
            ({
                let sel = store.cards@.filter(listed_by(account_id, opt_view(card_type_code)));
                &&& due_listing(r.content@, sel, page as int, size as int)
                &&& r.page.total_elements == sel.len()
                &&& r.page.total_pages == crate::models::page_count(sel.len() as int, size as int)
            }),
            r.page.number == page,
            r.page.size == size,
    {
        let ghost t = opt_view(card_type_code);
        let ghost all = store.cards@;
        let mut sel: Vec<AccountCard> = Vec::new();
        let mut i: usize = 0;
        while i < store.cards.len()
            invariant
                i <= all.len(),
                all == store.cards@,
                t == opt_view(card_type_code),
                sel@ == all.take(i as int).filter(listed_by(account_id, t)),
            decreases all.len() - i,
        {
            proof {
                reveal(Seq::filter);
                assert(all.take(i as int + 1).drop_last() =~= all.take(i as int));
            }
            let c = &store.cards[i];
            let keep = c.account_id == account_id && match &card_type_code {
                Some(code) => c.card_type_code == *code,
                None => true,
            };
            if keep {
                sel.push(c.copy());
            }
            i = i + 1;
        }
        assert(all.take(all.len() as int) =~= all);
        due_ordered_page(sel, page, size)
    }

    /// Page `page` of the account's cards that are due at time `now`, the
    /// earliest due first.
    pub fn get_due_cards(store: &Store, account_id: i64, page: i64, size: i64, now: i64) -> (r: Page<AccountCard>)
        requires
            page >= 0,
            size > 0,
            store.cards@.len() <= i64::MAX,
        ensures
            ({
                let sel = store.cards@.filter(due_by(account_id, now));
                &&& due_listing(r.content@, sel, page as int, size as int)
                &&& r.page.total_elements == sel.len()
                &&& r.page.total_pages == crate::models::page_count(sel.len() as int, size as int)
            }),
            r.page.number == page,
            r.page.size == size,
    {
        let ghost all = store.cards@;
        let mut sel: Vec<AccountCard> = Vec::new();
        let mut i: usize = 0;
        while i < store.cards.len()
            invariant
                i <= all.len(),
                all == store.cards@,
                sel@ == all.take(i as int).filter(due_by(account_id, now)),
            decreases all.len() - i,
        {
            proof {
                reveal(Seq::filter);
                assert(all.take(i as int + 1).drop_last() =~= all.take(i as int));
            }
            let c = &store.cards[i];
            if c.account_id == account_id && c.next_review_date <= now {
                sel.push(c.copy());
            }
            i = i + 1;
        }
        assert(all.take(all.len() as int) =~= all);
        due_ordered_page(sel, page, size)
    }

    /// Applies a review of quality `quality` (0 to 5) at time `now` to the
    /// account's card, and records it in the history. `InvalidInput` for a
    /// quality out of range, whatever the card; `NotFound` when the account
    /// has no such card; `Internal` when history identities have run out or
    /// `now` is too late for any interval to be added to it. On any error
    /// nothing changes.
    pub fn review_card(
        store: &mut Store,
        card_id: i64,
        account_id: i64,
        quality: i32,
        now: i64,
    ) -> (r: Result<AccountCard, AppError>)
        requires
            old(store).wf(),
        ensures
            final(store).wf(),
            !valid_quality(quality as int) ==> r == Err::<AccountCard, AppError>(AppError::InvalidInput),
            valid_quality(quality as int) && !old(store).has_card(card_id, account_id) ==> r == Err::<
                AccountCard,
                AppError,
            >(AppError::NotFound),
            valid_quality(quality as int) && old(store).has_card(card_id, account_id)
                && (old(store).next_history_id == i64::MAX || !time_fits(now)) ==> r == Err::<AccountCard, AppError>(
                AppError::Internal,
            ),
            valid_quality(quality as int) && old(store).has_card(card_id, account_id)
                && old(store).next_history_id < i64::MAX && time_fits(now) ==> r is Ok,
            r is Err ==> *final(store) == *old(store),
            r matches Ok(c) ==> review_post(*old(store), *final(store), card_id, account_id, quality, now)
                && c == final(store).cards@[old(store).card_pos(card_id, account_id)],
    {
        if quality < 0 || quality > 5 {
            return Err(AppError::InvalidInput);
        }
        let i = match store.find_card(card_id, account_id) {
            Some(i) => i,
            None => {
                return Err(AppError::NotFound);
            },
        };
        if store.next_history_id == i64::MAX || now > i64::MAX - i32::MAX as i64 * SECONDS_PER_DAY {
            return Err(AppError::Internal);
        }
        let mut card = store.cards[i].copy();
        let current = SchedulingState {
            ease_factor: card.ease_factor,
            interval_days: card.interval_days,
            repetitions: card.repetitions,
        };
        let next = match Sm2Algorithm::next_state(current, quality) {
            Ok(s) => s,
            Err(e) => {
                return Err(e);
            },
        };
        assert(1 <= next.interval_days);
        assert(next.interval_days as int * SECONDS_PER_DAY <= i32::MAX as int * SECONDS_PER_DAY)
            by (nonlinear_arith)
            requires
                next.interval_days <= i32::MAX,
        ;
        card.ease_factor = next.ease_factor;
        card.interval_days = next.interval_days;
        card.repetitions = next.repetitions;
        card.next_review_date = now + next.interval_days as i64 * SECONDS_PER_DAY;
        card.last_reviewed_at = Some(now);
        card.updated_at = now;
        let result = card.copy();
        store.cards.set(i, card);
        store.history.push(
            ReviewHistory {
                id: store.next_history_id,
                account_card_id: card_id,
                quality,
                reviewed_at: now,
                created_at: now,
            },
        );
        store.next_history_id = store.next_history_id + 1;
        proof {
            let a = *old(store);
            let b = *store;
            assert forall|x: int, y: int|
                0 <= x < b.cards@.len() && 0 <= y < b.cards@.len() && x != y implies !crate::store::same_card_key(
                #[trigger] b.cards@[x],
                #[trigger] b.cards@[y],
            ) by {
                assert(crate::store::same_card_key(b.cards@[x], b.cards@[y]) == crate::store::same_card_key(a.cards@[x], a.cards@[y]));
            }
            assert forall|x: int, y: int|
                0 <= x < b.cards@.len() && 0 <= y < b.cards@.len() && x != y implies #[trigger] b.cards@[x].id != #[trigger] b.cards@[y].id by {
                assert(a.cards@[x].id != a.cards@[y].id);
            }
            assert forall|x: int| 0 <= x < b.history@.len() implies 1 <= #[trigger] b.history@[x].id < b.next_history_id by {
                if x < a.history@.len() {
                    assert(b.history@[x] == a.history@[x]);
                }
            }
            assert forall|x: int| 0 <= x < b.cards@.len() implies 1 <= #[trigger] b.cards@[x].id < b.next_card_id by {
                assert(b.cards@[x].id == a.cards@[x].id);
            }
        }
        Ok(result)
    }

    /// Creates, for every pair of catalog item and card type that the account
    /// has no card for, a card in the initial state, due one day after `now`.
    /// Returns how many cards were created and how many pairs were skipped.
    /// Fails with `Internal`, changing nothing, when the card identities could
    /// run out.
    pub fn initialize_cards(store: &mut Store, account_id: i64, now: i64) -> (r: Result<(i64, i64), AppError>)
        requires
            old(store).wf(),
            time_fits(now),
        ensures
            final(store).wf(),
            r is Err ==> *final(store) == *old(store) && r == Err::<(i64, i64), AppError>(AppError::Internal),
            r is Err <==> old(store).next_card_id + missing_count(*old(store), account_id) > i64::MAX
                || old(store).knowledge@.len() * old(store).card_types@.len() > i64::MAX,
            r matches Ok((created, skipped)) ==> init_post(*old(store), *final(store), account_id, now, created, skipped),
    {
        let nk = store.knowledge.len();
        let nt = store.card_types.len();
        assert(nk as int * nt as int <= u64::MAX as int * u64::MAX as int) by (nonlinear_arith)
            requires
                nk <= u64::MAX,
                nt <= u64::MAX,
        ;
        let ghost a = *store;
        let mut missing: u128 = 0;
        let mut ki: usize = 0;
        while ki < nk
            invariant
                ki <= nk,
                *store == a,
                nk == a.knowledge@.len(),
                nt == a.card_types@.len(),
                missing == missing_before(a, account_id, ki as int),
                missing <= ki * nt,
                nk * nt <= u64::MAX * u64::MAX,
            decreases nk - ki,
        {
            let mut ti: usize = 0;
            assert(ki * nt + nt <= nk * nt) by (nonlinear_arith)
                requires
                    ki < nk,
            ;
            while ti < nt
                invariant
                    ki < nk,
                    ti <= nt,
                    *store == a,
                    nk == a.knowledge@.len(),
                    nt == a.card_types@.len(),
                    ki * nt + nt <= nk * nt,
                    nk * nt <= u64::MAX * u64::MAX,
                    missing == missing_before(a, account_id, ki as int) + missing_in_row(a, account_id, ki as int, ti as int),
                    missing <= ki * nt + ti,
                decreases nt - ti,
            {
                if !store.card_exists_for(account_id, &store.knowledge[ki].code, &store.card_types[ti].code) {
                    missing = missing + 1;
                }
                ti = ti + 1;
            }
            assert(ki * nt + nt == (ki + 1) * nt) by (nonlinear_arith);
            ki = ki + 1;
        }
        let total: u128 = nk as u128 * nt as u128;
        if missing > (i64::MAX - store.next_card_id) as u128 || total > i64::MAX as u128 {
            return Err(AppError::Internal);
        }
        let (ease, interval, reps) = Sm2Algorithm::initial_values();
        let mut created: i64 = 0;
        let mut skipped: i64 = 0;
        ki = 0;
        while ki < nk
            invariant
                ki <= nk,
                nk == a.knowledge@.len(),
                nt == a.card_types@.len(),
                time_fits(now),
                a.next_card_id + missing_count(a, account_id) <= i64::MAX,
                nk * nt <= i64::MAX,
                created == missing_before(a, account_id, ki as int),
                forall|j: int, k: int, t: int|
                    a.cards@.len() <= j < store.cards@.len() && ki <= k < nk && 0 <= t < nt ==> !(
                    #[trigger] store.cards@[j].knowledge_code@ == #[trigger] a.knowledge@[k].code@
                        && store.cards@[j].card_type_code@ == #[trigger] a.card_types@[t].code@),
                a.wf(),
                store.wf(),
                same_but_cards(a, *store),
                store.history == a.history,
                store.next_history_id == a.next_history_id,
                store.cards@.len() == a.cards@.len() + created,
                store.cards@.subrange(0, a.cards@.len() as int) == a.cards@,
                store.next_card_id == a.next_card_id + created,
                forall|j: int|
                    a.cards@.len() <= j < store.cards@.len() ==> initialized_card(a, #[trigger] store.cards@[j], account_id, now),
                forall|k: int, t: int|
                    0 <= k < ki && 0 <= t < nt ==> store.has_card_for(
                        account_id,
                        #[trigger] a.knowledge@[k].code@,
                        #[trigger] a.card_types@[t].code@,
                    ),
                created >= 0,
                skipped >= 0,
                created + skipped == ki * nt,
                ease == SchedulingState::initial().ease_factor,
                interval == SchedulingState::initial().interval_days,
                reps == SchedulingState::initial().repetitions,
            decreases nk - ki,
        {
            let mut ti: usize = 0;
            assert(ki * nt + nt <= nk * nt) by (nonlinear_arith)
                requires
                    ki < nk,
            ;
            while ti < nt
                invariant
                    ki < nk,
                    ti <= nt,
                    nk == a.knowledge@.len(),
                    nt == a.card_types@.len(),
                    time_fits(now),
                    a.next_card_id + missing_count(a, account_id) <= i64::MAX,
                    nk * nt <= i64::MAX,
                    ki * nt + nt <= nk * nt,
                    created == missing_before(a, account_id, ki as int) + missing_in_row(a, account_id, ki as int, ti as int),
                    forall|j: int, k: int, t: int|
                        a.cards@.len() <= j < store.cards@.len() && 0 <= k < nk && 0 <= t < nt && (ki < k || (k
                            == ki && ti <= t)) ==> !(#[trigger] store.cards@[j].knowledge_code@
                            == #[trigger] a.knowledge@[k].code@ && store.cards@[j].card_type_code@
                            == #[trigger] a.card_types@[t].code@),
                    a.wf(),
                    store.wf(),
                    same_but_cards(a, *store),
                    store.history == a.history,
                    store.next_history_id == a.next_history_id,
                    store.cards@.len() == a.cards@.len() + created,
                    store.cards@.subrange(0, a.cards@.len() as int) == a.cards@,
                    store.next_card_id == a.next_card_id + created,
                    forall|j: int|
                        a.cards@.len() <= j < store.cards@.len() ==> initialized_card(a, #[trigger] store.cards@[j], account_id, now),
                    forall|k: int, t: int|
                        0 <= k < ki && 0 <= t < nt ==> store.has_card_for(
                            account_id,
                            #[trigger] a.knowledge@[k].code@,
                            #[trigger] a.card_types@[t].code@,
                        ),
                    forall|t: int|
                        0 <= t < ti ==> store.has_card_for(
                            account_id,
                            a.knowledge@[ki as int].code@,
                            #[trigger] a.card_types@[t].code@,
                        ),
                    created >= 0,
                    skipped >= 0,
                    created + skipped == ki * nt + ti,
                    ease == SchedulingState::initial().ease_factor,
                    interval == SchedulingState::initial().interval_days,
                    reps == SchedulingState::initial().repetitions,
                decreases nt - ti,
            {
                let exists = store.card_exists_for(account_id, &store.knowledge[ki].code, &store.card_types[ti].code);
                proof {
                    let kc = a.knowledge@[ki as int].code@;
                    let tc = a.card_types@[ti as int].code@;
                    if store.has_card_for(account_id, kc, tc) {
                        let w = choose|w: int|
                            0 <= w < store.cards@.len() && #[trigger] store.cards@[w].account_id == account_id
                                && store.cards@[w].knowledge_code@ == kc && store.cards@[w].card_type_code@ == tc;
                        if w >= a.cards@.len() {
                            assert(!(store.cards@[w].knowledge_code@ == a.knowledge@[ki as int].code@
                                && store.cards@[w].card_type_code@ == a.card_types@[ti as int].code@));
                        } else {
                            assert(store.cards@.subrange(0, a.cards@.len() as int)[w] == store.cards@[w]);
                            assert(a.cards@[w].account_id == account_id);
                        }
                    }
                    if a.has_card_for(account_id, kc, tc) {
                        let w = choose|w: int|
                            0 <= w < a.cards@.len() && #[trigger] a.cards@[w].account_id == account_id
                                && a.cards@[w].knowledge_code@ == kc && a.cards@[w].card_type_code@ == tc;
                        assert(store.cards@.subrange(0, a.cards@.len() as int)[w] == store.cards@[w]);
                        assert(store.cards@[w].account_id == account_id);
                    }
                    assert(exists == !pair_missing(a, account_id, ki as int, ti as int));
                    lemma_row_bounds(a, account_id, ki as int, ti as int + 1, nt as int);
                    lemma_before_mono(a, account_id, ki as int + 1, nk as int);
                    lemma_row_bounds(a, account_id, ki as int, ti as int, ti as int + 1);
                }
                if !exists {
                    let ghost before = *store;
                    let card = AccountCard {
                        id: store.next_card_id,
                        account_id,
                        knowledge_code: store.knowledge[ki].code.clone(),
                        card_type_code: store.card_types[ti].code.clone(),
                        ease_factor: ease,
                        interval_days: interval,
                        repetitions: reps,
                        next_review_date: now + SECONDS_PER_DAY,
                        last_reviewed_at: None,
                        created_at: now,
                        updated_at: now,
                        created_by: None,
                        updated_by: None,
                    };
                    store.cards.push(card);
                    store.next_card_id = store.next_card_id + 1;
                    created = created + 1;
                    proof {
                        let b = *store;
                        let n = before.cards@.len() as int;
                        assert(b.cards@[n] == card);
                        assert(forall|x: int| 0 <= x < n ==> b.cards@[x] == before.cards@[x]);
                        // the pair had no card, neither before this loop nor now
                        assert(!a.has_card_for(account_id, card.knowledge_code@, card.card_type_code@)) by {
                            if a.has_card_for(account_id, card.knowledge_code@, card.card_type_code@) {
                                let w = choose|w: int|
                                    0 <= w < a.cards@.len() && #[trigger] a.cards@[w].account_id == account_id
                                        && a.cards@[w].knowledge_code@ == card.knowledge_code@
                                        && a.cards@[w].card_type_code@ == card.card_type_code@;
                                assert(before.cards@.subrange(0, a.cards@.len() as int)[w] == before.cards@[w]);
                                assert(before.cards@[w].account_id == account_id);
                            }
                        }
                        assert(a.has_knowledge(card.knowledge_code@)) by {
                            assert(a.knowledge@[ki as int].code@ == card.knowledge_code@);
                        }
                        assert(a.has_card_type(card.card_type_code@)) by {
                            assert(a.card_types@[ti as int].code@ == card.card_type_code@);
                        }
                        assert(b.cards@.subrange(0, a.cards@.len() as int) =~= a.cards@) by {
                            assert forall|x: int| 0 <= x < a.cards@.len() implies b.cards@[x] == a.cards@[x] by {
                                assert(before.cards@.subrange(0, a.cards@.len() as int)[x] == before.cards@[x]);
                            }
                        }
                        assert forall|x: int, y: int|
                            0 <= x < b.cards@.len() && 0 <= y < b.cards@.len() && x != y implies !crate::store::same_card_key(
                            #[trigger] b.cards@[x],
                            #[trigger] b.cards@[y],
                        ) by {
                            if x == n {
                                assert(!before.has_card_for(account_id, card.knowledge_code@, card.card_type_code@));
                                assert(b.cards@[y] == before.cards@[y]);
                            } else if y == n {
                                assert(!before.has_card_for(account_id, card.knowledge_code@, card.card_type_code@));
                                assert(b.cards@[x] == before.cards@[x]);
                            } else {
                                assert(b.cards@[x] == before.cards@[x]);
                                assert(b.cards@[y] == before.cards@[y]);
                            }
                        }
                        assert forall|x: int, y: int|
                            0 <= x < b.cards@.len() && 0 <= y < b.cards@.len() && x != y implies #[trigger] b.cards@[x].id != #[trigger] b.cards@[y].id by {
                            if x == n {
                                assert(b.cards@[y] == before.cards@[y]);
                            } else if y == n {
                                assert(b.cards@[x] == before.cards@[x]);
                            } else {
                                assert(b.cards@[x] == before.cards@[x]);
                                assert(b.cards@[y] == before.cards@[y]);
                            }
                        }
                        assert forall|k: int, t: int|
                            0 <= k < ki && 0 <= t < nt implies b.has_card_for(
                                account_id,
                                #[trigger] a.knowledge@[k].code@,
                                #[trigger] a.card_types@[t].code@,
                            ) by {
                            assert(before.has_card_for(account_id, a.knowledge@[k].code@, a.card_types@[t].code@));
                            let w = choose|w: int|
                                0 <= w < before.cards@.len() && #[trigger] before.cards@[w].account_id == account_id
                                    && before.cards@[w].knowledge_code@ == a.knowledge@[k].code@
                                    && before.cards@[w].card_type_code@ == a.card_types@[t].code@;
                            assert(b.cards@[w] == before.cards@[w]);
                        }
                        assert forall|t: int|
                            0 <= t <= ti implies b.has_card_for(
                                account_id,
                                a.knowledge@[ki as int].code@,
                                #[trigger] a.card_types@[t].code@,
                            ) by {
                            if t == ti {
                                assert(b.cards@[n].account_id == account_id);
                            } else {
                                assert(before.has_card_for(account_id, a.knowledge@[ki as int].code@, a.card_types@[t].code@));
                                let w = choose|w: int|
                                    0 <= w < before.cards@.len() && #[trigger] before.cards@[w].account_id == account_id
                                        && before.cards@[w].knowledge_code@ == a.knowledge@[ki as int].code@
                                        && before.cards@[w].card_type_code@ == a.card_types@[t].code@;
                                assert(b.cards@[w] == before.cards@[w]);
                            }
                        }
                        assert forall|j: int|
                            a.cards@.len() <= j < b.cards@.len() implies initialized_card(a, #[trigger] b.cards@[j], account_id, now) by {
                            if j < n {
                                assert(b.cards@[j] == before.cards@[j]);
                            }
                        }
                    }
                } else {
                    skipped = skipped + 1;
                }
                ti = ti + 1;
            }
            assert(ki * nt + nt == (ki + 1) * nt) by (nonlinear_arith);
            ki = ki + 1;
        }
        Ok((created, skipped))
    }
}

proof fn lemma_none_missing(a: Store, account_id: i64, k: int)
    requires
        0 <= k <= a.knowledge@.len(),
        forall|x: int, t: int|
            0 <= x < a.knowledge@.len() && 0 <= t < a.card_types@.len() ==> a.has_card_for(
                account_id,
                #[trigger] a.knowledge@[x].code@,
                #[trigger] a.card_types@[t].code@,
            ),
    ensures
        missing_before(a, account_id, k) == 0,
    decreases k,
{
    if k > 0 {
        lemma_none_missing(a, account_id, k - 1);
        lemma_row_none(a, account_id, k - 1, a.card_types@.len() as int);
    }
}

proof fn lemma_row_none(a: Store, account_id: i64, k: int, t: int)
    requires
        0 <= k < a.knowledge@.len(),
        0 <= t <= a.card_types@.len(),
        forall|x: int, u: int|
            0 <= x < a.knowledge@.len() && 0 <= u < a.card_types@.len() ==> a.has_card_for(
                account_id,
                #[trigger] a.knowledge@[x].code@,
                #[trigger] a.card_types@[u].code@,
            ),
    ensures
        missing_in_row(a, account_id, k, t) == 0,
    decreases t,
{
    if t > 0 {
        lemma_row_none(a, account_id, k, t - 1);
        assert(a.has_card_for(account_id, a.knowledge@[k].code@, a.card_types@[t - 1].code@));
    }
}

proof fn lemma_all_missing(a: Store, account_id: i64, k: int)
    requires
        0 <= k <= a.knowledge@.len(),
        forall|i: int| 0 <= i < a.cards@.len() ==> #[trigger] a.cards@[i].account_id != account_id,
    ensures
        missing_before(a, account_id, k) == k * a.card_types@.len(),
    decreases k,
{
    let n = a.card_types@.len() as int;
    if k > 0 {
        lemma_all_missing(a, account_id, k - 1);
        lemma_row_all(a, account_id, k - 1, n);
        assert(missing_before(a, account_id, k) == missing_before(a, account_id, k - 1) + n);
        assert((k - 1) * n + n == k * n) by (nonlinear_arith);
    } else {
        assert(k * n == 0) by (nonlinear_arith)
            requires
                k == 0,
        ;
    }
}

proof fn lemma_row_all(a: Store, account_id: i64, k: int, t: int)
    requires
        0 <= t,
        forall|i: int| 0 <= i < a.cards@.len() ==> #[trigger] a.cards@[i].account_id != account_id,
    ensures
        missing_in_row(a, account_id, k, t) == t,
    decreases t,
{
    if t > 0 {
        lemma_row_all(a, account_id, k, t - 1);
    }
}

/// After one initialization of an account no pair lacks a card, so a second
/// one succeeds, creates none, skips every pair, and leaves the cards as they
/// were.
pub proof fn initialize_twice_creates_nothing(
    s0: Store,
    s1: Store,
    s2: Store,
    account_id: i64,
    now1: i64,
    now2: i64,
    created1: i64,
    skipped1: i64,
    created2: i64,
    skipped2: i64,
)
    requires
        init_post(s0, s1, account_id, now1, created1, skipped1),
        init_post(s1, s2, account_id, now2, created2, skipped2),
    ensures
        missing_count(s1, account_id) == 0,
        !(s1.next_card_id + missing_count(s1, account_id) > i64::MAX || s1.knowledge@.len()
            * s1.card_types@.len() > i64::MAX),
        created2 == 0,
        skipped2 == s0.knowledge@.len() * s0.card_types@.len(),
        s2.cards@ == s1.cards@,
{
    lemma_none_missing(s1, account_id, s1.knowledge@.len() as int);
    assert(s2.cards@ =~= s2.cards@.subrange(0, s1.cards@.len() as int));
}

/// Initializing an account that has no cards creates one card for every pair
/// of catalog item and card type and skips none.
pub proof fn initialize_new_account_creates_all(
    s0: Store,
    s1: Store,
    account_id: i64,
    now: i64,
    created: i64,
    skipped: i64,
)
    requires
        forall|i: int| 0 <= i < s0.cards@.len() ==> #[trigger] s0.cards@[i].account_id != account_id,
        init_post(s0, s1, account_id, now, created, skipped),
    ensures
        created == s0.knowledge@.len() * s0.card_types@.len(),
        skipped == 0,
        s1.cards@.len() == s0.cards@.len() + s0.knowledge@.len() * s0.card_types@.len(),
{
    lemma_all_missing(s0, account_id, s0.knowledge@.len() as int);
}

} // verus!
