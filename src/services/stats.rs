use vstd::prelude::*;
use crate::models::{AccountCard, Stats};
use crate::store::Store;

verus! {

broadcast use vstd::seq_lib::group_filter_ensures;

/// Counts of an account's cards.
pub struct StatsService;

pub open spec fn of_account(account_id: i64) -> spec_fn(AccountCard) -> bool {
    |c: AccountCard| c.account_id == account_id
}

/// Cards never reviewed successfully.
pub open spec fn new_of(account_id: i64) -> spec_fn(AccountCard) -> bool {
    |c: AccountCard| c.account_id == account_id && c.repetitions == 0
}

/// Cards with one or two successful reviews in a row.
pub open spec fn learning_of(account_id: i64) -> spec_fn(AccountCard) -> bool {
    |c: AccountCard| c.account_id == account_id && 0 < c.repetitions < 3
}

pub open spec fn due_of(account_id: i64, now: i64) -> spec_fn(AccountCard) -> bool {
    |c: AccountCard| c.account_id == account_id && c.next_review_date <= now
}

pub open spec fn of_type(account_id: i64, type_code: Seq<char>) -> spec_fn(AccountCard) -> bool {
    |c: AccountCard| c.account_id == account_id && c.card_type_code@ == type_code
}

/// `by_type` holds one entry per card type of the account's cards in `cards`,
/// with the number of those cards of that type.
pub open spec fn counts_by_type(cards: Seq<AccountCard>, account_id: i64, by_type: Seq<(String, i64)>) -> bool {
    &&& forall|e: int|
        0 <= e < by_type.len() ==> #[trigger] by_type[e].1 == cards.filter(of_type(account_id, by_type[e].0@)).len()
            && by_type[e].1 > 0
    &&& forall|e: int, f: int|
        0 <= e < by_type.len() && 0 <= f < by_type.len() && e != f ==> #[trigger] by_type[e].0@
            != #[trigger] by_type[f].0@
    &&& forall|i: int|
        0 <= i < cards.len() && #[trigger] cards[i].account_id == account_id ==> exists|e: int|
            0 <= e < by_type.len() && #[trigger] by_type[e].0@ == cards[i].card_type_code@
}

proof fn lemma_filter_step(s: Seq<AccountCard>, i: int, p: spec_fn(AccountCard) -> bool)
    requires
        0 <= i < s.len(),
    ensures
        s.take(i + 1).filter(p).len() == s.take(i).filter(p).len() + if p(s[i]) {
            1int
        } else {
            0int
        },
{
    reveal(Seq::filter);
    assert(s.take(i + 1).drop_last() =~= s.take(i));
}

impl StatsService {
    /// The account's card counts at time `now`: all, new, learning, due, and
    /// the number of each card type.
    pub fn get_stats(store: &Store, account_id: i64, now: i64) -> (r: Stats)
        requires
            store.cards@.len() <= i64::MAX,
        ensures
            r.total_cards == store.cards@.filter(of_account(account_id)).len(),
            r.new_cards == store.cards@.filter(new_of(account_id)).len(),
            r.learning_cards == store.cards@.filter(learning_of(account_id)).len(),
            r.due_today == store.cards@.filter(due_of(account_id, now)).len(),
            counts_by_type(store.cards@, account_id, r.by_card_type@),
    {
        let ghost all = store.cards@;
        let mut total: i64 = 0;
        let mut fresh: i64 = 0;
        let mut learning: i64 = 0;
        let mut due: i64 = 0;
        let mut by_type: Vec<(String, i64)> = Vec::new();
        let mut i: usize = 0;
        while i < store.cards.len()
            invariant
                i <= all.len(),
                all == store.cards@,
                all.len() <= i64::MAX,
                total == all.take(i as int).filter(of_account(account_id)).len(),
                fresh == all.take(i as int).filter(new_of(account_id)).len(),
                learning == all.take(i as int).filter(learning_of(account_id)).len(),
                due == all.take(i as int).filter(due_of(account_id, now)).len(),
                counts_by_type(all.take(i as int), account_id, by_type@),
            decreases all.len() - i,
        {
            let ghost before = by_type@;
            let c = &store.cards[i];
            proof {
                lemma_filter_step(all, i as int, of_account(account_id));
                lemma_filter_step(all, i as int, new_of(account_id));
                lemma_filter_step(all, i as int, learning_of(account_id));
                lemma_filter_step(all, i as int, due_of(account_id, now));
                assert forall|e: int| 0 <= e < before.len() implies #[trigger] before[e].1 < i + 1 by {
                }
            }
            let ghost mut slot: int = 0;
            if c.account_id == account_id {
                total = total + 1;
                if c.repetitions == 0 {
                    fresh = fresh + 1;
                }
                if 0 < c.repetitions && c.repetitions < 3 {
                    learning = learning + 1;
                }
                if c.next_review_date <= now {
                    due = due + 1;
                }
                let mut e: usize = 0;
                let mut found = false;
                while !found && e < by_type.len()
                    invariant
                        e <= by_type@.len(),
                        by_type@ == before,
                        found ==> e < by_type@.len() && by_type@[e as int].0@ == c.card_type_code@,
                        forall|f: int| 0 <= f < e ==> #[trigger] by_type@[f].0@ != c.card_type_code@,
                    decreases by_type@.len() - e + if found {
                        0int
                    } else {
                        1int
                    },
                {
                    if by_type[e].0 == c.card_type_code {
                        found = true;
                    } else {
                        e = e + 1;
                    }
                }
                if found {
                    let n = by_type[e].1;
                    let code = by_type[e].0.clone();
                    by_type.set(e, (code, n + 1));
                    proof {
                        slot = e as int;
                    }
                } else {
                    by_type.push((c.card_type_code.clone(), 1));
                    proof {
                        slot = before.len() as int;
                    }
                }
            }
            proof {
                let s0 = all.take(i as int);
                let s1 = all.take(i as int + 1);
                assert forall|f: int|
                    0 <= f < by_type@.len() implies #[trigger] by_type@[f].1 == s1.filter(of_type(account_id, by_type@[f].0@)).len()
                        && by_type@[f].1 > 0 by {
                    lemma_filter_step(all, i as int, of_type(account_id, by_type@[f].0@));
                    if f < before.len() {
                        assert(by_type@[f].0@ == before[f].0@);
                    } else {
                        if s0.filter(of_type(account_id, by_type@[f].0@)).len() > 0 {
                            let p = of_type(account_id, by_type@[f].0@);
                            let w = s0.filter(p)[0];
                            assert(s0.filter(p).contains(w));
                            s0.lemma_filter_pred(p, 0);
                            s0.lemma_filter_contains_rev(p, w);
                            let k = choose|k: int| 0 <= k < s0.len() && s0[k] == w;
                            assert(s0[k].account_id == account_id);
                            assert(exists|g: int| 0 <= g < before.len() && #[trigger] before[g].0@ == s0[k].card_type_code@);
                        }
                    }
                }
                assert forall|x: int, y: int|
                    0 <= x < by_type@.len() && 0 <= y < by_type@.len() && x != y implies #[trigger] by_type@[x].0@
                        != #[trigger] by_type@[y].0@ by {
                    if x < before.len() && y < before.len() {
                        assert(by_type@[x].0@ == before[x].0@);
                        assert(by_type@[y].0@ == before[y].0@);
                    } else if x < before.len() {
                        assert(by_type@[x].0@ == before[x].0@);
                    } else {
                        assert(by_type@[y].0@ == before[y].0@);
                    }
                }
                assert forall|k: int|
                    0 <= k < s1.len() && #[trigger] s1[k].account_id == account_id implies exists|g: int|
                        0 <= g < by_type@.len() && #[trigger] by_type@[g].0@ == s1[k].card_type_code@ by {
                    if k < i {
                        assert(s1[k] == s0[k]);
                        let g = choose|g: int| 0 <= g < before.len() && #[trigger] before[g].0@ == s0[k].card_type_code@;
                        assert(by_type@[g].0@ == before[g].0@);
                    } else {
                        assert(by_type@[slot].0@ == c.card_type_code@);
                    }
                }
            }
            i = i + 1;
        }
        assert(all.take(all.len() as int) =~= all);
        Stats {
            total_cards: total,
            new_cards: fresh,
            learning_cards: learning,
            due_today: due,
            by_card_type: by_type,
        }
    }
}

} // verus!
