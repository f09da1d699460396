use vstd::prelude::*;
use crate::models::{
    Account, AccountCard, CardType, CardTypeTemplateRel, ChangeRequest, Knowledge, KnowledgeRel, ReviewHistory,
    Template,
};

verus! {

/// Seconds in a day.
pub const SECONDS_PER_DAY: i64 = 86400;

/// A time (seconds since the epoch) from which any interval of days that an
/// `i32` holds can be added.
pub open spec fn time_fits(now: i64) -> bool {
    now as int + i32::MAX as int * SECONDS_PER_DAY as int <= i64::MAX
}

/// The records of the service: catalog, card types, cards, review history and
/// change requests, with the counters that hand out identities.
pub struct Store {
    pub knowledge: Vec<Knowledge>,
    pub card_types: Vec<CardType>,
    pub cards: Vec<AccountCard>,
    pub history: Vec<ReviewHistory>,
    pub requests: Vec<ChangeRequest>,
    /// The last value taken from the code sequence of each category.
    pub last_code_cs: i64,
    pub last_code_st: i64,
    pub next_card_id: i64,
    pub next_history_id: i64,
    pub next_request_id: i64,
    pub accounts: Vec<Account>,
    pub next_account_id: i64,
    pub knowledge_rels: Vec<KnowledgeRel>,
    pub templates: Vec<Template>,
    pub template_rels: Vec<CardTypeTemplateRel>,
}

/// A card's scheduling state is in range, and it is due its interval after
/// its last review, or after its creation when it has none.
pub open spec fn card_ok(c: AccountCard) -> bool {
    &&& c.ease_factor.hundredths >= crate::sm2::MIN_EASE_HUNDREDTHS
    &&& c.interval_days >= 1
    &&& c.repetitions >= 0
    &&& c.next_review_date == match c.last_reviewed_at {
        Some(t) => t,
        None => c.created_at,
    } + c.interval_days * SECONDS_PER_DAY
}

pub open spec fn same_card_key(a: AccountCard, b: AccountCard) -> bool {
    a.account_id == b.account_id && a.knowledge_code@ == b.knowledge_code@ && a.card_type_code@
        == b.card_type_code@
}

impl Store {
    /// Identities are fresh and unique, codes are unique, each account has at
    /// most one card per catalog item and card type, and every card's item and
    /// card type are in the catalog.
    pub open spec fn wf(&self) -> bool {
        &&& self.next_card_id >= 1
        &&& self.next_history_id >= 1
        &&& self.next_request_id >= 1
        &&& self.next_account_id >= 1
        &&& forall|i: int, j: int|
            0 <= i < self.templates@.len() && 0 <= j < self.templates@.len() && i != j ==> #[trigger] self.templates@[i].code@
                != #[trigger] self.templates@[j].code@
        &&& forall|i: int| 0 <= i < self.accounts@.len() ==> 1 <= #[trigger] self.accounts@[i].id < self.next_account_id
        &&& forall|i: int, j: int|
            0 <= i < self.accounts@.len() && 0 <= j < self.accounts@.len() && i != j ==> #[trigger] self.accounts@[i].id
                != #[trigger] self.accounts@[j].id
        &&& forall|i: int, j: int|
            0 <= i < self.accounts@.len() && 0 <= j < self.accounts@.len() && i != j ==> #[trigger] self.accounts@[i].username@
                != #[trigger] self.accounts@[j].username@
        &&& self.last_code_cs >= 0
        &&& self.last_code_st >= 0
        &&& forall|i: int| 0 <= i < self.cards@.len() ==> 1 <= #[trigger] self.cards@[i].id < self.next_card_id
        &&& forall|i: int| 0 <= i < self.cards@.len() ==> card_ok(#[trigger] self.cards@[i])
        &&& forall|i: int|
            0 <= i < self.cards@.len() ==> self.has_knowledge((#[trigger] self.cards@[i]).knowledge_code@)
                && self.has_card_type(self.cards@[i].card_type_code@)
        &&& forall|i: int, j: int|
            0 <= i < self.cards@.len() && 0 <= j < self.cards@.len() && i != j ==> #[trigger] self.cards@[i].id
                != #[trigger] self.cards@[j].id
        &&& forall|i: int, j: int|
            0 <= i < self.cards@.len() && 0 <= j < self.cards@.len() && i != j ==> !same_card_key(
                #[trigger] self.cards@[i],
                #[trigger] self.cards@[j],
            )
        &&& forall|i: int| 0 <= i < self.history@.len() ==> 1 <= #[trigger] self.history@[i].id < self.next_history_id
        &&& forall|i: int| 0 <= i < self.requests@.len() ==> 1 <= #[trigger] self.requests@[i].id < self.next_request_id
        &&& forall|i: int, j: int|
            0 <= i < self.requests@.len() && 0 <= j < self.requests@.len() && i != j ==> #[trigger] self.requests@[i].id
                != #[trigger] self.requests@[j].id
        &&& forall|i: int, j: int|
            0 <= i < self.knowledge@.len() && 0 <= j < self.knowledge@.len() && i != j ==> #[trigger] self.knowledge@[i].code@
                != #[trigger] self.knowledge@[j].code@
        &&& forall|i: int, j: int|
            0 <= i < self.card_types@.len() && 0 <= j < self.card_types@.len() && i != j ==> #[trigger] self.card_types@[i].code@
                != #[trigger] self.card_types@[j].code@
    }

    /// An empty store.
    pub fn new() -> (r: Store)
        ensures
            r.wf(),
            r.knowledge@.len() == 0,
            r.card_types@.len() == 0,
            r.cards@.len() == 0,
            r.history@.len() == 0,
            r.requests@.len() == 0,
            r.accounts@.len() == 0,
    {
        Store {
            knowledge: Vec::new(),
            card_types: Vec::new(),
            cards: Vec::new(),
            history: Vec::new(),
            requests: Vec::new(),
            last_code_cs: 0,
            last_code_st: 0,
            next_card_id: 1,
            next_history_id: 1,
            next_request_id: 1,
            accounts: Vec::new(),
            next_account_id: 1,
            knowledge_rels: Vec::new(),
            templates: Vec::new(),
            template_rels: Vec::new(),
        }
    }

    pub open spec fn has_card(&self, card_id: i64, account_id: i64) -> bool {
        exists|i: int|
            0 <= i < self.cards@.len() && #[trigger] self.cards@[i].id == card_id && self.cards@[i].account_id
                == account_id
    }

    /// The position of the account's card with this id.
    pub open spec fn card_pos(&self, card_id: i64, account_id: i64) -> int {
        choose|i: int|
            0 <= i < self.cards@.len() && #[trigger] self.cards@[i].id == card_id && self.cards@[i].account_id
                == account_id
    }

    pub open spec fn has_card_for(&self, account_id: i64, code: Seq<char>, type_code: Seq<char>) -> bool {
        exists|i: int|
            0 <= i < self.cards@.len() && #[trigger] self.cards@[i].account_id == account_id
                && self.cards@[i].knowledge_code@ == code && self.cards@[i].card_type_code@ == type_code
    }

    pub open spec fn has_request(&self, id: i64) -> bool {
        exists|i: int| 0 <= i < self.requests@.len() && #[trigger] self.requests@[i].id == id
    }

    /// The position of the request with this id.
    pub open spec fn request_pos(&self, id: i64) -> int {
        choose|i: int| 0 <= i < self.requests@.len() && #[trigger] self.requests@[i].id == id
    }

    pub open spec fn has_knowledge(&self, code: Seq<char>) -> bool {
        exists|i: int| 0 <= i < self.knowledge@.len() && #[trigger] self.knowledge@[i].code@ == code
    }

    /// The position of the catalog item with this code.
    pub open spec fn knowledge_pos(&self, code: Seq<char>) -> int {
        choose|i: int| 0 <= i < self.knowledge@.len() && #[trigger] self.knowledge@[i].code@ == code
    }

    /// Whether any card, of any account, refers to the catalog item.
    pub open spec fn knowledge_in_use(&self, code: Seq<char>) -> bool {
        exists|i: int| 0 <= i < self.cards@.len() && #[trigger] self.cards@[i].knowledge_code@ == code
    }

    pub open spec fn has_card_type(&self, code: Seq<char>) -> bool {
        exists|i: int| 0 <= i < self.card_types@.len() && #[trigger] self.card_types@[i].code@ == code
    }

    /// The position of the card type with this code.
    pub open spec fn card_type_pos(&self, code: Seq<char>) -> int {
        choose|i: int| 0 <= i < self.card_types@.len() && #[trigger] self.card_types@[i].code@ == code
    }

    pub open spec fn has_template(&self, code: Seq<char>) -> bool {
        exists|i: int| 0 <= i < self.templates@.len() && #[trigger] self.templates@[i].code@ == code
    }

    /// The position of the template with this code.
    pub open spec fn template_pos(&self, code: Seq<char>) -> int {
        choose|i: int| 0 <= i < self.templates@.len() && #[trigger] self.templates@[i].code@ == code
    }

    /// Finds the template with this code.
    pub fn find_template(&self, code: &str) -> (r: Option<usize>)
        requires
            self.wf(),
        ensures
            r is None <==> !self.has_template(code@),
            r matches Some(i) ==> i as int == self.template_pos(code@),
    {
        let mut i: usize = 0;
        while i < self.templates.len()
            invariant
                self.wf(),
                i <= self.templates@.len(),
                forall|j: int| 0 <= j < i ==> #[trigger] self.templates@[j].code@ != code@,
            decreases self.templates@.len() - i,
        {
            if crate::text::text_eq(self.templates[i].code.as_str(), code) {
                proof {
                    let p = self.template_pos(code@);
                    assert(self.templates@[p].code@ == self.templates@[i as int].code@);
                }
                return Some(i);
            }
            i = i + 1;
        }
        None
    }

    /// Finds the account's card with this id.
    pub fn find_card(&self, card_id: i64, account_id: i64) -> (r: Option<usize>)
        requires
            self.wf(),
        ensures
            r is None <==> !self.has_card(card_id, account_id),
            r matches Some(i) ==> i as int == self.card_pos(card_id, account_id),
    {
        let mut i: usize = 0;
        while i < self.cards.len()
            invariant
                self.wf(),
                i <= self.cards@.len(),
                forall|j: int|
                    0 <= j < i ==> !(#[trigger] self.cards@[j].id == card_id && self.cards@[j].account_id
                        == account_id),
            decreases self.cards@.len() - i,
        {
            if self.cards[i].id == card_id && self.cards[i].account_id == account_id {
                assert(self.has_card(card_id, account_id));
                let ghost p = self.card_pos(card_id, account_id);
                assert(self.cards@[p].id == self.cards@[i as int].id);
                return Some(i);
            }
            i = i + 1;
        }
        None
    }

    /// Whether the account has a card for this item and card type.
    pub fn card_exists_for(&self, account_id: i64, code: &String, type_code: &String) -> (r: bool)
        ensures
            r == self.has_card_for(account_id, code@, type_code@),
    {
        let mut i: usize = 0;
        while i < self.cards.len()
            invariant
                i <= self.cards@.len(),
                forall|j: int|
                    0 <= j < i ==> !(#[trigger] self.cards@[j].account_id == account_id
                        && self.cards@[j].knowledge_code@ == code@ && self.cards@[j].card_type_code@
                        == type_code@),
            decreases self.cards@.len() - i,
        {
            let c = &self.cards[i];
            if c.account_id == account_id && c.knowledge_code == *code && c.card_type_code == *type_code {
                return true;
            }
            i = i + 1;
        }
        false
    }

    /// Finds the request with this id.
    pub fn find_request(&self, id: i64) -> (r: Option<usize>)
        requires
            self.wf(),
        ensures
            r is None <==> !self.has_request(id),
            r matches Some(i) ==> i as int == self.request_pos(id),
    {
        let mut i: usize = 0;
        while i < self.requests.len()
            invariant
                self.wf(),
                i <= self.requests@.len(),
                forall|j: int| 0 <= j < i ==> #[trigger] self.requests@[j].id != id,
            decreases self.requests@.len() - i,
        {
            if self.requests[i].id == id {
                assert(self.has_request(id));
                let ghost p = self.request_pos(id);
                assert(self.requests@[p].id == self.requests@[i as int].id);
                return Some(i);
            }
            i = i + 1;
        }
        None
    }

    /// Finds the catalog item with this code.
    pub fn find_knowledge(&self, code: &str) -> (r: Option<usize>)
        requires
            self.wf(),
        ensures
            r is None <==> !self.has_knowledge(code@),
            r matches Some(i) ==> i as int == self.knowledge_pos(code@),
    {
        let mut i: usize = 0;
        while i < self.knowledge.len()
            invariant
                self.wf(),
                i <= self.knowledge@.len(),
                forall|j: int| 0 <= j < i ==> #[trigger] self.knowledge@[j].code@ != code@,
            decreases self.knowledge@.len() - i,
        {
            if crate::text::text_eq(self.knowledge[i].code.as_str(), code) {
                assert(self.has_knowledge(code@));
                let ghost p = self.knowledge_pos(code@);
                assert(self.knowledge@[p].code@ == self.knowledge@[i as int].code@);
                return Some(i);
            }
            i = i + 1;
        }
        None
    }

    /// Whether any card refers to the catalog item.
    pub fn is_knowledge_in_use(&self, code: &str) -> (r: bool)
        ensures
            r == self.knowledge_in_use(code@),
    {
        let mut i: usize = 0;
        while i < self.cards.len()
            invariant
                i <= self.cards@.len(),
                forall|j: int| 0 <= j < i ==> #[trigger] self.cards@[j].knowledge_code@ != code@,
            decreases self.cards@.len() - i,
        {
            if crate::text::text_eq(self.cards[i].knowledge_code.as_str(), code) {
                return true;
            }
            i = i + 1;
        }
        false
    }
}

} // verus!
