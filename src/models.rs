use vstd::prelude::*;
use crate::sm2::{EaseFactor, SchedulingState};

verus! {

/// Free-form metadata of a catalog item, carried through unchanged.
#[verifier::external_type_specification]
#[verifier::external_body]
pub struct ExJsonValue(serde_json::Value);

/// Relies on serde_json's derived `Clone` for `Value`: the copy is the same
/// JSON document.
pub assume_specification[ <serde_json::Value as Clone>::clone ](v: &serde_json::Value) -> (r:
    serde_json::Value)
    ensures
        r == *v,
;

pub fn clone_opt_string(o: &Option<String>) -> (r: Option<String>)
    ensures
        r == *o,
{
    match o {
        Some(s) => Some(s.clone()),
        None => None,
    }
}

pub fn clone_opt_json(o: &Option<serde_json::Value>) -> (r: Option<serde_json::Value>)
    ensures
        r == *o,
{
    match o {
        Some(v) => Some(v.clone()),
        None => None,
    }
}

/// A catalog item, keyed by its code. Times are seconds since the epoch.
#[derive(Debug)]
pub struct Knowledge {
    pub code: String,
    pub name: String,
    pub description: String,
    pub metadata: Option<serde_json::Value>,
    pub created_at: i64,
    pub updated_at: i64,
    pub created_by: Option<String>,
    pub updated_by: Option<String>,
}

impl Knowledge {
    pub fn copy(&self) -> (r: Knowledge)
        ensures
            r == *self,
    {
        Knowledge {
            code: self.code.clone(),
            name: self.name.clone(),
            description: self.description.clone(),
            metadata: clone_opt_json(&self.metadata),
            created_at: self.created_at,
            updated_at: self.updated_at,
            created_by: clone_opt_string(&self.created_by),
            updated_by: clone_opt_string(&self.updated_by),
        }
    }
}

/// A link from one catalog item to a related one.
#[derive(Debug)]
pub struct KnowledgeRel {
    pub id: i64,
    pub source_knowledge_code: String,
    pub target_knowledge_code: String,
    pub created_at: i64,
    pub updated_at: i64,
    pub created_by: Option<String>,
    pub updated_by: Option<String>,
}

/// A layout with which a card type shows an item.
#[derive(Debug)]
pub struct Template {
    pub code: String,
    pub name: String,
    pub description: String,
    pub format: String,
    pub content: Vec<u8>,
    pub created_at: i64,
    pub updated_at: i64,
    pub created_by: Option<String>,
    pub updated_by: Option<String>,
}

impl Template {
    /// Whether `other` holds the same template: the same fields, and content
    /// of the same bytes.
    pub open spec fn same_as(&self, other: Template) -> bool {
        &&& other.code == self.code
        &&& other.name == self.name
        &&& other.description == self.description
        &&& other.format == self.format
        &&& other.content@ == self.content@
        &&& other.created_at == self.created_at
        &&& other.updated_at == self.updated_at
        &&& other.created_by == self.created_by
        &&& other.updated_by == self.updated_by
    }

    pub fn copy(&self) -> (r: Template)
        ensures
            self.same_as(r),
    {
        let mut content: Vec<u8> = Vec::new();
        let mut i: usize = 0;
        while i < self.content.len()
            invariant
                i <= self.content@.len(),
                content@ == self.content@.take(i as int),
            decreases self.content@.len() - i,
        {
            content.push(self.content[i]);
            i = i + 1;
            assert(content@ =~= self.content@.take(i as int));
        }
        assert(self.content@.take(self.content@.len() as int) =~= self.content@);
        Template {
            code: self.code.clone(),
            name: self.name.clone(),
            description: self.description.clone(),
            format: self.format.clone(),
            content,
            created_at: self.created_at,
            updated_at: self.updated_at,
            created_by: clone_opt_string(&self.created_by),
            updated_by: clone_opt_string(&self.updated_by),
        }
    }
}

/// The role in which a card type uses a template (such as the front or the
/// back of a card).
#[derive(Debug)]
pub struct CardTypeTemplateRel {
    pub id: i64,
    pub card_type_code: String,
    pub template_code: String,
    pub role: String,
    pub created_at: i64,
    pub updated_at: i64,
    pub created_by: Option<String>,
    pub updated_by: Option<String>,
}

/// A user of the service, known by a unique name.
#[derive(Debug)]
pub struct Account {
    pub id: i64,
    pub username: String,
    pub created_at: i64,
    pub updated_at: i64,
    pub created_by: Option<String>,
    pub updated_by: Option<String>,
}

impl Account {
    pub fn copy(&self) -> (r: Account)
        ensures
            r == *self,
    {
        Account {
            id: self.id,
            username: self.username.clone(),
            created_at: self.created_at,
            updated_at: self.updated_at,
            created_by: clone_opt_string(&self.created_by),
            updated_by: clone_opt_string(&self.updated_by),
        }
    }
}

/// A kind of card that is made for every catalog item.
#[derive(Debug)]
pub struct CardType {
    pub code: String,
    pub name: String,
    pub description: String,
    pub created_at: i64,
    pub updated_at: i64,
    pub created_by: Option<String>,
    pub updated_by: Option<String>,
}

impl CardType {
    pub fn copy(&self) -> (r: CardType)
        ensures
            r == *self,
    {
        CardType {
            code: self.code.clone(),
            name: self.name.clone(),
            description: self.description.clone(),
            created_at: self.created_at,
            updated_at: self.updated_at,
            created_by: clone_opt_string(&self.created_by),
            updated_by: clone_opt_string(&self.updated_by),
        }
    }
}

/// A card of one account for one catalog item and one card type.
#[derive(Debug)]
pub struct AccountCard {
    pub id: i64,
    pub account_id: i64,
    pub knowledge_code: String,
    pub card_type_code: String,
    pub ease_factor: EaseFactor,
    pub interval_days: i32,
    pub repetitions: i32,
    pub next_review_date: i64,
    pub last_reviewed_at: Option<i64>,
    pub created_at: i64,
    pub updated_at: i64,
    pub created_by: Option<String>,
    pub updated_by: Option<String>,
}

impl AccountCard {
    pub open spec fn scheduling(&self) -> SchedulingState {
        SchedulingState {
            ease_factor: self.ease_factor,
            interval_days: self.interval_days,
            repetitions: self.repetitions,
        }
    }

    pub fn copy(&self) -> (r: AccountCard)
        ensures
            r == *self,
    {
        AccountCard {
            id: self.id,
            account_id: self.account_id,
            knowledge_code: self.knowledge_code.clone(),
            card_type_code: self.card_type_code.clone(),
            ease_factor: self.ease_factor,
            interval_days: self.interval_days,
            repetitions: self.repetitions,
            next_review_date: self.next_review_date,
            last_reviewed_at: self.last_reviewed_at,
            created_at: self.created_at,
            updated_at: self.updated_at,
            created_by: clone_opt_string(&self.created_by),
            updated_by: clone_opt_string(&self.updated_by),
        }
    }
}

/// A card together with the item and the card type it is for, and the text
/// of its two sides.
#[derive(Debug)]
pub struct AccountCardWithContent {
    pub card: AccountCard,
    pub knowledge: Knowledge,
    pub card_type: CardType,
    pub front: Option<String>,
    pub back: Option<String>,
}

/// One accepted review of a card; never changed once written.
#[derive(Debug, Clone, Copy)]
pub struct ReviewHistory {
    pub id: i64,
    pub account_card_id: i64,
    pub quality: i32,
    pub reviewed_at: i64,
    pub created_at: i64,
}

/// The fields of a new catalog item. In a change request `code` is only a
/// hint for the category of the code that approval assigns.
#[derive(Debug)]
pub struct CreateKnowledgeRequest {
    pub code: String,
    pub name: String,
    pub description: String,
    pub metadata: Option<serde_json::Value>,
}

impl CreateKnowledgeRequest {
    pub fn copy(&self) -> (r: CreateKnowledgeRequest)
        ensures
            r == *self,
    {
        CreateKnowledgeRequest {
            code: self.code.clone(),
            name: self.name.clone(),
            description: self.description.clone(),
            metadata: clone_opt_json(&self.metadata),
        }
    }
}

/// A partial update of a catalog item: an absent field is left as it is.
/// `metadata` is `Some(None)` to clear the metadata.
#[derive(Debug)]
pub struct UpdateKnowledgeRequest {
    pub name: Option<String>,
    pub description: Option<String>,
    pub metadata: Option<Option<serde_json::Value>>,
}

impl UpdateKnowledgeRequest {
    pub fn copy(&self) -> (r: UpdateKnowledgeRequest)
        ensures
            r == *self,
    {
        UpdateKnowledgeRequest {
            name: clone_opt_string(&self.name),
            description: clone_opt_string(&self.description),
            metadata: match &self.metadata {
                Some(m) => Some(clone_opt_json(m)),
                None => None,
            },
        }
    }
}

/// Where a list page stands in the whole list.
#[derive(Debug, Clone, Copy, PartialEq, Eq, Structural)]
pub struct PageInfo {
    pub number: i64,
    pub size: i64,
    pub total_elements: i64,
    pub total_pages: i64,
}

/// One page of a list.
#[derive(Debug)]
pub struct Page<T> {
    pub content: Vec<T>,
    pub page: PageInfo,
}

/// `ceil(total / size)`.
pub open spec fn page_count(total: int, size: int) -> int
    recommends
        size > 0,
{
    (total + size - 1) / size
}

proof fn lemma_page_count(total: int, size: int)
    requires
        size > 0,
        total >= 0,
    ensures
        page_count(total, size) == total / size + if total % size != 0 {
            1int
        } else {
            0int
        },
{
    let q = total / size;
    let r = total % size;
    vstd::arithmetic::div_mod::lemma_fundamental_div_mod(total, size);
    assert(size * q == q * size) by (nonlinear_arith);
    assert((q + 1) * size == q * size + size) by (nonlinear_arith);
    if r == 0 {
        vstd::arithmetic::div_mod::lemma_fundamental_div_mod_converse(total + size - 1, size, q, size - 1);
    } else {
        vstd::arithmetic::div_mod::lemma_fundamental_div_mod_converse(total + size - 1, size, q + 1, r - 1);
    }
}

impl<T> Page<T> {
    pub fn new(content: Vec<T>, page_number: i64, page_size: i64, total_elements: i64) -> (r: Self)
        requires
            page_size > 0,
            total_elements >= 0,
        ensures
            r.content@ == content@,
            r.page.number == page_number,
            r.page.size == page_size,
            r.page.total_elements == total_elements,
            r.page.total_pages == page_count(total_elements as int, page_size as int),
    {
        let whole = total_elements / page_size;
        assert(total_elements % page_size != 0 ==> whole < i64::MAX) by (nonlinear_arith)
            requires
                page_size > 0,
                total_elements >= 0,
                whole == total_elements / page_size,
        ;
        let total_pages = if total_elements % page_size != 0 {
            whole + 1
        } else {
            whole
        };
        proof {
            lemma_page_count(total_elements as int, page_size as int);
        }
        Page {
            content,
            page: PageInfo {
                number: page_number,
                size: page_size,
                total_elements,
                total_pages,
            },
        }
    }
}

/// Counts of an account's cards.
#[derive(Debug)]
pub struct Stats {
    pub total_cards: i64,
    pub new_cards: i64,
    pub learning_cards: i64,
    pub due_today: i64,
    /// The number of cards of each card type, one entry per type that has any.
    pub by_card_type: Vec<(String, i64)>,
}

} // verus!

verus! {

/// Where a change request stands; only `Pending` may change, and only once.
#[derive(Clone, Copy, Debug, PartialEq, Eq, Structural)]
pub enum RequestStatus {
    Pending,
    Approved,
    Rejected,
}

/// The kind of a change request.
#[derive(Clone, Copy, Debug, PartialEq, Eq, Structural)]
pub enum RequestType {
    Create,
    Update,
    Delete,
}

/// What a change request proposes, one shape per kind.
#[derive(Debug)]
pub enum ChangePayload {
    Create(CreateKnowledgeRequest),
    Update(UpdateKnowledgeRequest),
    Delete,
}

impl ChangePayload {
    pub open spec fn spec_request_type(&self) -> RequestType {
        match self {
            ChangePayload::Create(_) => RequestType::Create,
            ChangePayload::Update(_) => RequestType::Update,
            ChangePayload::Delete => RequestType::Delete,
        }
    }

    pub fn request_type(&self) -> (r: RequestType)
        ensures
            r == self.spec_request_type(),
    {
        match self {
            ChangePayload::Create(_) => RequestType::Create,
            ChangePayload::Update(_) => RequestType::Update,
            ChangePayload::Delete => RequestType::Delete,
        }
    }

    pub fn copy(&self) -> (r: ChangePayload)
        ensures
            r == *self,
    {
        match self {
            ChangePayload::Create(c) => ChangePayload::Create(c.copy()),
            ChangePayload::Update(u) => ChangePayload::Update(u.copy()),
            ChangePayload::Delete => ChangePayload::Delete,
        }
    }
}

/// A proposed change of the catalog, waiting for a manager or resolved.
#[derive(Debug)]
pub struct ChangeRequest {
    pub id: i64,
    pub target_code: Option<String>,
    pub payload: ChangePayload,
    pub status: RequestStatus,
    pub submitter_id: i64,
    pub reviewer_id: Option<i64>,
    pub created_at: i64,
    pub updated_at: i64,
}

impl ChangeRequest {
    pub fn copy(&self) -> (r: ChangeRequest)
        ensures
            r == *self,
    {
        ChangeRequest {
            id: self.id,
            target_code: clone_opt_string(&self.target_code),
            payload: self.payload.copy(),
            status: self.status,
            submitter_id: self.submitter_id,
            reviewer_id: self.reviewer_id,
            created_at: self.created_at,
            updated_at: self.updated_at,
        }
    }
}

} // verus!
