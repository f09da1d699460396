use flashcards::api::{account_id_of, default_page_size, PaginationParams};
use flashcards::auth::{require_client_role, require_manager_role, require_operator_role, Claims};
use flashcards::error::AppError;
use flashcards::models::{
    CardType, ChangePayload, CreateKnowledgeRequest, Knowledge, RequestStatus, RequestType, UpdateKnowledgeRequest,
};
use flashcards::services::accounts::login;
use flashcards::services::card_types::CardTypeService;
use flashcards::services::cards::AccountCardService;
use flashcards::services::change_requests::ChangeRequestService;
use flashcards::services::knowledge::KnowledgeService;
use flashcards::services::stats::StatsService;
use flashcards::sm2::EaseFactor;
use flashcards::store::Store;

const NOW: i64 = 1_700_000_000;
const DAY: i64 = 86400;

fn card_type(code: &str) -> CardType {
    card_type_at(code, NOW)
}

fn card_type_at(code: &str, at: i64) -> CardType {
    CardType {
        code: code.to_string(),
        name: format!("{} cards", code),
        description: String::new(),
        created_at: at,
        updated_at: at,
        created_by: None,
        updated_by: None,
    }
}

fn create_req(code: &str, name: &str) -> CreateKnowledgeRequest {
    CreateKnowledgeRequest {
        code: code.to_string(),
        name: name.to_string(),
        description: format!("about {}", name),
        metadata: Some(serde_json::Value::String("meta".to_string())),
    }
}

/// A store with three catalog items and two card types.
fn seeded() -> Store {
    let mut s = Store::new();
    for (i, code) in ["K1", "K2", "K3"].iter().enumerate() {
        KnowledgeService::create_knowledge(&mut s, create_req(code, code), "seed", NOW + i as i64).unwrap();
    }
    CardTypeService::create_card_type(&mut s, card_type_at("FRONT", NOW)).unwrap();
    CardTypeService::create_card_type(&mut s, card_type_at("BACK", NOW + 1)).unwrap();
    s
}

fn item<'a>(s: &'a Store, code: &str) -> Option<&'a Knowledge> {
    s.knowledge.iter().find(|k| k.code == code)
}

#[test]
fn initialize_creates_one_card_per_pair() {
    let mut s = seeded();
    let (created, skipped) = AccountCardService::initialize_cards(&mut s, 7, NOW).unwrap();
    assert_eq!((created, skipped), (6, 0));
    assert_eq!(s.cards.len(), 6);
    for c in &s.cards {
        assert_eq!(c.account_id, 7);
        assert_eq!(c.ease_factor, EaseFactor { hundredths: 250 });
        assert_eq!(c.interval_days, 1);
        assert_eq!(c.repetitions, 0);
        assert_eq!(c.next_review_date, NOW + DAY);
        assert_eq!(c.last_reviewed_at, None);
    }
    let (created, skipped) = AccountCardService::initialize_cards(&mut s, 7, NOW + 5).unwrap();
    assert_eq!((created, skipped), (0, 6));
    assert_eq!(s.cards.len(), 6);
}

#[test]
fn initialize_is_per_account() {
    let mut s = seeded();
    AccountCardService::initialize_cards(&mut s, 1, NOW).unwrap();
    let (created, skipped) = AccountCardService::initialize_cards(&mut s, 2, NOW).unwrap();
    assert_eq!((created, skipped), (6, 0));
    assert_eq!(s.cards.len(), 12);
}

#[test]
fn initialize_fills_only_missing_pairs() {
    let mut s = seeded();
    AccountCardService::initialize_cards(&mut s, 1, NOW).unwrap();
    CardTypeService::create_card_type(&mut s, card_type("CLOZE")).unwrap();
    let (created, skipped) = AccountCardService::initialize_cards(&mut s, 1, NOW).unwrap();
    assert_eq!((created, skipped), (3, 6));
    assert_eq!(s.cards.len(), 9);
}

#[test]
fn review_updates_card_and_history() {
    let mut s = seeded();
    AccountCardService::initialize_cards(&mut s, 1, NOW).unwrap();
    let id = s.cards[0].id;
    let later = NOW + 3 * DAY;
    let c = AccountCardService::review_card(&mut s, id, 1, 4, later).unwrap();
    assert_eq!(c.repetitions, 1);
    assert_eq!(c.interval_days, 1);
    assert_eq!(c.next_review_date, later + DAY);
    assert_eq!(c.last_reviewed_at, Some(later));
    assert_eq!(c.updated_at, later);
    assert_eq!(s.history.len(), 1);
    assert_eq!(s.history[0].account_card_id, id);
    assert_eq!(s.history[0].quality, 4);
    assert_eq!(s.history[0].reviewed_at, later);
    let c = AccountCardService::review_card(&mut s, id, 1, 5, later).unwrap();
    assert_eq!(c.repetitions, 2);
    assert_eq!(c.interval_days, 6);
    assert_eq!(c.next_review_date, later + 6 * DAY);
    assert_eq!(c.ease_factor, EaseFactor { hundredths: 260 });
    assert_eq!(s.history.len(), 2);
}

#[test]
fn review_scenario_third_repetition() {
    let mut s = seeded();
    AccountCardService::initialize_cards(&mut s, 1, NOW).unwrap();
    s.cards[0].interval_days = 6;
    s.cards[0].repetitions = 2;
    let id = s.cards[0].id;
    let c = AccountCardService::review_card(&mut s, id, 1, 4, NOW).unwrap();
    assert_eq!(c.repetitions, 3);
    assert_eq!(c.ease_factor, EaseFactor { hundredths: 250 });
    assert_eq!(c.interval_days, 15);
    assert_eq!(c.next_review_date, NOW + 15 * DAY);
}

#[test]
fn review_rejects_bad_quality_without_change() {
    let mut s = seeded();
    AccountCardService::initialize_cards(&mut s, 1, NOW).unwrap();
    let id = s.cards[0].id;
    for q in [-1, 6, 100] {
        assert_eq!(AccountCardService::review_card(&mut s, id, 1, q, NOW).unwrap_err(), AppError::InvalidInput);
    }
    assert_eq!(s.history.len(), 0);
    assert_eq!(s.cards[0].repetitions, 0);
}

#[test]
fn review_of_another_accounts_card_is_not_found() {
    let mut s = seeded();
    AccountCardService::initialize_cards(&mut s, 1, NOW).unwrap();
    let id = s.cards[0].id;
    assert_eq!(AccountCardService::review_card(&mut s, id, 2, 4, NOW).unwrap_err(), AppError::NotFound);
    assert_eq!(AccountCardService::review_card(&mut s, 9999, 1, 4, NOW).unwrap_err(), AppError::NotFound);
    assert_eq!(AccountCardService::get_card_by_id(&s, id, 2).unwrap_err(), AppError::NotFound);
    assert_eq!(AccountCardService::get_card_by_id(&s, id, 1).unwrap().id, id);
}

#[test]
fn listings_are_ordered_by_due_time_and_paged() {
    let mut s = seeded();
    AccountCardService::initialize_cards(&mut s, 1, NOW).unwrap();
    let first = s.cards[0].id;
    let second = s.cards[1].id;
    AccountCardService::review_card(&mut s, first, 1, 5, NOW).unwrap();
    AccountCardService::review_card(&mut s, first, 1, 5, NOW).unwrap();
    AccountCardService::review_card(&mut s, second, 1, 5, NOW + 1).unwrap();
    let page = AccountCardService::get_cards(&s, 1, 0, 10, None);
    assert_eq!(page.content.len(), 6);
    assert_eq!(page.content[4].id, second);
    assert_eq!(page.content[5].id, first);
    assert_eq!(page.page.total_elements, 6);
    assert_eq!(page.page.total_pages, 1);
    let page = AccountCardService::get_cards(&s, 1, 1, 4, None);
    assert_eq!(page.content.len(), 2);
    assert_eq!(page.page.total_pages, 2);
    let page = AccountCardService::get_cards(&s, 1, 0, 10, Some("BACK".to_string()));
    assert_eq!(page.content.len(), 3);
    assert!(page.content.iter().all(|c| c.card_type_code == "BACK"));
    let due = AccountCardService::get_due_cards(&s, 1, 0, 10, NOW + DAY);
    assert_eq!(due.content.len(), 4);
    let due = AccountCardService::get_due_cards(&s, 1, 0, 10, NOW);
    assert_eq!(due.content.len(), 0);
}

#[test]
fn stats_count_cards() {
    let mut s = seeded();
    AccountCardService::initialize_cards(&mut s, 1, NOW).unwrap();
    AccountCardService::initialize_cards(&mut s, 2, NOW).unwrap();
    let id = s.cards[0].id;
    AccountCardService::review_card(&mut s, id, 1, 5, NOW).unwrap();
    let st = StatsService::get_stats(&s, 1, NOW + DAY);
    assert_eq!(st.total_cards, 6);
    assert_eq!(st.new_cards, 5);
    assert_eq!(st.learning_cards, 1);
    assert_eq!(st.due_today, 6);
    let mut by_type = st.by_card_type.clone();
    by_type.sort();
    assert_eq!(by_type, vec![("BACK".to_string(), 3), ("FRONT".to_string(), 3)]);
}

#[test]
fn submit_checks_target_against_kind() {
    let mut s = seeded();
    let create = ChangePayload::Create(create_req("CS", "Graphs"));
    assert_eq!(
        ChangeRequestService::create_request(&mut s, Some("K1".to_string()), create, 3, NOW).unwrap_err(),
        AppError::InvalidInput
    );
    assert_eq!(
        ChangeRequestService::create_request(&mut s, None, ChangePayload::Delete, 3, NOW).unwrap_err(),
        AppError::InvalidInput
    );
    assert!(s.requests.is_empty());
    let r = ChangeRequestService::create_request(&mut s, Some("K1".to_string()), ChangePayload::Delete, 3, NOW)
        .unwrap();
    assert_eq!(r.status, RequestStatus::Pending);
    assert_eq!(r.submitter_id, 3);
    assert_eq!(r.reviewer_id, None);
}

#[test]
fn approve_create_assigns_sequence_codes() {
    let mut s = seeded();
    let a = ChangeRequestService::create_request(&mut s, None, ChangePayload::Create(create_req("CS", "Graphs")), 3, NOW)
        .unwrap();
    let b = ChangeRequestService::create_request(&mut s, None, ChangePayload::Create(create_req("", "Cells")), 3, NOW)
        .unwrap();
    let c = ChangeRequestService::create_request(&mut s, None, ChangePayload::Create(create_req("CS", "Trees")), 3, NOW)
        .unwrap();
    ChangeRequestService::approve_request(&mut s, a.id, 9, "boss", NOW + 1).unwrap();
    ChangeRequestService::approve_request(&mut s, b.id, 9, "boss", NOW + 1).unwrap();
    ChangeRequestService::approve_request(&mut s, c.id, 9, "boss", NOW + 1).unwrap();
    let graphs = item(&s, "CS-0000001").unwrap();
    assert_eq!(graphs.name, "Graphs");
    assert_eq!(graphs.created_by.as_deref(), Some("boss"));
    assert_eq!(graphs.updated_by.as_deref(), Some("boss"));
    assert_eq!(graphs.created_at, NOW + 1);
    assert_eq!(item(&s, "ST-0000001").unwrap().name, "Cells");
    assert_eq!(item(&s, "CS-0000002").unwrap().name, "Trees");
    assert_eq!(s.requests[0].status, RequestStatus::Approved);
    assert_eq!(s.requests[0].reviewer_id, Some(9));
}

#[test]
fn approve_twice_conflicts_and_applies_once() {
    let mut s = seeded();
    let r = ChangeRequestService::create_request(&mut s, None, ChangePayload::Create(create_req("CS", "Graphs")), 3, NOW)
        .unwrap();
    ChangeRequestService::approve_request(&mut s, r.id, 9, "boss", NOW).unwrap();
    let items = s.knowledge.len();
    assert_eq!(ChangeRequestService::approve_request(&mut s, r.id, 9, "boss", NOW).unwrap_err(), AppError::Conflict);
    assert_eq!(s.knowledge.len(), items);
    assert_eq!(s.knowledge.iter().filter(|k| k.name == "Graphs").count(), 1);
    assert_eq!(ChangeRequestService::reject_request(&mut s, r.id, 9, NOW).unwrap_err(), AppError::Conflict);
    assert_eq!(s.requests[0].status, RequestStatus::Approved);
}

#[test]
fn reject_leaves_catalog_and_is_final() {
    let mut s = seeded();
    let r = ChangeRequestService::create_request(&mut s, Some("K1".to_string()), ChangePayload::Delete, 3, NOW)
        .unwrap();
    ChangeRequestService::reject_request(&mut s, r.id, 9, NOW + 2).unwrap();
    assert!(item(&s, "K1").is_some());
    assert_eq!(s.requests[0].status, RequestStatus::Rejected);
    assert_eq!(s.requests[0].reviewer_id, Some(9));
    assert_eq!(s.requests[0].updated_at, NOW + 2);
    assert_eq!(ChangeRequestService::reject_request(&mut s, r.id, 8, NOW + 3).unwrap_err(), AppError::Conflict);
    assert_eq!(s.requests[0].status, RequestStatus::Rejected);
    assert_eq!(s.requests[0].reviewer_id, Some(9));
    assert_eq!(ChangeRequestService::approve_request(&mut s, r.id, 9, "boss", NOW).unwrap_err(), AppError::Conflict);
    assert!(item(&s, "K1").is_some());
    assert_eq!(ChangeRequestService::reject_request(&mut s, 4242, 9, NOW).unwrap_err(), AppError::NotFound);
    assert_eq!(ChangeRequestService::approve_request(&mut s, 4242, 9, "boss", NOW).unwrap_err(), AppError::NotFound);
}

#[test]
fn delete_of_item_in_use_conflicts() {
    let mut s = seeded();
    AccountCardService::initialize_cards(&mut s, 1, NOW).unwrap();
    let r = ChangeRequestService::create_request(&mut s, Some("K2".to_string()), ChangePayload::Delete, 3, NOW)
        .unwrap();
    assert_eq!(ChangeRequestService::approve_request(&mut s, r.id, 9, "boss", NOW).unwrap_err(), AppError::Conflict);
    assert!(item(&s, "K2").is_some());
    assert_eq!(s.cards.len(), 6);
    assert_eq!(s.requests[0].status, RequestStatus::Pending);
}

#[test]
fn delete_of_unused_item_removes_it() {
    let mut s = seeded();
    let r = ChangeRequestService::create_request(&mut s, Some("K2".to_string()), ChangePayload::Delete, 3, NOW)
        .unwrap();
    ChangeRequestService::approve_request(&mut s, r.id, 9, "boss", NOW).unwrap();
    assert!(item(&s, "K2").is_none());
    assert_eq!(s.knowledge.len(), 2);
    let gone = ChangeRequestService::create_request(&mut s, Some("K2".to_string()), ChangePayload::Delete, 3, NOW)
        .unwrap();
    assert_eq!(ChangeRequestService::approve_request(&mut s, gone.id, 9, "boss", NOW).unwrap_err(), AppError::NotFound);
}

#[test]
fn update_changes_only_given_fields() {
    let mut s = seeded();
    let update = UpdateKnowledgeRequest { name: Some("X".to_string()), description: None, metadata: None };
    let r = ChangeRequestService::create_request(&mut s, Some("K1".to_string()), ChangePayload::Update(update), 3, NOW)
        .unwrap();
    ChangeRequestService::approve_request(&mut s, r.id, 9, "boss", NOW + 7).unwrap();
    let k = item(&s, "K1").unwrap();
    assert_eq!(k.name, "X");
    assert_eq!(k.description, "about K1");
    assert_eq!(k.metadata, Some(serde_json::Value::String("meta".to_string())));
    assert_eq!(k.updated_by.as_deref(), Some("boss"));
    assert_eq!(k.updated_at, NOW + 7);
    assert_eq!(k.created_by.as_deref(), Some("seed"));
}

#[test]
fn update_can_clear_metadata() {
    let mut s = seeded();
    let update = UpdateKnowledgeRequest { name: None, description: None, metadata: Some(None) };
    let k = KnowledgeService::update_knowledge(&mut s, "K3", update, "op", NOW).unwrap();
    assert_eq!(k.metadata, None);
    assert_eq!(k.name, "K3");
    let update = UpdateKnowledgeRequest { name: None, description: None, metadata: None };
    assert_eq!(KnowledgeService::update_knowledge(&mut s, "nope", update, "op", NOW).unwrap_err(), AppError::NotFound);
}

#[test]
fn update_of_missing_item_is_not_found() {
    let mut s = seeded();
    let update = UpdateKnowledgeRequest { name: Some("X".to_string()), description: None, metadata: None };
    let r = ChangeRequestService::create_request(&mut s, Some("none".to_string()), ChangePayload::Update(update), 3, NOW)
        .unwrap();
    assert_eq!(ChangeRequestService::approve_request(&mut s, r.id, 9, "boss", NOW).unwrap_err(), AppError::NotFound);
    assert_eq!(s.requests[0].status, RequestStatus::Pending);
}

#[test]
fn direct_catalog_operations() {
    let mut s = seeded();
    assert_eq!(KnowledgeService::create_knowledge(&mut s, create_req("K1", "dup"), "op", NOW).unwrap_err(), AppError::Conflict);
    assert_eq!(KnowledgeService::get_knowledge_by_code(&s, "K2").unwrap().name, "K2");
    assert_eq!(KnowledgeService::get_knowledge_by_code(&s, "K9").unwrap_err(), AppError::NotFound);
    KnowledgeService::delete_knowledge(&mut s, "K3").unwrap();
    assert_eq!(KnowledgeService::delete_knowledge(&mut s, "K3").unwrap_err(), AppError::NotFound);
    AccountCardService::initialize_cards(&mut s, 1, NOW).unwrap();
    assert_eq!(KnowledgeService::delete_knowledge(&mut s, "K1").unwrap_err(), AppError::Conflict);
    let page = KnowledgeService::get_knowledge_list(&s, 0, 1);
    assert_eq!(page.content[0].code, "K2");
    assert_eq!(page.page.total_pages, 2);
}

#[test]
fn requests_list_newest_first_with_filter() {
    let mut s = seeded();
    for code in ["K1", "K2", "K3"] {
        ChangeRequestService::create_request(&mut s, Some(code.to_string()), ChangePayload::Delete, 3, NOW).unwrap();
    }
    let middle = s.requests[1].id;
    ChangeRequestService::reject_request(&mut s, middle, 9, NOW).unwrap();
    let all = ChangeRequestService::list_requests(&s, None, 0, 10);
    let targets: Vec<_> = all.content.iter().map(|r| r.target_code.clone().unwrap()).collect();
    assert_eq!(targets, vec!["K3", "K2", "K1"]);
    let pending = ChangeRequestService::list_requests(&s, Some(RequestStatus::Pending), 0, 1);
    assert_eq!(pending.content.len(), 1);
    assert_eq!(pending.content[0].target_code.as_deref(), Some("K3"));
    assert_eq!(pending.page.total_elements, 2);
    assert_eq!(pending.page.total_pages, 2);
}

#[test]
fn card_types_list_and_lookup() {
    let s = seeded();
    assert_eq!(CardTypeService::get_card_type_by_code(&s, "BACK").unwrap().code, "BACK");
    assert_eq!(CardTypeService::get_card_type_by_code(&s, "SIDE").unwrap_err(), AppError::NotFound);
    let page = CardTypeService::get_card_types(&s, 0, 20);
    assert_eq!(page.content.len(), 2);
    assert_eq!(page.content[0].code, "BACK");
    let mut s = s;
    assert_eq!(CardTypeService::create_card_type(&mut s, card_type("BACK")).unwrap_err(), AppError::Conflict);
}

#[test]
fn login_assigns_roles_and_reuses_accounts() {
    let mut s = Store::new();
    let (acc, claims) = login(&mut s, "operator", 1000).unwrap();
    assert_eq!(acc.id, 1);
    assert_eq!(claims.sub, "1");
    assert_eq!(claims.role, "operator");
    assert_eq!(claims.exp, 1000 + 86400);
    let (admin, claims) = login(&mut s, "admin", 1000).unwrap();
    assert_eq!(admin.id, 2);
    assert_eq!(claims.role, "operator_manager");
    let (again, claims) = login(&mut s, "operator", 2000).unwrap();
    assert_eq!(again.id, 1);
    assert_eq!(claims.exp, 2000 + 86400);
    let (_, claims) = login(&mut s, "alice", 1000).unwrap();
    assert_eq!(claims.role, "client");
    assert_eq!(claims.sub, "3");
    assert_eq!(s.accounts.len(), 3);
}

#[test]
fn login_rejects_blank_names() {
    let mut s = Store::new();
    assert_eq!(login(&mut s, "", 1000).unwrap_err(), AppError::InvalidInput);
    assert_eq!(login(&mut s, "  \t ", 1000).unwrap_err(), AppError::InvalidInput);
    assert!(s.accounts.is_empty());
}

#[test]
fn roles_nest() {
    let claims = |role: &str| Claims { sub: "1".to_string(), role: role.to_string(), exp: 0 };
    assert!(require_client_role(&claims("client")).is_ok());
    assert!(require_client_role(&claims("operator")).is_ok());
    assert!(require_client_role(&claims("operator_manager")).is_ok());
    assert_eq!(require_client_role(&claims("guest")), Err(AppError::Forbidden));
    assert_eq!(require_operator_role(&claims("client")), Err(AppError::Forbidden));
    assert!(require_operator_role(&claims("operator")).is_ok());
    assert!(require_operator_role(&claims("operator_manager")).is_ok());
    assert_eq!(require_manager_role(&claims("operator")), Err(AppError::Forbidden));
    assert!(require_manager_role(&claims("operator_manager")).is_ok());
    assert!(claims("client").is_client());
    assert!(!claims("Client").is_client());
}

#[test]
fn page_count_rounds_up() {
    let p = flashcards::models::Page::new(vec![1, 2], 0, 20, 41);
    assert_eq!(p.page.total_pages, 3);
    let p = flashcards::models::Page::<u8>::new(vec![], 0, 20, 40);
    assert_eq!(p.page.total_pages, 2);
    let p = flashcards::models::Page::<u8>::new(vec![], 0, 20, 0);
    assert_eq!(p.page.total_pages, 0);
}

fn template(code: &str, bytes: &[u8]) -> flashcards::models::Template {
    flashcards::models::Template {
        code: code.to_string(),
        name: code.to_string(),
        description: String::new(),
        format: "html".to_string(),
        content: bytes.to_vec(),
        created_at: NOW,
        updated_at: NOW,
        created_by: None,
        updated_by: None,
    }
}

fn template_link(id: i64, card_type: &str, template: &str, role: &str) -> flashcards::models::CardTypeTemplateRel {
    flashcards::models::CardTypeTemplateRel {
        id,
        card_type_code: card_type.to_string(),
        template_code: template.to_string(),
        role: role.to_string(),
        created_at: NOW,
        updated_at: NOW,
        created_by: None,
        updated_by: None,
    }
}

#[test]
fn templates_of_card_type_in_link_order() {
    let mut s = seeded();
    s.templates.push(template("T1", b"<p>front</p>"));
    s.templates.push(template("T2", b"<p>back</p>"));
    s.template_rels.push(template_link(1, "FRONT", "T2", "back"));
    s.template_rels.push(template_link(2, "BACK", "T1", "front"));
    s.template_rels.push(template_link(3, "FRONT", "T1", "front"));
    s.template_rels.push(template_link(4, "FRONT", "MISSING", "extra"));
    let found = CardTypeService::get_templates_for_card_type(&s, "FRONT");
    assert_eq!(found.len(), 2);
    assert_eq!(found[0].0.code, "T2");
    assert_eq!(found[0].0.content, b"<p>back</p>".to_vec());
    assert_eq!(found[0].1, "back");
    assert_eq!(found[1].0.code, "T1");
    assert_eq!(found[1].1, "front");
    assert!(CardTypeService::get_templates_for_card_type(&s, "NONE").is_empty());
}

#[test]
fn related_items_follow_links() {
    let mut s = seeded();
    let link = |id: i64, from: &str, to: &str| flashcards::models::KnowledgeRel {
        id,
        source_knowledge_code: from.to_string(),
        target_knowledge_code: to.to_string(),
        created_at: NOW,
        updated_at: NOW,
        created_by: None,
        updated_by: None,
    };
    s.knowledge_rels.push(link(1, "K1", "K3"));
    s.knowledge_rels.push(link(2, "K2", "K1"));
    s.knowledge_rels.push(link(3, "K1", "K2"));
    s.knowledge_rels.push(link(4, "K1", "GONE"));
    let related: Vec<String> = KnowledgeService::get_related_knowledge(&s, "K1").into_iter().map(|k| k.code).collect();
    assert_eq!(related, vec!["K3", "K2"]);
}

#[test]
fn page_bounds_are_checked_and_capped() {
    assert_eq!(default_page_size(), 20);
    assert_eq!(PaginationParams { page: 0, size: 20 }.bounds(), Ok((0, 20)));
    assert_eq!(PaginationParams { page: 3, size: 500 }.bounds(), Ok((3, 100)));
    assert_eq!(PaginationParams { page: 0, size: 100 }.bounds(), Ok((0, 100)));
    assert_eq!(PaginationParams { page: -1, size: 20 }.bounds(), Err(AppError::InvalidInput));
    assert_eq!(PaginationParams { page: 0, size: 0 }.bounds(), Err(AppError::InvalidInput));
}

#[test]
fn account_id_is_read_from_subject() {
    let claims = |sub: &str| Claims { sub: sub.to_string(), role: "client".to_string(), exp: 0 };
    assert_eq!(account_id_of(&claims("42")), Ok(42));
    assert_eq!(account_id_of(&claims("0")), Ok(0));
    assert_eq!(account_id_of(&claims("9223372036854775807")), Ok(i64::MAX));
    assert_eq!(account_id_of(&claims("9223372036854775808")), Err(AppError::InvalidInput));
    assert_eq!(account_id_of(&claims("")), Err(AppError::InvalidInput));
    assert_eq!(account_id_of(&claims("12a")), Err(AppError::InvalidInput));
    assert_eq!(account_id_of(&claims("-3")), Err(AppError::InvalidInput));
}

#[test]
fn status_and_kind_names() {
    assert_eq!(RequestStatus::from_name("PENDING"), Ok(RequestStatus::Pending));
    assert_eq!(RequestStatus::from_name("APPROVED"), Ok(RequestStatus::Approved));
    assert_eq!(RequestStatus::from_name("REJECTED"), Ok(RequestStatus::Rejected));
    assert_eq!(RequestStatus::from_name("pending"), Err(AppError::InvalidInput));
    assert_eq!(RequestStatus::Approved.name(), "APPROVED");
    assert_eq!(RequestType::Update.name(), "UPDATE");
    assert_eq!(ChangePayload::Delete.request_type(), RequestType::Delete);
}

#[test]
fn initialize_fails_when_identities_run_out() {
    let mut s = seeded();
    s.next_card_id = i64::MAX - 5;
    assert_eq!(AccountCardService::initialize_cards(&mut s, 1, NOW).unwrap_err(), AppError::Internal);
    assert!(s.cards.is_empty());
    s.next_card_id = i64::MAX - 6;
    assert_eq!(AccountCardService::initialize_cards(&mut s, 1, NOW), Ok((6, 0)));
}

#[test]
fn approve_create_skips_taken_codes() {
    let mut s = seeded();
    KnowledgeService::create_knowledge(&mut s, create_req("ST-0000001", "taken"), "op", NOW).unwrap();
    KnowledgeService::create_knowledge(&mut s, create_req("ST-0000002", "taken too"), "op", NOW).unwrap();
    let r = ChangeRequestService::create_request(&mut s, None, ChangePayload::Create(create_req("XX", "Cells")), 3, NOW)
        .unwrap();
    ChangeRequestService::approve_request(&mut s, r.id, 9, "boss", NOW).unwrap();
    assert_eq!(item(&s, "ST-0000003").unwrap().name, "Cells");
    assert_eq!(item(&s, "ST-0000001").unwrap().name, "taken");
    assert_eq!(s.last_code_st, 3);
    assert_eq!(s.requests[0].status, RequestStatus::Approved);
    let r = ChangeRequestService::create_request(&mut s, None, ChangePayload::Create(create_req("", "Atoms")), 3, NOW)
        .unwrap();
    ChangeRequestService::approve_request(&mut s, r.id, 9, "boss", NOW).unwrap();
    assert_eq!(item(&s, "ST-0000004").unwrap().name, "Atoms");
}

#[test]
fn requests_list_by_creation_time_not_insertion() {
    let mut s = seeded();
    let times = [NOW + 10, NOW + 30, NOW + 20];
    for (code, t) in ["K1", "K2", "K3"].iter().zip(times) {
        ChangeRequestService::create_request(&mut s, Some(code.to_string()), ChangePayload::Delete, 3, t).unwrap();
    }
    let all = ChangeRequestService::list_requests(&s, None, 0, 10);
    let targets: Vec<_> = all.content.iter().map(|r| r.target_code.clone().unwrap()).collect();
    assert_eq!(targets, vec!["K2", "K3", "K1"]);
    let second = ChangeRequestService::list_requests(&s, None, 1, 2);
    assert_eq!(second.content.len(), 1);
    assert_eq!(second.content[0].target_code.as_deref(), Some("K1"));
}

#[test]
fn catalog_lists_by_creation_time() {
    let mut s = Store::new();
    KnowledgeService::create_knowledge(&mut s, create_req("A", "a"), "op", NOW + 5).unwrap();
    KnowledgeService::create_knowledge(&mut s, create_req("B", "b"), "op", NOW).unwrap();
    KnowledgeService::create_knowledge(&mut s, create_req("C", "c"), "op", NOW + 9).unwrap();
    let codes: Vec<String> = KnowledgeService::get_knowledge_list(&s, 0, 10).content.into_iter().map(|k| k.code).collect();
    assert_eq!(codes, vec!["C", "A", "B"]);
}

#[test]
fn review_fails_when_time_is_out_of_range() {
    let mut s = seeded();
    AccountCardService::initialize_cards(&mut s, 1, NOW).unwrap();
    let id = s.cards[0].id;
    assert_eq!(AccountCardService::review_card(&mut s, id, 1, 4, i64::MAX).unwrap_err(), AppError::Internal);
    assert_eq!(AccountCardService::review_card(&mut s, id, 1, 9, i64::MAX).unwrap_err(), AppError::InvalidInput);
    assert!(s.history.is_empty());
}

#[test]
fn second_initialization_succeeds_near_the_id_limit() {
    let mut s = seeded();
    s.next_card_id = i64::MAX - 6;
    assert_eq!(AccountCardService::initialize_cards(&mut s, 1, NOW), Ok((6, 0)));
    assert_eq!(AccountCardService::initialize_cards(&mut s, 1, NOW), Ok((0, 6)));
}
