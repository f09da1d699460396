use vstd::prelude::*;
use crate::error::AppError;
use crate::models::{clone_opt_json, CreateKnowledgeRequest, Knowledge, KnowledgeRel, Page, UpdateKnowledgeRequest};
use crate::paging::{page_bounds, window_end, window_start};
use crate::store::Store;

verus! {

/// The catalog of knowledge items.
pub struct KnowledgeService;

/// Everything but the catalog and the code sequences is the same.
pub open spec fn same_but_catalog(a: Store, b: Store) -> bool {
    &&& b.card_types == a.card_types
    &&& b.cards == a.cards
    &&& b.history == a.history
    &&& b.next_card_id == a.next_card_id
    &&& b.next_history_id == a.next_history_id
    &&& b.accounts == a.accounts
    &&& b.next_account_id == a.next_account_id
    &&& b.knowledge_rels == a.knowledge_rels
    &&& b.templates == a.templates
    &&& b.template_rels == a.template_rels
}

/// The links from the item to items that the catalog holds.
pub open spec fn related_from(s: Store, code: Seq<char>) -> spec_fn(KnowledgeRel) -> bool {
    |rel: KnowledgeRel| rel.source_knowledge_code@ == code && s.has_knowledge(rel.target_knowledge_code@)
}

/// Only the list of catalog items differs.
pub open spec fn same_but_items(a: Store, b: Store) -> bool {
    &&& same_but_catalog(a, b)
    &&& b.requests == a.requests
    &&& b.next_request_id == a.next_request_id
    &&& b.last_code_cs == a.last_code_cs
    &&& b.last_code_st == a.last_code_st
}

/// `k` is a new item with code `code` and the fields of `c`, written by `by`
/// at time `now`.
pub open spec fn new_item(k: Knowledge, code: Seq<char>, c: CreateKnowledgeRequest, by: Seq<char>, now: i64) -> bool {
    &&& k.code@ == code
    &&& k.name == c.name
    &&& k.description == c.description
    &&& k.metadata == c.metadata
    &&& k.created_at == now
    &&& k.updated_at == now
    &&& k.created_by matches Some(u) && u@ == by
    &&& k.updated_by matches Some(u) && u@ == by
}

/// `k` is `old` with each field that `u` holds replaced, updated by `by` at
/// time `now`.
pub open spec fn merged_item(old: Knowledge, k: Knowledge, u: UpdateKnowledgeRequest, by: Seq<char>, now: i64) -> bool {
    &&& k.code == old.code
    &&& k.name == (match u.name {
        Some(n) => n,
        None => old.name,
    })
    &&& k.description == (match u.description {
        Some(d) => d,
        None => old.description,
    })
    &&& k.metadata == (match u.metadata {
        Some(m) => m,
        None => old.metadata,
    })
    &&& k.created_at == old.created_at
    &&& k.created_by == old.created_by
    &&& k.updated_at == now
    &&& k.updated_by matches Some(b) && b@ == by
}

pub proof fn lemma_knowledge_remove_wf(a: Store, b: Store, i: int)
    requires
        a.wf(),
        0 <= i < a.knowledge@.len(),
        b.knowledge@ == a.knowledge@.remove(i),
        same_but_catalog(a, b),
        b.requests == a.requests,
        b.next_request_id == a.next_request_id,
        b.last_code_cs == a.last_code_cs,
        b.last_code_st == a.last_code_st,
        !a.knowledge_in_use(a.knowledge@[i].code@),
    ensures
        b.wf(),
{
    assert forall|x: int| 0 <= x < b.cards@.len() implies #[trigger] b.has_knowledge(
        b.cards@[x].knowledge_code@,
    ) by {
        assert(a.has_knowledge(a.cards@[x].knowledge_code@));
        let w = choose|w: int|
            0 <= w < a.knowledge@.len() && #[trigger] a.knowledge@[w].code@ == a.cards@[x].knowledge_code@;
        assert(w != i);
        let w2 = if w < i { w } else { w - 1 };
        assert(b.knowledge@[w2] == a.knowledge@[w]);
    }
    assert forall|x: int, y: int|
        0 <= x < b.knowledge@.len() && 0 <= y < b.knowledge@.len() && x != y implies #[trigger] b.knowledge@[x].code@
            != #[trigger] b.knowledge@[y].code@ by {
        let x0 = if x < i { x } else { x + 1 };
        let y0 = if y < i { y } else { y + 1 };
        assert(b.knowledge@[x] == a.knowledge@[x0]);
        assert(b.knowledge@[y] == a.knowledge@[y0]);
    }
}

/// Adds an item under a code that the catalog does not hold.
pub(crate) fn insert_item(store: &mut Store, code: String, req: CreateKnowledgeRequest, by: &str, now: i64) -> (r: Knowledge)
    requires
        old(store).wf(),
        !old(store).has_knowledge(code@),
    ensures
        final(store).wf(),
        same_but_catalog(*old(store), *final(store)),
        final(store).requests == old(store).requests,
        final(store).next_request_id == old(store).next_request_id,
        final(store).last_code_cs == old(store).last_code_cs,
        final(store).last_code_st == old(store).last_code_st,
        final(store).knowledge@ == old(store).knowledge@.push(r),
        new_item(r, code@, req, by@, now),
{
    let item = Knowledge {
        code,
        name: req.name,
        description: req.description,
        metadata: req.metadata,
        created_at: now,
        updated_at: now,
        created_by: Some(by.to_string()),
        updated_by: Some(by.to_string()),
    };
    let result = item.copy();
    let ghost a = *store;
    let ghost code_view = item.code@;
    store.knowledge.push(item);
    assert(store.knowledge@[a.knowledge@.len() as int].code@ == code_view);
    proof {
        let b = *store;
        let n = a.knowledge@.len() as int;
        assert forall|x: int, y: int|
            0 <= x < b.knowledge@.len() && 0 <= y < b.knowledge@.len() && x != y implies #[trigger] b.knowledge@[x].code@
                != #[trigger] b.knowledge@[y].code@ by {
            if x == n {
                assert(b.knowledge@[y] == a.knowledge@[y]);
                assert(a.knowledge@[y].code@ != code@);
            } else if y == n {
                assert(b.knowledge@[x] == a.knowledge@[x]);
                assert(a.knowledge@[x].code@ != code@);
            } else {
                assert(b.knowledge@[x] == a.knowledge@[x]);
                assert(b.knowledge@[y] == a.knowledge@[y]);
            }
        }
        assert forall|x: int| 0 <= x < b.cards@.len() implies #[trigger] b.has_knowledge(
            b.cards@[x].knowledge_code@,
        ) by {
            assert(a.has_knowledge(a.cards@[x].knowledge_code@));
            let w = choose|w: int|
                0 <= w < a.knowledge@.len() && #[trigger] a.knowledge@[w].code@ == a.cards@[x].knowledge_code@;
            assert(b.knowledge@[w] == a.knowledge@[w]);
        }
    }
    result
}

/// Replaces the fields of the item at `i` that `req` holds.
pub(crate) fn merge_item(store: &mut Store, i: usize, req: &UpdateKnowledgeRequest, by: &str, now: i64) -> (r: Knowledge)
    requires
        old(store).wf(),
        i < old(store).knowledge@.len(),
    ensures
        final(store).wf(),
        same_but_catalog(*old(store), *final(store)),
        final(store).requests == old(store).requests,
        final(store).next_request_id == old(store).next_request_id,
        final(store).last_code_cs == old(store).last_code_cs,
        final(store).last_code_st == old(store).last_code_st,
        final(store).knowledge@ == old(store).knowledge@.update(i as int, r),
        merged_item(old(store).knowledge@[i as int], r, *req, by@, now),
{
    let mut item = store.knowledge[i].copy();
    match &req.name {
        Some(n) => {
            item.name = n.clone();
        },
        None => {},
    }
    match &req.description {
        Some(d) => {
            item.description = d.clone();
        },
        None => {},
    }
    match &req.metadata {
        Some(m) => {
            item.metadata = clone_opt_json(m);
        },
        None => {},
    }
    item.updated_at = now;
    item.updated_by = Some(by.to_string());
    let result = item.copy();
    let ghost a = *store;
    store.knowledge.set(i, item);
    proof {
        let b = *store;
        assert forall|x: int, y: int|
            0 <= x < b.knowledge@.len() && 0 <= y < b.knowledge@.len() && x != y implies #[trigger] b.knowledge@[x].code@
                != #[trigger] b.knowledge@[y].code@ by {
            assert(b.knowledge@[x].code == a.knowledge@[x].code);
            assert(b.knowledge@[y].code == a.knowledge@[y].code);
        }
        assert forall|x: int| 0 <= x < b.cards@.len() implies #[trigger] b.has_knowledge(
            b.cards@[x].knowledge_code@,
        ) by {
            assert(a.has_knowledge(a.cards@[x].knowledge_code@));
            let w = choose|w: int|
                0 <= w < a.knowledge@.len() && #[trigger] a.knowledge@[w].code@ == a.cards@[x].knowledge_code@;
            assert(b.knowledge@[w].code == a.knowledge@[w].code);
        }
    }
    result
}

/// `a` comes no later than `b` when it was created no earlier.
pub open spec fn newest_item_le(a: Knowledge, b: Knowledge) -> bool {
    a.created_at >= b.created_at
}

pub open spec fn newest_item_sorted(s: Seq<Knowledge>) -> bool {
    forall|i: int, j: int| 0 <= i < j < s.len() ==> newest_item_le(#[trigger] s[i], #[trigger] s[j])
}

/// `content` is page `page` of `size` of `ord`, which holds the items of
/// `sel` in that order.
pub open spec fn newest_item_page(content: Seq<Knowledge>, ord: Seq<Knowledge>, sel: Seq<Knowledge>, page: int, size: int) -> bool {
    &&& ord.to_multiset() == sel.to_multiset()
    &&& newest_item_sorted(ord)
    &&& content == ord.subrange(window_start(sel.len() as int, page, size), window_end(sel.len() as int, page, size))
}

/// `content` is page `page` of `size` of the items of `sel`, newest first.
pub open spec fn newest_item_listing(content: Seq<Knowledge>, sel: Seq<Knowledge>, page: int, size: int) -> bool {
    exists|ord: Seq<Knowledge>| #[trigger] newest_item_page(content, ord, sel, page, size)
}

/// The items of `sel`, newest first, page `page` of `size`.
fn newest_item_ordered_page(sel: &Vec<Knowledge>, page: i64, size: i64) -> (r: Page<Knowledge>)
    requires
        page >= 0,
        size > 0,
        sel@.len() <= i64::MAX,
    ensures
        newest_item_listing(r.content@, sel@, page as int, size as int),
        r.page.number == page,
        r.page.size == size,
        r.page.total_elements == sel@.len(),
        r.page.total_pages == crate::models::page_count(sel@.len() as int, size as int),
{
    let n = sel.len();
    let mut sorted: Vec<Knowledge> = Vec::new();
    let mut i: usize = 0;
    assert(sel@.take(0) =~= Seq::<Knowledge>::empty());
    while i < n
        invariant
            i <= n,
            n == sel@.len(),
            sorted@.to_multiset() == sel@.take(i as int).to_multiset(),
            newest_item_sorted(sorted@),
            sorted@.len() == i,
        decreases n - i,
    {
        let c = sel[i].copy();
        let mut j: usize = sorted.len();
        while j > 0 && sorted[j - 1].created_at < c.created_at
            invariant
                j <= sorted@.len(),
                forall|k: int| j <= k < sorted@.len() ==> !newest_item_le(#[trigger] sorted@[k], c),
            decreases j,
        {
            j = j - 1;
        }
        let ghost old_sorted = sorted@;
        sorted.insert(j, c);
        proof {
            assert(sel@.take(i as int + 1) =~= sel@.take(i as int).push(sel@[i as int]));
            assert(sorted@ == old_sorted.insert(j as int, c));
            vstd::seq_lib::to_multiset_insert(old_sorted, j as int, c);
            vstd::seq_lib::to_multiset_build(sel@.take(i as int), sel@[i as int]);
            assert forall|x: int, y: int| 0 <= x < y < sorted@.len() implies newest_item_le(
                #[trigger] sorted@[x],
                #[trigger] sorted@[y],
            ) by {
                let jj = j as int;
                if y < jj {
                    assert(sorted@[x] == old_sorted[x] && sorted@[y] == old_sorted[y]);
                } else if y == jj {
                    assert(sorted@[x] == old_sorted[x]);
                    if x < jj - 1 {
                        assert(newest_item_le(old_sorted[x], old_sorted[jj - 1]));
                    }
                } else if x < jj {
                    assert(sorted@[x] == old_sorted[x] && sorted@[y] == old_sorted[y - 1]);
                    assert(newest_item_le(old_sorted[x], old_sorted[y - 1]));
                } else if x == jj {
                    assert(sorted@[y] == old_sorted[y - 1]);
                    assert(!newest_item_le(old_sorted[y - 1], c));
                } else {
                    assert(sorted@[x] == old_sorted[x - 1] && sorted@[y] == old_sorted[y - 1]);
                }
            }
        }
        i = i + 1;
    }
    assert(sel@.take(n as int) =~= sel@);
    let (lo, hi) = page_bounds(n, page, size);
    let mut content: Vec<Knowledge> = Vec::new();
    let mut j: usize = lo;
    while j < hi
        invariant
            lo <= j <= hi <= n,
            n == sorted@.len(),
            content@ == sorted@.subrange(lo as int, j as int),
        decreases hi - j,
    {
        content.push(sorted[j].copy());
        j = j + 1;
        assert(content@ =~= sorted@.subrange(lo as int, j as int));
    }
    assert(newest_item_page(content@, sorted@, sel@, page as int, size as int));
    Page::new(content, page, size, n as i64)
}

impl KnowledgeService {
    /// The catalog item with this code; `NotFound` when there is none.
    pub fn get_knowledge_by_code(store: &Store, code: &str) -> (r: Result<Knowledge, AppError>)
        requires
            store.wf(),
        ensures
            !store.has_knowledge(code@) ==> r == Err::<Knowledge, AppError>(AppError::NotFound),
            store.has_knowledge(code@) ==> r == Ok::<Knowledge, AppError>(
                store.knowledge@[store.knowledge_pos(code@)],
            ),
    {
        match store.find_knowledge(code) {
            Some(i) => Ok(store.knowledge[i].copy()),
            None => Err(AppError::NotFound),
        }
    }

    /// Page `page` of the catalog, the most recently created item first.
    pub fn get_knowledge_list(store: &Store, page: i64, size: i64) -> (r: Page<Knowledge>)
        requires
            page >= 0,
            size > 0,
            store.knowledge@.len() <= i64::MAX,
        ensures
            newest_item_listing(r.content@, store.knowledge@, page as int, size as int),
            r.page.number == page,
            r.page.size == size,
            r.page.total_elements == store.knowledge@.len(),
            r.page.total_pages == crate::models::page_count(store.knowledge@.len() as int, size as int),
    {
        newest_item_ordered_page(&store.knowledge, page, size)
    }
    /// Adds an item directly, bypassing the approval workflow; `Conflict`
    /// when the code is taken.
    pub fn create_knowledge(store: &mut Store, req: CreateKnowledgeRequest, operator_id: &str, now: i64) -> (r: Result<Knowledge, AppError>)
        requires
            old(store).wf(),
        ensures
            final(store).wf(),
            old(store).has_knowledge(req.code@) ==> r == Err::<Knowledge, AppError>(AppError::Conflict)
                && *final(store) == *old(store),
            !old(store).has_knowledge(req.code@) ==> r is Ok,
            r matches Ok(k) ==> same_but_items(*old(store), *final(store)) && final(store).knowledge@
                == old(store).knowledge@.push(k) && new_item(k, req.code@, req, operator_id@, now),
    {
        match store.find_knowledge(req.code.as_str()) {
            Some(_) => Err(AppError::Conflict),
            None => {
                let code = req.code.clone();
                Ok(insert_item(store, code, req, operator_id, now))
            },
        }
    }

    /// Replaces the fields of the item that `req` holds, directly; `NotFound`
    /// when there is no item with the code.
    pub fn update_knowledge(
        store: &mut Store,
        code: &str,
        req: UpdateKnowledgeRequest,
        operator_id: &str,
        now: i64,
    ) -> (r: Result<Knowledge, AppError>)
        requires
            old(store).wf(),
        ensures
            final(store).wf(),
            !old(store).has_knowledge(code@) ==> r == Err::<Knowledge, AppError>(AppError::NotFound)
                && *final(store) == *old(store),
            old(store).has_knowledge(code@) ==> r is Ok,
            r matches Ok(k) ==> same_but_items(*old(store), *final(store)) && final(store).knowledge@
                == old(store).knowledge@.update(old(store).knowledge_pos(code@), k) && merged_item(
                old(store).knowledge@[old(store).knowledge_pos(code@)],
                k,
                req,
                operator_id@,
                now,
            ),
    {
        match store.find_knowledge(code) {
            None => Err(AppError::NotFound),
            Some(i) => Ok(merge_item(store, i, &req, operator_id, now)),
        }
    }

    /// Removes the item directly; `NotFound` when there is none, `Conflict`
    /// while any card refers to it.
    pub fn delete_knowledge(store: &mut Store, code: &str) -> (r: Result<(), AppError>)
        requires
            old(store).wf(),
        ensures
            final(store).wf(),
            !old(store).has_knowledge(code@) ==> r == Err::<(), AppError>(AppError::NotFound),
            old(store).has_knowledge(code@) && old(store).knowledge_in_use(code@) ==> r == Err::<(), AppError>(AppError::Conflict),
            old(store).has_knowledge(code@) && !old(store).knowledge_in_use(code@) ==> r is Ok,
            r is Err ==> *final(store) == *old(store),
            r is Ok ==> same_but_items(*old(store), *final(store)) && final(store).knowledge@
                == old(store).knowledge@.remove(old(store).knowledge_pos(code@)),
    {
        let i = match store.find_knowledge(code) {
            None => {
                return Err(AppError::NotFound);
            },
            Some(i) => i,
        };
        if store.is_knowledge_in_use(code) {
            return Err(AppError::Conflict);
        }
        let ghost a = *store;
        let _removed = store.knowledge.remove(i);
        proof {
            lemma_knowledge_remove_wf(a, *store, i as int);
        }
        Ok(())
    }
    /// The items that the item links to, in the order of the links.
    pub fn get_related_knowledge(store: &Store, knowledge_code: &str) -> (r: Vec<Knowledge>)
        requires
            store.wf(),
        ensures
            ({
                let rels = store.knowledge_rels@.filter(related_from(*store, knowledge_code@));
                &&& r@.len() == rels.len()
                &&& forall|j: int|
                    0 <= j < rels.len() ==> #[trigger] r@[j] == store.knowledge@[store.knowledge_pos(
                        rels[j].target_knowledge_code@,
                    )]
            }),
    {
        let ghost all = store.knowledge_rels@;
        let ghost p = related_from(*store, knowledge_code@);
        let mut out: Vec<Knowledge> = Vec::new();
        let mut i: usize = 0;
        while i < store.knowledge_rels.len()
            invariant
                store.wf(),
                i <= all.len(),
                all == store.knowledge_rels@,
                p == related_from(*store, knowledge_code@),
                out@.len() == all.take(i as int).filter(p).len(),
                forall|j: int|
                    0 <= j < out@.len() ==> #[trigger] out@[j] == store.knowledge@[store.knowledge_pos(
                        all.take(i as int).filter(p)[j].target_knowledge_code@,
                    )],
            decreases all.len() - i,
        {
            proof {
                reveal(Seq::filter);
                assert(all.take(i as int + 1).drop_last() =~= all.take(i as int));
            }
            let rel = &store.knowledge_rels[i];
            if crate::text::text_eq(rel.source_knowledge_code.as_str(), knowledge_code) {
                match store.find_knowledge(rel.target_knowledge_code.as_str()) {
                    Some(k) => {
                        out.push(store.knowledge[k].copy());
                    },
                    None => {},
                }
            }
            i = i + 1;
        }
        assert(all.take(all.len() as int) =~= all);
        out
    }
}

} // verus!
