use vstd::prelude::*;
use crate::codes::{code_prefix, code_text, cs_prefix, format_code, is_cs_hint};
use crate::error::AppError;
use crate::models::{clone_opt_string, ChangePayload, ChangeRequest, Page, RequestStatus};
use crate::paging::{page_bounds, window_end, window_start};
use crate::services::knowledge::{insert_item, lemma_knowledge_remove_wf, merge_item, merged_item, new_item, same_but_catalog};
use crate::store::Store;

verus! {

broadcast use vstd::seq_lib::group_filter_ensures;

/// The workflow that gates every change of the catalog behind a manager.
pub struct ChangeRequestService;

/// The request resolved with `status` by `reviewer_id` at time `now`.
pub open spec fn resolved(r: ChangeRequest, status: RequestStatus, reviewer_id: i64, now: i64) -> ChangeRequest {
    ChangeRequest { status, reviewer_id: Some(reviewer_id), updated_at: now, ..r }
}

/// Whether a request's target fits its kind: none for a creation, one for an
/// update or a deletion.
pub open spec fn target_fits(target_code: Option<String>, payload: ChangePayload) -> bool {
    match payload {
        ChangePayload::Create(_) => target_code is None,
        _ => target_code is Some,
    }
}

/// The last number taken from the code sequence of the category that `hint`
/// selects.
pub open spec fn last_code(s: Store, hint: Seq<char>) -> i64 {
    if hint == cs_prefix() {
        s.last_code_cs
    } else {
        s.last_code_st
    }
}

/// Whether number `n` of the category that `hint` selects gives a code that
/// the catalog does not hold.
pub open spec fn code_free(s: Store, hint: Seq<char>, n: int) -> bool {
    !s.has_knowledge(code_text(code_prefix(hint), n as nat))
}

/// `n` is the first number after the category's last one whose code is free.
pub open spec fn is_next_code_number(s: Store, hint: Seq<char>, n: int) -> bool {
    &&& last_code(s, hint) < n <= i64::MAX
    &&& code_free(s, hint, n)
    &&& forall|m: int| last_code(s, hint) < m < n ==> !#[trigger] code_free(s, hint, m)
}

/// Whether the category's sequence still has a number with a free code.
pub open spec fn has_free_code(s: Store, hint: Seq<char>) -> bool {
    exists|n: int| last_code(s, hint) < n <= i64::MAX && #[trigger] code_free(s, hint, n)
}

/// The number that a creation in the category takes: the sequence moves past
/// numbers whose code is already in the catalog.
pub open spec fn next_code_number(s: Store, hint: Seq<char>) -> int {
    choose|n: int| #[trigger] is_next_code_number(s, hint, n)
}

/// The error that approving request `id` meets, if any.
pub open spec fn approve_error(s: Store, id: i64) -> Option<AppError> {
    if !s.has_request(id) {
        Some(AppError::NotFound)
    } else {
        let req = s.requests@[s.request_pos(id)];
        if req.status != RequestStatus::Pending {
            Some(AppError::Conflict)
        } else {
            match req.payload {
                ChangePayload::Create(c) => if has_free_code(s, c.code@) {
                    None
                } else {
                    Some(AppError::Internal)
                },
                ChangePayload::Update(_) => match req.target_code {
                    None => Some(AppError::Internal),
                    Some(t) => if !s.has_knowledge(t@) {
                        Some(AppError::NotFound)
                    } else {
                        None
                    },
                },
                ChangePayload::Delete => match req.target_code {
                    None => Some(AppError::Internal),
                    Some(t) => if !s.has_knowledge(t@) {
                        Some(AppError::NotFound)
                    } else if s.knowledge_in_use(t@) {
                        Some(AppError::Conflict)
                    } else {
                        None
                    },
                },
            }
        }
    }
}

/// What approving request `id` leaves: the catalog changed as the request
/// proposes, and the request approved by the manager.
pub open spec fn approve_post(a: Store, b: Store, id: i64, reviewer_id: i64, by: Seq<char>, now: i64) -> bool {
    let p = a.request_pos(id);
    let req = a.requests@[p];
    &&& b.requests@ == a.requests@.update(p, resolved(req, RequestStatus::Approved, reviewer_id, now))
    &&& b.next_request_id == a.next_request_id
    &&& same_but_catalog(a, b)
    &&& match req.payload {
        ChangePayload::Create(c) => {
            let n = next_code_number(a, c.code@);
            &&& last_code(b, c.code@) == n
            &&& (c.code@ == cs_prefix() ==> b.last_code_st == a.last_code_st)
            &&& (c.code@ != cs_prefix() ==> b.last_code_cs == a.last_code_cs)
            &&& b.knowledge@.len() == a.knowledge@.len() + 1
            &&& b.knowledge@.drop_last() == a.knowledge@
            &&& new_item(b.knowledge@.last(), code_text(code_prefix(c.code@), n as nat), c, by, now)
        },
        ChangePayload::Update(u) => {
            let k = a.knowledge_pos(req.target_code->Some_0@);
            &&& b.last_code_cs == a.last_code_cs
            &&& b.last_code_st == a.last_code_st
            &&& b.knowledge@ == a.knowledge@.update(k, b.knowledge@[k])
            &&& merged_item(a.knowledge@[k], b.knowledge@[k], u, by, now)
        },
        ChangePayload::Delete => {
            &&& b.last_code_cs == a.last_code_cs
            &&& b.last_code_st == a.last_code_st
            &&& b.knowledge@ == a.knowledge@.remove(a.knowledge_pos(req.target_code->Some_0@))
        },
    }
}

/// The error that rejecting request `id` meets, if any.
pub open spec fn reject_error(s: Store, id: i64) -> Option<AppError> {
    if !s.has_request(id) {
        Some(AppError::NotFound)
    } else if s.requests@[s.request_pos(id)].status != RequestStatus::Pending {
        Some(AppError::Conflict)
    } else {
        None
    }
}

/// What rejecting request `id` leaves: only the request changed, rejected by
/// the manager.
pub open spec fn reject_post(a: Store, b: Store, id: i64, reviewer_id: i64, now: i64) -> bool {
    let p = a.request_pos(id);
    &&& b.requests@ == a.requests@.update(p, resolved(a.requests@[p], RequestStatus::Rejected, reviewer_id, now))
    &&& b.next_request_id == a.next_request_id
    &&& same_but_catalog(a, b)
    &&& b.knowledge == a.knowledge
    &&& b.last_code_cs == a.last_code_cs
    &&& b.last_code_st == a.last_code_st
}

pub open spec fn request_selected(status: Option<RequestStatus>, r: ChangeRequest) -> bool {
    match status {
        Some(s) => r.status == s,
        None => true,
    }
}

/// The requests that a listing with this status filter shows.
pub open spec fn selected_by(status: Option<RequestStatus>) -> spec_fn(ChangeRequest) -> bool {
    |r: ChangeRequest| request_selected(status, r)
}

/// Replaces the request at `p` by `r`, which keeps its identity.
fn set_request(store: &mut Store, p: usize, r: ChangeRequest)
    requires
        old(store).wf(),
        p < old(store).requests@.len(),
        r.id == old(store).requests@[p as int].id,
    ensures
        final(store).wf(),
        final(store).requests@ == old(store).requests@.update(p as int, r),
        same_but_catalog(*old(store), *final(store)),
        final(store).knowledge == old(store).knowledge,
        final(store).next_request_id == old(store).next_request_id,
        final(store).last_code_cs == old(store).last_code_cs,
        final(store).last_code_st == old(store).last_code_st,
{
    let ghost a = *store;
    store.requests.set(p, r);
    proof {
        let b = *store;
        assert forall|x: int, y: int|
            0 <= x < b.requests@.len() && 0 <= y < b.requests@.len() && x != y implies #[trigger] b.requests@[x].id
                != #[trigger] b.requests@[y].id by {
            assert(b.requests@[x].id == a.requests@[x].id);
            assert(b.requests@[y].id == a.requests@[y].id);
        }
        assert forall|x: int| 0 <= x < b.requests@.len() implies 1 <= #[trigger] b.requests@[x].id < b.next_request_id by {
            assert(b.requests@[x].id == a.requests@[x].id);
        }
    }
}

/// `a` comes no later than `b`: later creation time first, and among
/// requests created at the same time the later one (larger id) first.
pub open spec fn newest_request_le(a: ChangeRequest, b: ChangeRequest) -> bool {
    a.created_at > b.created_at || (a.created_at == b.created_at && a.id >= b.id)
}

pub open spec fn newest_request_sorted(s: Seq<ChangeRequest>) -> bool {
    forall|i: int, j: int| 0 <= i < j < s.len() ==> newest_request_le(#[trigger] s[i], #[trigger] s[j])
}

/// `content` is page `page` of `size` of `ord`, which holds the items of
/// `sel` in that order.
pub open spec fn newest_request_page(content: Seq<ChangeRequest>, ord: Seq<ChangeRequest>, sel: Seq<ChangeRequest>, page: int, size: int) -> bool {
    &&& ord.to_multiset() == sel.to_multiset()
    &&& newest_request_sorted(ord)
    &&& content == ord.subrange(window_start(sel.len() as int, page, size), window_end(sel.len() as int, page, size))
}

/// `content` is page `page` of `size` of the items of `sel`, newest first.
pub open spec fn newest_request_listing(content: Seq<ChangeRequest>, sel: Seq<ChangeRequest>, page: int, size: int) -> bool {
    exists|ord: Seq<ChangeRequest>| #[trigger] newest_request_page(content, ord, sel, page, size)
}

/// The items of `sel`, newest first, page `page` of `size`.
fn newest_request_ordered_page(sel: &Vec<ChangeRequest>, page: i64, size: i64) -> (r: Page<ChangeRequest>)
    requires
        page >= 0,
        size > 0,
        sel@.len() <= i64::MAX,
    ensures
        newest_request_listing(r.content@, sel@, page as int, size as int),
        r.page.number == page,
        r.page.size == size,
        r.page.total_elements == sel@.len(),
        r.page.total_pages == crate::models::page_count(sel@.len() as int, size as int),
{
    let n = sel.len();
    let mut sorted: Vec<ChangeRequest> = Vec::new();
    let mut i: usize = 0;
    assert(sel@.take(0) =~= Seq::<ChangeRequest>::empty());
    while i < n
        invariant
            i <= n,
            n == sel@.len(),
            sorted@.to_multiset() == sel@.take(i as int).to_multiset(),
            newest_request_sorted(sorted@),
            sorted@.len() == i,
        decreases n - i,
    {
        let c = sel[i].copy();
        let mut j: usize = sorted.len();
        while j > 0 && (sorted[j - 1].created_at < c.created_at || (sorted[j - 1].created_at == c.created_at
            && sorted[j - 1].id < c.id))
            invariant
                j <= sorted@.len(),
                forall|k: int| j <= k < sorted@.len() ==> !newest_request_le(#[trigger] sorted@[k], c),
            decreases j,
        {
            j = j - 1;
        }
        let ghost old_sorted = sorted@;
        sorted.insert(j, c);
        proof {
            assert(sel@.take(i as int + 1) =~= sel@.take(i as int).push(sel@[i as int]));
            assert(sorted@ == old_sorted.insert(j as int, c));
            vstd::seq_lib::to_multiset_insert(old_sorted, j as int, c);
            vstd::seq_lib::to_multiset_build(sel@.take(i as int), sel@[i as int]);
            assert forall|x: int, y: int| 0 <= x < y < sorted@.len() implies newest_request_le(
                #[trigger] sorted@[x],
                #[trigger] sorted@[y],
            ) by {
                let jj = j as int;
                if y < jj {
                    assert(sorted@[x] == old_sorted[x] && sorted@[y] == old_sorted[y]);
                } else if y == jj {
                    assert(sorted@[x] == old_sorted[x]);
                    if x < jj - 1 {
                        assert(newest_request_le(old_sorted[x], old_sorted[jj - 1]));
                    }
                } else if x < jj {
                    assert(sorted@[x] == old_sorted[x] && sorted@[y] == old_sorted[y - 1]);
                    assert(newest_request_le(old_sorted[x], old_sorted[y - 1]));
                } else if x == jj {
                    assert(sorted@[y] == old_sorted[y - 1]);
                    assert(!newest_request_le(old_sorted[y - 1], c));
                } else {
                    assert(sorted@[x] == old_sorted[x - 1] && sorted@[y] == old_sorted[y - 1]);
                }
            }
        }
        i = i + 1;
    }
    assert(sel@.take(n as int) =~= sel@);
    let (lo, hi) = page_bounds(n, page, size);
    let mut content: Vec<ChangeRequest> = Vec::new();
    let mut j: usize = lo;
    while j < hi
        invariant
            lo <= j <= hi <= n,
            n == sorted@.len(),
            content@ == sorted@.subrange(lo as int, j as int),
        decreases hi - j,
    {
        content.push(sorted[j].copy());
        j = j + 1;
        assert(content@ =~= sorted@.subrange(lo as int, j as int));
    }
    assert(newest_request_page(content@, sorted@, sel@, page as int, size as int));
    Page::new(content, page, size, n as i64)
}

impl ChangeRequestService {
    /// Records a proposed change as pending. `InvalidInput` when the target
    /// does not fit the kind (a creation has none, an update or a deletion
    /// has one); `Internal` when request identities have run out.
    pub fn create_request(
        store: &mut Store,
        target_code: Option<String>,
        payload: ChangePayload,
        submitter_id: i64,
        now: i64,
    ) -> (r: Result<ChangeRequest, AppError>)
        requires
            old(store).wf(),
        ensures
            final(store).wf(),
            !target_fits(target_code, payload) ==> r == Err::<ChangeRequest, AppError>(AppError::InvalidInput),
            target_fits(target_code, payload) && old(store).next_request_id == i64::MAX ==> r == Err::<
                ChangeRequest,
                AppError,
            >(AppError::Internal),
            target_fits(target_code, payload) && old(store).next_request_id < i64::MAX ==> r is Ok,
            r is Err ==> *final(store) == *old(store),
            r matches Ok(c) ==> c == (ChangeRequest {
                id: old(store).next_request_id,
                target_code,
                payload,
                status: RequestStatus::Pending,
                submitter_id,
                reviewer_id: None,
                created_at: now,
                updated_at: now,
            }) && final(store).requests@ == old(store).requests@.push(c) && final(store).next_request_id
                == old(store).next_request_id + 1 && same_but_catalog(*old(store), *final(store))
                && final(store).knowledge == old(store).knowledge && final(store).last_code_cs
                == old(store).last_code_cs && final(store).last_code_st == old(store).last_code_st,
    {
        let fits = match &payload {
            ChangePayload::Create(_) => target_code.is_none(),
            _ => target_code.is_some(),
        };
        if !fits {
            return Err(AppError::InvalidInput);
        }
        if store.next_request_id == i64::MAX {
            return Err(AppError::Internal);
        }
        let request = ChangeRequest {
            id: store.next_request_id,
            target_code,
            payload,
            status: RequestStatus::Pending,
            submitter_id,
            reviewer_id: None,
            created_at: now,
            updated_at: now,
        };
        let result = request.copy();
        let ghost a = *store;
        store.requests.push(request);
        store.next_request_id = store.next_request_id + 1;
        proof {
            let b = *store;
            let n = a.requests@.len() as int;
            assert forall|x: int, y: int|
                0 <= x < b.requests@.len() && 0 <= y < b.requests@.len() && x != y implies #[trigger] b.requests@[x].id
                    != #[trigger] b.requests@[y].id by {
                if x < n {
                    assert(b.requests@[x] == a.requests@[x]);
                }
                if y < n {
                    assert(b.requests@[y] == a.requests@[y]);
                }
            }
            assert forall|x: int| 0 <= x < b.requests@.len() implies 1 <= #[trigger] b.requests@[x].id < b.next_request_id by {
                if x < n {
                    assert(b.requests@[x] == a.requests@[x]);
                }
            }
        }
        Ok(result)
    }

    /// Rejects a pending request, leaving the catalog alone. `NotFound` when
    /// there is no such request, `Conflict` when it is already resolved; on
    /// either nothing changes.
    pub fn reject_request(store: &mut Store, request_id: i64, reviewer_id: i64, now: i64) -> (r: Result<(), AppError>)
        requires
            old(store).wf(),
        ensures
            final(store).wf(),
            r matches Err(e) ==> reject_error(*old(store), request_id) == Some(e) && *final(store) == *old(store),
            r is Ok ==> reject_error(*old(store), request_id) is None && reject_post(*old(store), *final(store), request_id, reviewer_id, now),
    {
        let p = match store.find_request(request_id) {
            None => {
                return Err(AppError::NotFound);
            },
            Some(p) => p,
        };
        match store.requests[p].status {
            RequestStatus::Pending => {},
            _ => {
                return Err(AppError::Conflict);
            },
        }
        let mut req = store.requests[p].copy();
        req.status = RequestStatus::Rejected;
        req.reviewer_id = Some(reviewer_id);
        req.updated_at = now;
        set_request(store, p, req);
        Ok(())
    }
    /// Approves a pending request: in one step the catalog changes as the
    /// request proposes and the request becomes approved by the manager. A
    /// creation takes the next number of its category's code sequence. On any
    /// error nothing changes: the request stays pending and the catalog as it
    /// was.
    pub fn approve_request(
        store: &mut Store,
        request_id: i64,
        reviewer_id: i64,
        reviewer_username: &str,
        now: i64,
    ) -> (r: Result<(), AppError>)
        requires
            old(store).wf(),
        ensures
            final(store).wf(),
            r matches Err(e) ==> approve_error(*old(store), request_id) == Some(e) && *final(store) == *old(store),
            r is Ok ==> approve_error(*old(store), request_id) is None && approve_post(
                *old(store),
                *final(store),
                request_id,
                reviewer_id,
                reviewer_username@,
                now,
            ),
    {
        let p = match store.find_request(request_id) {
            None => {
                return Err(AppError::NotFound);
            },
            Some(p) => p,
        };
        match store.requests[p].status {
            RequestStatus::Pending => {},
            _ => {
                return Err(AppError::Conflict);
            },
        }
        let payload = store.requests[p].payload.copy();
        let target = clone_opt_string(&store.requests[p].target_code);
        match payload {
            ChangePayload::Create(c) => {
                let cs = is_cs_hint(c.code.as_str());
                let ghost hint = c.code@;
                let last = if cs {
                    store.last_code_cs
                } else {
                    store.last_code_st
                };
                let mut n: i64 = last;
                let mut code = String::new();
                let mut found = false;
                assert(approve_error(*old(store), request_id) == if has_free_code(*store, hint) {
                    None
                } else {
                    Some(AppError::Internal)
                });
                while !found
                    invariant
                        *store == *old(store),
                        approve_error(*old(store), request_id) == if has_free_code(*store, hint) {
                            None
                        } else {
                            Some(AppError::Internal)
                        },
                        store.wf(),
                        last == last_code(*store, hint),
                        cs == (hint == cs_prefix()),
                        last <= n <= i64::MAX,
                        forall|m: int| last < m <= n && !(found && m == n) ==> !#[trigger] code_free(*store, hint, m),
                        found ==> n > last && code@ == code_text(code_prefix(hint), n as nat) && code_free(*store, hint, n as int),
                    decreases i64::MAX - n + if found {
                        0int
                    } else {
                        1int
                    },
                {
                    if n == i64::MAX {
                        proof {
                            if has_free_code(*store, hint) {
                                let w = choose|w: int| last < w <= i64::MAX && #[trigger] code_free(*store, hint, w);
                                assert(!code_free(*store, hint, w));
                            }
                        }
                        return Err(AppError::Internal);
                    }
                    n = n + 1;
                    code = format_code(cs, n as u64);
                    if store.find_knowledge(code.as_str()).is_none() {
                        found = true;
                    }
                }
                proof {
                    assert(is_next_code_number(*store, hint, n as int));
                    let k = next_code_number(*store, hint);
                    assert(is_next_code_number(*store, hint, k));
                    if k < n {
                        assert(!code_free(*store, hint, k));
                    } else if k > n {
                        assert(!code_free(*store, hint, n as int));
                    }
                    assert(k == n);
                }
                if cs {
                    store.last_code_cs = n;
                } else {
                    store.last_code_st = n;
                }
                let ghost mid = *store;
                let _item = insert_item(store, code, c, reviewer_username, now);
                assert(store.knowledge@.drop_last() =~= mid.knowledge@);
            },
            ChangePayload::Update(u) => {
                let t = match &target {
                    None => {
                        return Err(AppError::Internal);
                    },
                    Some(t) => t,
                };
                let i = match store.find_knowledge(t.as_str()) {
                    None => {
                        return Err(AppError::NotFound);
                    },
                    Some(i) => i,
                };
                let _item = merge_item(store, i, &u, reviewer_username, now);
            },
            ChangePayload::Delete => {
                let t = match &target {
                    None => {
                        return Err(AppError::Internal);
                    },
                    Some(t) => t,
                };
                let i = match store.find_knowledge(t.as_str()) {
                    None => {
                        return Err(AppError::NotFound);
                    },
                    Some(i) => i,
                };
                if store.is_knowledge_in_use(t.as_str()) {
                    return Err(AppError::Conflict);
                }
                let ghost before = *store;
                let _removed = store.knowledge.remove(i);
                proof {
                    lemma_knowledge_remove_wf(before, *store, i as int);
                }
            },
        }
        let mut req = store.requests[p].copy();
        req.status = RequestStatus::Approved;
        req.reviewer_id = Some(reviewer_id);
        req.updated_at = now;
        set_request(store, p, req);
        Ok(())
    }
    /// Page `page` of the requests with the given status (all when `None`),
    /// the most recently created first.
    pub fn list_requests(store: &Store, status: Option<RequestStatus>, page: i64, size: i64) -> (r: Page<ChangeRequest>)
        requires
            page >= 0,
            size > 0,
            store.requests@.len() <= i64::MAX,
        ensures
            ({
                let sel = store.requests@.filter(selected_by(status));
                &&& newest_request_listing(r.content@, sel, page as int, size as int)
                &&& r.page.total_elements == sel.len()
                &&& r.page.total_pages == crate::models::page_count(sel.len() as int, size as int)
            }),
            r.page.number == page,
            r.page.size == size,
    {
        let ghost all = store.requests@;
        let mut sel: Vec<ChangeRequest> = Vec::new();
        let mut i: usize = 0;
        while i < store.requests.len()
            invariant
                i <= all.len(),
                all == store.requests@,
                sel@ == all.take(i as int).filter(selected_by(status)),
            decreases all.len() - i,
        {
            proof {
                reveal(Seq::filter);
                assert(all.take(i as int + 1).drop_last() =~= all.take(i as int));
            }
            let keep = match status {
                Some(st) => st == store.requests[i].status,
                None => true,
            };
            if keep {
                sel.push(store.requests[i].copy());
            }
            i = i + 1;
        }
        assert(all.take(all.len() as int) =~= all);
        newest_request_ordered_page(&sel, page, size)
    }
}

proof fn lemma_same_position(a: Store, b: Store, id: i64)
    requires
        b.wf(),
        a.has_request(id),
        b.requests@.len() == a.requests@.len(),
        b.requests@[a.request_pos(id)].id == id,
    ensures
        b.has_request(id),
        b.request_pos(id) == a.request_pos(id),
{
    let p = a.request_pos(id);
    assert(b.requests@[p].id == id);
    let q = b.request_pos(id);
    assert(b.requests@[q].id == b.requests@[p].id);
}

/// A resolved request stays as it is: approving it or rejecting it fails with
/// `Conflict`, and a failed call changes nothing.
pub proof fn resolved_request_conflicts(s: Store, id: i64)
    requires
        s.wf(),
        s.has_request(id),
        s.requests@[s.request_pos(id)].status != RequestStatus::Pending,
    ensures
        approve_error(s, id) == Some(AppError::Conflict),
        reject_error(s, id) == Some(AppError::Conflict),
{
}

/// Once approved, a request cannot be approved or rejected again: both fail
/// with `Conflict`, so the catalog is changed exactly once.
pub proof fn approve_twice_conflicts(s0: Store, s1: Store, id: i64, reviewer_id: i64, by: Seq<char>, now: i64)
    requires
        s0.wf(),
        s1.wf(),
        approve_error(s0, id) is None,
        approve_post(s0, s1, id, reviewer_id, by, now),
    ensures
        approve_error(s1, id) == Some(AppError::Conflict),
        reject_error(s1, id) == Some(AppError::Conflict),
{
    lemma_same_position(s0, s1, id);
    resolved_request_conflicts(s1, id);
}

/// Once rejected, a request cannot be rejected or approved again: both fail
/// with `Conflict`.
pub proof fn reject_twice_conflicts(s0: Store, s1: Store, id: i64, reviewer_id: i64, now: i64)
    requires
        s0.wf(),
        s1.wf(),
        reject_error(s0, id) is None,
        reject_post(s0, s1, id, reviewer_id, now),
    ensures
        approve_error(s1, id) == Some(AppError::Conflict),
        reject_error(s1, id) == Some(AppError::Conflict),
{
    lemma_same_position(s0, s1, id);
    resolved_request_conflicts(s1, id);
}

/// Approving the deletion of an item that some card refers to fails with
/// `Conflict`; the failed call leaves the item and the cards as they were.
pub proof fn delete_in_use_conflicts(s: Store, id: i64)
    requires
        s.wf(),
        s.has_request(id),
        s.requests@[s.request_pos(id)].status == RequestStatus::Pending,
        s.requests@[s.request_pos(id)].payload is Delete,
        s.requests@[s.request_pos(id)].target_code matches Some(t) && s.knowledge_in_use(t@),
    ensures
        approve_error(s, id) == Some(AppError::Conflict),
{
    let t = s.requests@[s.request_pos(id)].target_code->Some_0;
    let w = choose|w: int| 0 <= w < s.cards@.len() && #[trigger] s.cards@[w].knowledge_code@ == t@;
    assert(s.has_knowledge(s.cards@[w].knowledge_code@));
}

} // verus!
