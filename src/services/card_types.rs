use vstd::prelude::*;
use crate::error::AppError;
use crate::models::{CardType, CardTypeTemplateRel, Page, Template};
use crate::paging::{page_bounds, window_end, window_start};
use crate::store::Store;

verus! {

/// The links of the card type to templates that the store holds.
pub open spec fn linked_to(s: Store, type_code: Seq<char>) -> spec_fn(CardTypeTemplateRel) -> bool {
    |rel: CardTypeTemplateRel| rel.card_type_code@ == type_code && s.has_template(rel.template_code@)
}

/// The kinds of cards that every catalog item gets.
pub struct CardTypeService;

/// Finds the card type with this code.
fn find_card_type(store: &Store, code: &str) -> (r: Option<usize>)
    requires
        store.wf(),
    ensures
        r is None <==> !store.has_card_type(code@),
        r matches Some(i) ==> i as int == store.card_type_pos(code@),
{
    let mut i: usize = 0;
    while i < store.card_types.len()
        invariant
            store.wf(),
            i <= store.card_types@.len(),
            forall|j: int| 0 <= j < i ==> #[trigger] store.card_types@[j].code@ != code@,
        decreases store.card_types@.len() - i,
    {
        if crate::text::text_eq(store.card_types[i].code.as_str(), code) {
            proof {
                let p = store.card_type_pos(code@);
                assert(store.card_types@[p].code@ == store.card_types@[i as int].code@);
            }
            return Some(i);
        }
        i = i + 1;
    }
    None
}

/// `a` comes no later than `b` when it was created no earlier.
pub open spec fn newest_type_le(a: CardType, b: CardType) -> bool {
    a.created_at >= b.created_at
}

pub open spec fn newest_type_sorted(s: Seq<CardType>) -> bool {
    forall|i: int, j: int| 0 <= i < j < s.len() ==> newest_type_le(#[trigger] s[i], #[trigger] s[j])
}

/// `content` is page `page` of `size` of `ord`, which holds the items of
/// `sel` in that order.
pub open spec fn newest_type_page(content: Seq<CardType>, ord: Seq<CardType>, sel: Seq<CardType>, page: int, size: int) -> bool {
    &&& ord.to_multiset() == sel.to_multiset()
    &&& newest_type_sorted(ord)
    &&& content == ord.subrange(window_start(sel.len() as int, page, size), window_end(sel.len() as int, page, size))
}

/// `content` is page `page` of `size` of the items of `sel`, newest first.
pub open spec fn newest_type_listing(content: Seq<CardType>, sel: Seq<CardType>, page: int, size: int) -> bool {
    exists|ord: Seq<CardType>| #[trigger] newest_type_page(content, ord, sel, page, size)
}

/// The items of `sel`, newest first, page `page` of `size`.
fn newest_type_ordered_page(sel: &Vec<CardType>, page: i64, size: i64) -> (r: Page<CardType>)
    requires
        page >= 0,
        size > 0,
        sel@.len() <= i64::MAX,
    ensures
        newest_type_listing(r.content@, sel@, page as int, size as int),
        r.page.number == page,
        r.page.size == size,
        r.page.total_elements == sel@.len(),
        r.page.total_pages == crate::models::page_count(sel@.len() as int, size as int),
{
    let n = sel.len();
    let mut sorted: Vec<CardType> = Vec::new();
    let mut i: usize = 0;
    assert(sel@.take(0) =~= Seq::<CardType>::empty());
    while i < n
        invariant
            i <= n,
            n == sel@.len(),
            sorted@.to_multiset() == sel@.take(i as int).to_multiset(),
            newest_type_sorted(sorted@),
            sorted@.len() == i,
        decreases n - i,
    {
        let c = sel[i].copy();
        let mut j: usize = sorted.len();
        while j > 0 && sorted[j - 1].created_at < c.created_at
            invariant
                j <= sorted@.len(),
                forall|k: int| j <= k < sorted@.len() ==> !newest_type_le(#[trigger] sorted@[k], c),
            decreases j,
        {
            j = j - 1;
        }
        let ghost old_sorted = sorted@;
        sorted.insert(j, c);
        proof {
            assert(sel@.take(i as int + 1) =~= sel@.take(i as int).push(sel@[i as int]));
            assert(sorted@ == old_sorted.insert(j as int, c));
            vstd::seq_lib::to_multiset_insert(old_sorted, j as int, c);
            vstd::seq_lib::to_multiset_build(sel@.take(i as int), sel@[i as int]);
            assert forall|x: int, y: int| 0 <= x < y < sorted@.len() implies newest_type_le(
                #[trigger] sorted@[x],
                #[trigger] sorted@[y],
            ) by {
                let jj = j as int;
                if y < jj {
                    assert(sorted@[x] == old_sorted[x] && sorted@[y] == old_sorted[y]);
                } else if y == jj {
                    assert(sorted@[x] == old_sorted[x]);
                    if x < jj - 1 {
                        assert(newest_type_le(old_sorted[x], old_sorted[jj - 1]));
                    }
                } else if x < jj {
                    assert(sorted@[x] == old_sorted[x] && sorted@[y] == old_sorted[y - 1]);
                    assert(newest_type_le(old_sorted[x], old_sorted[y - 1]));
                } else if x == jj {
                    assert(sorted@[y] == old_sorted[y - 1]);
                    assert(!newest_type_le(old_sorted[y - 1], c));
                } else {
                    assert(sorted@[x] == old_sorted[x - 1] && sorted@[y] == old_sorted[y - 1]);
                }
            }
        }
        i = i + 1;
    }
    assert(sel@.take(n as int) =~= sel@);
    let (lo, hi) = page_bounds(n, page, size);
    let mut content: Vec<CardType> = Vec::new();
    let mut j: usize = lo;
    while j < hi
        invariant
            lo <= j <= hi <= n,
            n == sorted@.len(),
            content@ == sorted@.subrange(lo as int, j as int),
        decreases hi - j,
    {
        content.push(sorted[j].copy());
        j = j + 1;
        assert(content@ =~= sorted@.subrange(lo as int, j as int));
    }
    assert(newest_type_page(content@, sorted@, sel@, page as int, size as int));
    Page::new(content, page, size, n as i64)
}

impl CardTypeService {
    /// Adds a card type; `Conflict` when its code is taken.
    pub fn create_card_type(store: &mut Store, card_type: CardType) -> (r: Result<(), AppError>)
        requires
            old(store).wf(),
        ensures
            final(store).wf(),
            old(store).has_card_type(card_type.code@) ==> r == Err::<(), AppError>(AppError::Conflict)
                && *final(store) == *old(store),
            !old(store).has_card_type(card_type.code@) ==> r is Ok && final(store).card_types@
                == old(store).card_types@.push(card_type) && final(store).knowledge == old(store).knowledge
                && final(store).cards == old(store).cards && final(store).requests == old(store).requests,
    {
        if find_card_type(store, card_type.code.as_str()).is_some() {
            return Err(AppError::Conflict);
        }
        let ghost a = *store;
        let ghost code = card_type.code@;
        store.card_types.push(card_type);
        proof {
            let b = *store;
            let n = a.card_types@.len() as int;
            assert(b.card_types@[n].code@ == code);
            assert forall|x: int, y: int|
                0 <= x < b.card_types@.len() && 0 <= y < b.card_types@.len() && x != y implies #[trigger] b.card_types@[x].code@
                    != #[trigger] b.card_types@[y].code@ by {
                if x == n {
                    assert(b.card_types@[y] == a.card_types@[y]);
                    assert(a.card_types@[y].code@ != code);
                } else if y == n {
                    assert(b.card_types@[x] == a.card_types@[x]);
                    assert(a.card_types@[x].code@ != code);
                } else {
                    assert(b.card_types@[x] == a.card_types@[x]);
                    assert(b.card_types@[y] == a.card_types@[y]);
                }
            }
            assert forall|x: int| 0 <= x < b.cards@.len() implies #[trigger] b.has_card_type(
                b.cards@[x].card_type_code@,
            ) by {
                assert(a.has_card_type(a.cards@[x].card_type_code@));
                let w = choose|w: int|
                    0 <= w < a.card_types@.len() && #[trigger] a.card_types@[w].code@ == a.cards@[x].card_type_code@;
                assert(b.card_types@[w] == a.card_types@[w]);
            }
        }
        Ok(())
    }

    /// Page `page` of the card types, the most recently created first.
    pub fn get_card_types(store: &Store, page: i64, size: i64) -> (r: Page<CardType>)
        requires
            page >= 0,
            size > 0,
            store.card_types@.len() <= i64::MAX,
        ensures
            newest_type_listing(r.content@, store.card_types@, page as int, size as int),
            r.page.number == page,
            r.page.size == size,
            r.page.total_elements == store.card_types@.len(),
            r.page.total_pages == crate::models::page_count(store.card_types@.len() as int, size as int),
    {
        newest_type_ordered_page(&store.card_types, page, size)
    }

    /// The card type with this code; `NotFound` when there is none.
    pub fn get_card_type_by_code(store: &Store, code: &str) -> (r: Result<CardType, AppError>)
        requires
            store.wf(),
        ensures
            !store.has_card_type(code@) ==> r == Err::<CardType, AppError>(AppError::NotFound),
            store.has_card_type(code@) ==> r == Ok::<CardType, AppError>(
                store.card_types@[store.card_type_pos(code@)],
            ),
    {
        match find_card_type(store, code) {
            Some(i) => Ok(store.card_types[i].copy()),
            None => Err(AppError::NotFound),
        }
    }
    /// The templates of the card type, each with its role, in the order of
    /// the links.
    #[verifier::spinoff_prover]
    pub fn get_templates_for_card_type(store: &Store, card_type_code: &str) -> (r: Vec<(Template, String)>)
        requires
            store.wf(),
        ensures
            ({
                let rels = store.template_rels@.filter(linked_to(*store, card_type_code@));
                &&& r@.len() == rels.len()
                &&& forall|j: int|
                    0 <= j < rels.len() ==> store.templates@[store.template_pos(rels[j].template_code@)].same_as(
                        #[trigger] r@[j].0,
                    ) && r@[j].1@ == rels[j].role@
            }),
    {
        let ghost all = store.template_rels@;
        let ghost p = linked_to(*store, card_type_code@);
        let ghost mut f: Seq<CardTypeTemplateRel> = Seq::empty();
        let mut out: Vec<(Template, String)> = Vec::new();
        let mut i: usize = 0;
        proof {
            reveal(Seq::filter);
            assert(all.take(0) =~= Seq::<CardTypeTemplateRel>::empty());
        }
        while i < store.template_rels.len()
            invariant
                store.wf(),
                i <= all.len(),
                all == store.template_rels@,
                p == linked_to(*store, card_type_code@),
                f == all.take(i as int).filter(p),
                out@.len() == f.len(),
                forall|j: int|
                    0 <= j < out@.len() ==> store.templates@[store.template_pos(f[j].template_code@)].same_as(
                        #[trigger] out@[j].0,
                    ) && out@[j].1@ == f[j].role@,
            decreases all.len() - i,
        {
            proof {
                reveal(Seq::filter);
                assert(all.take(i as int + 1).drop_last() =~= all.take(i as int));
            }
            let rel = &store.template_rels[i];
            let mut hit: Option<usize> = None;
            if crate::text::text_eq(rel.card_type_code.as_str(), card_type_code) {
                hit = store.find_template(rel.template_code.as_str());
            }
            match hit {
                Some(t) => {
                    let ghost before = out@;
                    out.push((store.templates[t].copy(), rel.role.clone()));
                    proof {
                        assert(p(all[i as int]));
                        f = f.push(all[i as int]);
                        assert forall|j: int| 0 <= j < out@.len() implies store.templates@[store.template_pos(
                            f[j].template_code@,
                        )].same_as(#[trigger] out@[j].0) && out@[j].1@ == f[j].role@ by {
                            if j < before.len() {
                                assert(out@[j] == before[j]);
                            }
                        }
                    }
                },
                None => {
                    assert(!p(all[i as int]));
                    assert(all.take(i as int + 1).filter(p) == f);
                },
            }
            assert(f == all.take(i as int + 1).filter(p));
            assert(forall|j: int|
                0 <= j < out@.len() ==> store.templates@[store.template_pos(f[j].template_code@)].same_as(
                    #[trigger] out@[j].0,
                ) && out@[j].1@ == f[j].role@);
            i = i + 1;
        }
        assert(all.take(all.len() as int) =~= all);
        assert(f == store.template_rels@.filter(linked_to(*store, card_type_code@)));
        out
    }
}

} // verus!
