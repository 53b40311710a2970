//! Keyset pagination. A page request names a size, the identifier of the
//! last row already seen and a direction; the page holds the active rows
//! strictly beyond that identifier, in identifier order, up to the size.
//! Identifiers are unique and ordered by creation, so paging never repeats
//! or skips a row.

use crate::codec::{base32hex_of, base32hex_to_uuid, encodes_identifier, DecodeError};
use crate::response::ApiResponse;
use crate::identifier::{
    id_before,
    lemma_id_before_asymmetric,
    lemma_id_before_transitive,
    Identifier,
};
use vstd::prelude::*;

verus! {

/// Page size when the request names none.
pub const DEFAULT_PAGE_LIMIT: usize = 10;

/// Largest page size served.
pub const MAX_PAGE_LIMIT: usize = 100;

/// A parsed page request.
#[derive(Clone, Copy, Debug, PartialEq, Eq)]
pub struct PaginationCursor {
    /// How many rows the page may hold.
    pub limit: usize,
    /// The identifier of the last row already seen, if any.
    pub last_seen_id: Option<Identifier>,
    /// Newest first (`true`) or oldest first.
    pub descending: bool,
}

/// What the store knows of a row for paging: its identifier and whether it is
/// active (rows are soft-deleted by clearing this flag).
#[derive(Clone, Copy, Debug, PartialEq, Eq)]
pub struct PageRow {
    pub id: Identifier,
    pub active: bool,
}

/// The page size served for a requested one.
pub open spec fn clamped_limit(limit: Option<i64>) -> usize {
    match limit {
        None => DEFAULT_PAGE_LIMIT,
        Some(n) => if n < 1 {
            1
        } else if n > MAX_PAGE_LIMIT {
            MAX_PAGE_LIMIT
        } else {
            n as usize
        },
    }
}

/// The direction served for a requested one: newest first unless the request
/// says otherwise.
pub open spec fn descending_of(order_by_desc: Option<bool>) -> bool {
    match order_by_desc {
        None => true,
        Some(b) => b,
    }
}

/// Whether a row belongs to the listing that a cursor continues: it is active
/// and strictly beyond the last row seen in the cursor's direction.
pub open spec fn admitted(c: PaginationCursor, row: PageRow) -> bool {
    row.active && match c.last_seen_id {
        None => true,
        Some(last) => if c.descending {
            id_before(row.id@, last@)
        } else {
            id_before(last@, row.id@)
        },
    }
}

/// The identifiers of the admitted rows, in the order of `rows`.
pub open spec fn matching_ids(rows: Seq<PageRow>, c: PaginationCursor) -> Seq<Seq<u8>>
    decreases rows.len(),
{
    if rows.len() == 0 {
        Seq::empty()
    } else {
        let prev = matching_ids(rows.drop_last(), c);
        if admitted(c, rows.last()) {
            prev.push(rows.last().id@)
        } else {
            prev
        }
    }
}

/// Every row that a cursor continues to, in the cursor's direction, for rows
/// kept in ascending identifier order.
pub open spec fn listing(rows: Seq<PageRow>, c: PaginationCursor) -> Seq<Seq<u8>> {
    if c.descending {
        matching_ids(rows, c).reverse()
    } else {
        matching_ids(rows, c)
    }
}

/// The page served: the start of the listing, at most `limit` rows long.
pub open spec fn page_of(rows: Seq<PageRow>, c: PaginationCursor) -> Seq<Seq<u8>> {
    let l = listing(rows, c);
    if l.len() <= c.limit {
        l
    } else {
        l.take(c.limit as int)
    }
}

/// Rows are kept in strictly ascending identifier order, so identifiers are
/// unique.
pub open spec fn ids_ascending(rows: Seq<PageRow>) -> bool {
    forall|i: int, j: int|
        0 <= i < j < rows.len() ==> id_before(#[trigger] rows[i].id@, #[trigger] rows[j].id@)
}

/// The identifiers of a sequence of identifiers.
pub open spec fn ids_view(v: Seq<Identifier>) -> Seq<Seq<u8>> {
    v.map_values(|x: Identifier| x@)
}

proof fn lemma_matching_concat(a: Seq<PageRow>, b: Seq<PageRow>, c: PaginationCursor)
    ensures
        matching_ids(a + b, c) == matching_ids(a, c) + matching_ids(b, c),
    decreases b.len(),
{
    if b.len() == 0 {
        assert(a + b =~= a);
        assert(matching_ids(a, c) + matching_ids(b, c) =~= matching_ids(a, c));
    } else {
        lemma_matching_concat(a, b.drop_last(), c);
        assert((a + b).drop_last() =~= a + b.drop_last());
        assert((a + b).last() == b.last());
        if admitted(c, b.last()) {
            assert(matching_ids(a, c) + matching_ids(b.drop_last(), c).push(b.last().id@)
                =~= (matching_ids(a, c) + matching_ids(b.drop_last(), c)).push(b.last().id@));
        }
    }
}

proof fn lemma_reverse_concat(a: Seq<Seq<u8>>, b: Seq<Seq<u8>>)
    ensures
        (a + b).reverse() == b.reverse() + a.reverse(),
{
    assert((a + b).reverse() =~= b.reverse() + a.reverse());
}

impl PaginationCursor {
    /// A cursor is well formed when its page size is in the served range.
    pub open spec fn wf(&self) -> bool {
        1 <= self.limit <= MAX_PAGE_LIMIT
    }

    /// Whether a row belongs to the listing that this cursor continues.
    pub fn admits(&self, row: &PageRow) -> (r: bool)
        ensures
            r == admitted(*self, *row),
    {
        if !row.active {
            return false;
        }
        match &self.last_seen_id {
            None => true,
            Some(last) => {
                if self.descending {
                    row.id.precedes(last)
                } else {
                    last.precedes(&row.id)
                }
            },
        }
    }
}

impl PaginationCursor {
    /// Reads a page request: the page size (clamped), the text of the last
    /// identifier seen and the direction. A last identifier that is not the
    /// text of an identifier is refused with the decoding error.
    pub fn from_request(limit: Option<i64>, last_id: Option<&str>, order_by_desc: Option<bool>) -> (r:
        Result<PaginationCursor, DecodeError>)
        ensures
            r is Err <==> (last_id matches Some(s) && !encodes_identifier(s@)),
            r matches Ok(c) ==> {
                &&& c.wf()
                &&& c.limit == clamped_limit(limit)
                &&& c.descending == descending_of(order_by_desc)
                &&& (last_id is None ==> c.last_seen_id is None)
                &&& (last_id matches Some(s) ==> (c.last_seen_id matches Some(id) && base32hex_of(
                    id@,
                ) == s@))
            },
    {
        let descending = match order_by_desc {
            None => true,
            Some(b) => b,
        };
        let limit = clamp_limit(limit);
        match last_id {
            None => Ok(PaginationCursor { limit, last_seen_id: None, descending }),
            Some(text) => match base32hex_to_uuid(text) {
                Ok(id) => Ok(PaginationCursor { limit, last_seen_id: Some(id), descending }),
                Err(e) => Err(e),
            },
        }
    }
}

/// A page request for brands, whose identifiers are serial integers rather
/// than 128-bit identifiers; the same rules apply with integer order.
#[derive(Clone, Copy, Debug, PartialEq, Eq)]
pub struct BrandPagination {
    pub limit: Option<i64>,
    pub last_id: Option<i32>,
    pub order_by_desc: Option<bool>,
}

impl BrandPagination {
    /// The page size served.
    pub fn page_limit(&self) -> (r: usize)
        ensures
            r == clamped_limit(self.limit),
    {
        clamp_limit(self.limit)
    }

    /// Whether the page is served newest first.
    pub fn is_descending(&self) -> (r: bool)
        ensures
            r == descending_of(self.order_by_desc),
    {
        match self.order_by_desc {
            None => true,
            Some(b) => b,
        }
    }

    /// Whether an active brand with identifier `id` lies strictly beyond the
    /// last one seen, in the page's direction.
    pub fn admits_id(&self, id: i32) -> (r: bool)
        ensures
            r == match self.last_id {
                None => true,
                Some(last) => if descending_of(self.order_by_desc) {
                    id < last
                } else {
                    id > last
                },
            },
    {
        match self.last_id {
            None => true,
            Some(last) => {
                if self.is_descending() {
                    id < last
                } else {
                    id > last
                }
            },
        }
    }
}

/// What the store knows of a brand for paging.
#[derive(Clone, Copy, Debug, PartialEq, Eq)]
pub struct BrandRow {
    pub id: i32,
    pub active: bool,
}

/// Whether a brand row belongs to the listing that a brand request continues.
pub open spec fn brand_admitted(req: BrandPagination, row: BrandRow) -> bool {
    row.active && match req.last_id {
        None => true,
        Some(last) => if descending_of(req.order_by_desc) {
            row.id < last
        } else {
            row.id > last
        },
    }
}

/// The identifiers of the admitted brand rows, in the order of `rows`.
pub open spec fn matching_brand_ids(rows: Seq<BrandRow>, req: BrandPagination) -> Seq<i32>
    decreases rows.len(),
{
    if rows.len() == 0 {
        Seq::empty()
    } else {
        let prev = matching_brand_ids(rows.drop_last(), req);
        if brand_admitted(req, rows.last()) {
            prev.push(rows.last().id)
        } else {
            prev
        }
    }
}

/// Every brand a request continues to, in its direction, for rows kept in
/// ascending identifier order.
pub open spec fn brand_listing(rows: Seq<BrandRow>, req: BrandPagination) -> Seq<i32> {
    if descending_of(req.order_by_desc) {
        matching_brand_ids(rows, req).reverse()
    } else {
        matching_brand_ids(rows, req)
    }
}

/// The brand page served: the start of the listing, at most the served page
/// size long.
pub open spec fn brand_page_of(rows: Seq<BrandRow>, req: BrandPagination) -> Seq<i32> {
    let l = brand_listing(rows, req);
    if l.len() <= clamped_limit(req.limit) {
        l
    } else {
        l.take(clamped_limit(req.limit) as int)
    }
}

proof fn lemma_brand_matching_concat(a: Seq<BrandRow>, b: Seq<BrandRow>, req: BrandPagination)
    ensures
        matching_brand_ids(a + b, req) == matching_brand_ids(a, req) + matching_brand_ids(b, req),
    decreases b.len(),
{
    if b.len() == 0 {
        assert(a + b =~= a);
        assert(matching_brand_ids(a, req) + matching_brand_ids(b, req) =~= matching_brand_ids(
            a,
            req,
        ));
    } else {
        lemma_brand_matching_concat(a, b.drop_last(), req);
        assert((a + b).drop_last() =~= a + b.drop_last());
        assert((a + b).last() == b.last());
        if brand_admitted(req, b.last()) {
            assert(matching_brand_ids(a, req) + matching_brand_ids(b.drop_last(), req).push(
                b.last().id,
            ) =~= (matching_brand_ids(a, req) + matching_brand_ids(b.drop_last(), req)).push(
                b.last().id,
            ));
        }
    }
}

/// Selects the brand page that `req` asks for from rows kept in ascending
/// identifier order.
pub fn select_brand_page(rows: &Vec<BrandRow>, req: &BrandPagination) -> (r: Vec<i32>)
    ensures
        r@ == brand_page_of(rows@, *req),
{
    let n = rows.len();
    let limit = req.page_limit();
    let descending = req.is_descending();
    let mut out: Vec<i32> = Vec::new();
    if !descending {
        let mut i: usize = 0;
        while i < n && out.len() < limit
            invariant
                n == rows@.len(),
                limit == clamped_limit(req.limit),
                descending == descending_of(req.order_by_desc),
                !descending,
                0 <= i <= n,
                out@.len() <= limit,
                out@ == matching_brand_ids(rows@.take(i as int), *req),
            decreases n - i,
        {
            let row = rows[i];
            assert(rows@.take(i + 1).drop_last() =~= rows@.take(i as int));
            assert(rows@.take(i + 1).last() == row);
            if row.active && req.admits_id(row.id) {
                out.push(row.id);
            }
            i = i + 1;
        }
        proof {
            assert(rows@ =~= rows@.take(i as int) + rows@.skip(i as int));
            lemma_brand_matching_concat(rows@.take(i as int), rows@.skip(i as int), *req);
            if i == n {
                assert(rows@.skip(i as int) =~= Seq::<BrandRow>::empty());
                assert(matching_brand_ids(rows@.skip(i as int), *req) =~= Seq::<i32>::empty());
                assert(out@ =~= brand_listing(rows@, *req));
            } else {
                assert(brand_listing(rows@, *req).take(limit as int) =~= out@);
            }
        }
    } else {
        let mut i: usize = n;
        while i > 0 && out.len() < limit
            invariant
                n == rows@.len(),
                limit == clamped_limit(req.limit),
                descending == descending_of(req.order_by_desc),
                descending,
                0 <= i <= n,
                out@.len() <= limit,
                out@ == matching_brand_ids(rows@.skip(i as int), *req).reverse(),
            decreases i,
        {
            let row = rows[i - 1];
            proof {
                let rest = rows@.skip(i as int);
                assert(rows@.skip(i - 1) =~= seq![row] + rest);
                lemma_brand_matching_concat(seq![row], rest, *req);
                assert(seq![row].drop_last() =~= Seq::<BrandRow>::empty());
                assert(seq![row].last() == row);
                assert(matching_brand_ids(Seq::<BrandRow>::empty(), *req) =~= Seq::<i32>::empty());
                if brand_admitted(*req, row) {
                    assert(matching_brand_ids(seq![row], *req) =~= seq![row.id]);
                } else {
                    assert(matching_brand_ids(seq![row], *req) =~= Seq::<i32>::empty());
                }
                assert((matching_brand_ids(seq![row], *req) + matching_brand_ids(rest, *req)).reverse()
                    =~= matching_brand_ids(rest, *req).reverse() + matching_brand_ids(seq![row], *req).reverse());
            }
            if row.active && req.admits_id(row.id) {
                out.push(row.id);
                assert(out@ =~= matching_brand_ids(rows@.skip(i - 1), *req).reverse());
            } else {
                assert(matching_brand_ids(rows@.skip(i - 1), *req).reverse() =~= matching_brand_ids(
                    rows@.skip(i as int),
                    *req,
                ).reverse());
            }
            i = i - 1;
        }
        proof {
            assert(rows@ =~= rows@.take(i as int) + rows@.skip(i as int));
            lemma_brand_matching_concat(rows@.take(i as int), rows@.skip(i as int), *req);
            let a = matching_brand_ids(rows@.take(i as int), *req);
            let b = matching_brand_ids(rows@.skip(i as int), *req);
            assert((a + b).reverse() =~= b.reverse() + a.reverse());
            if i == 0 {
                assert(rows@.take(i as int) =~= Seq::<BrandRow>::empty());
                assert(a =~= Seq::<i32>::empty());
                assert(out@ =~= brand_listing(rows@, *req));
            } else {
                assert(brand_listing(rows@, *req).take(limit as int) =~= out@);
            }
        }
    }
    out
}

/// The row list after the row at `i` is soft-deleted.
pub open spec fn soft_deleted(rows: Seq<PageRow>, i: int) -> Seq<PageRow> {
    rows.update(i, PageRow { id: rows[i].id, active: false })
}

proof fn lemma_matching_from_rows(rows: Seq<PageRow>, c: PaginationCursor, k: int)
    requires
        0 <= k < matching_ids(rows, c).len(),
    ensures
        exists|j: int|
            0 <= j < rows.len() && matching_ids(rows, c)[k] == #[trigger] rows[j].id@ && admitted(
                c,
                rows[j],
            ),
    decreases rows.len(),
{
    let prev = matching_ids(rows.drop_last(), c);
    if k < prev.len() {
        lemma_matching_from_rows(rows.drop_last(), c, k);
        let j = choose|j: int|
            0 <= j < rows.drop_last().len() && prev[k] == #[trigger] rows.drop_last()[j].id@
                && admitted(c, rows.drop_last()[j]);
        assert(rows[j] == rows.drop_last()[j]);
    } else {
        assert(matching_ids(rows, c)[k] == rows[rows.len() - 1].id@);
    }
}

/// Soft-deleting a row takes it out of every listing, and leaves the other
/// rows in the order they had: the listing is the one of the table without
/// that row.
pub proof fn lemma_soft_delete_hides_row(rows: Seq<PageRow>, c: PaginationCursor, i: int)
    requires
        ids_ascending(rows),
        0 <= i < rows.len(),
    ensures
        listing(soft_deleted(rows, i), c) == listing(rows.remove(i), c),
        !listing(soft_deleted(rows, i), c).contains(rows[i].id@),
{
    let x = rows[i];
    let a = rows.take(i);
    let b = rows.skip(i + 1);
    let gone = PageRow { id: x.id, active: false };
    assert(soft_deleted(rows, i) =~= a + seq![gone] + b);
    assert(rows.remove(i) =~= a + b);
    lemma_matching_concat(a + seq![gone], b, c);
    lemma_matching_concat(a, seq![gone], c);
    lemma_matching_concat(a, b, c);
    assert(seq![gone].drop_last() =~= Seq::<PageRow>::empty());
    assert(seq![gone].last() == gone);
    assert(!admitted(c, gone));
    assert(matching_ids(Seq::<PageRow>::empty(), c) =~= Seq::<Seq<u8>>::empty());
    assert(matching_ids(seq![gone], c) =~= Seq::<Seq<u8>>::empty());
    assert(matching_ids(a, c) + Seq::<Seq<u8>>::empty() =~= matching_ids(a, c));
    let m = matching_ids(a + b, c);
    assert(matching_ids(soft_deleted(rows, i), c) == m);
    if m.contains(x.id@) {
        let k = choose|k: int| 0 <= k < m.len() && m[k] == x.id@;
        lemma_matching_from_rows(a + b, c, k);
        let j = choose|j: int|
            0 <= j < (a + b).len() && m[k] == #[trigger] (a + b)[j].id@ && admitted(c, (a + b)[j]);
        crate::identifier::lemma_id_before_asymmetric(x.id@, x.id@);
        if j < i {
            assert((a + b)[j] == rows[j]);
            assert(id_before(rows[j].id@, rows[i].id@));
        } else {
            assert((a + b)[j] == rows[j + 1]);
            assert(id_before(rows[i].id@, rows[j + 1].id@));
        }
    }
    if c.descending {
        assert(!m.reverse().contains(x.id@)) by {
            if m.reverse().contains(x.id@) {
                let k = choose|k: int| 0 <= k < m.reverse().len() && m.reverse()[k] == x.id@;
                assert(m[m.len() - 1 - k] == x.id@);
            }
        }
    }
}

/// The cursor that continues `c` after the row with identifier `next`.
pub open spec fn continued(c: PaginationCursor, next: Identifier) -> PaginationCursor {
    PaginationCursor { limit: c.limit, last_seen_id: Some(next), descending: c.descending }
}

proof fn lemma_matching_agree(s: Seq<PageRow>, c1: PaginationCursor, c2: PaginationCursor)
    requires
        forall|j: int| 0 <= j < s.len() ==> admitted(c1, #[trigger] s[j]) == admitted(c2, s[j]),
    ensures
        matching_ids(s, c1) == matching_ids(s, c2),
    decreases s.len(),
{
    if s.len() > 0 {
        assert forall|j: int| 0 <= j < s.drop_last().len() implies admitted(
            c1,
            #[trigger] s.drop_last()[j],
        ) == admitted(c2, s.drop_last()[j]) by {
            assert(s.drop_last()[j] == s[j]);
        }
        lemma_matching_agree(s.drop_last(), c1, c2);
        assert(admitted(c1, s[s.len() - 1]) == admitted(c2, s[s.len() - 1]));
    }
}

proof fn lemma_matching_none(s: Seq<PageRow>, c: PaginationCursor)
    requires
        forall|j: int| 0 <= j < s.len() ==> !admitted(c, #[trigger] s[j]),
    ensures
        matching_ids(s, c) == Seq::<Seq<u8>>::empty(),
    decreases s.len(),
{
    if s.len() > 0 {
        assert forall|j: int| 0 <= j < s.drop_last().len() implies !admitted(
            c,
            #[trigger] s.drop_last()[j],
        ) by {
            assert(s.drop_last()[j] == s[j]);
        }
        lemma_matching_none(s.drop_last(), c);
        assert(!admitted(c, s[s.len() - 1]));
    } else {
        assert(matching_ids(s, c) =~= Seq::<Seq<u8>>::empty());
    }
}

proof fn lemma_locate(rows: Seq<PageRow>, c: PaginationCursor, k: int) -> (p: int)
    requires
        0 <= k < matching_ids(rows, c).len(),
    ensures
        0 <= p < rows.len(),
        admitted(c, rows[p]),
        rows[p].id@ == matching_ids(rows, c)[k],
        matching_ids(rows.take(p), c).len() == k,
    decreases rows.len(),
{
    let prev = matching_ids(rows.drop_last(), c);
    if k < prev.len() {
        let p = lemma_locate(rows.drop_last(), c, k);
        assert(rows.drop_last().take(p) =~= rows.take(p));
        assert(rows.drop_last()[p] == rows[p]);
        p
    } else {
        let p = rows.len() - 1;
        assert(rows.take(p) =~= rows.drop_last());
        p
    }
}

/// Continuing a listing after any of its rows gives exactly the rows that
/// follow that row in the listing. So asking for the next page with the last
/// identifier of a page neither repeats nor skips a row.
pub proof fn lemma_next_page_continues(
    rows: Seq<PageRow>,
    c: PaginationCursor,
    k: int,
    next: Identifier,
)
    requires
        ids_ascending(rows),
        0 <= k < listing(rows, c).len(),
        next@ == listing(rows, c)[k],
    ensures
        listing(rows, continued(c, next)) == listing(rows, c).skip(k + 1),
{
    let c2 = continued(c, next);
    let m = matching_ids(rows, c);
    if !c.descending {
        let p = lemma_locate(rows, c, k);
        let head = rows.take(p + 1);
        let tail = rows.skip(p + 1);
        assert(rows =~= head + tail);
        lemma_matching_concat(head, tail, c);
        lemma_matching_concat(head, tail, c2);
        assert forall|j: int| 0 <= j < head.len() implies !admitted(c2, #[trigger] head[j]) by {
            assert(head[j] == rows[j]);
            lemma_id_before_asymmetric(rows[j].id@, rows[p].id@);
        }
        lemma_matching_none(head, c2);
        assert forall|j: int| 0 <= j < tail.len() implies admitted(c, #[trigger] tail[j])
            == admitted(c2, tail[j]) by {
            assert(tail[j] == rows[p + 1 + j]);
            assert(id_before(rows[p].id@, rows[p + 1 + j].id@));
            if let Some(last) = c.last_seen_id {
                lemma_id_before_transitive(last@, rows[p].id@, rows[p + 1 + j].id@);
            }
        }
        lemma_matching_agree(tail, c, c2);
        assert(head.drop_last() =~= rows.take(p));
        assert(head.last() == rows[p]);
        assert(matching_ids(rows, c2) =~= matching_ids(tail, c));
        assert(m.skip(k + 1) =~= matching_ids(tail, c));
    } else {
        let kk = m.len() - 1 - k;
        assert(listing(rows, c)[k] == m[kk]);
        let p = lemma_locate(rows, c, kk);
        let front = rows.take(p);
        let rest = rows.skip(p);
        let after = rows.skip(p + 1);
        assert(rows =~= front + rest);
        assert(rows =~= rows.take(p + 1) + after);
        lemma_matching_concat(front, rest, c2);
        lemma_matching_concat(rows.take(p + 1), after, c);
        assert forall|j: int| 0 <= j < rest.len() implies !admitted(c2, #[trigger] rest[j]) by {
            assert(rest[j] == rows[p + j]);
            lemma_id_before_asymmetric(rows[p].id@, rows[p + j].id@);
        }
        lemma_matching_none(rest, c2);
        assert forall|j: int| 0 <= j < front.len() implies admitted(c, #[trigger] front[j])
            == admitted(c2, front[j]) by {
            assert(front[j] == rows[j]);
            assert(id_before(rows[j].id@, rows[p].id@));
            if let Some(last) = c.last_seen_id {
                lemma_id_before_transitive(rows[j].id@, rows[p].id@, last@);
            }
        }
        lemma_matching_agree(front, c, c2);
        assert(rows.take(p + 1).drop_last() =~= front);
        assert(rows.take(p + 1).last() == rows[p]);
        let a = matching_ids(front, c);
        let b = matching_ids(after, c);
        assert(m == a.push(next@) + b);
        assert(b.len() == k);
        assert(matching_ids(rows, c2) =~= a);
        assert((a.push(next@) + b).reverse().skip(k + 1) =~= a.reverse());
    }
}

/// The page size served for a requested one: the default when none is named,
/// else the request clamped to `1..=MAX_PAGE_LIMIT`.
pub fn clamp_limit(limit: Option<i64>) -> (r: usize)
    ensures
        r == clamped_limit(limit),
        1 <= r <= MAX_PAGE_LIMIT,
{
    match limit {
        None => DEFAULT_PAGE_LIMIT,
        Some(n) => {
            if n < 1 {
                1
            } else if n > 100 {
                MAX_PAGE_LIMIT
            } else {
                n as usize
            }
        },
    }
}

/// Selects the page that `cursor` asks for from rows kept in ascending
/// identifier order, by walking them from the end the cursor reads from.
pub fn select_page(rows: &Vec<PageRow>, cursor: &PaginationCursor) -> (r: Vec<Identifier>)
    ensures
        ids_view(r@) == page_of(rows@, *cursor),
{
    let n = rows.len();
    let limit = cursor.limit;
    let mut out: Vec<Identifier> = Vec::new();
    if !cursor.descending {
        let mut i: usize = 0;
        while i < n && out.len() < limit
            invariant
                n == rows@.len(),
                limit == cursor.limit,
                !cursor.descending,
                0 <= i <= n,
                out@.len() <= limit,
                ids_view(out@) == matching_ids(rows@.take(i as int), *cursor),
            decreases n - i,
        {
            let row = rows[i];
            assert(rows@.take(i + 1).drop_last() =~= rows@.take(i as int));
            assert(rows@.take(i + 1).last() == row);
            if cursor.admits(&row) {
                out.push(row.id);
                assert(ids_view(out@) =~= matching_ids(rows@.take(i as int), *cursor).push(
                    row.id@,
                ));
            }
            i = i + 1;
        }
        proof {
            assert(rows@ =~= rows@.take(i as int) + rows@.skip(i as int));
            lemma_matching_concat(rows@.take(i as int), rows@.skip(i as int), *cursor);
            if i == n {
                assert(rows@.skip(i as int) =~= Seq::<PageRow>::empty());
                assert(matching_ids(rows@.skip(i as int), *cursor) =~= Seq::<Seq<u8>>::empty());
                assert(ids_view(out@) =~= listing(rows@, *cursor));
            } else {
                assert(listing(rows@, *cursor).take(limit as int) =~= ids_view(out@));
            }
        }
    } else {
        let mut i: usize = n;
        while i > 0 && out.len() < limit
            invariant
                n == rows@.len(),
                limit == cursor.limit,
                cursor.descending,
                0 <= i <= n,
                out@.len() <= limit,
                ids_view(out@) == matching_ids(rows@.skip(i as int), *cursor).reverse(),
            decreases i,
        {
            let row = rows[i - 1];
            proof {
                let rest = rows@.skip(i as int);
                assert(rows@.skip(i - 1) =~= seq![row] + rest);
                lemma_matching_concat(seq![row], rest, *cursor);
                assert(seq![row].drop_last() =~= Seq::<PageRow>::empty());
                assert(seq![row].last() == row);
                assert(matching_ids(Seq::<PageRow>::empty(), *cursor) =~= Seq::<Seq<u8>>::empty());
                if admitted(*cursor, row) {
                    assert(matching_ids(seq![row], *cursor) =~= seq![row.id@]);
                } else {
                    assert(matching_ids(seq![row], *cursor) =~= Seq::<Seq<u8>>::empty());
                }
                lemma_reverse_concat(matching_ids(seq![row], *cursor), matching_ids(rest, *cursor));
            }
            if cursor.admits(&row) {
                out.push(row.id);
                assert(ids_view(out@) =~= matching_ids(rows@.skip(i as int), *cursor).reverse()
                    + seq![row.id@]);
                assert(seq![row.id@].reverse() =~= seq![row.id@]);
            } else {
                assert(matching_ids(rows@.skip(i - 1), *cursor).reverse() =~= matching_ids(
                    rows@.skip(i as int),
                    *cursor,
                ).reverse());
            }
            i = i - 1;
        }
        proof {
            assert(rows@ =~= rows@.take(i as int) + rows@.skip(i as int));
            lemma_matching_concat(rows@.take(i as int), rows@.skip(i as int), *cursor);
            lemma_reverse_concat(
                matching_ids(rows@.take(i as int), *cursor),
                matching_ids(rows@.skip(i as int), *cursor),
            );
            if i == 0 {
                assert(rows@.take(i as int) =~= Seq::<PageRow>::empty());
                assert(matching_ids(rows@.take(i as int), *cursor).reverse() =~= Seq::<
                    Seq<u8>,
                >::empty());
                assert(ids_view(out@) =~= listing(rows@, *cursor));
            } else {
                assert(listing(rows@, *cursor).take(limit as int) =~= ids_view(out@));
            }
        }
    }
    out
}

/// Relation between a page and the rows: every identifier on a page is the
/// identifier of a row that the cursor admits.
proof fn lemma_page_rows_admitted(rows: Seq<PageRow>, c: PaginationCursor, k: int)
    requires
        0 <= k < page_of(rows, c).len(),
    ensures
        exists|j: int|
            0 <= j < rows.len() && page_of(rows, c)[k] == #[trigger] rows[j].id@ && admitted(
                c,
                rows[j],
            ),
{
    let m = matching_ids(rows, c);
    if c.descending {
        assert(page_of(rows, c)[k] == m[m.len() - 1 - k]);
        lemma_matching_from_rows(rows, c, m.len() - 1 - k);
    } else {
        assert(page_of(rows, c)[k] == m[k]);
        lemma_matching_from_rows(rows, c, k);
    }
}

/// The answer to a page request whose cursor or product is not the text of
/// an identifier: 404, as if there were nothing further to list.
pub fn bad_cursor_response(e: DecodeError) -> (r: (u16, ApiResponse<()>))
    ensures
        r.0 == 404,
        r.1.status_of() == "error"@,
        r.1.message_of() == Some("Error fetching data"@),
        r.1.data_of() is None,
{
    (404, ApiResponse::new_error("Error fetching data"))
}

/// What the store knows of a comment for paging.
#[derive(Clone, Copy, Debug, PartialEq, Eq)]
pub struct CommentRow {
    pub id: Identifier,
    pub product_id: Identifier,
    pub active: bool,
}

/// The comments seen as page rows of one product: a comment of another
/// product counts as inactive.
pub open spec fn scoped_rows(rows: Seq<CommentRow>, product: Seq<u8>) -> Seq<PageRow> {
    Seq::new(
        rows.len(),
        |i: int| PageRow { id: rows[i].id, active: rows[i].active && rows[i].product_id@ == product },
    )
}

/// Whether `id` is the identifier of an active comment of `product`.
pub open spec fn active_comment_of(rows: Seq<CommentRow>, product: Seq<u8>, id: Seq<u8>) -> bool {
    exists|j: int|
        0 <= j < rows.len() && #[trigger] rows[j].id@ == id && rows[j].active && rows[j].product_id@
            == product
}

/// A page request for the comments of one product.
#[derive(Clone, Copy, Debug, PartialEq, Eq)]
pub struct CommentPagination {
    pub product_id: Identifier,
    pub cursor: PaginationCursor,
}

impl CommentPagination {
    /// Reads a comment page request: the product's text, then the page
    /// request as `PaginationCursor::from_request` reads it.
    pub fn from_request(
        limit: Option<i64>,
        product_id: &str,
        last_id: Option<&str>,
        order_by_desc: Option<bool>,
    ) -> (r: Result<CommentPagination, DecodeError>)
        ensures
            r is Err <==> (!encodes_identifier(product_id@) || (last_id matches Some(s)
                && !encodes_identifier(s@))),
            r matches Ok(p) ==> {
                &&& base32hex_of(p.product_id@) == product_id@
                &&& p.cursor.wf()
                &&& p.cursor.limit == clamped_limit(limit)
                &&& p.cursor.descending == descending_of(order_by_desc)
                &&& (last_id is None ==> p.cursor.last_seen_id is None)
                &&& (last_id matches Some(s) ==> (p.cursor.last_seen_id matches Some(id)
                    && base32hex_of(id@) == s@))
            },
    {
        let product = match base32hex_to_uuid(product_id) {
            Ok(id) => id,
            Err(e) => return Err(e),
        };
        match PaginationCursor::from_request(limit, last_id, order_by_desc) {
            Ok(cursor) => Ok(CommentPagination { product_id: product, cursor }),
            Err(e) => Err(e),
        }
    }
}

/// Selects the page of one product's comments from comments kept in
/// ascending identifier order; every comment on it is an active comment of
/// that product.
pub fn select_comment_page(rows: &Vec<CommentRow>, request: &CommentPagination) -> (r: Vec<
    Identifier,
>)
    ensures
        ids_view(r@) == page_of(scoped_rows(rows@, request.product_id@), request.cursor),
        forall|k: int|
            0 <= k < r@.len() ==> active_comment_of(rows@, request.product_id@, #[trigger] r@[k]@),
{
    let mut scoped: Vec<PageRow> = Vec::new();
    let mut i: usize = 0;
    while i < rows.len()
        invariant
            0 <= i <= rows@.len(),
            scoped@ =~= scoped_rows(rows@, request.product_id@).take(i as int),
        decreases rows@.len() - i,
    {
        let row = rows[i];
        let same = !row.product_id.precedes(&request.product_id) && !request.product_id.precedes(
            &row.product_id,
        );
        proof {
            crate::identifier::lemma_identifier_len(row.product_id);
            crate::identifier::lemma_identifier_len(request.product_id);
            crate::identifier::lemma_id_order_total(row.product_id@, request.product_id@);
        }
        scoped.push(PageRow { id: row.id, active: row.active && same });
        i = i + 1;
    }
    assert(scoped@ =~= scoped_rows(rows@, request.product_id@));
    let r = select_page(&scoped, &request.cursor);
    proof {
        let sr = scoped_rows(rows@, request.product_id@);
        assert forall|k: int| 0 <= k < r@.len() implies active_comment_of(
            rows@,
            request.product_id@,
            #[trigger] r@[k]@,
        ) by {
            assert(ids_view(r@)[k] == r@[k]@);
            lemma_page_rows_admitted(sr, request.cursor, k);
            let j = choose|j: int|
                0 <= j < sr.len() && page_of(sr, request.cursor)[k] == #[trigger] sr[j].id@
                    && admitted(request.cursor, sr[j]);
            assert(sr[j].id == rows@[j].id);
            assert(rows@[j].active && rows@[j].product_id@ == request.product_id@);
        }
    }
    r
}

} // verus!
