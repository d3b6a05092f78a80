//! Retrieval of stored messages: an optional case-insensitive filter on the
//! author's name, then one page of the rows that pass it, with the filtered
//! total and the number of pages.

use vstd::prelude::*;
use crate::chars::to_chars;
use crate::text::{contains, occurs_at, occurs_at_exec};

verus! {

/// Rows per page when the caller names none.
pub const DEFAULT_PAGE_SIZE: i64 = 5;

/// The lowercase form of a text, as `str::to_lowercase` gives it.
pub uninterp spec fn lower_of(s: Seq<char>) -> Seq<char>;

/// Relies on `str::to_lowercase`: the lowercase form depends on the
/// characters alone, and the empty text stays empty.
#[verifier::external_body]
fn lowercase(s: &str) -> (r: String)
    ensures
        r@ == lower_of(s@),
        s@.len() == 0 ==> r@.len() == 0,
{
    s.to_lowercase()
}

/// Whether `pattern` is a substring of `text`.
pub fn contains_text(text: &str, pattern: &str) -> (r: bool)
    ensures
        r == contains(text@, pattern@),
{
    let t = to_chars(text);
    let p = to_chars(pattern);
    let mut i: usize = 0;
    while i < t.len()
        invariant
            i <= t.len(),
            t@ == text@,
            p@ == pattern@,
            forall|j: int| 0 <= j < i ==> !occurs_at(t@, p@, j),
        decreases t.len() - i,
    {
        if occurs_at_exec(&t, &p, i) {
            return true;
        }
        i = i + 1;
    }
    let last = occurs_at_exec(&t, &p, i);
    assert(forall|j: int| j > i ==> !occurs_at(t@, p@, j));
    last
}

/// Whether a name matches a search, ignoring case: the lowercase search is
/// a substring of the lowercase name.
pub fn name_matches(name: &str, search: &str) -> (r: bool)
    ensures
        r == contains(lower_of(name@), lower_of(search@)),
{
    let folded_name = lowercase(name);
    let folded_search = lowercase(search);
    contains_text(folded_name.as_str(), folded_search.as_str())
}

/// A stored message.
#[derive(Debug)]
pub struct Message {
    pub id: i32,
    pub author_name: String,
    pub body: String,
}

/// A stored message, as values.
pub struct MessageView {
    pub id: i32,
    pub author_name: Seq<char>,
    pub body: Seq<char>,
}

impl View for Message {
    type V = MessageView;

    open spec fn view(&self) -> MessageView {
        MessageView { id: self.id, author_name: self.author_name@, body: self.body@ }
    }
}

/// The values of a sequence of messages.
pub open spec fn views(rows: Seq<Message>) -> Seq<MessageView> {
    rows.map_values(|m: Message| m@)
}

/// The value of an optional search text.
pub open spec fn search_view(search: Option<&str>) -> Option<Seq<char>> {
    match search {
        Some(s) => Some(s@),
        None => None,
    }
}

/// A row passes the search: there is none, or it matches the name ignoring case.
pub open spec fn row_matches(m: MessageView, search: Option<Seq<char>>) -> bool {
    search is None || contains(lower_of(m.author_name), lower_of(search->Some_0))
}

/// The rows that pass the search, in their order.
pub open spec fn matching(rows: Seq<MessageView>, search: Option<Seq<char>>) -> Seq<MessageView>
    decreases rows.len(),
{
    if rows.len() == 0 {
        rows
    } else {
        let before = matching(rows.drop_last(), search);
        if row_matches(rows.last(), search) {
            before.push(rows.last())
        } else {
            before
        }
    }
}

/// The rows from index `offset` on, at most `size` of them.
pub open spec fn page_slice(rows: Seq<MessageView>, offset: int, size: int) -> Seq<MessageView> {
    let start = if offset < rows.len() { offset } else { rows.len() as int };
    let end = if start + size < rows.len() { start + size } else { rows.len() as int };
    rows.subrange(start, end)
}

/// The number of pages of `size` rows that `total` rows fill: `total / size`
/// rounded up.
pub open spec fn page_count(total: int, size: int) -> int {
    (total + size - 1) / size
}

/// A page number and a page size, both at least 1.
#[derive(Debug, Clone, Copy, PartialEq, Eq, Structural)]
pub struct PageRequest {
    pub page: i64,
    pub page_size: i64,
}

impl PageRequest {
    /// Both numbers are at least 1.
    pub open spec fn wf(&self) -> bool {
        self.page >= 1 && self.page_size >= 1
    }

    /// The rows before this page.
    pub open spec fn skipped(&self) -> int {
        (self.page - 1) * self.page_size
    }

    /// The request for the given parameters: page 1 and the default size
    /// where they are missing, and 1 where they are below 1.
    pub fn from_params(page: Option<i64>, page_size: Option<i64>) -> (r: PageRequest)
        ensures
            r.wf(),
            r.page == (match page {
                Some(p) => if p >= 1 { p } else { 1 },
                None => 1,
            }),
            r.page_size == (match page_size {
                Some(s) => if s >= 1 { s } else { 1 },
                None => DEFAULT_PAGE_SIZE,
            }),
    {
        let page = match page {
            Some(p) => if p >= 1 { p } else { 1 },
            None => 1,
        };
        let page_size = match page_size {
            Some(s) => if s >= 1 { s } else { 1 },
            None => DEFAULT_PAGE_SIZE,
        };
        PageRequest { page, page_size }
    }

    /// The rows to skip, `(page - 1) * page_size`, held at `i64::MAX`
    /// where it would be larger.
    pub fn offset(&self) -> (r: i64)
        requires
            self.wf(),
        ensures
            r == (if self.skipped() <= i64::MAX { self.skipped() } else { i64::MAX as int }),
    {
        let before = self.page - 1;
        assert(before * self.page_size >= 0) by (nonlinear_arith)
            requires
                before >= 0,
                self.page_size >= 1,
        ;
        match before.checked_mul(self.page_size) {
            Some(n) => n,
            None => i64::MAX,
        }
    }
}

/// The number of pages of `page_size` rows that `total` rows fill.
pub fn total_pages(total: i64, page_size: i64) -> (r: i64)
    requires
        total >= 0,
        page_size >= 1,
    ensures
        r == page_count(total as int, page_size as int),
{
    let q = total / page_size;
    let rem = total % page_size;
    proof {
        vstd::arithmetic::div_mod::lemma_fundamental_div_mod(total as int, page_size as int);
        let t = total as int;
        let s = page_size as int;
        assert((q + 1) * s == q * s + s && q * s >= 0) by (nonlinear_arith)
            requires
                s >= 1,
                q >= 0,
        ;
        assert(q <= t) by (nonlinear_arith)
            requires
                q * s <= t,
                s >= 1,
                q >= 0,
        ;
        assert(rem > 0 ==> q < t) by (nonlinear_arith)
            requires
                q * s + rem == t,
                s >= 1,
                q >= 0,
        ;
        if rem == 0 {
            assert((t + s - 1) / s == q) by {
                vstd::arithmetic::div_mod::lemma_fundamental_div_mod_converse(t + s - 1, s, q as int, s - 1);
            }
        } else {
            assert((t + s - 1) / s == q + 1) by {
                vstd::arithmetic::div_mod::lemma_fundamental_div_mod_converse(
                    t + s - 1,
                    s,
                    q + 1,
                    rem - 1,
                );
            }
        }
    }
    if rem == 0 {
        q
    } else {
        q + 1
    }
}

/// One page of messages, with the filtered total, the page number and the
/// number of pages.
#[derive(Debug)]
pub struct MessagePage {
    pub data: Vec<Message>,
    pub total: i64,
    pub page: i64,
    pub total_pages: i64,
}

proof fn lemma_views_take(rows: Seq<Message>, i: int)
    requires
        0 <= i < rows.len(),
    ensures
        views(rows.take(i + 1)).drop_last() == views(rows.take(i)),
        views(rows.take(i + 1)).last() == rows[i]@,
        views(rows.take(i + 1)).len() == i + 1,
{
    assert(views(rows.take(i + 1)).drop_last() =~= views(rows.take(i)));
}

/// The page that `req` names of the rows that pass `search`, in the order
/// of `rows`, with the number of rows that pass and the pages they fill.
pub fn list_messages(rows: &Vec<Message>, search: Option<&str>, req: &PageRequest) -> (r: MessagePage)
    requires
        req.wf(),
        rows.len() <= i64::MAX,
    ensures
        views(r.data@) == page_slice(
            matching(views(rows@), search_view(search)),
            req.skipped(),
            req.page_size as int,
        ),
        r.total == matching(views(rows@), search_view(search)).len(),
        r.page == req.page,
        r.total_pages == page_count(r.total as int, req.page_size as int),
{
    let ghost q = search_view(search);
    let folded_search: Option<String> = match search {
        Some(s) => Some(lowercase(s)),
        None => None,
    };
    let mut hits: Vec<Message> = Vec::new();
    let mut i: usize = 0;
    while i < rows.len()
        invariant
            i <= rows.len(),
            q == search_view(search),
            folded_search is Some <==> q is Some,
            folded_search is Some ==> folded_search->Some_0@ == lower_of(q->Some_0),
            views(hits@) == matching(views(rows@.take(i as int)), q),
            hits.len() <= i,
        decreases rows.len() - i,
    {
        let row = &rows[i];
        let keep = match &folded_search {
            Some(fs) => {
                let folded_name = lowercase(row.author_name.as_str());
                contains_text(folded_name.as_str(), fs.as_str())
            },
            None => true,
        };
        proof {
            lemma_views_take(rows@, i as int);
        }
        if keep {
            hits.push(Message { id: row.id, author_name: row.author_name.clone(), body: row.body.clone() });
            assert(views(hits@) =~= matching(views(rows@.take(i as int)), q).push(rows@[i as int]@));
        } else {
            assert(views(hits@) =~= matching(views(rows@.take(i as int)), q));
        }
        i = i + 1;
    }
    assert(rows@.take(rows.len() as int) =~= rows@);
    let total = hits.len() as i64;
    let offset = req.offset();
    let start: usize = if offset as u64 >= hits.len() as u64 { hits.len() } else { offset as usize };
    let room = hits.len() - start;
    let count: usize = if req.page_size as u64 >= room as u64 { room } else { req.page_size as usize };
    let mut data: Vec<Message> = Vec::new();
    let mut j: usize = 0;
    while j < count
        invariant
            j <= count,
            start + count <= hits.len(),
            views(data@) == views(hits@).subrange(start as int, start + j),
        decreases count - j,
    {
        let row = &hits[start + j];
        let ghost before = data@;
        data.push(Message { id: row.id, author_name: row.author_name.clone(), body: row.body.clone() });
        assert(views(data@) =~= views(before).push(hits@[start + j]@));
        assert(views(hits@).subrange(start as int, start + j + 1) =~= views(hits@).subrange(
            start as int,
            start + j,
        ).push(views(hits@)[start + j]));
        j = j + 1;
    }
    MessagePage { data, total, page: req.page, total_pages: total_pages(total, req.page_size) }
}

/// The search keeps exactly the rows that match it: what it returns is the
/// filter of the rows by the match, so every row returned matches, every
/// matching row is returned, and the total counts the matching rows alone.
pub proof fn lemma_search_filters(rows: Seq<MessageView>, search: Option<Seq<char>>)
    ensures
        matching(rows, search) == rows.filter(|m: MessageView| row_matches(m, search)),
        forall|i: int| 0 <= i < matching(rows, search).len() ==> row_matches(#[trigger] matching(rows, search)[i], search),
        forall|i: int| 0 <= i < rows.len() && row_matches(rows[i], search) ==> #[trigger] matching(rows, search).contains(rows[i]),
    decreases rows.len(),
{
    let pred = |m: MessageView| row_matches(m, search);
    reveal(Seq::filter);
    if rows.len() > 0 {
        lemma_search_filters(rows.drop_last(), search);
    }
    assert forall|i: int| 0 <= i < matching(rows, search).len() implies row_matches(
        #[trigger] matching(rows, search)[i],
        search,
    ) by {
        rows.lemma_filter_pred(pred, i);
    }
    assert forall|i: int| 0 <= i < rows.len() && row_matches(rows[i], search) implies #[trigger] matching(
        rows,
        search,
    ).contains(rows[i]) by {
        rows.lemma_filter_contains(pred, i);
    }
}

/// Every page before the last holds `size` rows, the last holds the rest,
/// and a page past the last holds none; the page count is the fewest pages
/// of `size` rows that hold every row.
pub proof fn lemma_page_sizes(rows: Seq<MessageView>, req: PageRequest)
    requires
        req.wf(),
    ensures
        page_slice(rows, req.skipped(), req.page_size as int).len() == (if req.skipped() >= rows.len() {
            0
        } else if rows.len() - req.skipped() < req.page_size {
            rows.len() - req.skipped()
        } else {
            req.page_size as int
        }),
        page_count(rows.len() as int, req.page_size as int) >= 0,
        page_count(rows.len() as int, req.page_size as int) * req.page_size >= rows.len(),
        (page_count(rows.len() as int, req.page_size as int) - 1) * req.page_size < rows.len(),
        req.page > page_count(rows.len() as int, req.page_size as int) ==> page_slice(
            rows,
            req.skipped(),
            req.page_size as int,
        ).len() == 0,
{
    let n = rows.len() as int;
    let s = req.page_size as int;
    let pc = page_count(n, s);
    let x = n + s - 1;
    vstd::arithmetic::div_mod::lemma_fundamental_div_mod(x, s);
    assert(0 <= x % s < s) by {
        vstd::arithmetic::div_mod::lemma_mod_bound(x, s);
    }
    assert(pc >= 0) by {
        vstd::arithmetic::div_mod::lemma_div_pos_is_pos(x, s);
    }
    assert(pc * s >= n && (pc - 1) * s < n) by (nonlinear_arith)
        requires
            x == s * pc + x % s,
            0 <= x % s < s,
            x == n + s - 1,
    ;
    if req.page > pc {
        assert(req.skipped() >= n) by (nonlinear_arith)
            requires
                req.page - 1 >= pc,
                pc * s >= n,
                s >= 1,
                req.skipped() == (req.page - 1) * s,
        ;
    }
}

/// Ids fall strictly from each row to the next.
pub open spec fn ids_descending(rows: Seq<MessageView>) -> bool {
    forall|i: int, j: int| 0 <= i < j < rows.len() ==> rows[i].id > rows[j].id
}

proof fn lemma_matching_from_rows(rows: Seq<MessageView>, search: Option<Seq<char>>)
    ensures
        forall|k: int| 0 <= k < matching(rows, search).len() ==> #[trigger] rows.contains(matching(rows, search)[k]),
    decreases rows.len(),
{
    if rows.len() > 0 {
        let rest = rows.drop_last();
        lemma_matching_from_rows(rest, search);
        assert forall|k: int| 0 <= k < matching(rows, search).len() implies #[trigger] rows.contains(
            matching(rows, search)[k],
        ) by {
            if k < matching(rest, search).len() {
                let x = matching(rest, search)[k];
                assert(rest.contains(x));
                let m = choose|m: int| 0 <= m < rest.len() && rest[m] == x;
                assert(rows[m] == x);
            } else {
                assert(rows[rows.len() - 1] == rows.last());
            }
        }
    }
}

/// Rows given newest first come out newest first: the search and the page
/// keep their order.
pub proof fn lemma_order_kept(rows: Seq<MessageView>, search: Option<Seq<char>>, offset: int, size: int)
    requires
        ids_descending(rows),
        offset >= 0,
        size >= 0,
    ensures
        ids_descending(matching(rows, search)),
        ids_descending(page_slice(matching(rows, search), offset, size)),
    decreases rows.len(),
{
    if rows.len() > 0 {
        let rest = rows.drop_last();
        lemma_order_kept(rest, search, offset, size);
        lemma_matching_from_rows(rest, search);
        let m = matching(rows, search);
        let before = matching(rest, search);
        assert forall|i: int, j: int| 0 <= i < j < m.len() implies m[i].id > m[j].id by {
            if j >= before.len() {
                assert(rest.contains(before[i]));
                let k = choose|k: int| 0 <= k < rest.len() && rest[k] == before[i];
                assert(rows[k] == before[i]);
                assert(rows[rows.len() - 1] == m[j]);
            }
        }
    }
    let m = matching(rows, search);
    let p = page_slice(m, offset, size);
    assert forall|i: int, j: int| 0 <= i < j < p.len() implies p[i].id > p[j].id by {
        let start = if offset < m.len() { offset } else { m.len() as int };
        assert(p[i] == m[start + i] && p[j] == m[start + j]);
    }
}

} // verus!
