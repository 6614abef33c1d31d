//! Offset-based pagination with a look-ahead probe for the next page.
use vstd::prelude::*;

use crate::response::ErrorResponse;
use crate::tables::ZipInfo;
use crate::pattern::{is_well_formed, like, like_match, well_formed};
use crate::text::{decimal, decimal_text};

verus! {

/// Number of rows in one page of a paginated listing.
pub const PAGE_SIZE: i64 = 100;

/// Message of the error returned when the page itself cannot be read.
pub const ZIPCODES_ERROR: &'static str = "Could not find zipcodes";

/// A `LIMIT` / `OFFSET` pair applied to the rows that a filter selects.
#[derive(Clone, Copy, Debug, PartialEq, Eq)]
pub struct Window {
    pub limit: i64,
    pub offset: i64,
}

/// One page of a listing, and whether a further page holds any row.
pub struct Paginated<T> {
    pub values: Vec<T>,
    pub page: i64,
    pub has_next: bool,
}

/// Filters of a zip-code search; every one of them may be left out.
pub struct ZipcodeRequest {
    pub partial_zip: Option<String>,
    pub state: Option<String>,
    pub page: Option<i64>,
}

impl ZipcodeRequest {
    /// The requested page; the first one where none is given.
    pub fn page_or_first(&self) -> (r: i64)
        ensures
            r == (match self.page {
                Some(p) => p,
                None => 0,
            }),
    {
        match self.page {
            Some(p) => p,
            None => 0,
        }
    }

    /// Whether the search selects `z`: its state matches the state pattern, and the
    /// decimal text of its zip code matches the partial zip code followed by `%`.
    pub open spec fn spec_selects(self, z: ZipInfo) -> bool {
        &&& (self.state matches Some(s) ==> like(s@, z.state@))
        &&& (self.partial_zip matches Some(p) ==> like(p@ + "%"@, decimal(z.zip as int)))
    }

    /// Whether a store accepts the state pattern, where one is given.
    pub open spec fn spec_patterns_ok(self) -> bool {
        self.state matches Some(s) ==> well_formed(s@)
    }

    /// Whether a store accepts the state pattern, where one is given.
    pub fn patterns_ok(&self) -> (r: bool)
        ensures
            r == self.spec_patterns_ok(),
    {
        match &self.state {
            Some(s) => is_well_formed(s.as_str()),
            None => true,
        }
    }

    /// Whether the search selects `z`.
    pub fn selects(&self, z: &ZipInfo) -> (r: bool)
        ensures
            r == self.spec_selects(*z),
    {
        let state_ok = match &self.state {
            Some(s) => like_match(s.as_str(), z.state.as_str()),
            None => true,
        };
        if !state_ok {
            return false;
        }
        match &self.partial_zip {
            Some(p) => {
                let pattern = zip_pattern(p);
                let text = decimal_text(z.zip);
                like_match(pattern.as_str(), text.as_str())
            },
            None => true,
        }
    }
}

/// The pattern that matches the text of every zip code starting with `partial`.
pub fn zip_pattern(partial: &String) -> (r: String)
    ensures
        r@ == partial@ + "%"@,
{
    let mut s = partial.clone();
    s.append("%");
    s
}

/// The zip codes of the rows of `zips` that `q` selects, in table order.
pub open spec fn selected_zips(q: ZipcodeRequest, zips: Seq<ZipInfo>) -> Seq<i32>
    decreases zips.len(),
{
    if zips.len() == 0 {
        seq![]
    } else {
        let e = selected_zips(q, zips.drop_last());
        if q.spec_selects(zips.last()) {
            e.push(zips.last().zip)
        } else {
            e
        }
    }
}

/// The page whose rows can be addressed: a non-negative index whose offset fits in `i64`.
pub open spec fn page_fits(page: int) -> bool {
    0 <= page && page * PAGE_SIZE <= i64::MAX
}

/// The rows of `s` that a window at `offset` of at most `limit` rows selects.
pub open spec fn window_of<T>(s: Seq<T>, offset: int, limit: int) -> Seq<T> {
    let lo = if offset < s.len() { offset } else { s.len() as int };
    let hi = if offset + limit < s.len() { offset + limit } else { s.len() as int };
    s.subrange(lo, hi)
}

/// Number of rows on page `page` of a listing of `n` rows.
pub open spec fn page_len(n: int, page: int) -> int {
    let rest = n - page * PAGE_SIZE;
    if rest <= 0 {
        0
    } else if rest < PAGE_SIZE {
        rest
    } else {
        PAGE_SIZE as int
    }
}

/// The window that reads page `page`, or `None` where no such page can be addressed.
pub fn page_window(page: i64) -> (r: Option<Window>)
    ensures
        r is Some <==> page_fits(page as int),
        r matches Some(w) ==> w.limit == PAGE_SIZE && w.offset == page * PAGE_SIZE,
{
    if page < 0 || page > i64::MAX / PAGE_SIZE {
        None
    } else {
        Some(Window { limit: PAGE_SIZE, offset: page * PAGE_SIZE })
    }
}

/// The one-row window that probes whether page `page + 1` holds any row.
pub fn lookahead_window(page: i64) -> (r: Option<Window>)
    ensures
        r is Some <==> (0 <= page && page_fits(page + 1)),
        r matches Some(w) ==> w.limit == 1 && w.offset == (page + 1) * PAGE_SIZE,
{
    if page < 0 || page >= i64::MAX / PAGE_SIZE {
        None
    } else {
        Some(Window { limit: 1, offset: (page + 1) * PAGE_SIZE })
    }
}

/// Whether the look-ahead probe found a row; a failed probe counts as no next page.
pub fn has_next_from<T, E>(probe: &Result<Vec<T>, E>) -> (r: bool)
    ensures
        r == (probe matches Ok(rows) && rows@.len() > 0),
{
    match probe {
        Ok(rows) => rows.len() > 0,
        Err(_) => false,
    }
}

/// Assembles the response of a listing from the result of the page query and of
/// the look-ahead probe. Only a failed page query is an error.
pub fn finish_page<T, E, F>(page: i64, rows: Result<Vec<T>, E>, probe: Result<Vec<T>, F>) -> (r:
    Result<Paginated<T>, ErrorResponse>)
    ensures
        rows is Ok <==> r is Ok,
        r matches Ok(p) ==> {
            &&& rows matches Ok(v) && p.values@ == v@
            &&& p.page == page
            &&& p.has_next == (probe matches Ok(ahead) && ahead@.len() > 0)
        },
        r matches Err(e) ==> e.error@ == ZIPCODES_ERROR@,
{
    let has_next = has_next_from(&probe);
    match rows {
        Ok(values) => Ok(Paginated { values, page, has_next }),
        Err(_) => Err(ErrorResponse::new(ZIPCODES_ERROR)),
    }
}

/// The rows of `rows` that `w` selects, in their order.
pub fn take_window<T: Copy>(rows: &Vec<T>, w: Window) -> (r: Vec<T>)
    requires
        w.offset >= 0,
        w.limit >= 0,
    ensures
        r@ == window_of(rows@, w.offset as int, w.limit as int),
{
    let n = rows.len();
    let lo: usize = if (w.offset as i128) < (n as i128) {
        w.offset as usize
    } else {
        n
    };
    let hi: usize = if (w.offset as i128) + (w.limit as i128) < (n as i128) {
        ((w.offset as i128) + (w.limit as i128)) as usize
    } else {
        n
    };
    let mut out: Vec<T> = Vec::new();
    let mut i: usize = lo;
    while i < hi
        invariant
            lo <= i <= hi <= n == rows@.len(),
            lo == (if w.offset < n { w.offset as int } else { n as int }),
            hi == (if w.offset + w.limit < n { w.offset + w.limit } else { n as int }),
            out@ == rows@.subrange(lo as int, i as int),
        decreases hi - i,
    {
        out.push(rows[i]);
        i = i + 1;
        assert(out@ =~= rows@.subrange(lo as int, i as int));
    }
    out
}

/// Lists page `page` of the rows `matching` that a search selects, in their order,
/// by the same two reads that a store answers: the page itself and a one-row probe
/// past its end.
pub fn list_page<T: Copy>(matching: &Vec<T>, page: i64) -> (r: Result<Paginated<T>, ErrorResponse>)
    ensures
        r is Ok <==> page_fits(page as int),
        r matches Ok(p) ==> {
            &&& p.values@ == window_of(matching@, page * PAGE_SIZE, PAGE_SIZE as int)
            &&& p.values@.len() == page_len(matching@.len() as int, page as int)
            &&& p.page == page
            &&& p.has_next == (page_fits(page + 1) && matching@.len() > (page + 1) * PAGE_SIZE)
        },
        r matches Err(e) ==> e.error@ == ZIPCODES_ERROR@,
{
    match page_window(page) {
        None => Err(ErrorResponse::new(ZIPCODES_ERROR)),
        Some(w) => {
            let values = take_window(matching, w);
            let probe: Result<Vec<T>, ()> = match lookahead_window(page) {
                Some(a) => Ok(take_window(matching, a)),
                None => Err(()),
            };
            proof {
                lemma_window_len(matching@, page as int);
            }
            finish_page(page, Ok::<Vec<T>, ()>(values), probe)
        }
    }
}

/// Runs a zip-code search on the zip table: one page of the zip codes that it
/// selects, in table order. A state pattern that the store refuses fails the
/// search as a failed page query does.
pub fn search_zipcodes(q: &ZipcodeRequest, zips: &Vec<ZipInfo>) -> (r: Result<Paginated<i32>, ErrorResponse>)
    ensures
        ({
            let page = match q.page {
                Some(p) => p,
                None => 0,
            };
            let matching = selected_zips(*q, zips@);
            &&& r is Ok <==> (page_fits(page as int) && q.spec_patterns_ok())
            &&& r matches Ok(p) ==> {
                &&& p.values@ == window_of(matching, page * PAGE_SIZE, PAGE_SIZE as int)
                &&& p.values@.len() == page_len(matching.len() as int, page as int)
                &&& p.page == page
                &&& p.has_next == (page_fits(page + 1) && matching.len() > (page + 1) * PAGE_SIZE)
            }
            &&& r matches Err(e) ==> e.error@ == ZIPCODES_ERROR@
        }),
{
    if !q.patterns_ok() {
        return Err(ErrorResponse::new(ZIPCODES_ERROR));
    }
    let mut matching: Vec<i32> = Vec::new();
    let mut i: usize = 0;
    while i < zips.len()
        invariant
            i <= zips@.len(),
            matching@ == selected_zips(*q, zips@.subrange(0, i as int)),
        decreases zips@.len() - i,
    {
        proof {
            assert(zips@.subrange(0, i as int + 1).drop_last() =~= zips@.subrange(0, i as int));
        }
        if q.selects(&zips[i]) {
            matching.push(zips[i].zip);
        }
        i = i + 1;
    }
    assert(zips@.subrange(0, i as int) =~= zips@);
    list_page(&matching, q.page_or_first())
}

/// A page holds `min(P, max(0, n - page * P))` rows of a listing of `n` rows.
pub proof fn lemma_window_len<T>(s: Seq<T>, page: int)
    requires
        page >= 0,
    ensures
        window_of(s, page * PAGE_SIZE, PAGE_SIZE as int).len() == page_len(s.len() as int, page),
{
    assert(page * PAGE_SIZE >= 0) by (nonlinear_arith)
        requires
            page >= 0,
    ;
}

} // verus!
