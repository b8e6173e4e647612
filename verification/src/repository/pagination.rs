//! What a paged listing asks of the store, and how the store's two replies
//! (the count of matching records, then the records of one page) become a
//! page.

use super::models::{pages_needed, PaginatedData, PaginatedQuery};
use vstd::prelude::*;

verus! {

/// Name of the field that holds a record's identifier, as characters.
pub open spec fn id_field_name() -> Seq<char> {
    seq!['_', 'i', 'd']
}

/// Name of the field that holds a record's identifier.
pub fn id_field() -> (name: &'static str)
    ensures
        name@ == id_field_name(),
{
    let name = "_id";
    proof {
        reveal_strlit("_id");
    }
    name
}

/// The field to order by and the direction, as the store takes them.
#[derive(Clone, Debug)]
pub struct SortDirective {
    /// Name of the field to order by.
    pub field: String,
    /// `1` for ascending, `-1` for descending.
    pub direction: i32,
}

/// Everything the store needs to fetch one page.
#[derive(Clone, Debug)]
pub struct FindPlan {
    /// Number of matching records to pass over.
    pub skip: u64,
    /// Largest number of records to return.
    pub limit: i64,
    /// Order in which the store walks the matching records.
    pub sort: SortDirective,
}

impl PaginatedQuery {
    /// The field this query orders by: the one it names, else the identifier.
    pub open spec fn spec_sort_field(&self) -> Seq<char> {
        match self.sort_by {
            Some(field) => field@,
            None => id_field_name(),
        }
    }

    /// The direction this query orders in: its own where it names a field,
    /// else descending.
    pub open spec fn spec_sort_direction(&self) -> int {
        match self.sort_by {
            Some(_) => self.sort_order.spec_direction(),
            None => -1,
        }
    }

    /// The query is well formed and its skip and limit fit the store's
    /// number types.
    pub open spec fn plannable(&self) -> bool {
        &&& self.wf()
        &&& self.spec_skip() <= u64::MAX
        &&& self.page_size <= i64::MAX
    }

    /// Tells whether a plan can be made of this query.
    pub fn is_plannable(&self) -> (ok: bool)
        ensures
            ok == self.plannable(),
    {
        if self.page < 1 || self.page_size < 1 || self.page_size > i64::MAX as u64 {
            return false;
        }
        let fits = (self.page - 1).checked_mul(self.page_size).is_some();
        fits
    }

    /// The ordering to ask of the store: by the named field in the query's
    /// direction, or by identifier, largest first, when no field is named.
    pub fn sort_directive(&self) -> (sort: SortDirective)
        ensures
            sort.field@ == self.spec_sort_field(),
            sort.direction == self.spec_sort_direction(),
    {
        match &self.sort_by {
            Some(field) => SortDirective {
                field: field.clone(),
                direction: self.sort_order.direction(),
            },
            None => SortDirective { field: id_field().to_owned(), direction: -1 },
        }
    }

    /// The fetch of the requested page: pass over the pages before it, take
    /// at most one page, in the query's order.
    pub fn find_plan(&self) -> (plan: FindPlan)
        requires
            self.plannable(),
        ensures
            plan.skip == (self.page - 1) * self.page_size,
            plan.limit == self.page_size,
            plan.sort.field@ == self.spec_sort_field(),
            plan.sort.direction == self.spec_sort_direction(),
    {
        FindPlan { skip: self.skip(), limit: self.limit(), sort: self.sort_directive() }
    }
}

/// `pages_needed` is the ceiling of the quotient: enough pages to hold every
/// record, and not one page more.
pub proof fn lemma_pages_needed_is_ceiling(total_count: nat, page_size: nat)
    requires
        page_size >= 1,
    ensures
        pages_needed(total_count as int, page_size as int) >= 0,
        pages_needed(total_count as int, page_size as int) * page_size >= total_count,
        total_count > 0 ==> (pages_needed(total_count as int, page_size as int) - 1) * page_size
            < total_count,
        total_count == 0 ==> pages_needed(total_count as int, page_size as int) == 0,
        pages_needed(total_count as int, page_size as int) <= total_count,
{
    if total_count > 0 {
        let t = total_count as int - 1;
        let d = page_size as int;
        let q = t / d;
        assert(0 <= q && q * d <= t && t < (q + 1) * d && q <= t) by (nonlinear_arith)
            requires
                t >= 0,
                d >= 1,
                q == t / d,
        ;
    }
}

/// No smaller number of pages holds every record.
pub proof fn lemma_pages_needed_is_least(total_count: nat, page_size: nat, pages: nat)
    requires
        page_size >= 1,
        pages * page_size >= total_count,
    ensures
        pages >= pages_needed(total_count as int, page_size as int),
{
    lemma_pages_needed_is_ceiling(total_count, page_size);
    let needed = pages_needed(total_count as int, page_size as int);
    if total_count > 0 && pages < needed {
        assert(pages * page_size <= (needed - 1) * page_size) by (nonlinear_arith)
            requires
                pages <= needed - 1,
                page_size >= 1,
        ;
    }
}

/// Every page up to the last one starts inside the listing: what it passes
/// over is less than the whole.
pub proof fn lemma_page_starts_within(total_count: nat, page_size: nat, page: nat)
    requires
        page_size >= 1,
        1 <= page <= pages_needed(total_count as int, page_size as int),
    ensures
        (page - 1) * page_size < total_count,
{
    lemma_pages_needed_is_ceiling(total_count, page_size);
    let needed = pages_needed(total_count as int, page_size as int);
    assert((page - 1) * page_size <= (needed - 1) * page_size) by (nonlinear_arith)
        requires
            1 <= page <= needed,
            page_size >= 1,
    ;
}

/// Number of pages of `page_size` records that `total_count` records fill:
/// the quotient, rounded up.
pub fn total_pages(total_count: u64, page_size: u64) -> (pages: u64)
    requires
        page_size >= 1,
    ensures
        pages == pages_needed(total_count as int, page_size as int),
        pages * page_size >= total_count,
        pages > 0 ==> (pages - 1) * page_size < total_count,
        total_count == 0 ==> pages == 0,
{
    proof {
        lemma_pages_needed_is_ceiling(total_count as nat, page_size as nat);
    }
    if total_count == 0 {
        0
    } else {
        (total_count - 1) / page_size + 1
    }
}

impl<T> PaginatedData<T> {
    /// The page that answers `query`, made of the store's two replies: the
    /// number of matching records and the records of the page.
    pub fn assemble(items: Vec<T>, total_count: u64, query: &PaginatedQuery) -> (page:
        PaginatedData<T>)
        requires
            query.page_size >= 1,
        ensures
            page.items@ == items@,
            page.total_count == total_count,
            page.page == query.page,
            page.page_size == query.page_size,
            page.total_pages == pages_needed(total_count as int, query.page_size as int),
            query.wf() && items@.len() <= query.page_size ==> page.wf(),
    {
        PaginatedData {
            items,
            total_count,
            page: query.page,
            page_size: query.page_size,
            total_pages: total_pages(total_count, query.page_size),
        }
    }
}

} // verus!
