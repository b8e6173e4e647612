//! Query and response values for paged and listed retrieval.

use vstd::prelude::*;

verus! {

/// Direction in which results are ordered.
#[derive(Clone, Copy, Debug, PartialEq, Eq, Structural)]
pub enum SortOrder {
    /// Largest first.
    Desc,
    /// Smallest first.
    Asc,
}

impl SortOrder {
    /// The number by which the store knows this direction: `1` for
    /// ascending, `-1` for descending.
    pub open spec fn spec_direction(self) -> int {
        match self {
            SortOrder::Asc => 1,
            SortOrder::Desc => -1,
        }
    }

    /// The number by which the store knows this direction: `1` for
    /// ascending, `-1` for descending.
    pub fn direction(&self) -> (d: i32)
        ensures
            d == self.spec_direction(),
    {
        match self {
            SortOrder::Asc => 1,
            SortOrder::Desc => -1,
        }
    }
}

impl Default for SortOrder {
    /// Results come largest first unless asked otherwise.
    fn default() -> (order: SortOrder)
        ensures
            order == SortOrder::Desc,
    {
        SortOrder::Desc
    }
}

/// A request for one page of a filtered, ordered listing.
#[derive(Clone, Debug)]
pub struct PaginatedQuery {
    /// Page number, counted from 1.
    pub page: u64,
    /// Number of records on a page, at least 1.
    pub page_size: u64,
    /// Field to order by; the identifier when absent.
    pub sort_by: Option<String>,
    /// Direction of the ordering.
    pub sort_order: SortOrder,
    /// Free-text search term.
    pub search: Option<String>,
    /// Field filters, as pairs of field name and wanted value.
    pub filters: Option<Vec<(String, String)>>,
}

impl PaginatedQuery {
    /// A query is well formed when pages are counted from 1 and hold at
    /// least one record.
    pub open spec fn wf(&self) -> bool {
        &&& self.page >= 1
        &&& self.page_size >= 1
    }

    /// Number of records that precede the requested page.
    pub open spec fn spec_skip(&self) -> int {
        (self.page - 1) * self.page_size
    }

    /// Number of records that precede the requested page.
    pub fn skip(&self) -> (n: u64)
        requires
            self.page >= 1,
            self.spec_skip() <= u64::MAX,
        ensures
            n == self.spec_skip(),
            n == (self.page - 1) * self.page_size,
    {
        (self.page - 1) * self.page_size
    }

    /// Largest number of records the requested page may hold.
    pub fn limit(&self) -> (n: i64)
        requires
            self.page_size <= i64::MAX,
        ensures
            n == self.page_size,
    {
        self.page_size as i64
    }
}

impl Default for PaginatedQuery {
    /// The first page of ten records, largest identifier first, unfiltered.
    fn default() -> (query: PaginatedQuery)
        ensures
            query.page == 1,
            query.page_size == 10,
            query.sort_by is None,
            query.sort_order == SortOrder::Desc,
            query.search is None,
            query.filters is None,
            query.wf(),
    {
        PaginatedQuery {
            page: 1,
            page_size: 10,
            sort_by: None,
            sort_order: SortOrder::Desc,
            search: None,
            filters: None,
        }
    }
}

/// `f` may turn every element of `src` into the element of `out` at the same place.
pub open spec fn mapped_by<T, P, F: FnMut(T) -> P>(f: F, src: Seq<T>, out: Seq<P>) -> bool {
    &&& out.len() == src.len()
    &&& forall|i: int| 0 <= i < src.len() ==> call_ensures(f, (src[i],), #[trigger] out[i])
}

/// `f` may succeed on every element of `src`, giving the element of `out` at the same place.
pub open spec fn all_converted<T, P, E, F: FnMut(T) -> Result<P, E>>(
    f: F,
    src: Seq<T>,
    out: Seq<P>,
) -> bool {
    &&& out.len() == src.len()
    &&& forall|i: int|
        0 <= i < src.len() ==> call_ensures(f, (src[i],), Ok::<P, E>(#[trigger] out[i]))
}

/// `f` may succeed on `x`.
pub open spec fn converts<T, P, E, F: FnMut(T) -> Result<P, E>>(f: F, x: T) -> bool {
    exists|p: P| call_ensures(f, (x,), Ok::<P, E>(p))
}

/// `f` may succeed on the first `k` elements of `src` and fail with `e` on the next one.
pub open spec fn fails_first_at<T, P, E, F: FnMut(T) -> Result<P, E>>(
    f: F,
    src: Seq<T>,
    k: int,
    e: E,
) -> bool {
    &&& 0 <= k < src.len()
    &&& call_ensures(f, (src[k],), Err::<P, E>(e))
    &&& converts_first::<T, P, E, F>(f, src, k)
}

/// `e` is the failure of `f` on the first element of `src` that it rejects.
pub open spec fn first_failure<T, P, E, F: FnMut(T) -> Result<P, E>>(
    f: F,
    src: Seq<T>,
    e: E,
) -> bool {
    exists|k: int| fails_first_at::<T, P, E, F>(f, src, k, e)
}

/// `f` may succeed on each of the first `k` elements of `src`.
pub open spec fn converts_first<T, P, E, F: FnMut(T) -> Result<P, E>>(
    f: F,
    src: Seq<T>,
    k: int,
) -> bool {
    forall|j: int| 0 <= j < k ==> converts::<T, P, E, F>(f, #[trigger] src[j])
}

/// `f` can be called on every element of `src` that converting in order may
/// reach: on each one before which it may have succeeded throughout.
pub open spec fn callable_in_order<T, P, E, F: FnMut(T) -> Result<P, E>>(
    f: F,
    src: Seq<T>,
) -> bool {
    forall|i: int|
        0 <= i < src.len() && #[trigger] converts_first::<T, P, E, F>(f, src, i) ==> call_requires(
            f,
            (src[i],),
        )
}

/// `f` may fail on `x`.
pub open spec fn rejects<T, P, E, F: FnMut(T) -> Result<P, E>>(f: F, x: T) -> bool {
    exists|e: E| call_ensures(f, (x,), Err::<P, E>(e))
}

/// `out` is what converting `src` with `f` may give: every conversion where
/// all succeed, else the first failure and nothing more. So it is a
/// success where `f` cannot fail on any element, and a failure where `f`
/// cannot succeed on some element.
pub open spec fn try_mapped_by<T, P, E, F: FnMut(T) -> Result<P, E>>(
    f: F,
    src: Seq<T>,
    out: Result<Seq<P>, E>,
) -> bool {
    &&& match out {
        Ok(converted) => all_converted(f, src, converted),
        Err(e) => first_failure::<T, P, E, F>(f, src, e),
    }
    &&& (forall|i: int| 0 <= i < src.len() ==> !rejects::<T, P, E, F>(f, #[trigger] src[i]))
        ==> out is Ok
    &&& (exists|i: int| 0 <= i < src.len() && !converts::<T, P, E, F>(f, #[trigger] src[i]))
        ==> out is Err
}

/// The conversions or the failure of a whole, as sequences.
pub open spec fn items_of<P, E>(out: Result<Vec<P>, E>) -> Result<Seq<P>, E> {
    match out {
        Ok(converted) => Ok(converted@),
        Err(e) => Err(e),
    }
}

/// Applies `f` to every element in order and collects what it returns.
fn map_items<T, P, F>(items: Vec<T>, f: F) -> (out: Vec<P>) where F: FnMut(T) -> P
    requires
        forall|i: int| 0 <= i < items@.len() ==> call_requires(f, (#[trigger] items@[i],)),
    ensures
        mapped_by(f, items@, out@),
{
    let mut call = f;
    let mut out: Vec<P> = Vec::new();
    for item in it: items.into_iter()
        invariant
            it.seq() == items@,
            call == f,
            out@.len() == it.index(),
            forall|i: int| 0 <= i < items@.len() ==> call_requires(f, (#[trigger] items@[i],)),
            forall|i: int| 0 <= i < it.index() ==> call_ensures(f, (items@[i],), #[trigger] out@[i]),
    {
        let converted = call(item);
        out.push(converted);
    }
    out
}

/// Applies `f` to the elements in order until one fails; collects the
/// successes only if there is no failure.
fn try_map_items<T, P, E, F>(items: Vec<T>, f: F) -> (out: Result<Vec<P>, E>) where
    F: FnMut(T) -> Result<P, E>,

    requires
        callable_in_order::<T, P, E, F>(f, items@),
    ensures
        try_mapped_by(f, items@, items_of(out)),
{
    let mut call = f;
    let mut out: Vec<P> = Vec::new();
    for item in it: items.into_iter()
        invariant
            it.seq() == items@,
            call == f,
            out@.len() == it.index(),
            callable_in_order::<T, P, E, F>(f, items@),
            forall|i: int|
                0 <= i < it.index() ==> call_ensures(
                    f,
                    (items@[i],),
                    Ok::<P, E>(#[trigger] out@[i]),
                ),
    {
        let ghost k = it.index() as int;
        proof {
            assert forall|j: int| 0 <= j < k implies converts::<T, P, E, F>(
                f,
                #[trigger] items@[j],
            ) by {
                assert(call_ensures(f, (items@[j],), Ok::<P, E>(out@[j])));
            }
            assert(converts_first::<T, P, E, F>(f, items@, k));
        }
        match call(item) {
            Ok(converted) => {
                out.push(converted);
            },
            Err(e) => {
                proof {
                    assert(fails_first_at::<T, P, E, F>(f, items@, k, e));
                }
                return Err(e);
            },
        }
    }
    proof {
        assert forall|i: int| 0 <= i < items@.len() implies converts::<T, P, E, F>(
            f,
            #[trigger] items@[i],
        ) by {
            assert(call_ensures(f, (items@[i],), Ok::<P, E>(out@[i])));
        }
    }
    Ok(out)
}

/// Least number of pages of `page_size` records that hold `total_count` records.
pub open spec fn pages_needed(total_count: int, page_size: int) -> int {
    if total_count <= 0 {
        0
    } else {
        (total_count - 1) / page_size + 1
    }
}

/// The records or the failure of a converted page, as sequences.
pub open spec fn page_items_of<P, E>(out: Result<PaginatedData<P>, E>) -> Result<Seq<P>, E> {
    match out {
        Ok(page) => Ok(page.items@),
        Err(e) => Err(e),
    }
}

/// The records or the failure of a converted listing, as sequences.
pub open spec fn list_items_of<P, E>(out: Result<ListData<P>, E>) -> Result<Seq<P>, E> {
    match out {
        Ok(list) => Ok(list.items@),
        Err(e) => Err(e),
    }
}

/// One page of records, with the counts that place it in the whole listing.
#[derive(Clone, Debug)]
pub struct PaginatedData<T> {
    /// The records of this page, in the order the store gave them.
    pub items: Vec<T>,
    /// Number of records that match, on all pages together.
    pub total_count: u64,
    /// Number of this page, counted from 1.
    pub page: u64,
    /// Number of records a page may hold.
    pub page_size: u64,
    /// Number of pages that hold all matching records.
    pub total_pages: u64,
}

impl<T> PaginatedData<T> {
    /// A page is well formed when it holds no more records than a page may
    /// and its page count is the one that its total count needs.
    pub open spec fn wf(&self) -> bool {
        &&& self.page >= 1
        &&& self.page_size >= 1
        &&& self.items@.len() <= self.page_size
        &&& self.total_pages == pages_needed(self.total_count as int, self.page_size as int)
    }

    /// The two pages carry the same counts.
    pub open spec fn same_counts<P>(&self, other: &PaginatedData<P>) -> bool {
        &&& self.total_count == other.total_count
        &&& self.page == other.page
        &&& self.page_size == other.page_size
        &&& self.total_pages == other.total_pages
    }

    /// Replaces every record by what `f` makes of it and keeps the counts.
    pub fn map<P, F>(self, f: F) -> (out: PaginatedData<P>) where F: FnMut(T) -> P
        requires
            forall|i: int|
                0 <= i < self.items@.len() ==> call_requires(f, (#[trigger] self.items@[i],)),
        ensures
            mapped_by(f, self.items@, out.items@),
            self.same_counts(&out),
            self.wf() ==> out.wf(),
    {
        let PaginatedData { items, total_count, page, page_size, total_pages } = self;
        PaginatedData { items: map_items(items, f), total_count, page, page_size, total_pages }
    }

    /// Replaces every record by what `f` makes of it and keeps the counts,
    /// unless `f` fails on a record: then the first failure is all that
    /// comes back.
    pub fn try_map<P, E, F>(self, f: F) -> (out: Result<PaginatedData<P>, E>) where
        F: FnMut(T) -> Result<P, E>,

        requires
            callable_in_order::<T, P, E, F>(f, self.items@),
        ensures
            try_mapped_by(f, self.items@, page_items_of(out)),
            out matches Ok(page) ==> self.same_counts(&page) && (self.wf() ==> page.wf()),
    {
        let PaginatedData { items, total_count, page, page_size, total_pages } = self;
        match try_map_items(items, f) {
            Ok(converted) => Ok(
                PaginatedData { items: converted, total_count, page, page_size, total_pages },
            ),
            Err(e) => Err(e),
        }
    }
}

/// A listing of records, with the number of records that match in all.
#[derive(Clone, Debug)]
pub struct ListData<T> {
    /// The records, in the order the store gave them.
    pub items: Vec<T>,
    /// Number of records that match; it may exceed the number listed.
    pub total_count: u64,
}

impl<T> ListData<T> {
    /// A listing of exactly these records: the total is their number.
    pub fn new(items: Vec<T>) -> (out: ListData<T>)
        ensures
            out.items@ == items@,
            out.total_count == items@.len(),
    {
        ListData { total_count: items.len() as u64, items }
    }

    /// Replaces every record by what `f` makes of it and keeps the total.
    pub fn map<P, F>(self, f: F) -> (out: ListData<P>) where F: FnMut(T) -> P
        requires
            forall|i: int|
                0 <= i < self.items@.len() ==> call_requires(f, (#[trigger] self.items@[i],)),
        ensures
            mapped_by(f, self.items@, out.items@),
            out.total_count == self.total_count,
    {
        let ListData { items, total_count } = self;
        ListData { items: map_items(items, f), total_count }
    }

    /// Replaces every record by what `f` makes of it and keeps the total,
    /// unless `f` fails on a record: then the first failure is all that
    /// comes back.
    pub fn try_map<P, E, F>(self, f: F) -> (out: Result<ListData<P>, E>) where
        F: FnMut(T) -> Result<P, E>,

        requires
            callable_in_order::<T, P, E, F>(f, self.items@),
        ensures
            try_mapped_by(f, self.items@, list_items_of(out)),
            out matches Ok(list) ==> list.total_count == self.total_count,
    {
        let ListData { items, total_count } = self;
        match try_map_items(items, f) {
            Ok(converted) => Ok(ListData { items: converted, total_count }),
            Err(e) => Err(e),
        }
    }
}

} // verus!
