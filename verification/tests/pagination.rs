use mongo_collection::repository::pagination::{id_field, total_pages};
use mongo_collection::{PaginatedData, PaginatedQuery, SortOrder};

fn query(page: u64, page_size: u64) -> PaginatedQuery {
    PaginatedQuery { page, page_size, ..PaginatedQuery::default() }
}

#[test]
fn default_query_is_first_page_of_ten_descending() {
    let q = PaginatedQuery::default();
    assert_eq!(q.page, 1);
    assert_eq!(q.page_size, 10);
    assert_eq!(q.sort_by, None);
    assert_eq!(q.sort_order, SortOrder::Desc);
    assert_eq!(q.search, None);
    assert_eq!(q.filters, None);
}

#[test]
fn default_sort_order_is_descending() {
    assert_eq!(SortOrder::default(), SortOrder::Desc);
}

#[test]
fn sort_order_numbers() {
    assert_eq!(SortOrder::Asc.direction(), 1);
    assert_eq!(SortOrder::Desc.direction(), -1);
}

#[test]
fn first_page_of_ten_skips_nothing() {
    let q = query(1, 10);
    assert_eq!(q.skip(), 0);
    assert_eq!(q.limit(), 10);
}

#[test]
fn skip_is_pages_before_times_page_size() {
    assert_eq!(query(3, 20).skip(), 40);
    assert_eq!(query(3, 20).limit(), 20);
    assert_eq!(query(2, 1).skip(), 1);
    assert_eq!(query(7, 15).skip(), 90);
    assert_eq!(query(1_000_001, 1_000).skip(), 1_000_000_000);
}

#[test]
fn skip_and_limit_at_the_edge_of_their_types() {
    assert_eq!(query(2, u64::MAX).skip(), u64::MAX);
    assert_eq!(query(u64::MAX, 1).skip(), u64::MAX - 1);
    assert_eq!(query(1, i64::MAX as u64).limit(), i64::MAX);
}

#[test]
fn no_records_need_no_pages() {
    assert_eq!(total_pages(0, 10), 0);
    assert_eq!(total_pages(0, 1), 0);
}

#[test]
fn page_count_rounds_up() {
    assert_eq!(total_pages(25, 10), 3);
    assert_eq!(total_pages(20, 10), 2);
    assert_eq!(total_pages(1, 10), 1);
    assert_eq!(total_pages(10, 10), 1);
    assert_eq!(total_pages(11, 10), 2);
    assert_eq!(total_pages(7, 1), 7);
}

#[test]
fn page_count_of_very_large_totals() {
    assert_eq!(total_pages(u64::MAX, 1), u64::MAX);
    assert_eq!(total_pages(u64::MAX, u64::MAX), 1);
    assert_eq!(total_pages(u64::MAX, 2), 1 << 63);
    // Beyond the integers that a double holds exactly.
    assert_eq!(total_pages((1 << 53) + 1, 1), (1 << 53) + 1);
}

#[test]
fn identifier_field_is_underscore_id() {
    assert_eq!(id_field(), "_id");
}

#[test]
fn sort_directive_follows_the_named_field() {
    let mut q = PaginatedQuery::default();
    q.sort_by = Some("created_at".to_string());
    q.sort_order = SortOrder::Asc;
    let asc = q.sort_directive();
    assert_eq!(asc.field, "created_at");
    assert_eq!(asc.direction, 1);
    q.sort_order = SortOrder::Desc;
    let desc = q.sort_directive();
    assert_eq!(desc.field, "created_at");
    assert_eq!(desc.direction, -1);
}

#[test]
fn sort_directive_defaults_to_identifier_descending() {
    let mut q = PaginatedQuery::default();
    let sort = q.sort_directive();
    assert_eq!(sort.field, "_id");
    assert_eq!(sort.direction, -1);
    // The direction of the query counts only where it names a field.
    q.sort_order = SortOrder::Asc;
    let still = q.sort_directive();
    assert_eq!(still.field, "_id");
    assert_eq!(still.direction, -1);
}

#[test]
fn plannable_queries() {
    assert!(PaginatedQuery::default().is_plannable());
    assert!(query(2, u64::MAX >> 1).is_plannable());
    assert!(!query(0, 10).is_plannable());
    assert!(!query(1, 0).is_plannable());
    assert!(!query(1, (i64::MAX as u64) + 1).is_plannable());
    assert!(query(3, u64::MAX >> 1).is_plannable());
    assert!(!query(4, u64::MAX >> 1).is_plannable());
    assert!(!query(u64::MAX, 2).is_plannable());
}

#[test]
fn find_plan_of_a_query() {
    let mut q = query(4, 25);
    q.sort_by = Some("age".to_string());
    q.sort_order = SortOrder::Asc;
    let plan = q.find_plan();
    assert_eq!(plan.skip, 75);
    assert_eq!(plan.limit, 25);
    assert_eq!(plan.sort.field, "age");
    assert_eq!(plan.sort.direction, 1);
}

#[test]
fn find_plan_of_the_default_query() {
    let plan = PaginatedQuery::default().find_plan();
    assert_eq!(plan.skip, 0);
    assert_eq!(plan.limit, 10);
    assert_eq!(plan.sort.field, "_id");
    assert_eq!(plan.sort.direction, -1);
}

#[test]
fn page_is_assembled_from_the_two_replies() {
    let q = query(3, 10);
    let page = PaginatedData::assemble(vec!["u", "v", "w", "x", "y"], 25, &q);
    assert_eq!(page.items, vec!["u", "v", "w", "x", "y"]);
    assert_eq!(page.total_count, 25);
    assert_eq!(page.page, 3);
    assert_eq!(page.page_size, 10);
    assert_eq!(page.total_pages, 3);
}

#[test]
fn empty_page_of_an_empty_listing() {
    let page = PaginatedData::assemble(Vec::<u8>::new(), 0, &PaginatedQuery::default());
    assert!(page.items.is_empty());
    assert_eq!(page.total_count, 0);
    assert_eq!(page.total_pages, 0);
    assert_eq!(page.page, 1);
    assert_eq!(page.page_size, 10);
}
