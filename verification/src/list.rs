//! Unpaged listing: the query, and the normal form of its raw filter keys.
//!
//! A raw key names a field either as `filters[name]` or as `filters.name`.
//! Both forms stand for the bare `name`; any other key is no filter and is
//! left out.

use crate::repository::models::SortOrder;
use vstd::prelude::*;

pub use crate::repository::models::ListData;

verus! {

/// A pair of texts, as characters.
pub type Entry = (Seq<char>, Seq<char>);

/// The text `filters[`, which opens the bracket form of a filter key.
pub open spec fn bracket_open() -> Seq<char> {
    seq!['f', 'i', 'l', 't', 'e', 'r', 's', '[']
}

/// The text `]`, which closes the bracket form of a filter key.
pub open spec fn bracket_close() -> Seq<char> {
    seq![']']
}

/// The text `filters.`, which opens the dot form of a filter key.
pub open spec fn dot_open() -> Seq<char> {
    seq!['f', 'i', 'l', 't', 'e', 'r', 's', '.']
}

/// The bare field name that a raw key stands for, if it is a filter key.
/// The bracket form is tried first, then the dot form.
pub open spec fn filter_name(key: Seq<char>) -> Option<Seq<char>> {
    if bracket_open().is_prefix_of(key) && bracket_close().is_suffix_of(
        key.skip(bracket_open().len() as int),
    ) {
        Some(key.subrange(bracket_open().len() as int, key.len() - 1))
    } else if dot_open().is_prefix_of(key) {
        Some(key.skip(dot_open().len() as int))
    } else {
        None
    }
}

/// The pairs of a list of filters, as characters.
pub open spec fn entries_of(pairs: Seq<(String, String)>) -> Seq<Entry> {
    Seq::new(pairs.len(), |i: int| (pairs[i].0@, pairs[i].1@))
}

/// The place of the first of `entries` that is named `name`; the length of
/// `entries` where none is.
pub open spec fn place_of(entries: Seq<Entry>, name: Seq<char>) -> int
    decreases entries.len(),
{
    if entries.len() == 0 {
        0
    } else {
        let earlier = place_of(entries.drop_last(), name);
        if earlier < entries.len() - 1 {
            earlier
        } else if entries.last().0 == name {
            entries.len() - 1
        } else {
            entries.len() as int
        }
    }
}

/// `name` is the name of one of `entries`.
pub open spec fn has_name(entries: Seq<Entry>, name: Seq<char>) -> bool {
    place_of(entries, name) < entries.len()
}

/// No name occurs twice among `entries`.
pub open spec fn distinct_names(entries: Seq<Entry>) -> bool {
    forall|i: int, j: int|
        0 <= i < j < entries.len() ==> (#[trigger] entries[i]).0 != (#[trigger] entries[j]).0
}

/// `entries` with `name` set to `value`: in the place where `name` stood
/// before, or at the end if it is new.
pub open spec fn put(entries: Seq<Entry>, name: Seq<char>, value: Seq<char>) -> Seq<Entry> {
    if has_name(entries, name) {
        entries.update(place_of(entries, name), (name, value))
    } else {
        entries.push((name, value))
    }
}

/// The value that `entries` gives to `name`.
pub open spec fn value_of(entries: Seq<Entry>, name: Seq<char>) -> Option<Seq<char>> {
    if has_name(entries, name) {
        Some(entries[place_of(entries, name)].1)
    } else {
        None
    }
}

/// The canonical filters of a raw mapping: each filter key under its bare
/// name, a later key overriding an earlier one of the same name, names in
/// the order in which they first came.
pub open spec fn normalized(raw: Seq<Entry>) -> Seq<Entry>
    decreases raw.len(),
{
    if raw.len() == 0 {
        Seq::empty()
    } else {
        let earlier = normalized(raw.drop_last());
        match filter_name(raw.last().0) {
            Some(name) => put(earlier, name, raw.last().1),
            None => earlier,
        }
    }
}

/// The value of the last raw entry whose key stands for `name`.
pub open spec fn last_value(raw: Seq<Entry>, name: Seq<char>) -> Option<Seq<char>>
    decreases raw.len(),
{
    if raw.len() == 0 {
        None
    } else if filter_name(raw.last().0) == Some(name) {
        Some(raw.last().1)
    } else {
        last_value(raw.drop_last(), name)
    }
}

/// The filters of a raw mapping as they stand in it: each entry whose key
/// is a filter key, under its bare name, in the order of the mapping.
pub open spec fn filter_entries(raw: Seq<Entry>) -> Seq<Entry>
    decreases raw.len(),
{
    if raw.len() == 0 {
        Seq::empty()
    } else {
        let earlier = filter_entries(raw.drop_last());
        match filter_name(raw.last().0) {
            Some(name) => earlier.push((name, raw.last().1)),
            None => earlier,
        }
    }
}

/// Calls `str::strip_prefix` with a text as the pattern: the rest of `text`
/// behind `prefix` where `text` begins with it, and nothing where it does not.
#[verifier::external_body]
fn strip_prefix<'a>(text: &'a str, prefix: &str) -> (rest: Option<&'a str>)
    ensures
        match rest {
            Some(tail) => text@ == prefix@ + tail@,
            None => !prefix@.is_prefix_of(text@),
        },
{
    text.strip_prefix(prefix)
}

/// Calls `str::strip_suffix` with a text as the pattern: the part of `text`
/// before `suffix` where `text` ends with it, and nothing where it does not.
#[verifier::external_body]
fn strip_suffix<'a>(text: &'a str, suffix: &str) -> (rest: Option<&'a str>)
    ensures
        match rest {
            Some(head) => text@ == head@ + suffix@,
            None => !suffix@.is_suffix_of(text@),
        },
{
    text.strip_suffix(suffix)
}

/// The bare field name that a raw key stands for, if it is a filter key:
/// `name` for `filters[name]` and for `filters.name`, nothing for any
/// other key.
pub fn filter_field(key: &str) -> (name: Option<&str>)
    ensures
        match name {
            Some(field) => filter_name(key@) == Some(field@),
            None => filter_name(key@) is None,
        },
{
    proof {
        reveal_strlit("filters[");
        reveal_strlit("]");
        reveal_strlit("filters.");
        assert("]"@ =~= bracket_close());
    }
    match strip_prefix(key, "filters[") {
        Some(inner) => {
            assert(key@.skip(8) =~= inner@);
            assert(!dot_open().is_prefix_of(key@));
            strip_suffix(inner, "]")
        },
        None => strip_prefix(key, "filters."),
    }
}

/// Sets `name` to `value` among `entries`: in the place where `name` stood
/// before, or at the end if it is new.
fn put_entry(entries: &mut Vec<(String, String)>, name: String, value: String)
    ensures
        entries_of(final(entries)@) == put(entries_of(old(entries)@), name@, value@),
{
    let ghost before = entries_of(entries@);
    let mut j: usize = 0;
    while j < entries.len()
        invariant
            j <= entries.len(),
            before == entries_of(old(entries)@),
            entries_of(entries@) == before,
            forall|k: int| 0 <= k < j ==> (#[trigger] before[k]).0 != name@,
        decreases entries.len() - j,
    {
        if entries[j].0 == name {
            proof {
                lemma_found_at(before, name@, j as int);
            }
            entries.set(j, (name, value));
            return ;
        }
        j += 1;
    }
    proof {
        lemma_place_of(before, name@);
    }
    entries.push((name, value));
}

/// A request for an unpaged, filtered, ordered listing.
#[derive(Clone, Debug)]
pub struct ListQuery {
    /// Field to order by.
    pub sort_by: Option<String>,
    /// Direction of the ordering.
    pub sort_order: SortOrder,
    /// Free-text search term.
    pub search: Option<String>,
    /// The raw mapping of request keys to values, in the order in which
    /// the keys came. Filter keys are among them.
    pub filters: Option<Vec<(String, String)>>,
}

impl Default for ListQuery {
    /// An unfiltered listing, largest first.
    fn default() -> (query: ListQuery)
        ensures
            query.sort_by is None,
            query.sort_order == SortOrder::Desc,
            query.search is None,
            query.filters is None,
            query.wf(),
    {
        ListQuery { sort_by: None, sort_order: SortOrder::Desc, search: None, filters: None }
    }
}

impl ListQuery {
    /// The raw mapping of the query, as characters; empty where it has none.
    pub open spec fn raw_entries(&self) -> Seq<Entry> {
        match self.filters {
            Some(raw) => entries_of(raw@),
            None => Seq::empty(),
        }
    }

    /// A query is well formed when its raw mapping is one: no key occurs
    /// in it twice.
    pub open spec fn wf(&self) -> bool {
        distinct_names(self.raw_entries())
    }

    /// The canonical filters of the query: every raw key that is a filter
    /// key, under its bare field name, with its value. Keys that are no
    /// filter keys are left out. Where two keys stand for one name, the
    /// later one gives the value. A query without a raw mapping has no
    /// canonical filters either.
    pub fn parsed_filters(&self) -> (parsed: Option<Vec<(String, String)>>)
        ensures
            parsed is Some <==> self.filters is Some,
            parsed matches Some(filters) ==> {
                &&& entries_of(filters@) == normalized(self.raw_entries())
                &&& distinct_names(entries_of(filters@))
                &&& forall|name: Seq<char>|
                    value_of(entries_of(filters@), name) == #[trigger] last_value(
                        self.raw_entries(),
                        name,
                    )
            },
    {
        match &self.filters {
            None => None,
            Some(raw) => {
                let ghost all = entries_of(raw@);
                let mut filters: Vec<(String, String)> = Vec::new();
                let mut i: usize = 0;
                while i < raw.len()
                    invariant
                        i <= raw.len(),
                        all == entries_of(raw@),
                        entries_of(filters@) == normalized(all.take(i as int)),
                    decreases raw.len() - i,
                {
                    let entry = &raw[i];
                    proof {
                        assert(all.take(i as int + 1).drop_last() =~= all.take(i as int));
                    }
                    match filter_field(entry.0.as_str()) {
                        Some(field) => {
                            put_entry(&mut filters, field.to_owned(), entry.1.clone());
                        },
                        None => {},
                    }
                    i += 1;
                }
                proof {
                    assert(all.take(raw.len() as int) =~= all);
                    lemma_normalized_names_distinct(all);
                    assert forall|name: Seq<char>|
                        value_of(entries_of(filters@), name) == #[trigger] last_value(
                            all,
                            name,
                        ) by {
                        lemma_normalized_gives_last_value(all, name);
                    }
                }
                Some(filters)
            },
        }
    }
}

/// `place_of` finds the first entry of the name: no entry before that place
/// has the name, and the entry in that place has it, if the place is one of
/// the list.
pub proof fn lemma_place_of(entries: Seq<Entry>, name: Seq<char>)
    ensures
        0 <= place_of(entries, name) <= entries.len(),
        forall|k: int| 0 <= k < place_of(entries, name) ==> (#[trigger] entries[k]).0 != name,
        has_name(entries, name) ==> entries[place_of(entries, name)].0 == name,
        has_name(entries, name) <==> exists|k: int|
            0 <= k < entries.len() && (#[trigger] entries[k]).0 == name,
    decreases entries.len(),
{
    if entries.len() > 0 {
        let front = entries.drop_last();
        lemma_place_of(front, name);
        assert forall|k: int| 0 <= k < place_of(entries, name) implies (#[trigger] entries[k]).0
            != name by {
            if k < front.len() {
                assert(front[k].0 != name);
            }
        }
    }
}

/// An entry of the name with no such entry before it is where `place_of`
/// points.
pub proof fn lemma_found_at(entries: Seq<Entry>, name: Seq<char>, at: int)
    requires
        0 <= at < entries.len(),
        entries[at].0 == name,
        forall|k: int| 0 <= k < at ==> (#[trigger] entries[k]).0 != name,
    ensures
        has_name(entries, name),
        place_of(entries, name) == at,
{
    lemma_place_of(entries, name);
}

/// Setting a name gives it the new value, leaves every other name its
/// value, and leaves no name twice.
pub proof fn lemma_put(entries: Seq<Entry>, name: Seq<char>, value: Seq<char>)
    requires
        distinct_names(entries),
    ensures
        distinct_names(put(entries, name, value)),
        value_of(put(entries, name, value), name) == Some(value),
        forall|other: Seq<char>|
            other != name ==> #[trigger] value_of(put(entries, name, value), other) == value_of(
                entries,
                other,
            ),
{
    let after = put(entries, name, value);
    lemma_place_of(entries, name);
    let at = place_of(entries, name);
    assert(after.len() == if has_name(entries, name) {
        entries.len()
    } else {
        entries.len() + 1
    });
    assert forall|k: int| 0 <= k < entries.len() && k != at implies #[trigger] after[k]
        == entries[k] by {}
    lemma_found_at(after, name, at);
    assert forall|other: Seq<char>| other != name implies #[trigger] value_of(after, other)
        == value_of(entries, other) by {
        lemma_place_of(entries, other);
        lemma_place_of(after, other);
        if has_name(entries, other) {
            lemma_found_at(after, other, place_of(entries, other));
        }
    }
}

/// No name occurs twice among the canonical filters.
pub proof fn lemma_normalized_names_distinct(raw: Seq<Entry>)
    ensures
        distinct_names(normalized(raw)),
    decreases raw.len(),
{
    if raw.len() > 0 {
        lemma_normalized_names_distinct(raw.drop_last());
        match filter_name(raw.last().0) {
            Some(name) => {
                lemma_put(normalized(raw.drop_last()), name, raw.last().1);
            },
            None => {},
        }
    }
}

/// The canonical filters give each name the value of the last raw entry
/// whose key stands for it, and hold no other name.
pub proof fn lemma_normalized_gives_last_value(raw: Seq<Entry>, name: Seq<char>)
    ensures
        value_of(normalized(raw), name) == last_value(raw, name),
    decreases raw.len(),
{
    if raw.len() > 0 {
        lemma_normalized_gives_last_value(raw.drop_last(), name);
        lemma_normalized_names_distinct(raw.drop_last());
        match filter_name(raw.last().0) {
            Some(field) => {
                lemma_put(normalized(raw.drop_last()), field, raw.last().1);
            },
            None => {},
        }
    }
}

/// Where no two filter keys of a raw mapping stand for the same name, its
/// canonical filters are its filters as they stand: one for each filter
/// key, in the order of the mapping.
pub proof fn lemma_normalized_without_clash(raw: Seq<Entry>)
    requires
        distinct_names(filter_entries(raw)),
    ensures
        normalized(raw) == filter_entries(raw),
    decreases raw.len(),
{
    if raw.len() > 0 {
        let earlier = filter_entries(raw.drop_last());
        assert forall|i: int, j: int| 0 <= i < j < earlier.len() implies (#[trigger] earlier[i]).0
            != (#[trigger] earlier[j]).0 by {
            assert(filter_entries(raw)[i] == earlier[i]);
            assert(filter_entries(raw)[j] == earlier[j]);
        }
        lemma_normalized_without_clash(raw.drop_last());
        match filter_name(raw.last().0) {
            Some(name) => {
                lemma_place_of(earlier, name);
                if has_name(earlier, name) {
                    let at = place_of(earlier, name);
                    assert(filter_entries(raw)[at] == earlier[at]);
                    assert(filter_entries(raw)[earlier.len() as int].0 == name);
                }
            },
            None => {},
        }
    }
}

} // verus!
