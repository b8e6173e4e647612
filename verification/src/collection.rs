//! The name under which the records of a type are kept in the store.
//!
//! A record type may be given its collection's name outright. Where it is
//! not, the name is made of the type's own: its words in lower case, joined
//! by underscores, the last one in the plural (`UserProfile` gives
//! `user_profiles`).

use inflector::Inflector;
use vstd::prelude::*;

verus! {

/// The table-case form of a name, as the inflection library makes it.
pub uninterp spec fn table_case(name: Seq<char>) -> Seq<char>;

/// Calls `Inflector::to_table_case`, which depends on its argument alone:
/// it splits the name into words, writes them in lower case with
/// underscores between them, and puts the last word into the plural by a
/// fixed list of rules.
#[verifier::external_body]
fn to_table_case(name: &str) -> (table: String)
    ensures
        table@ == table_case(name@),
{
    name.to_table_case()
}

/// The collection name made of a type's name: in snake case, in the plural.
pub fn to_plural_snake_case(s: &str) -> (name: String)
    ensures
        name@ == table_case(s@),
{
    to_table_case(s)
}

/// The first name among `candidates` that is there. Each candidate is what
/// one configuration entry of a record type yields: a name, or nothing.
pub open spec fn first_present(candidates: Seq<Option<String>>) -> Option<String>
    decreases candidates.len(),
{
    if candidates.len() == 0 {
        None
    } else if candidates.first() is Some {
        candidates.first()
    } else {
        first_present(candidates.skip(1))
    }
}

/// The configured name of a record type: what the first of its
/// configuration entries that yields a name yields. Later entries are not
/// looked at.
pub fn get_collection_name(candidates: Vec<Option<String>>) -> (name: Option<String>)
    ensures
        name == first_present(candidates@),
        name is Some <==> exists|i: int|
            0 <= i < candidates@.len() && (#[trigger] candidates@[i]) is Some,
{
    let ghost all = candidates@;
    proof {
        assert(all.skip(0) =~= all);
    }
    for candidate in it: candidates.into_iter()
        invariant
            it.seq() == all,
            all == candidates@,
            first_present(all) == first_present(all.skip(it.index() as int)),
            forall|i: int| 0 <= i < it.index() ==> (#[trigger] all[i]) is None,
    {
        proof {
            let rest = all.skip(it.index() as int);
            assert(rest.skip(1) =~= all.skip(it.index() as int + 1));
        }
        if candidate.is_some() {
            return candidate;
        }
    }
    None
}

/// The name of a record type's collection: the configured one where there
/// is one, else the one made of the type's name.
pub fn collection_name(configured: Option<String>, record_type: &str) -> (name: String)
    ensures
        name@ == match configured {
            Some(given) => given@,
            None => table_case(record_type@),
        },
{
    match configured {
        Some(given) => given,
        None => to_plural_snake_case(record_type),
    }
}

/// What kind of type a definition introduces.
#[derive(Clone, Copy, Debug, PartialEq, Eq, Structural)]
pub enum ItemKind {
    /// A struct.
    Struct,
    /// An enum.
    Enum,
    /// A union.
    Union,
}

/// Why a type definition gets no collection.
#[derive(Clone, Copy, Debug, PartialEq, Eq, Structural)]
pub enum BindingError {
    /// Only a struct can be a record type.
    NotAStruct,
    /// The name that the collection would have is empty.
    EmptyName,
}

/// The tie of a record type to its collection: the collection's name, which
/// is never empty and never changes.
pub struct CollectionBinding {
    name: String,
}

impl View for CollectionBinding {
    type V = Seq<char>;

    closed spec fn view(&self) -> Seq<char> {
        self.name@
    }
}

impl CollectionBinding {
    #[verifier::type_invariant]
    spec fn non_empty(self) -> bool {
        self.name@.len() > 0
    }

    /// A binding to the collection of this name, unless the name is empty.
    pub fn new(name: String) -> (binding: Option<CollectionBinding>)
        ensures
            binding is Some <==> name@.len() > 0,
            binding matches Some(b) ==> b@ == name@,
    {
        if name.as_str().is_empty() {
            None
        } else {
            Some(CollectionBinding { name })
        }
    }

    /// A binding to the collection of a record type: under the configured
    /// name where there is one, else under the name made of the type's.
    /// There is none where that name is empty.
    pub fn resolve(configured: Option<String>, record_type: &str) -> (binding: Option<
        CollectionBinding,
    >)
        ensures
            binding is Some <==> collection_name_of(configured, record_type@).len() > 0,
            binding matches Some(b) ==> b@ == collection_name_of(configured, record_type@),
    {
        CollectionBinding::new(collection_name(configured, record_type))
    }

    /// The binding that a type definition gets: a struct is bound to the
    /// collection that the first of its configuration entries names, or,
    /// where none names one, to the collection named after the struct.
    /// Anything but a struct gets none, and neither does a struct whose
    /// collection would have no name.
    pub fn for_item(kind: ItemKind, record_type: &str, candidates: Vec<Option<String>>) -> (bound:
        Result<CollectionBinding, BindingError>)
        ensures
            match bound {
                Ok(binding) => {
                    &&& kind == ItemKind::Struct
                    &&& binding@ == collection_name_of(first_present(candidates@), record_type@)
                    &&& binding@.len() > 0
                },
                Err(BindingError::NotAStruct) => kind != ItemKind::Struct,
                Err(BindingError::EmptyName) => {
                    &&& kind == ItemKind::Struct
                    &&& collection_name_of(first_present(candidates@), record_type@).len() == 0
                },
            },
    {
        match kind {
            ItemKind::Struct => {},
            _ => {
                return Err(BindingError::NotAStruct);
            },
        }
        match CollectionBinding::resolve(get_collection_name(candidates), record_type) {
            Some(binding) => Ok(binding),
            None => Err(BindingError::EmptyName),
        }
    }

    /// The collection's name.
    pub fn name(&self) -> (name: &str)
        ensures
            name@ == self@,
            name@.len() > 0,
    {
        proof {
            use_type_invariant(self);
        }
        self.name.as_str()
    }
}

/// The name of a record type's collection, as characters.
pub open spec fn collection_name_of(configured: Option<String>, record_type: Seq<char>) -> Seq<
    char,
> {
    match configured {
        Some(given) => given@,
        None => table_case(record_type),
    }
}

} // verus!
