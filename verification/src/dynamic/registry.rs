//! A registry of schemas by type name.

use crate::dynamic::schema::{MessageSchema, SchemaView};
use crate::shared::share;
use crate::text::texts;
use std::sync::Arc;
use vstd::hash_map::StringHashMap;
use vstd::prelude::*;

verus! {

/// Schemas by their full name, such as `geometry_msgs/msg/Twist`.
pub struct SchemaRegistry {
    schemas: StringHashMap<Arc<MessageSchema>>,
    /// The registered names, in the order of their first registration.
    names: Vec<String>,
}

/// Whether a list of names has no name twice.
pub open spec fn no_repeats(names: Seq<Seq<char>>) -> bool {
    forall|i: int, j: int| 0 <= i < j < names.len() ==> #[trigger] names[i] != #[trigger] names[j]
}

impl View for SchemaRegistry {
    type V = Map<Seq<char>, SchemaView>;

    closed spec fn view(&self) -> Map<Seq<char>, SchemaView> {
        self.schemas@.map_values(|s: Arc<MessageSchema>| s@)
    }
}

impl SchemaRegistry {
    /// Whether the list of names is that of the map's keys, and each schema stands
    /// under its own full name.
    pub closed spec fn wf(&self) -> bool {
        &&& no_repeats(texts(self.names@))
        &&& forall|i: int|
            0 <= i < self.names@.len() ==> self.schemas@.contains_key(
                #[trigger] texts(self.names@)[i],
            )
        &&& forall|n: Seq<char>|
            #[trigger] self.schemas@.contains_key(n) ==> texts(self.names@).contains(n)
        &&& forall|n: Seq<char>| #[trigger]
            self.schemas@.contains_key(n) ==> self.schemas@[n]@.full_name == n
    }

    /// The schema registered under `name`.
    pub closed spec fn entry(&self, name: Seq<char>) -> Option<Arc<MessageSchema>> {
        if self.schemas@.contains_key(name) {
            Some(self.schemas@[name])
        } else {
            None
        }
    }

    /// The registered names, in the order of their first registration.
    pub closed spec fn name_list(&self) -> Seq<Seq<char>> {
        texts(self.names@)
    }

    /// Two ways to see the registry agree.
    pub proof fn entries_are_the_view(&self)
        ensures
            forall|n: Seq<char>|
                self@.contains_key(n) <==> (#[trigger] self.entry(n)) is Some,
            forall|n: Seq<char>|
                self@.contains_key(n) ==> (#[trigger] self.entry(n))->Some_0@ == self@[n],
    {
    }

    /// The schema found under a name has that name.
    pub proof fn schemas_stand_under_their_own_names(&self)
        requires
            self.wf(),
        ensures
            forall|n: Seq<char>| #[trigger] self@.contains_key(n) ==> self@[n].full_name == n,
            forall|n: Seq<char>| #[trigger]
                self.entry(n) matches Some(s) ==> s@.full_name == n,
    {
        assert forall|n: Seq<char>| #[trigger] self@.contains_key(n) implies self@[n].full_name
            == n by {
            assert(self.schemas@.contains_key(n));
        }
    }

    /// An empty registry.
    pub fn new() -> (r: Self)
        ensures
            r.wf(),
            r@ == Map::<Seq<char>, SchemaView>::empty(),
            r.name_list().len() == 0,
    {
        let r = SchemaRegistry { schemas: StringHashMap::new(), names: Vec::new() };
        assert(r@ =~= Map::<Seq<char>, SchemaView>::empty());
        r
    }

    /// The schema of a type.
    pub fn get(&self, type_id: &str) -> (r: Option<Arc<MessageSchema>>)
        ensures
            r == self.entry(type_id@),
            r is Some <==> self@.contains_key(type_id@),
            r matches Some(s) ==> s@ == self@[type_id@],
    {
        match self.schemas.get(type_id) {
            Some(s) => Some(share(s)),
            None => None,
        }
    }

    /// Registers a schema under its full name, in place of one that was there,
    /// and returns it for sharing.
    pub fn register(&mut self, schema: Arc<MessageSchema>) -> (r: Arc<MessageSchema>)
        requires
            old(self).wf(),
        ensures
            final(self).wf(),
            r == schema,
            final(self)@ == old(self)@.insert(schema@.full_name, schema@),
            final(self).entry(schema@.full_name) == Some(schema),
            forall|n: Seq<char>|
                n != schema@.full_name ==> #[trigger] final(self).entry(n) == old(self).entry(n),
            final(self).name_list() == (if old(self)@.contains_key(schema@.full_name) {
                old(self).name_list()
            } else {
                old(self).name_list().push(schema@.full_name)
            }),
    {
        let name: String = schema.full_name.clone();
        let ghost names = texts(self.names@);
        let ghost before = self.schemas@;
        assert(schema@.full_name == name@);
        if !self.schemas.contains_key(&name) {
            self.names.push(schema.full_name.clone());
            assert(texts(self.names@) =~= names.push(name@));
        }
        self.schemas.insert(name, share(&schema));
        proof {
            let after = texts(self.names@);
            assert(self@ =~= old(self)@.insert(name@, schema@));
            if !before.contains_key(name@) {
                assert forall|i: int, j: int| 0 <= i < j < after.len() implies #[trigger] after[i]
                    != #[trigger] after[j] by {
                    if j == names.len() {
                        assert(before.contains_key(names[i]));
                    } else {
                        assert(names[i] != names[j]);
                    }
                }
                assert forall|n: Seq<char>| #[trigger]
                    self.schemas@.contains_key(n) implies after.contains(n) by {
                    if n == name@ {
                        assert(after[names.len() as int] == n);
                    } else {
                        assert(before.contains_key(n));
                        let k = choose|k: int| 0 <= k < names.len() && names[k] == n;
                        assert(after[k] == n);
                    }
                }
                assert forall|i: int| 0 <= i < self.names@.len() implies self.schemas@.contains_key(
                    #[trigger] after[i],
                ) by {
                    if i < names.len() {
                        assert(before.contains_key(names[i]));
                    }
                }
            }
        }
        schema
    }

    /// Whether a type is registered.
    pub fn contains(&self, type_id: &str) -> (r: bool)
        ensures
            r == self@.contains_key(type_id@),
    {
        self.schemas.contains_key(type_id)
    }

    /// The names of all registered types.
    pub fn type_names(&self) -> (r: &Vec<String>)
        requires
            self.wf(),
        ensures
            texts(r@) == self.name_list(),
            no_repeats(texts(r@)),
            forall|n: Seq<char>| self@.contains_key(n) <==> #[trigger] texts(r@).contains(n),
    {
        assert forall|n: Seq<char>| self@.contains_key(n) <==> #[trigger] texts(
            self.names@,
        ).contains(n) by {
            if texts(self.names@).contains(n) {
                let k = choose|k: int|
                    0 <= k < texts(self.names@).len() && texts(self.names@)[k] == n;
                assert(self.schemas@.contains_key(texts(self.names@)[k]));
            } else {
                assert(!self.schemas@.contains_key(n));
            }
        }
        &self.names
    }

    /// The number of registered types.
    pub fn len(&self) -> (r: usize)
        requires
            self.wf(),
        ensures
            r == self.name_list().len(),
    {
        self.names.len()
    }

    /// Whether no type is registered.
    pub fn is_empty(&self) -> (r: bool)
        requires
            self.wf(),
        ensures
            r == (self.name_list().len() == 0),
            r == (self@ == Map::<Seq<char>, SchemaView>::empty()),
    {
        proof {
            if self.names@.len() == 0 {
                assert forall|n: Seq<char>| !self.schemas@.contains_key(n) by {
                    if self.schemas@.contains_key(n) {
                        assert(texts(self.names@).contains(n));
                    }
                }
                assert(self@ =~= Map::<Seq<char>, SchemaView>::empty());
            } else {
                assert(self.schemas@.contains_key(texts(self.names@)[0]));
                assert(self@.contains_key(texts(self.names@)[0]));
            }
        }
        self.names.len() == 0
    }

    /// Forgets all types.
    pub fn clear(&mut self)
        ensures
            final(self).wf(),
            final(self)@ == Map::<Seq<char>, SchemaView>::empty(),
            final(self).name_list().len() == 0,
    {
        self.schemas.clear();
        self.names.clear();
        assert(self@ =~= Map::<Seq<char>, SchemaView>::empty());
    }
}

impl Default for SchemaRegistry {
    fn default() -> (r: Self)
        ensures
            r.wf(),
            r@ == Map::<Seq<char>, SchemaView>::empty(),
    {
        SchemaRegistry::new()
    }
}

/// The schema of a type in the given registry.
pub fn get_schema(registry: &SchemaRegistry, type_id: &str) -> (r: Option<Arc<MessageSchema>>)
    ensures
        r == registry.entry(type_id@),
        r is Some <==> registry@.contains_key(type_id@),
        r matches Some(s) ==> s@ == registry@[type_id@],
{
    registry.get(type_id)
}

/// Registers a schema in the given registry.
pub fn register_schema(registry: &mut SchemaRegistry, schema: Arc<MessageSchema>) -> (r: Arc<
    MessageSchema,
>)
    requires
        old(registry).wf(),
    ensures
        final(registry).wf(),
        r == schema,
        final(registry)@ == old(registry)@.insert(schema@.full_name, schema@),
        final(registry).entry(schema@.full_name) == Some(schema),
        forall|n: Seq<char>|
            n != schema@.full_name ==> #[trigger] final(registry).entry(n) == old(registry).entry(
                n,
            ),
        final(registry).name_list() == (if old(registry)@.contains_key(schema@.full_name) {
            old(registry).name_list()
        } else {
            old(registry).name_list().push(schema@.full_name)
        }),
{
    registry.register(schema)
}

/// Whether a type is registered in the given registry.
pub fn has_schema(registry: &SchemaRegistry, type_id: &str) -> (r: bool)
    ensures
        r == registry@.contains_key(type_id@),
{
    registry.contains(type_id)
}

} // verus!
