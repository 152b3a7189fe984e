//! Descriptions of the methods' parameters for the OpenRPC document.

use crate::order::{
    compare_bytes, lemma_precedes_asymmetric, lemma_precedes_transitive, precedes, Order,
};
use vstd::prelude::*;
use vstd::string::*;
use vstd::utf8::*;

verus! {

/// The JSON schema of a parameter's type.
#[derive(Clone, Copy, Debug, PartialEq, Eq, Structural)]
pub enum ParamSchema {
    /// A JSON string.
    String,
    /// An unsigned integer of 64 bits.
    Uint64,
}

/// One parameter of a method, as OpenRPC describes it.
#[derive(Clone, Copy, Debug)]
pub struct ContentDescriptor {
    pub name: &'static str,
    pub description: &'static str,
    pub required: bool,
    pub schema: ParamSchema,
}

/// What a [`ContentDescriptor`] says, as plain values.
pub ghost struct ContentDescriptorView {
    pub name: Seq<char>,
    pub description: Seq<char>,
    pub required: bool,
    pub schema: ParamSchema,
}

impl View for ContentDescriptor {
    type V = ContentDescriptorView;

    open spec fn view(&self) -> ContentDescriptorView {
        ContentDescriptorView {
            name: self.name@,
            description: self.description@,
            required: self.required,
            schema: self.schema,
        }
    }
}

/// Collects the schemas that the described parameters use, in the order in which they
/// were asked for.
#[derive(Debug)]
pub struct Generator {
    schemas: Vec<ParamSchema>,
}

impl View for Generator {
    type V = Seq<ParamSchema>;

    closed spec fn view(&self) -> Seq<ParamSchema> {
        self.schemas@
    }
}

impl Generator {
    /// A generator that has described nothing yet.
    pub fn new() -> (g: Generator)
        ensures
            g@ == Seq::<ParamSchema>::empty(),
    {
        Generator { schemas: Vec::new() }
    }

    /// Describes one parameter and records its schema.
    pub fn param(
        &mut self,
        schema: ParamSchema,
        name: &'static str,
        description: &'static str,
        required: bool,
    ) -> (d: ContentDescriptor)
        ensures
            d@ == (ContentDescriptorView {
                name: name@,
                description: description@,
                required,
                schema,
            }),
            final(self)@ == old(self)@.push(schema),
    {
        self.schemas.push(schema);
        ContentDescriptor { name, description, required, schema }
    }

    /// The schemas recorded so far.
    pub fn schemas(&self) -> (r: &Vec<ParamSchema>)
        ensures
            r@ == self@,
    {
        &self.schemas
    }
}

/// What the interface knows of one method.
#[derive(Clone, Copy, Debug)]
pub struct RpcMethod {
    pub description: &'static str,
}

/// Whether `a` comes before `b` as Rust orders strings: by their UTF-8 bytes.
pub open spec fn name_precedes(a: Seq<char>, b: Seq<char>) -> bool {
    precedes(encode_utf8(a), encode_utf8(b))
}

/// Whether the names ascend strictly from each entry to the next.
pub open spec fn sorted_by_name(entries: Seq<(Seq<char>, Seq<char>)>) -> bool {
    forall|i: int, j: int| 0 <= i < j < entries.len() ==> name_precedes(entries[i].0, entries[j].0)
}

/// A position at which `name` stands, if it stands at one.
pub open spec fn position_of(entries: Seq<(Seq<char>, Seq<char>)>, name: Seq<char>) -> int {
    choose|k: int| 0 <= k < entries.len() && entries[k].0 == name
}

/// The description that stands under `name`, if one does.
pub open spec fn description_of(entries: Seq<(Seq<char>, Seq<char>)>, name: Seq<char>) -> Option<
    Seq<char>,
> {
    if exists|k: int| 0 <= k < entries.len() && entries[k].0 == name {
        Some(entries[position_of(entries, name)].1)
    } else {
        None
    }
}

/// Strings with the same UTF-8 bytes are the same string.
pub proof fn lemma_same_bytes_same_name(a: Seq<char>, b: Seq<char>)
    requires
        encode_utf8(a) == encode_utf8(b),
    ensures
        a == b,
{
    encode_utf8_decode_utf8(a);
    encode_utf8_decode_utf8(b);
}

/// Among names that ascend strictly, a name stands at one position only.
pub proof fn lemma_description_at(entries: Seq<(Seq<char>, Seq<char>)>, i: int)
    requires
        sorted_by_name(entries),
        0 <= i < entries.len(),
    ensures
        description_of(entries, entries[i].0) == Some(entries[i].1),
{
    let name = entries[i].0;
    assert(exists|k: int| 0 <= k < entries.len() && entries[k].0 == name);
    let j = position_of(entries, name);
    if j < i {
        assert(name_precedes(entries[j].0, entries[i].0));
        lemma_precedes_asymmetric(encode_utf8(entries[j].0), encode_utf8(entries[i].0));
    }
    if i < j {
        assert(name_precedes(entries[i].0, entries[j].0));
        lemma_precedes_asymmetric(encode_utf8(entries[i].0), encode_utf8(entries[j].0));
    }
}

/// The methods of the interface, in the order of their names.
#[derive(Debug)]
pub struct MethodTable {
    entries: Vec<(&'static str, RpcMethod)>,
}

impl View for MethodTable {
    type V = Seq<(Seq<char>, Seq<char>)>;

    /// The names with their descriptions, in the order of the names.
    closed spec fn view(&self) -> Seq<(Seq<char>, Seq<char>)> {
        self.entries@.map_values(|e: (&'static str, RpcMethod)| (e.0@, e.1.description@))
    }
}

impl MethodTable {
    #[verifier::type_invariant]
    spec fn well_formed(self) -> bool {
        sorted_by_name(self@)
    }

    /// A table without methods.
    pub fn new() -> (table: MethodTable)
        ensures
            table@ == Seq::<(Seq<char>, Seq<char>)>::empty(),
    {
        let table = MethodTable { entries: Vec::new() };
        assert(table@ =~= Seq::<(Seq<char>, Seq<char>)>::empty());
        table
    }

    /// Where `name` stands, or would have to be put in.
    fn position(&self, name: &str) -> (r: (usize, bool))
        ensures
            sorted_by_name(self@),
            r.0 <= self@.len(),
            forall|i: int| 0 <= i < r.0 ==> name_precedes(self@[i].0, name@),
            r.1 ==> r.0 < self@.len() && self@[r.0 as int].0 == name@,
            !r.1 ==> forall|i: int| r.0 <= i < self@.len() ==> name_precedes(name@, self@[i].0),
    {
        proof {
            use_type_invariant(self);
        }
        let mut i: usize = 0;
        while i < self.entries.len()
            invariant
                sorted_by_name(self@),
                self@.len() == self.entries@.len(),
                i <= self.entries@.len(),
                forall|k: int| 0 <= k < i ==> name_precedes(self@[k].0, name@),
            decreases self.entries@.len() - i,
        {
            assert(self@[i as int].0 == self.entries@[i as int].0@);
            match compare_bytes(self.entries[i].0.as_bytes(), name.as_bytes()) {
                Order::Before => {},
                Order::Same => {
                    proof {
                        lemma_same_bytes_same_name(self@[i as int].0, name@);
                    }
                    return (i, true);
                },
                Order::After => {
                    assert forall|k: int| i <= k < self@.len() implies name_precedes(
                        name@,
                        self@[k].0,
                    ) by {
                        if i < k {
                            assert(name_precedes(self@[i as int].0, self@[k].0));
                            lemma_precedes_transitive(
                                encode_utf8(name@),
                                encode_utf8(self@[i as int].0),
                                encode_utf8(self@[k].0),
                            );
                        }
                    }
                    return (i, false);
                },
            }
            i += 1;
        }
        (i, false)
    }

    /// Puts the method in under `name`, in place of what stood there.
    pub fn insert(&mut self, name: &'static str, method: RpcMethod)
        ensures
            sorted_by_name(final(self)@),
            sorted_by_name(old(self)@),
            description_of(old(self)@, name@) is Some ==> exists|at: int|
                0 <= at < old(self)@.len() && old(self)@[at].0 == name@ && final(self)@ == old(
                    self,
                )@.update(at, (name@, method.description@)),
            description_of(old(self)@, name@) is None ==> exists|at: int|
                0 <= at <= old(self)@.len() && final(self)@ == old(self)@.insert(
                    at,
                    (name@, method.description@),
                ),
    {
        let (at, found) = self.position(name);
        let ghost before = self@;
        let ghost entry = (name@, method.description@);
        let mut entries: Vec<(&'static str, RpcMethod)> = Vec::new();
        std::mem::swap(&mut entries, &mut self.entries);
        assert(self@ =~= Seq::<(Seq<char>, Seq<char>)>::empty());
        if found {
            entries.set(at, (name, method));
        } else {
            entries.insert(at, (name, method));
        }
        let ghost after = entries@.map_values(
            |e: (&'static str, RpcMethod)| (e.0@, e.1.description@),
        );
        proof {
            if found {
                lemma_description_at(before, at as int);
                assert(after =~= before.update(at as int, entry));
                assert forall|i: int, j: int| 0 <= i < j < after.len() implies name_precedes(
                    after[i].0,
                    after[j].0,
                ) by {
                    assert(after[i].0 == before[i].0);
                    assert(after[j].0 == before[j].0);
                }
            } else {
                assert forall|i: int| 0 <= i < before.len() implies before[i].0 != name@ by {
                    if i < at {
                        lemma_precedes_asymmetric(encode_utf8(before[i].0), encode_utf8(name@));
                    } else {
                        lemma_precedes_asymmetric(encode_utf8(name@), encode_utf8(before[i].0));
                    }
                }
                assert(after =~= before.insert(at as int, entry));
                assert forall|i: int, j: int| 0 <= i < j < after.len() implies name_precedes(
                    after[i].0,
                    after[j].0,
                ) by {
                    let oi = if i < at { i } else { i - 1 };
                    let oj = if j < at { j } else { j - 1 };
                    if i != at {
                        assert(after[i] == before[oi]);
                    }
                    if j != at {
                        assert(after[j] == before[oj]);
                    }
                }
            }
        }
        self.entries = entries;
    }

    /// The method that stands under `name`.
    pub fn get(&self, name: &str) -> (r: Option<&RpcMethod>)
        ensures
            sorted_by_name(self@),
            match r {
                Some(method) => description_of(self@, name@) == Some(method.description@),
                None => description_of(self@, name@) is None,
            },
    {
        let (at, found) = self.position(name);
        if found {
            proof {
                lemma_description_at(self@, at as int);
            }
            Some(&self.entries[at].1)
        } else {
            proof {
                assert forall|i: int| 0 <= i < self@.len() implies self@[i].0 != name@ by {
                    if i < at {
                        lemma_precedes_asymmetric(encode_utf8(self@[i].0), encode_utf8(name@));
                    } else {
                        lemma_precedes_asymmetric(encode_utf8(name@), encode_utf8(self@[i].0));
                    }
                }
            }
            None
        }
    }

    /// The number of methods.
    pub fn len(&self) -> (n: usize)
        ensures
            n == self@.len(),
    {
        self.entries.len()
    }

    /// The name at `position`, counted in the order of the names.
    pub fn name_at(&self, position: usize) -> (r: Option<&'static str>)
        ensures
            sorted_by_name(self@),
            match r {
                Some(name) => position < self@.len() && name@ == self@[position as int].0,
                None => position >= self@.len(),
            },
    {
        proof {
            use_type_invariant(self);
        }
        if position < self.entries.len() {
            Some(self.entries[position].0)
        } else {
            None
        }
    }
}

} // verus!
