use vstd::prelude::*;

verus! {

/// An opaque identity handle for a declared type. Two references are equal
/// exactly when they denote the same declared type; a reference never
/// compares equal by structural shape of the type it names.
#[derive(Debug, Clone, Copy, PartialEq, Eq, Structural)]
pub struct TypeReference {
    pub id: usize,
}

impl TypeReference {
    pub fn new(id: usize) -> (r: TypeReference)
        ensures
            r == (TypeReference { id }),
    {
        TypeReference { id }
    }
}

/// One declared type: its name and its outgoing cast edges.
pub struct Type {
    pub name: String,
    pub implicit_casts: Vec<TypeReference>,
    pub explicit_casts: Vec<TypeReference>,
}

/// The mathematical shape of a type entry.
#[verifier::ext_equal]
pub struct TypeModel {
    pub name: Seq<char>,
    pub implicit_casts: Seq<TypeReference>,
    pub explicit_casts: Seq<TypeReference>,
}

impl View for Type {
    type V = TypeModel;

    open spec fn view(&self) -> TypeModel {
        TypeModel {
            name: self.name@,
            implicit_casts: self.implicit_casts@,
            explicit_casts: self.explicit_casts@,
        }
    }
}

/// A fresh entry for a type named `name`, with no cast edges yet.
pub open spec fn fresh_type_model(name: Seq<char>) -> TypeModel {
    TypeModel { name, implicit_casts: Seq::empty(), explicit_casts: Seq::empty() }
}

/// Whether the entry already has an edge of either kind to `target`.
pub open spec fn model_cast_exists(t: TypeModel, target: TypeReference) -> bool {
    t.implicit_casts.contains(target) || t.explicit_casts.contains(target)
}

/// The universe of declared types. It assigns each created type a stable
/// identity (its position) and stores the outgoing cast edges per type.
pub struct TypeEnvironment {
    pub types: Vec<Type>,
}

impl View for TypeEnvironment {
    type V = Seq<TypeModel>;

    open spec fn view(&self) -> Seq<TypeModel> {
        self.types@.map(|i: int, t: Type| t@)
    }
}

impl TypeEnvironment {
    pub fn new() -> (r: TypeEnvironment)
        ensures
            r@ == Seq::<TypeModel>::empty(),
    {
        let r = TypeEnvironment { types: Vec::new() };
        proof {
            assert(r@ =~= Seq::<TypeModel>::empty());
        }
        r
    }

    pub fn len(&self) -> (r: usize)
        ensures
            r == self@.len(),
    {
        self.types.len()
    }

    /// Whether `reference` still resolves to an entry; absence signals a
    /// stale reference, a defect in the caller rather than in user input.
    pub fn has_type(&self, reference: TypeReference) -> (r: bool)
        ensures
            r == (reference.id < self@.len()),
    {
        reference.id < self.types.len()
    }

    /// Allocates a fresh, globally unique identity for a new type named
    /// `name` and registers an empty cast-edge set for it. Duplicate-name
    /// detection is the symbol table's responsibility, not this one's.
    pub fn create_type(&mut self, name: &String) -> (r: TypeReference)
        ensures
            r == (TypeReference { id: old(self)@.len() as usize }),
            final(self)@ == old(self)@.push(fresh_type_model(name@)),
    {
        let reference = TypeReference { id: self.types.len() };
        self.types.push(Type {
            name: name.clone(),
            implicit_casts: Vec::new(),
            explicit_casts: Vec::new(),
        });
        proof {
            assert(self@ =~= old(self)@.push(fresh_type_model(name@)));
        }
        reference
    }

    /// True if an implicit or explicit cast edge from `source` to `target`
    /// is already registered.
    pub fn does_cast_exist(&self, source: TypeReference, target: TypeReference) -> (r: bool)
        requires
            source.id < self@.len(),
        ensures
            r == model_cast_exists(self@[source.id as int], target),
    {
        let entry = &self.types[source.id];
        let in_implicit = ref_vec_contains(&entry.implicit_casts, target);
        let in_explicit = ref_vec_contains(&entry.explicit_casts, target);
        in_implicit || in_explicit
    }

    /// Inserts an implicit cast edge. The caller must already have ruled out
    /// an existing edge via `does_cast_exist`; this is not re-checked here.
    pub fn add_implicit_cast(&mut self, source: TypeReference, target: TypeReference)
        requires
            source.id < old(self)@.len(),
        ensures
            final(self)@ == old(self)@.update(
                source.id as int,
                (TypeModel {
                    implicit_casts: old(self)@[source.id as int].implicit_casts.push(target),
                    ..old(self)@[source.id as int]
                }),
            ),
    {
        let mut entry = self.types.remove(source.id);
        entry.implicit_casts.push(target);
        self.types.insert(source.id, entry);
        proof {
            assert(self@ =~~= old(self)@.update(
                source.id as int,
                (TypeModel {
                    implicit_casts: old(self)@[source.id as int].implicit_casts.push(target),
                    ..old(self)@[source.id as int]
                }),
            ));
        }
    }

    /// Inserts an explicit cast edge; same discipline as `add_implicit_cast`.
    pub fn add_explicit_cast(&mut self, source: TypeReference, target: TypeReference)
        requires
            source.id < old(self)@.len(),
        ensures
            final(self)@ == old(self)@.update(
                source.id as int,
                (TypeModel {
                    explicit_casts: old(self)@[source.id as int].explicit_casts.push(target),
                    ..old(self)@[source.id as int]
                }),
            ),
    {
        let mut entry = self.types.remove(source.id);
        entry.explicit_casts.push(target);
        self.types.insert(source.id, entry);
        proof {
            assert(self@ =~~= old(self)@.update(
                source.id as int,
                (TypeModel {
                    explicit_casts: old(self)@[source.id as int].explicit_casts.push(target),
                    ..old(self)@[source.id as int]
                }),
            ));
        }
    }
}

/// Linear membership test over a vector of type references.
fn ref_vec_contains(v: &Vec<TypeReference>, x: TypeReference) -> (r: bool)
    ensures
        r == v@.contains(x),
{
    let mut i: usize = 0;
    while i < v.len()
        invariant
            i <= v@.len(),
            forall|k: int| 0 <= k < i ==> v@[k] != x,
        decreases v@.len() - i,
    {
        if v[i] == x {
            return true;
        }
        i += 1;
    }
    false
}

} // verus!
