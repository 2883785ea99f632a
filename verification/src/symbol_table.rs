use vstd::prelude::*;

use crate::error::{ErrorModel, TypeCheckResult, TypeError};
use crate::type_environment::TypeReference;

verus! {

/// A named binding in some scope: a value name with an optional resolved
/// type. Type-namespace bindings live in `TypeBinding` instead; the two
/// namespaces never collide.
pub struct Symbol {
    pub name: String,
    pub symbol_type: Option<TypeReference>,
}

/// The mathematical shape of a `Symbol`.
#[verifier::ext_equal]
pub struct SymbolModel {
    pub name: Seq<char>,
    pub ty: Option<TypeReference>,
}

impl View for Symbol {
    type V = SymbolModel;

    open spec fn view(&self) -> SymbolModel {
        SymbolModel { name: self.name@, ty: self.symbol_type }
    }
}

impl Symbol {
    pub fn get_type(&self) -> (r: Option<TypeReference>)
        ensures
            r == self@.ty,
    {
        self.symbol_type
    }
}

/// A type-namespace binding: a name bound to a declared type.
pub struct TypeBinding {
    pub name: String,
    pub reference: TypeReference,
}

/// The mathematical shape of a `TypeBinding`.
#[verifier::ext_equal]
pub struct TypeBindingModel {
    pub name: Seq<char>,
    pub reference: TypeReference,
}

impl View for TypeBinding {
    type V = TypeBindingModel;

    open spec fn view(&self) -> TypeBindingModel {
        TypeBindingModel { name: self.name@, reference: self.reference }
    }
}

/// One lexical scope: its value bindings and its type bindings, each an
/// ordered frame of its own namespace.
pub struct Scope {
    pub symbols: Vec<Symbol>,
    pub types: Vec<TypeBinding>,
}

/// The mathematical shape of a `Scope`.
#[verifier::ext_equal]
pub struct ScopeModel {
    pub symbols: Seq<SymbolModel>,
    pub types: Seq<TypeBindingModel>,
}

impl View for Scope {
    type V = ScopeModel;

    open spec fn view(&self) -> ScopeModel {
        ScopeModel {
            symbols: self.symbols@.map(|i: int, s: Symbol| s@),
            types: self.types@.map(|i: int, t: TypeBinding| t@),
        }
    }
}

/// A scope with no bindings yet.
pub open spec fn empty_scope() -> ScopeModel {
    ScopeModel { symbols: Seq::empty(), types: Seq::empty() }
}

/// First position at or after `i` in `syms` whose name is `name`.
pub open spec fn find_symbol_from(syms: Seq<SymbolModel>, name: Seq<char>, i: int) -> Option<int>
    decreases syms.len() - i,
{
    if i < 0 || i >= syms.len() {
        None
    } else if syms[i].name == name {
        Some(i)
    } else {
        find_symbol_from(syms, name, i + 1)
    }
}

/// First position at or after `i` in `types` whose name is `name`.
pub open spec fn find_binding_from(types: Seq<TypeBindingModel>, name: Seq<char>, i: int) -> Option<
    int,
>
    decreases types.len() - i,
{
    if i < 0 || i >= types.len() {
        None
    } else if types[i].name == name {
        Some(i)
    } else {
        find_binding_from(types, name, i + 1)
    }
}

/// Position of `name` in the value namespace of one scope.
pub open spec fn scope_find_symbol(s: ScopeModel, name: Seq<char>) -> Option<int> {
    find_symbol_from(s.symbols, name, 0)
}

/// Whether `name` is bound in the value namespace of one scope.
pub open spec fn scope_has_symbol(s: ScopeModel, name: Seq<char>) -> bool {
    scope_find_symbol(s, name) is Some
}

/// Position of `name` in the type namespace of one scope.
pub open spec fn scope_find_type(s: ScopeModel, name: Seq<char>) -> Option<int> {
    find_binding_from(s.types, name, 0)
}

/// Whether `name` is bound in the type namespace of one scope.
pub open spec fn scope_has_type(s: ScopeModel, name: Seq<char>) -> bool {
    scope_find_type(s, name) is Some
}

/// Scope and position of the innermost value binding of `name`, searching
/// scope `i` and the scopes outside it.
pub open spec fn locate_symbol_from(scopes: Seq<ScopeModel>, name: Seq<char>, i: int) -> Option<
    (int, int),
>
    decreases i + 1,
{
    if i < 0 || i >= scopes.len() {
        None
    } else {
        match scope_find_symbol(scopes[i], name) {
            Some(j) => Some((i, j)),
            None => locate_symbol_from(scopes, name, i - 1),
        }
    }
}

/// Scope and position of the innermost value binding of `name`.
pub open spec fn locate_symbol(scopes: Seq<ScopeModel>, name: Seq<char>) -> Option<(int, int)> {
    locate_symbol_from(scopes, name, scopes.len() - 1)
}

/// The innermost value binding of `name`, walking scopes inside out.
pub open spec fn table_find_symbol(scopes: Seq<ScopeModel>, name: Seq<char>) -> Option<
    SymbolModel,
> {
    match locate_symbol(scopes, name) {
        Some((i, j)) => Some(scopes[i].symbols[j]),
        None => None,
    }
}

/// The innermost type binding of `name`, searching scope `i` and the scopes
/// outside it.
pub open spec fn find_type_from(scopes: Seq<ScopeModel>, name: Seq<char>, i: int) -> Option<
    TypeReference,
>
    decreases i + 1,
{
    if i < 0 || i >= scopes.len() {
        None
    } else {
        match scope_find_type(scopes[i], name) {
            Some(j) => Some(scopes[i].types[j].reference),
            None => find_type_from(scopes, name, i - 1),
        }
    }
}

/// The innermost type binding of `name`, walking scopes inside out.
pub open spec fn table_find_type(scopes: Seq<ScopeModel>, name: Seq<char>) -> Option<
    TypeReference,
> {
    find_type_from(scopes, name, scopes.len() - 1)
}

/// `scopes` with `sym` appended to the value namespace of the innermost
/// scope.
pub open spec fn push_symbol(scopes: Seq<ScopeModel>, sym: SymbolModel) -> Seq<ScopeModel> {
    scopes.update(
        scopes.len() - 1,
        (ScopeModel { symbols: scopes.last().symbols.push(sym), ..scopes.last() }),
    )
}

/// `scopes` with a type binding appended to the type namespace of scope `i`.
pub open spec fn push_binding(scopes: Seq<ScopeModel>, i: int, b: TypeBindingModel) -> Seq<
    ScopeModel,
> {
    scopes.update(i, (ScopeModel { types: scopes[i].types.push(b), ..scopes[i] }))
}

/// `scopes` with the symbol at scope `i`, position `j` now carrying type
/// `t`.
pub open spec fn set_symbol_type(scopes: Seq<ScopeModel>, i: int, j: int, t: TypeReference) -> Seq<
    ScopeModel,
> {
    scopes.update(
        i,
        (ScopeModel {
            symbols: scopes[i].symbols.update(
                j,
                (SymbolModel { ty: Some(t), ..scopes[i].symbols[j] }),
            ),
            ..scopes[i]
        }),
    )
}

/// A stack of lexical scopes. The bottom-most scope is the global one;
/// lookup walks from the innermost scope outward, so inner bindings shadow
/// outer ones.
pub struct SymbolTable {
    pub scopes: Vec<Scope>,
}

impl View for SymbolTable {
    type V = Seq<ScopeModel>;

    open spec fn view(&self) -> Seq<ScopeModel> {
        self.scopes@.map(|i: int, s: Scope| s@)
    }
}

impl SymbolTable {
    pub fn new() -> (r: SymbolTable)
        ensures
            r@ == Seq::<ScopeModel>::empty(),
    {
        let r = SymbolTable { scopes: Vec::new() };
        proof {
            assert(r@ =~~= Seq::<ScopeModel>::empty());
        }
        r
    }

    /// How many scopes are currently open.
    pub fn depth(&self) -> (r: usize)
        ensures
            r == self@.len(),
    {
        self.scopes.len()
    }

    /// Opens a new innermost scope.
    pub fn enter_scope(&mut self)
        ensures
            final(self)@ == old(self)@.push(empty_scope()),
    {
        self.scopes.push(Scope { symbols: Vec::new(), types: Vec::new() });
        proof {
            assert(self@ =~~= old(self)@.push(empty_scope()));
        }
    }

    /// Closes the innermost scope; all bindings made in it vanish. Leaving
    /// with no matching enter is a contract violation, not a checkable
    /// error, so an open scope is required here.
    pub fn leave_scope(&mut self)
        requires
            old(self)@.len() > 0,
        ensures
            final(self)@ == old(self)@.drop_last(),
    {
        let _ = self.scopes.pop();
        proof {
            assert(self@ =~~= old(self)@.drop_last());
        }
    }

    /// Registers a value symbol with no resolved type yet in the innermost
    /// scope; rejects a name already bound in that scope's value namespace.
    pub fn add_symbol(&mut self, name: &String) -> (r: TypeCheckResult<()>)
        requires
            old(self)@.len() > 0,
        ensures
            scope_has_symbol(old(self)@.last(), name@) ==> (r matches Err(e) && e@
                == ErrorModel::DuplicateSymbol(name@) && final(self)@ == old(self)@),
            !scope_has_symbol(old(self)@.last(), name@) ==> (r is Ok && final(self)@
                == push_symbol(old(self)@, (SymbolModel { name: name@, ty: None }))),
    {
        self.add_symbol_entry(name, None)
    }

    /// Registers a value symbol whose type is already known.
    pub fn add_symbol_with_type(&mut self, name: &String, type_ref: TypeReference) -> (r:
        TypeCheckResult<()>)
        requires
            old(self)@.len() > 0,
        ensures
            scope_has_symbol(old(self)@.last(), name@) ==> (r matches Err(e) && e@
                == ErrorModel::DuplicateSymbol(name@) && final(self)@ == old(self)@),
            !scope_has_symbol(old(self)@.last(), name@) ==> (r is Ok && final(self)@
                == push_symbol(old(self)@, (SymbolModel { name: name@, ty: Some(type_ref) }))),
    {
        self.add_symbol_entry(name, Some(type_ref))
    }

    fn add_symbol_entry(&mut self, name: &String, ty: Option<TypeReference>) -> (r:
        TypeCheckResult<()>)
        requires
            old(self)@.len() > 0,
        ensures
            scope_has_symbol(old(self)@.last(), name@) ==> (r matches Err(e) && e@
                == ErrorModel::DuplicateSymbol(name@) && final(self)@ == old(self)@),
            !scope_has_symbol(old(self)@.last(), name@) ==> (r is Ok && final(self)@
                == push_symbol(old(self)@, (SymbolModel { name: name@, ty }))),
    {
        let top = self.scopes.len() - 1;
        if symbol_position(&self.scopes[top], name).is_some() {
            return Err(TypeError::DuplicateSymbol(name.clone()));
        }
        let mut scope = self.scopes.pop().unwrap();
        scope.symbols.push(Symbol { name: name.clone(), symbol_type: ty });
        self.scopes.push(scope);
        proof {
            assert(self@ =~~= push_symbol(old(self)@, (SymbolModel { name: name@, ty })));
        }
        Ok(())
    }

    /// Registers a type binding in the innermost scope; rejects a name
    /// already bound in that scope's type namespace.
    pub fn add_type(&mut self, name: &String, reference: TypeReference) -> (r: TypeCheckResult<()>)
        requires
            old(self)@.len() > 0,
        ensures
            scope_has_type(old(self)@.last(), name@) ==> (r matches Err(e) && e@
                == ErrorModel::DuplicateType(name@) && final(self)@ == old(self)@),
            !scope_has_type(old(self)@.last(), name@) ==> (r is Ok && final(self)@
                == push_binding(
                old(self)@,
                old(self)@.len() - 1,
                (TypeBindingModel { name: name@, reference }),
            )),
    {
        let top = self.scopes.len() - 1;
        self.add_type_at(top, name, reference)
    }

    /// Registers a type binding directly in the global scope, so that the
    /// name stays visible whatever scope is current.
    pub fn add_global_type(&mut self, name: &String, reference: TypeReference) -> (r:
        TypeCheckResult<()>)
        requires
            old(self)@.len() > 0,
        ensures
            scope_has_type(old(self)@[0], name@) ==> (r matches Err(e) && e@
                == ErrorModel::DuplicateType(name@) && final(self)@ == old(self)@),
            !scope_has_type(old(self)@[0], name@) ==> (r is Ok && final(self)@ == push_binding(
                old(self)@,
                0,
                (TypeBindingModel { name: name@, reference }),
            )),
    {
        self.add_type_at(0, name, reference)
    }

    fn add_type_at(&mut self, at: usize, name: &String, reference: TypeReference) -> (r:
        TypeCheckResult<()>)
        requires
            at < old(self)@.len(),
        ensures
            scope_has_type(old(self)@[at as int], name@) ==> (r matches Err(e) && e@
                == ErrorModel::DuplicateType(name@) && final(self)@ == old(self)@),
            !scope_has_type(old(self)@[at as int], name@) ==> (r is Ok && final(self)@
                == push_binding(
                old(self)@,
                at as int,
                (TypeBindingModel { name: name@, reference }),
            )),
    {
        if binding_position(&self.scopes[at].types, name).is_some() {
            return Err(TypeError::DuplicateType(name.clone()));
        }
        let mut scope = self.scopes.remove(at);
        scope.types.push(TypeBinding { name: name.clone(), reference });
        self.scopes.insert(at, scope);
        proof {
            assert(self@ =~~= push_binding(
                old(self)@,
                at as int,
                (TypeBindingModel { name: name@, reference }),
            ));
        }
        Ok(())
    }

    /// Fills in the type of an existing, possibly type-less value symbol,
    /// found in the nearest scope containing it.
    pub fn resolve_symbol_type(&mut self, name: &String, type_ref: TypeReference) -> (r:
        TypeCheckResult<()>)
        ensures
            (locate_symbol(old(self)@, name@) matches Some(p) && 0 <= p.0 < old(self)@.len() && 0
                <= p.1 < old(self)@[p.0].symbols.len() && final(self)@ == set_symbol_type(
                old(self)@,
                p.0,
                p.1,
                type_ref,
            ) && r is Ok) || (r matches Err(e) && e@ == ErrorModel::VariableNotFound(name@)
                && locate_symbol(old(self)@, name@) is None && final(self)@ == old(self)@),
    {
        let mut i = self.scopes.len();
        while i > 0
            invariant
                i <= self.scopes@.len(),
                self@ == old(self)@,
                locate_symbol(old(self)@, name@) == locate_symbol_from(old(self)@, name@, i - 1),
            decreases i,
        {
            i = i - 1;
            match symbol_position(&self.scopes[i], name) {
                Some(j) => {
                    proof {
                        assert(locate_symbol_from(old(self)@, name@, i as int) == Some((
                            i as int,
                            j as int,
                        )));
                    }
                    let mut scope = self.scopes.remove(i);
                    let mut sym = scope.symbols.remove(j);
                    sym = Symbol { name: sym.name, symbol_type: Some(type_ref) };
                    scope.symbols.insert(j, sym);
                    self.scopes.insert(i, scope);
                    proof {
                        assert(self@ =~~= set_symbol_type(old(self)@, i as int, j as int, type_ref));
                    }
                    return Ok(());
                },
                None => {},
            }
        }
        Err(TypeError::VariableNotFound(name.clone()))
    }

    /// The innermost value binding of `name`, if any, walking scopes inside
    /// out.
    pub fn find_symbol(&self, name: &String) -> (r: Option<&Symbol>)
        ensures
            (table_find_symbol(self@, name@) matches Some(m) && r matches Some(s) && s@ == m) || (
            table_find_symbol(self@, name@) is None && r is None),
    {
        let mut i = self.scopes.len();
        while i > 0
            invariant
                i <= self.scopes@.len(),
                locate_symbol(self@, name@) == locate_symbol_from(self@, name@, i - 1),
            decreases i,
        {
            i = i - 1;
            match symbol_position(&self.scopes[i], name) {
                Some(j) => {
                    proof {
                        assert(locate_symbol_from(self@, name@, i as int) == Some((
                            i as int,
                            j as int,
                        )));
                    }
                    return Some(&self.scopes[i].symbols[j]);
                },
                None => {},
            }
        }
        None
    }

    /// Resolves `name` in the type namespace across all visible scopes;
    /// the error names exactly the unresolved type.
    pub fn find_type_or_err(&self, name: &String) -> (r: TypeCheckResult<TypeReference>)
        ensures
            (table_find_type(self@, name@) matches Some(t) && r matches Ok(tr) && tr == t) || (r
             matches Err(e) && e@ == ErrorModel::TypeNotFound(name@) && table_find_type(
                self@,
                name@,
            ) is None),
    {
        let mut i = self.scopes.len();
        while i > 0
            invariant
                i <= self.scopes@.len(),
                table_find_type(self@, name@) == find_type_from(self@, name@, i - 1),
            decreases i,
        {
            i = i - 1;
            match binding_position(&self.scopes[i].types, name) {
                Some(j) => {
                    proof {
                        assert(find_type_from(self@, name@, i as int) == Some(
                            self@[i as int].types[j as int].reference,
                        ));
                    }
                    return Ok(self.scopes[i].types[j].reference);
                },
                None => {},
            }
        }
        Err(TypeError::TypeNotFound(name.clone()))
    }
}

/// Position of the first symbol named `name` in one scope's value frame.
fn symbol_position(scope: &Scope, name: &String) -> (r: Option<usize>)
    ensures
        (scope_find_symbol(scope@, name@) matches Some(j) && r matches Some(rj) && rj == j && 0
            <= j < scope@.symbols.len() && scope@.symbols[j].name == name@) || (scope_find_symbol(
            scope@,
            name@,
        ) is None && r is None),
{
    let mut j: usize = 0;
    while j < scope.symbols.len()
        invariant
            j <= scope.symbols@.len(),
            scope_find_symbol(scope@, name@) == find_symbol_from(scope@.symbols, name@, j as int),
        decreases scope.symbols@.len() - j,
    {
        if scope.symbols[j].name.eq(name) {
            return Some(j);
        }
        j += 1;
    }
    None
}

/// Position of the first binding named `name` in one type frame.
fn binding_position(types: &Vec<TypeBinding>, name: &String) -> (r: Option<usize>)
    ensures
        (find_binding_from(types@.map(|i: int, t: TypeBinding| t@), name@, 0) matches Some(j)
            && r matches Some(rj) && rj == j && 0 <= j < types@.len() && types@[j].name@ == name@)
            || (find_binding_from(types@.map(|i: int, t: TypeBinding| t@), name@, 0) is None
            && r is None),
{
    let ghost m = types@.map(|i: int, t: TypeBinding| t@);
    let mut j: usize = 0;
    while j < types.len()
        invariant
            j <= types@.len(),
            m == types@.map(|i: int, t: TypeBinding| t@),
            find_binding_from(m, name@, 0) == find_binding_from(m, name@, j as int),
        decreases types@.len() - j,
    {
        if types[j].name.eq(name) {
            return Some(j);
        }
        j += 1;
    }
    None
}

/// Type lookup reads only the type namespaces: two scope stacks whose type
/// frames agree resolve every name alike, whatever their value symbols.
pub proof fn lemma_find_type_depends_on_types(
    s1: Seq<ScopeModel>,
    s2: Seq<ScopeModel>,
    name: Seq<char>,
    i: int,
)
    requires
        s1.len() == s2.len(),
        forall|k: int| 0 <= k < s1.len() ==> s1[k].types == s2[k].types,
    ensures
        find_type_from(s1, name, i) == find_type_from(s2, name, i),
    decreases i + 1,
{
    if 0 <= i < s1.len() {
        assert(scope_find_type(s1[i], name) == scope_find_type(s2[i], name));
        lemma_find_type_depends_on_types(s1, s2, name, i - 1);
    }
}

/// Type lookup up to scope `i` reads only the scopes up to `i`.
pub proof fn lemma_find_type_prefix(
    s1: Seq<ScopeModel>,
    s2: Seq<ScopeModel>,
    name: Seq<char>,
    i: int,
)
    requires
        forall|k: int| 0 <= k <= i ==> k < s1.len() && k < s2.len() && s1[k] == s2[k],
    ensures
        find_type_from(s1, name, i) == find_type_from(s2, name, i),
    decreases i + 1,
{
    if 0 <= i {
        lemma_find_type_prefix(s1, s2, name, i - 1);
    }
}

} // verus!
