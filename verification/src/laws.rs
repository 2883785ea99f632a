use vstd::prelude::*;

use crate::ast::{CastDeclaration, ConstantDefinition, StructDefinition};
use crate::error::ErrorModel;
use crate::module::Module;
use crate::symbol_table::{
    empty_scope, find_binding_from, find_symbol_from, lemma_find_type_prefix, push_symbol,
    scope_find_type, scope_has_symbol, scope_has_type, table_find_type, ScopeModel, SymbolModel,
    TypeBindingModel,
};
use crate::type_check::{
    sp_check_casts_at, sp_check_constants_at, sp_check_structs, sp_struct_members_at,
    sp_structs_pass1_at, sp_type_check, CheckState,
};
use crate::type_environment::{model_cast_exists, TypeModel, TypeReference};

verus! {

/// A found binding lies inside the frame and bears the sought name.
proof fn lemma_find_binding_bounds(types: Seq<TypeBindingModel>, name: Seq<char>, i: int)
    ensures
        find_binding_from(types, name, i) matches Some(j) ==> i <= j < types.len()
            && types[j].name == name,
    decreases types.len() - i,
{
    if 0 <= i < types.len() {
        lemma_find_binding_bounds(types, name, i + 1);
    }
}

/// Appending a binding with another name changes no lookup.
proof fn lemma_find_binding_push_ne(
    types: Seq<TypeBindingModel>,
    b: TypeBindingModel,
    name: Seq<char>,
    i: int,
)
    requires
        b.name != name,
        0 <= i,
    ensures
        find_binding_from(types.push(b), name, i) == find_binding_from(types, name, i),
    decreases types.len() + 2 - i,
{
    if i <= types.len() {
        lemma_find_binding_push_ne(types, b, name, i + 1);
    }
}

/// Appending a binding with a hitherto absent name makes it findable at
/// the end of the frame.
proof fn lemma_find_binding_push_eq(
    types: Seq<TypeBindingModel>,
    b: TypeBindingModel,
    name: Seq<char>,
    i: int,
)
    requires
        b.name == name,
        find_binding_from(types, name, i) is None,
        0 <= i <= types.len(),
    ensures
        find_binding_from(types.push(b), name, i) == Some(types.len() as int),
    decreases types.len() + 1 - i,
{
    if i < types.len() {
        lemma_find_binding_push_eq(types, b, name, i + 1);
    }
}

/// Appending a symbol with another name changes no value lookup.
proof fn lemma_find_symbol_push_ne(
    syms: Seq<SymbolModel>,
    x: SymbolModel,
    name: Seq<char>,
    i: int,
)
    requires
        x.name != name,
        0 <= i,
    ensures
        find_symbol_from(syms.push(x), name, i) == find_symbol_from(syms, name, i),
    decreases syms.len() + 2 - i,
{
    if i <= syms.len() {
        lemma_find_symbol_push_ne(syms, x, name, i + 1);
    }
}

/// What the struct name pass builds, from position `i` on: it succeeds,
/// touches only the innermost scope, creates one type per struct in
/// declaration order, and afterwards each struct's name resolves to its
/// own created type while every other name resolves as before.
pub proof fn lemma_pass1_state(st: CheckState, structs: Seq<StructDefinition>, i: int)
    requires
        st.scopes.len() > 0,
        0 <= i <= structs.len(),
        forall|a: int, b: int|
            i <= a < b < structs.len() ==> structs[a].struct_name.name@
                != structs[b].struct_name.name@,
        forall|j: int|
            i <= j < structs.len() ==> !scope_has_symbol(
                st.scopes.last(),
                #[trigger] structs[j].struct_name.name@,
            ) && !scope_has_type(st.scopes.last(), structs[j].struct_name.name@),
    ensures
        ({
            let step = sp_structs_pass1_at(st, structs, i);
            step.1 is None && step.0.scopes.len() == st.scopes.len() && (forall|k: int|
                0 <= k < st.scopes.len() - 1 ==> step.0.scopes[k] == st.scopes[k])
                && step.0.env.len() == st.env.len() + (structs.len() - i) && (forall|j: int|
                i <= j < structs.len() ==> table_find_type(
                    step.0.scopes,
                    #[trigger] structs[j].struct_name.name@,
                ) == Some(TypeReference { id: (st.env.len() + (j - i)) as usize })) && (forall|
                nm: Seq<char>,
            |
                (forall|j: int| i <= j < structs.len() ==> structs[j].struct_name.name@ != nm)
                    ==> #[trigger] table_find_type(step.0.scopes, nm) == table_find_type(
                    st.scopes,
                    nm,
                )) })
    decreases structs.len() - i,
{
    if i < structs.len() {
        let name = structs[i].struct_name.name@;
        let sym = SymbolModel { name, ty: None };
        let scopes1 = push_symbol(st.scopes, sym);
        let reference = TypeReference { id: st.env.len() as usize };
        let binding = TypeBindingModel { name, reference };
        let env1 = st.env.push(crate::type_environment::fresh_type_model(name));
        let scopes2 = crate::symbol_table::push_binding(scopes1, scopes1.len() - 1, binding);
        let st2 = CheckState { env: env1, scopes: scopes2 };
        assert(scopes1.last().types == st.scopes.last().types);
        assert(scopes2.last().types == st.scopes.last().types.push(binding));
        assert(scopes2.last().symbols == st.scopes.last().symbols.push(sym));
        assert forall|j: int| i + 1 <= j < structs.len() implies !scope_has_symbol(
            st2.scopes.last(),
            #[trigger] structs[j].struct_name.name@,
        ) && !scope_has_type(st2.scopes.last(), structs[j].struct_name.name@) by {
            lemma_find_symbol_push_ne(
                st.scopes.last().symbols,
                sym,
                structs[j].struct_name.name@,
                0,
            );
            lemma_find_binding_push_ne(
                st.scopes.last().types,
                binding,
                structs[j].struct_name.name@,
                0,
            );
        }
        lemma_pass1_state(st2, structs, i + 1);
        assert(!scope_has_type(scopes1.last(), name));
        assert(sp_structs_pass1_at(st, structs, i) == sp_structs_pass1_at(st2, structs, i + 1));
        let step = sp_structs_pass1_at(st2, structs, i + 1);
        // the name bound at this step resolves to its own type in st2
        assert(!scope_has_type(st.scopes.last(), name));
        lemma_find_binding_push_eq(st.scopes.last().types, binding, name, 0);
        assert(scope_find_type(st2.scopes.last(), name) == Some(
            st.scopes.last().types.len() as int,
        ));
        assert(table_find_type(st2.scopes, name) == Some(reference));
        assert(forall|j: int| i + 1 <= j < structs.len() ==> structs[j].struct_name.name@ != name);
        assert(table_find_type(step.0.scopes, name) == Some(reference));
        assert forall|j: int| i <= j < structs.len() implies table_find_type(
            step.0.scopes,
            #[trigger] structs[j].struct_name.name@,
        ) == Some(TypeReference { id: (st.env.len() + (j - i)) as usize }) by {
            if j > i {
                assert(table_find_type(step.0.scopes, structs[j].struct_name.name@) == Some(
                    TypeReference { id: (st2.env.len() + (j - (i + 1))) as usize },
                ));
            }
        }
        assert(sp_structs_pass1_at(st, structs, i).1 is None);
        assert(step.0.scopes.len() == st.scopes.len());
        assert forall|k: int| 0 <= k < st.scopes.len() - 1 implies step.0.scopes[k]
            == st.scopes[k] by {
            assert(step.0.scopes[k] == st2.scopes[k]);
            assert(st2.scopes[k] == scopes1[k]);
            assert(scopes1[k] == st.scopes[k]);
        }
        assert(step.0.env.len() == st.env.len() + (structs.len() - i));
        // names bound by neither step resolve as before
        assert forall|nm: Seq<char>|
            (forall|j: int| i <= j < structs.len() ==> structs[j].struct_name.name@ != nm) implies
            #[trigger] table_find_type(step.0.scopes, nm) == table_find_type(st.scopes, nm) by {
            assert(structs[i].struct_name.name@ != nm);
            assert(forall|j: int|
                i + 1 <= j < structs.len() ==> structs[j].struct_name.name@ != nm);
            assert(table_find_type(step.0.scopes, nm) == table_find_type(st2.scopes, nm));
            lemma_find_symbol_push_ne(st.scopes.last().symbols, sym, nm, 0);
            lemma_find_binding_push_ne(st.scopes.last().types, binding, nm, 0);
            assert(scope_find_type(st2.scopes.last(), nm) == scope_find_type(
                st.scopes.last(),
                nm,
            ));
            match scope_find_type(st.scopes.last(), nm) {
                Some(j) => {
                    lemma_find_binding_bounds(st.scopes.last().types, nm, 0);
                    assert(st2.scopes.last().types[j] == st.scopes.last().types[j]);
                    assert(table_find_type(st2.scopes, nm) == Some(
                        st.scopes.last().types[j].reference,
                    ));
                    assert(table_find_type(st.scopes, nm) == Some(
                        st.scopes.last().types[j].reference,
                    ));
                },
                None => {
                    lemma_find_type_prefix(st2.scopes, st.scopes, nm, st.scopes.len() - 2);
                },
            }
        }
    }
}

/// Every member whose type name resolves lets the member walk go on to
/// the end without an error.
proof fn lemma_members_all_resolve(
    scopes: Seq<ScopeModel>,
    structs: Seq<StructDefinition>,
    k: int,
    m: int,
)
    requires
        0 <= k,
        0 <= m,
        forall|k2: int, m2: int|
            0 <= k2 < structs.len() && 0 <= m2 < structs[k2].struct_member@.len()
                ==> table_find_type(
                scopes,
                #[trigger] structs[k2].struct_member@[m2].struct_member_type_name.name@,
            ) is Some,
    ensures
        sp_struct_members_at(scopes, structs, k, m) is None,
    decreases structs.len() - k, structs[k].struct_member@.len() - m,
{
    if k < structs.len() {
        if m >= structs[k].struct_member@.len() {
            lemma_members_all_resolve(scopes, structs, k + 1, 0);
        } else {
            lemma_members_all_resolve(scopes, structs, k, m + 1);
        }
    }
}

/// Forward references among structs: when a module's struct names are
/// distinct and collide with nothing already in the current scope, and
/// every member's type name is one of those struct names — earlier or
/// later in the module, in any order — the struct pass succeeds and each
/// member resolves to exactly the declared identity of the struct it
/// names.
pub proof fn lemma_struct_forward_references(st: CheckState, structs: Seq<StructDefinition>)
    requires
        st.scopes.len() > 0,
        forall|a: int, b: int|
            0 <= a < b < structs.len() ==> structs[a].struct_name.name@
                != structs[b].struct_name.name@,
        forall|j: int|
            0 <= j < structs.len() ==> !scope_has_symbol(
                st.scopes.last(),
                #[trigger] structs[j].struct_name.name@,
            ) && !scope_has_type(st.scopes.last(), structs[j].struct_name.name@),
        forall|k: int, m: int|
            0 <= k < structs.len() && 0 <= m < structs[k].struct_member@.len() ==> exists|j: int|
                0 <= j < structs.len() && (#[trigger] structs[k].struct_member@[m]).struct_member_type_name.name@
                    == structs[j].struct_name.name@,
    ensures
        sp_check_structs(st, structs).1 is None,
        forall|k: int, m: int, j: int|
            0 <= k < structs.len() && 0 <= m < structs[k].struct_member@.len() && 0 <= j
                < structs.len() && (#[trigger] structs[k].struct_member@[m]).struct_member_type_name.name@
                == (#[trigger] structs[j]).struct_name.name@ ==> table_find_type(
                sp_check_structs(st, structs).0.scopes,
                structs[k].struct_member@[m].struct_member_type_name.name@,
            ) == Some(TypeReference { id: (st.env.len() + j) as usize }),
{
    lemma_pass1_state(st, structs, 0);
    let step = sp_structs_pass1_at(st, structs, 0);
    assert forall|k2: int, m2: int|
        0 <= k2 < structs.len() && 0 <= m2 < structs[k2].struct_member@.len() implies
        table_find_type(
        step.0.scopes,
        #[trigger] structs[k2].struct_member@[m2].struct_member_type_name.name@,
    ) is Some by {
        let j = choose|j: int|
            0 <= j < structs.len() && structs[k2].struct_member@[m2].struct_member_type_name.name@
                == structs[j].struct_name.name@;
        assert(table_find_type(step.0.scopes, structs[j].struct_name.name@) == Some(
            TypeReference { id: (st.env.len() + j) as usize },
        ));
    }
    lemma_members_all_resolve(step.0.scopes, structs, 0, 0);
}

/// A struct member, constant or cast whose type name does not resolve
/// stops the check with `TypeNotFound` naming exactly that type; the
/// failing phase writes nothing back, so the field keeps no resolved
/// type (see the write-back clauses ensured by `type_check`).
pub proof fn lemma_unresolved_member_fails(
    scopes: Seq<ScopeModel>,
    structs: Seq<StructDefinition>,
    k: int,
    m: int,
)
    requires
        0 <= k < structs.len(),
        0 <= m < structs[k].struct_member@.len(),
        table_find_type(scopes, structs[k].struct_member@[m].struct_member_type_name.name@)
            is None,
        sp_struct_members_at(scopes, structs, 0, 0) == sp_struct_members_at(scopes, structs, k, m),
    ensures
        sp_struct_members_at(scopes, structs, 0, 0) == Some(
            ErrorModel::TypeNotFound(
                structs[k].struct_member@[m].struct_member_type_name.name@,
            ),
        ),
{
}

/// A constant whose declared type name does not resolve stops the
/// constant walk with `TypeNotFound` naming exactly that type.
pub proof fn lemma_unresolved_constant_fails(
    st: CheckState,
    constants: Seq<ConstantDefinition>,
    i: int,
)
    requires
        0 <= i < constants.len(),
        st.scopes.len() > 0,
        !scope_has_symbol(st.scopes.last(), constants[i].constant_name.name@),
        table_find_type(
            push_symbol(
                st.scopes,
                (SymbolModel { name: constants[i].constant_name.name@, ty: None }),
            ),
            constants[i].constant_type_name.name@,
        ) is None,
    ensures
        sp_check_constants_at(st, constants, i).1 == Some(
            ErrorModel::TypeNotFound(constants[i].constant_type_name.name@),
        ),
{
}

/// A cast naming an unresolvable source or target stops the cast walk
/// with `TypeNotFound` naming the first endpoint that failed.
pub proof fn lemma_unresolved_cast_fails(st: CheckState, casts: Seq<CastDeclaration>, i: int)
    requires
        0 <= i < casts.len(),
    ensures
        table_find_type(st.scopes, casts[i].source_type.name@) is None ==> sp_check_casts_at(
            st,
            casts,
            i,
        ).1 == Some(ErrorModel::TypeNotFound(casts[i].source_type.name@)),
        (table_find_type(st.scopes, casts[i].source_type.name@) is Some && table_find_type(
            st.scopes,
            casts[i].target_type.name@,
        ) is None) ==> sp_check_casts_at(st, casts, i).1 == Some(
            ErrorModel::TypeNotFound(casts[i].target_type.name@),
        ),
{
}

/// Declaring two casts between the same source and target — whatever kind
/// either declares — fails the second with `CastAlreadyDeclared`.
pub proof fn lemma_duplicate_cast_rejected(
    st: CheckState,
    c1: CastDeclaration,
    c2: CastDeclaration,
)
    requires
        c2.source_type.name@ == c1.source_type.name@,
        c2.target_type.name@ == c1.target_type.name@,
        table_find_type(st.scopes, c1.source_type.name@) matches Some(s) && s.id < st.env.len()
            && (table_find_type(st.scopes, c1.target_type.name@) matches Some(t)
            && !model_cast_exists(st.env[s.id as int], t)),
    ensures
        sp_check_casts_at(st, seq![c1, c2], 0).1 == Some(
            ErrorModel::CastAlreadyDeclared(c1.source_type.name@, c1.target_type.name@),
        ),
{
    let cs = seq![c1, c2];
    assert(cs[0] == c1 && cs[1] == c2);
    let s = table_find_type(st.scopes, c1.source_type.name@)->Some_0;
    let t = table_find_type(st.scopes, c1.target_type.name@)->Some_0;
    let st1 = sp_check_casts_at_state_after_one(st, c1, s, t);
    assert(sp_check_casts_at(st, cs, 0) == sp_check_casts_at(st1, cs, 1));
    let entry = st.env[s.id as int];
    if c1.cast_type == crate::ast::CastType::Implicit {
        assert(entry.implicit_casts.push(t)[entry.implicit_casts.len() as int] == t);
    } else {
        assert(entry.explicit_casts.push(t)[entry.explicit_casts.len() as int] == t);
    }
    assert(model_cast_exists(st1.env[s.id as int], t));
    assert(sp_check_casts_at(st1, cs, 1).1 == Some(
        ErrorModel::CastAlreadyDeclared(c1.source_type.name@, c1.target_type.name@),
    ));
}

/// The state after one successfully declared cast: the matching edge set
/// of the source's entry gains the target.
pub open spec fn sp_check_casts_at_state_after_one(
    st: CheckState,
    c: CastDeclaration,
    s: TypeReference,
    t: TypeReference,
) -> CheckState {
    let entry = st.env[s.id as int];
    let entry1 = if c.cast_type == crate::ast::CastType::Implicit {
        TypeModel { implicit_casts: entry.implicit_casts.push(t), ..entry }
    } else {
        TypeModel { explicit_casts: entry.explicit_casts.push(t), ..entry }
    };
    CheckState { env: st.env.update(s.id as int, entry1), scopes: st.scopes }
}

/// The reverse pair is its own edge: after a cast from source to target,
/// a cast from target back to source still goes through, whatever kinds
/// the two declare.
pub proof fn lemma_reverse_cast_independent(
    st: CheckState,
    c1: CastDeclaration,
    c2: CastDeclaration,
)
    requires
        c2.source_type.name@ == c1.target_type.name@,
        c2.target_type.name@ == c1.source_type.name@,
        table_find_type(st.scopes, c1.source_type.name@) matches Some(s) && s.id < st.env.len()
            && (table_find_type(st.scopes, c1.target_type.name@) matches Some(t) && t.id
            < st.env.len() && s.id != t.id && !model_cast_exists(st.env[s.id as int], t)
            && !model_cast_exists(st.env[t.id as int], s)),
    ensures
        sp_check_casts_at(st, seq![c1, c2], 0).1 is None,
{
    let cs = seq![c1, c2];
    assert(cs[0] == c1 && cs[1] == c2);
    let s = table_find_type(st.scopes, c1.source_type.name@)->Some_0;
    let t = table_find_type(st.scopes, c1.target_type.name@)->Some_0;
    let st1 = sp_check_casts_at_state_after_one(st, c1, s, t);
    assert(sp_check_casts_at(st, cs, 0) == sp_check_casts_at(st1, cs, 1));
    assert(st1.env[t.id as int] == st.env[t.id as int]);
    assert(st1.env.len() == st.env.len());
    let st2 = sp_check_casts_at_state_after_one(st1, c2, t, s);
    assert(sp_check_casts_at(st1, cs, 1) == sp_check_casts_at(st2, cs, 2));
    assert(sp_check_casts_at(st2, cs, 2).1 is None);
}

/// A cast declaration outside the core module fails the whole check with
/// `SyntaxOnlyValidInCoreModule`, whatever types it names and whether
/// they exist; the matching statement for primitives is an ensures clause
/// of `type_check` itself.
pub proof fn lemma_casts_only_in_core_module(
    env: Seq<TypeModel>,
    scopes: Seq<ScopeModel>,
    m: Module,
)
    requires
        !m.core,
        m.primitives@.len() == 0,
        m.casts@.len() > 0,
        sp_check_structs(
            (CheckState { env, scopes: scopes.push(empty_scope()) }),
            m.structs@,
        ).1 is None,
    ensures
        sp_type_check(env, scopes, m).1 == Some(ErrorModel::SyntaxOnlyValidInCoreModule),
{
}

} // verus!
