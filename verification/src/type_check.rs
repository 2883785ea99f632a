use vstd::prelude::*;
use vstd::string::StringExecFns;

use crate::ast::{
    BlockDeclaration, BlockStatement, CastDeclaration, CastType, ConstantDefinition,
    ExpressionStatement, FunctionArgumentDeclaration, FunctionDeclaration, InfixExpression,
    LiteralExpression, LiteralType, LocalDeclaration, PrimitiveDeclaration, ReturnDeclaration,
    StructDefinition, StructFieldInitializerExpression, StructInstantiationExpression,
    StructMemberDeclaration, VariableExpression,
};
use crate::error::{err_of, ErrorModel, TypeCheckResult, TypeError};
use crate::module::Module;
use crate::symbol_table::{
    empty_scope, lemma_find_type_depends_on_types, locate_symbol, push_binding, push_symbol,
    scope_has_symbol, scope_has_type, set_symbol_type, table_find_symbol, table_find_type,
    ScopeModel, SymbolModel, SymbolTable, TypeBindingModel,
};
use crate::type_environment::{
    fresh_type_model, model_cast_exists, TypeEnvironment, TypeModel, TypeReference,
};

verus! {

/// The joint state that a checking step evolves: the declared types and the
/// open scopes.
#[verifier::ext_equal]
pub struct CheckState {
    pub env: Seq<TypeModel>,
    pub scopes: Seq<ScopeModel>,
}

/// One step of the primitive pass: create the type, bind its name in the
/// global scope, and continue with the rest of the declarations.
pub open spec fn sp_check_primitives_at(
    st: CheckState,
    primitives: Seq<PrimitiveDeclaration>,
    i: int,
) -> (CheckState, Option<ErrorModel>)
    decreases primitives.len() - i,
{
    if i < 0 || i >= primitives.len() {
        (st, None)
    } else {
        let name = primitives[i].primitive_type_name.name@;
        let reference = TypeReference { id: st.env.len() as usize };
        let env1 = st.env.push(fresh_type_model(name));
        if scope_has_type(st.scopes[0], name) {
            ((CheckState { env: env1, scopes: st.scopes }), Some(ErrorModel::DuplicateType(name)))
        } else {
            sp_check_primitives_at(
                (CheckState {
                    env: env1,
                    scopes: push_binding(st.scopes, 0, (TypeBindingModel { name, reference })),
                }),
                primitives,
                i + 1,
            )
        }
    }
}

/// The primitive pass: only the core module may declare primitives; each
/// one becomes a fresh type bound globally.
pub open spec fn sp_check_primitives(
    is_core_module: bool,
    st: CheckState,
    primitives: Seq<PrimitiveDeclaration>,
) -> (CheckState, Option<ErrorModel>) {
    if !is_core_module && primitives.len() > 0 {
        (st, Some(ErrorModel::SyntaxOnlyValidInCoreModule))
    } else {
        sp_check_primitives_at(st, primitives, 0)
    }
}

/// Checks the module's primitive declarations: each creates a brand-new
/// type, registered in the global scope so it stays visible everywhere.
/// Primitives outside the core module are rejected outright.
fn check_primitives(
    is_core_module: bool,
    type_environment: &mut TypeEnvironment,
    symbol_table: &mut SymbolTable,
    primitives: &Vec<PrimitiveDeclaration>,
) -> (r: TypeCheckResult<Vec<PrimitiveDeclaration>>)
    requires
        old(symbol_table)@.len() > 0,
    ensures
        ({
            let step = sp_check_primitives(
                is_core_module,
                (CheckState { env: old(type_environment)@, scopes: old(symbol_table)@ }),
                primitives@,
            );
            final(type_environment)@ == step.0.env && final(symbol_table)@ == step.0.scopes
                && err_of(r) == step.1
        }),
        final(symbol_table)@.len() == old(symbol_table)@.len(),
        r matches Ok(out) ==> (out@.len() == primitives@.len() && forall|k: int|
            0 <= k < primitives@.len() ==> (#[trigger] out@[k]).primitive_type_name.name@
                == primitives@[k].primitive_type_name.name@ && out@[k].declaring_type == Some(
                TypeReference { id: (old(type_environment)@.len() + k) as usize },
            )),
{
    if !is_core_module && primitives.len() > 0 {
        return Err(TypeError::SyntaxOnlyValidInCoreModule);
    }
    let ghost st0 = CheckState { env: old(type_environment)@, scopes: old(symbol_table)@ };
    let ghost env0_len = old(type_environment)@.len();
    let mut out: Vec<PrimitiveDeclaration> = Vec::new();
    let mut i: usize = 0;
    while i < primitives.len()
        invariant
            i <= primitives@.len(),
            is_core_module || primitives@.len() == 0,
            old(symbol_table)@.len() > 0,
            symbol_table@.len() == old(symbol_table)@.len(),
            st0 == (CheckState { env: old(type_environment)@, scopes: old(symbol_table)@ }),
            env0_len == old(type_environment)@.len(),
            type_environment@.len() == env0_len + i,
            sp_check_primitives_at(st0, primitives@, 0) == sp_check_primitives_at(
                (CheckState { env: type_environment@, scopes: symbol_table@ }),
                primitives@,
                i as int,
            ),
            out@.len() == i,
            forall|k: int|
                0 <= k < i ==> (#[trigger] out@[k]).primitive_type_name.name@
                    == primitives@[k].primitive_type_name.name@ && out@[k].declaring_type == Some(
                    TypeReference { id: (env0_len + k) as usize },
                ),
        decreases primitives@.len() - i,
    {
        let ghost st_pre = CheckState { env: type_environment@, scopes: symbol_table@ };
        let p = &primitives[i];
        let declared = &p.primitive_type_name.name;
        let reference = type_environment.create_type(declared);
        match symbol_table.add_global_type(declared, reference) {
            Ok(_) => {},
            Err(e) => {
                proof {
                    assert(sp_check_primitives_at(st_pre, primitives@, i as int) == (
                        (CheckState { env: type_environment@, scopes: symbol_table@ }),
                        Some(e@),
                    ));
                }
                return Err(e);
            },
        }
        out.push(p.annotated(reference));
        i += 1;
        proof {
            assert(sp_check_primitives_at(st_pre, primitives@, i - 1) == sp_check_primitives_at(
                (CheckState { env: type_environment@, scopes: symbol_table@ }),
                primitives@,
                i as int,
            ));
        }
    }
    Ok(out)
}

/// One step of the struct name pass: bind the struct's name as a value
/// symbol and as a type in the current scope, creating its type.
pub open spec fn sp_structs_pass1_at(
    st: CheckState,
    structs: Seq<StructDefinition>,
    i: int,
) -> (CheckState, Option<ErrorModel>)
    decreases structs.len() - i,
{
    if i < 0 || i >= structs.len() {
        (st, None)
    } else {
        let name = structs[i].struct_name.name@;
        if scope_has_symbol(st.scopes.last(), name) {
            (st, Some(ErrorModel::DuplicateSymbol(name)))
        } else {
            let scopes1 = push_symbol(st.scopes, (SymbolModel { name, ty: None }));
            let reference = TypeReference { id: st.env.len() as usize };
            let env1 = st.env.push(fresh_type_model(name));
            if scope_has_type(scopes1.last(), name) {
                ((CheckState { env: env1, scopes: scopes1 }), Some(ErrorModel::DuplicateType(name)))
            } else {
                sp_structs_pass1_at(
                    (CheckState {
                        env: env1,
                        scopes: push_binding(
                            scopes1,
                            scopes1.len() - 1,
                            (TypeBindingModel { name, reference }),
                        ),
                    }),
                    structs,
                    i + 1,
                )
            }
        }
    }
}

/// The member pass: every member's type name must resolve, now that every
/// struct name of the module is bound.
pub open spec fn sp_struct_members_at(
    scopes: Seq<ScopeModel>,
    structs: Seq<StructDefinition>,
    k: int,
    m: int,
) -> Option<ErrorModel>
    decreases structs.len() - k, structs[k].struct_member@.len() - m,
{
    if k < 0 || k >= structs.len() {
        None
    } else if m < 0 || m >= structs[k].struct_member@.len() {
        sp_struct_members_at(scopes, structs, k + 1, 0)
    } else {
        match table_find_type(scopes, structs[k].struct_member@[m].struct_member_type_name.name@) {
            Some(_) => sp_struct_members_at(scopes, structs, k, m + 1),
            None => Some(
                ErrorModel::TypeNotFound(
                    structs[k].struct_member@[m].struct_member_type_name.name@,
                ),
            ),
        }
    }
}

/// The struct pass: first every struct name is bound, then every member
/// type name is resolved, which is what lets structs reference each other
/// in either order.
pub open spec fn sp_check_structs(st: CheckState, structs: Seq<StructDefinition>) -> (
    CheckState,
    Option<ErrorModel>,
) {
    let step = sp_structs_pass1_at(st, structs, 0);
    if step.1 is Some {
        step
    } else {
        (step.0, sp_struct_members_at(step.0.scopes, structs, 0, 0))
    }
}

/// Checks the module's struct definitions in two passes so that structs
/// may reference structs declared later in the same module.
fn check_structs(
    type_environment: &mut TypeEnvironment,
    symbol_table: &mut SymbolTable,
    structs: &Vec<StructDefinition>,
) -> (r: TypeCheckResult<Vec<StructDefinition>>)
    requires
        old(symbol_table)@.len() > 0,
    ensures
        ({
            let step = sp_check_structs(
                (CheckState { env: old(type_environment)@, scopes: old(symbol_table)@ }),
                structs@,
            );
            final(type_environment)@ == step.0.env && final(symbol_table)@ == step.0.scopes
                && err_of(r) == step.1
        }),
        final(symbol_table)@.len() == old(symbol_table)@.len(),
        r matches Ok(out) ==> (out@.len() == structs@.len() && forall|k: int|
            0 <= k < structs@.len() ==> (#[trigger] out@[k]).struct_name.name@
                == structs@[k].struct_name.name@ && out@[k].declaring_type == Some(
                TypeReference { id: (old(type_environment)@.len() + k) as usize },
            ) && out@[k].struct_member@.len() == structs@[k].struct_member@.len()),
        r matches Ok(out) ==> (forall|k: int, m: int|
            0 <= k < structs@.len() && 0 <= m < structs@[k].struct_member@.len() ==> {
                let member = #[trigger] structs@[k].struct_member@[m];
                let annotated = out@[k].struct_member@[m];
                annotated.struct_member_name.name@ == member.struct_member_name.name@
                    && annotated.struct_member_type_name.name@
                    == member.struct_member_type_name.name@ && annotated.struct_member_type
                    == table_find_type(final(symbol_table)@, member.struct_member_type_name.name@)
            }),
{
    let ghost st0 = CheckState { env: old(type_environment)@, scopes: old(symbol_table)@ };
    let ghost env0_len = old(type_environment)@.len();
    let mut refs: Vec<TypeReference> = Vec::new();
    let mut i: usize = 0;
    while i < structs.len()
        invariant
            i <= structs@.len(),
            old(symbol_table)@.len() > 0,
            symbol_table@.len() == old(symbol_table)@.len(),
            st0 == (CheckState { env: old(type_environment)@, scopes: old(symbol_table)@ }),
            env0_len == old(type_environment)@.len(),
            type_environment@.len() == env0_len + i,
            sp_structs_pass1_at(st0, structs@, 0) == sp_structs_pass1_at(
                (CheckState { env: type_environment@, scopes: symbol_table@ }),
                structs@,
                i as int,
            ),
            refs@.len() == i,
            forall|k: int|
                0 <= k < i ==> refs@[k] == (TypeReference { id: (env0_len + k) as usize }),
        decreases structs@.len() - i,
    {
        let ghost st_pre = CheckState { env: type_environment@, scopes: symbol_table@ };
        let s = &structs[i];
        match symbol_table.add_symbol(&s.struct_name.name) {
            Ok(_) => {},
            Err(e) => {
                proof {
                    assert(sp_structs_pass1_at(st_pre, structs@, i as int) == (
                        (CheckState { env: type_environment@, scopes: symbol_table@ }),
                        Some(e@),
                    ));
                }
                return Err(e);
            },
        }
        let reference = type_environment.create_type(&s.struct_name.name);
        match symbol_table.add_type(&s.struct_name.name, reference) {
            Ok(_) => {},
            Err(e) => {
                proof {
                    assert(sp_structs_pass1_at(st_pre, structs@, i as int) == (
                        (CheckState { env: type_environment@, scopes: symbol_table@ }),
                        Some(e@),
                    ));
                }
                return Err(e);
            },
        }
        refs.push(reference);
        i += 1;
        proof {
            assert(sp_structs_pass1_at(st_pre, structs@, i - 1) == sp_structs_pass1_at(
                (CheckState { env: type_environment@, scopes: symbol_table@ }),
                structs@,
                i as int,
            ));
        }
    }
    let ghost st1 = CheckState { env: type_environment@, scopes: symbol_table@ };
    let mut out: Vec<StructDefinition> = Vec::new();
    let mut k: usize = 0;
    while k < structs.len()
        invariant
            k <= structs@.len(),
            old(symbol_table)@.len() > 0,
            symbol_table@.len() == old(symbol_table)@.len(),
            st0 == (CheckState { env: old(type_environment)@, scopes: old(symbol_table)@ }),
            sp_structs_pass1_at(st0, structs@, 0).0 == st1,
            sp_structs_pass1_at(st0, structs@, 0).1 is None,
            st1 == (CheckState { env: type_environment@, scopes: symbol_table@ }),
            refs@.len() == structs@.len(),
            forall|q: int|
                0 <= q < structs@.len() ==> refs@[q] == (TypeReference {
                    id: (env0_len + q) as usize,
                }),
            env0_len == old(type_environment)@.len(),
            sp_struct_members_at(st1.scopes, structs@, 0, 0) == sp_struct_members_at(
                st1.scopes,
                structs@,
                k as int,
                0,
            ),
            out@.len() == k,
            forall|q: int|
                0 <= q < k ==> (#[trigger] out@[q]).struct_name.name@
                    == structs@[q].struct_name.name@ && out@[q].declaring_type == Some(refs@[q])
                    && out@[q].struct_member@.len() == structs@[q].struct_member@.len(),
            forall|q: int, m: int|
                0 <= q < k && 0 <= m < structs@[q].struct_member@.len() ==> {
                    let member = #[trigger] structs@[q].struct_member@[m];
                    let annotated = out@[q].struct_member@[m];
                    annotated.struct_member_name.name@ == member.struct_member_name.name@
                        && annotated.struct_member_type_name.name@
                        == member.struct_member_type_name.name@ && annotated.struct_member_type
                        == table_find_type(st1.scopes, member.struct_member_type_name.name@)
                },
        decreases structs@.len() - k,
    {
        let s = &structs[k];
        let mut members: Vec<StructMemberDeclaration> = Vec::new();
        let mut m: usize = 0;
        while m < s.struct_member.len()
            invariant
                k < structs@.len(),
                m <= structs@[k as int].struct_member@.len(),
                s == &structs[k as int],
                old(symbol_table)@.len() > 0,
                symbol_table@.len() == old(symbol_table)@.len(),
                st0 == (CheckState { env: old(type_environment)@, scopes: old(symbol_table)@ }),
                sp_structs_pass1_at(st0, structs@, 0).0 == st1,
                sp_structs_pass1_at(st0, structs@, 0).1 is None,
                sp_struct_members_at(st1.scopes, structs@, 0, 0) == sp_struct_members_at(
                    st1.scopes,
                    structs@,
                    k as int,
                    0,
                ),
                st1 == (CheckState { env: type_environment@, scopes: symbol_table@ }),
                sp_struct_members_at(st1.scopes, structs@, 0, 0) == sp_struct_members_at(
                    st1.scopes,
                    structs@,
                    k as int,
                    m as int,
                ),
                members@.len() == m,
                forall|q: int|
                    0 <= q < m ==> {
                        let member = #[trigger] structs@[k as int].struct_member@[q];
                        let annotated = members@[q];
                        annotated.struct_member_name.name@ == member.struct_member_name.name@
                            && annotated.struct_member_type_name.name@
                            == member.struct_member_type_name.name@ && annotated.struct_member_type
                            == table_find_type(st1.scopes, member.struct_member_type_name.name@)
                    },
            decreases structs@[k as int].struct_member@.len() - m,
        {
            let member = &s.struct_member[m];
            match symbol_table.find_type_or_err(&member.struct_member_type_name.name) {
                Ok(t) => {
                    members.push(
                        StructMemberDeclaration {
                            struct_member_name: member.struct_member_name.duplicate(),
                            struct_member_type_name: member.struct_member_type_name.duplicate(),
                            struct_member_type: Some(t),
                        },
                    );
                    m += 1;
                    proof {
                        assert(sp_struct_members_at(st1.scopes, structs@, k as int, m - 1)
                            == sp_struct_members_at(st1.scopes, structs@, k as int, m as int));
                    }
                },
                Err(e) => {
                    proof {
                        assert(sp_struct_members_at(st1.scopes, structs@, k as int, m as int)
                            == Some(e@));
                    }
                    return Err(e);
                },
            }
        }
        let declaring = refs[k];
        out.push(
            StructDefinition {
                struct_name: s.struct_name.duplicate(),
                struct_member: members,
                declaring_type: Some(declaring),
            },
        );
        k += 1;
        proof {
            assert(sp_struct_members_at(st1.scopes, structs@, k - 1, structs@[k - 1].struct_member@.len() as int)
                == sp_struct_members_at(st1.scopes, structs@, k as int, 0));
        }
    }
    Ok(out)
}

/// One step of the cast pass: both endpoints must resolve, and no cast of
/// either kind may already join them.
pub open spec fn sp_check_casts_at(
    st: CheckState,
    casts: Seq<CastDeclaration>,
    i: int,
) -> (CheckState, Option<ErrorModel>)
    decreases casts.len() - i,
{
    if i < 0 || i >= casts.len() {
        (st, None)
    } else {
        let c = casts[i];
        match table_find_type(st.scopes, c.source_type.name@) {
            None => (st, Some(ErrorModel::TypeNotFound(c.source_type.name@))),
            Some(source) => match table_find_type(st.scopes, c.target_type.name@) {
                None => (st, Some(ErrorModel::TypeNotFound(c.target_type.name@))),
                Some(target) => if !(source.id < st.env.len()) {
                    (st, Some(ErrorModel::TypeNotFound(c.source_type.name@)))
                } else if model_cast_exists(st.env[source.id as int], target) {
                    (
                        st,
                        Some(
                            ErrorModel::CastAlreadyDeclared(
                                c.source_type.name@,
                                c.target_type.name@,
                            ),
                        ),
                    )
                } else {
                    let entry = st.env[source.id as int];
                    let entry1 = if c.cast_type == CastType::Implicit {
                        TypeModel { implicit_casts: entry.implicit_casts.push(target), ..entry }
                    } else {
                        TypeModel { explicit_casts: entry.explicit_casts.push(target), ..entry }
                    };
                    sp_check_casts_at(
                        (CheckState {
                            env: st.env.update(source.id as int, entry1),
                            scopes: st.scopes,
                        }),
                        casts,
                        i + 1,
                    )
                },
            },
        }
    }
}

/// The cast pass: only the core module may declare casts.
pub open spec fn sp_check_casts(
    is_core_module: bool,
    st: CheckState,
    casts: Seq<CastDeclaration>,
) -> (CheckState, Option<ErrorModel>) {
    if !is_core_module && casts.len() > 0 {
        (st, Some(ErrorModel::SyntaxOnlyValidInCoreModule))
    } else {
        sp_check_casts_at(st, casts, 0)
    }
}

/// Checks the module's cast declarations: each endpoint name must already
/// resolve, at most one cast of either kind may join a source to a target,
/// and casts outside the core module are rejected outright.
fn check_casts(
    is_core_module: bool,
    type_environment: &mut TypeEnvironment,
    symbol_table: &mut SymbolTable,
    casts: &Vec<CastDeclaration>,
) -> (r: TypeCheckResult<()>)
    ensures
        ({
            let step = sp_check_casts(
                is_core_module,
                (CheckState { env: old(type_environment)@, scopes: old(symbol_table)@ }),
                casts@,
            );
            final(type_environment)@ == step.0.env && final(symbol_table)@ == step.0.scopes
                && err_of(r) == step.1
        }),
        final(symbol_table)@ == old(symbol_table)@,
{
    if !is_core_module && casts.len() > 0 {
        return Err(TypeError::SyntaxOnlyValidInCoreModule);
    }
    let ghost st0 = CheckState { env: old(type_environment)@, scopes: old(symbol_table)@ };
    let mut i: usize = 0;
    while i < casts.len()
        invariant
            i <= casts@.len(),
            is_core_module || casts@.len() == 0,
            symbol_table@ == old(symbol_table)@,
            st0 == (CheckState { env: old(type_environment)@, scopes: old(symbol_table)@ }),
            sp_check_casts_at(st0, casts@, 0) == sp_check_casts_at(
                (CheckState { env: type_environment@, scopes: symbol_table@ }),
                casts@,
                i as int,
            ),
        decreases casts@.len() - i,
    {
        let ghost st_pre = CheckState { env: type_environment@, scopes: symbol_table@ };
        let c = &casts[i];
        let source_type = match symbol_table.find_type_or_err(&c.source_type.name) {
            Ok(t) => t,
            Err(e) => {
                return Err(e);
            },
        };
        let target_type = match symbol_table.find_type_or_err(&c.target_type.name) {
            Ok(t) => t,
            Err(e) => {
                return Err(e);
            },
        };
        if !type_environment.has_type(source_type) {
            return Err(TypeError::TypeNotFound(c.source_type.name.clone()));
        }
        if type_environment.does_cast_exist(source_type, target_type) {
            return Err(
                TypeError::CastAlreadyDeclared(
                    c.source_type.name.clone(),
                    c.target_type.name.clone(),
                ),
            );
        }
        match c.cast_type {
            CastType::Implicit => type_environment.add_implicit_cast(source_type, target_type),
            CastType::Explicit => type_environment.add_explicit_cast(source_type, target_type),
        }
        i += 1;
        proof {
            assert(sp_check_casts_at(st_pre, casts@, i - 1) == sp_check_casts_at(
                (CheckState { env: type_environment@, scopes: symbol_table@ }),
                casts@,
                i as int,
            ));
        }
    }
    Ok(())
}

/// One step of the constant pass: bind the constant's name, resolve its
/// declared type name, and fill the symbol's type in.
pub open spec fn sp_check_constants_at(
    st: CheckState,
    constants: Seq<ConstantDefinition>,
    i: int,
) -> (CheckState, Option<ErrorModel>)
    decreases constants.len() - i,
{
    if i < 0 || i >= constants.len() {
        (st, None)
    } else {
        let cname = constants[i].constant_name.name@;
        if scope_has_symbol(st.scopes.last(), cname) {
            (st, Some(ErrorModel::DuplicateSymbol(cname)))
        } else {
            let scopes1 = push_symbol(st.scopes, (SymbolModel { name: cname, ty: None }));
            match table_find_type(scopes1, constants[i].constant_type_name.name@) {
                None => (
                    (CheckState { env: st.env, scopes: scopes1 }),
                    Some(ErrorModel::TypeNotFound(constants[i].constant_type_name.name@)),
                ),
                Some(t) => match locate_symbol(scopes1, cname) {
                    None => (
                        (CheckState { env: st.env, scopes: scopes1 }),
                        Some(ErrorModel::VariableNotFound(cname)),
                    ),
                    Some(p) => sp_check_constants_at(
                        (CheckState { env: st.env, scopes: set_symbol_type(scopes1, p.0, p.1, t) }),
                        constants,
                        i + 1,
                    ),
                },
            }
        }
    }
}

/// Checks the module's constant definitions: each becomes a value symbol
/// whose declared type name must resolve.
fn check_constant(
    symbol_table: &mut SymbolTable,
    constants: &Vec<ConstantDefinition>,
) -> (r: TypeCheckResult<Vec<ConstantDefinition>>)
    requires
        old(symbol_table)@.len() > 0,
    ensures
        ({
            let step = sp_check_constants_at(
                (CheckState { env: Seq::empty(), scopes: old(symbol_table)@ }),
                constants@,
                0,
            );
            final(symbol_table)@ == step.0.scopes && err_of(r) == step.1
        }),
        final(symbol_table)@.len() == old(symbol_table)@.len(),
        r matches Ok(out) ==> (out@.len() == constants@.len() && forall|k: int|
            0 <= k < constants@.len() ==> (#[trigger] out@[k]).constant_name.name@
                == constants@[k].constant_name.name@ && out@[k].constant_type_name.name@
                == constants@[k].constant_type_name.name@ && out@[k].constant_type
                == table_find_type(old(symbol_table)@, constants@[k].constant_type_name.name@)),
{
    let mut out: Vec<ConstantDefinition> = Vec::new();
    let mut i: usize = 0;
    while i < constants.len()
        invariant
            i <= constants@.len(),
            old(symbol_table)@.len() > 0,
            symbol_table@.len() == old(symbol_table)@.len(),
            sp_check_constants_at(
                (CheckState { env: Seq::empty(), scopes: old(symbol_table)@ }),
                constants@,
                0,
            ) == sp_check_constants_at(
                (CheckState { env: Seq::empty(), scopes: symbol_table@ }),
                constants@,
                i as int,
            ),
            forall|k: int|
                0 <= k < symbol_table@.len() ==> (#[trigger] symbol_table@[k]).types == old(
                    symbol_table,
                )@[k].types,
            out@.len() == i,
            forall|k: int|
                0 <= k < i ==> (#[trigger] out@[k]).constant_name.name@
                    == constants@[k].constant_name.name@ && out@[k].constant_type_name.name@
                    == constants@[k].constant_type_name.name@ && out@[k].constant_type
                    == table_find_type(old(symbol_table)@, constants@[k].constant_type_name.name@),
        decreases constants@.len() - i,
    {
        let ghost scopes_pre = symbol_table@;
        let s = &constants[i];
        match symbol_table.add_symbol(&s.constant_name.name) {
            Ok(_) => {},
            Err(e) => {
                return Err(e);
            },
        }
        let type_ref = match symbol_table.find_type_or_err(&s.constant_type_name.name) {
            Ok(t) => t,
            Err(e) => {
                return Err(e);
            },
        };
        proof {
            lemma_find_type_depends_on_types(
                symbol_table@,
                old(symbol_table)@,
                s.constant_type_name.name@,
                symbol_table@.len() - 1,
            );
        }
        match symbol_table.resolve_symbol_type(&s.constant_name.name, type_ref) {
            Ok(_) => {},
            Err(e) => {
                return Err(e);
            },
        }
        out.push(
            ConstantDefinition {
                constant_name: s.constant_name.duplicate(),
                constant_type_name: s.constant_type_name.duplicate(),
                constant_type: Some(type_ref),
            },
        );
        i += 1;
        proof {
            assert(sp_check_constants_at(
                (CheckState { env: Seq::empty(), scopes: scopes_pre }),
                constants@,
                i - 1,
            ) == sp_check_constants_at(
                (CheckState { env: Seq::empty(), scopes: symbol_table@ }),
                constants@,
                i as int,
            ));
        }
    }
    Ok(out)
}


/// The type a successful check of `e` infers, if any.
pub open spec fn checked_type(scopes: Seq<ScopeModel>, e: ExpressionStatement) -> Option<
    TypeReference,
> {
    match sp_check_expression(scopes, e) {
        Ok(t) => Some(t),
        Err(_) => None,
    }
}

/// Expression inference: structural recursion keyed on expression kind.
/// A literal maps to a fixed built-in type name; a variable takes its
/// symbol's resolved type; an infix expression takes its left operand's
/// type; a struct instantiation takes the named struct's type.
pub open spec fn sp_check_expression(scopes: Seq<ScopeModel>, e: ExpressionStatement) -> Result<
    TypeReference,
    ErrorModel,
>
    decreases e, 0int,
{
    match e {
        ExpressionStatement::Literal(l) => {
            let n = if l.literal_expression_type == LiteralType::Float {
                "f32"@
            } else {
                "i32"@
            };
            match table_find_type(scopes, n) {
                Some(t) => Ok(t),
                None => Err(ErrorModel::TypeNotFound(n)),
            }
        },
        ExpressionStatement::Variable(v) => match table_find_symbol(
            scopes,
            v.variable_name.name@,
        ) {
            None => Err(ErrorModel::VariableNotFound(v.variable_name.name@)),
            Some(sym) => match sym.ty {
                Some(t) => Ok(t),
                None => Err(ErrorModel::CannotInfer(v.variable_name.name@)),
            },
        },
        ExpressionStatement::Infix(ie) => match sp_check_expression(scopes, *ie.left_hand) {
            Err(e1) => Err(e1),
            Ok(lt) => match sp_check_expression(scopes, *ie.right_hand) {
                Err(e2) => Err(e2),
                Ok(_) => Ok(lt),
            },
        },
        ExpressionStatement::StructInstantiation(se) => match table_find_type(
            scopes,
            se.struct_type_name.name@,
        ) {
            None => Err(ErrorModel::TypeNotFound(se.struct_type_name.name@)),
            Some(t) => match sp_check_initializers(scopes, se.struct_field_initializer@, 0) {
                Some(em) => Err(em),
                None => Ok(t),
            },
        },
    }
}

/// The first error among the field initializers at or after `m`, if any.
pub open spec fn sp_check_initializers(
    scopes: Seq<ScopeModel>,
    inits: Seq<StructFieldInitializerExpression>,
    m: int,
) -> Option<ErrorModel>
    decreases inits, inits.len() - m,
{
    if m < 0 || m >= inits.len() {
        None
    } else {
        match sp_check_expression(scopes, *inits[m].initializer) {
            Err(em) => Some(em),
            Ok(_) => sp_check_initializers(scopes, inits, m + 1),
        }
    }
}

/// `out` is `inp` with every resolved-type field of the expression tree
/// filled in with what inference under `scopes` produces.
pub open spec fn expr_annotated(
    scopes: Seq<ScopeModel>,
    inp: ExpressionStatement,
    out: ExpressionStatement,
) -> bool
    decreases inp,
{
    match inp {
        ExpressionStatement::Literal(l) => out matches ExpressionStatement::Literal(lo)
            && lo.literal_expression_type == l.literal_expression_type && lo.literal_type
            == checked_type(scopes, inp),
        ExpressionStatement::Variable(v) => out matches ExpressionStatement::Variable(vo)
            && vo.variable_name.name@ == v.variable_name.name@ && vo.variable_type == checked_type(
            scopes,
            inp,
        ),
        ExpressionStatement::Infix(ie) => out matches ExpressionStatement::Infix(io) && io.operator
            == ie.operator && expr_annotated(scopes, *ie.left_hand, *io.left_hand)
            && expr_annotated(scopes, *ie.right_hand, *io.right_hand) && io.infix_type
            == checked_type(scopes, inp),
        ExpressionStatement::StructInstantiation(se) => out matches
            ExpressionStatement::StructInstantiation(so) && so.struct_type_name.name@
            == se.struct_type_name.name@ && so.struct_type == table_find_type(
            scopes,
            se.struct_type_name.name@,
        ) && so.struct_field_initializer@.len() == se.struct_field_initializer@.len() && (forall|
            q: int,
        |
            0 <= q < se.struct_field_initializer@.len() ==> initializer_annotated(
                scopes,
                #[trigger] se.struct_field_initializer@[q],
                so.struct_field_initializer@[q],
            )),
    }
}

/// One annotated field initializer: same field name, annotated expression,
/// and the initializer expression's inferred type recorded.
pub open spec fn initializer_annotated(
    scopes: Seq<ScopeModel>,
    inp: StructFieldInitializerExpression,
    out: StructFieldInitializerExpression,
) -> bool
    decreases inp,
{
    out.struct_field_name.name@ == inp.struct_field_name.name@ && expr_annotated(
        scopes,
        *inp.initializer,
        *out.initializer,
    ) && out.struct_field_type == checked_type(scopes, *inp.initializer)
}

/// Infers a literal's type from the fixed built-in name its kind denotes.
fn check_literal_expression(
    symbol_table: &SymbolTable,
    literal_expression: &LiteralExpression,
) -> (r: TypeCheckResult<(LiteralExpression, TypeReference)>)
    ensures
        ({
            let inp = ExpressionStatement::Literal(*literal_expression);
            (r matches Ok(p) && sp_check_expression(symbol_table@, inp) matches Ok(t) && p.1 == t
                && expr_annotated(symbol_table@, inp, ExpressionStatement::Literal(p.0))) || (r
             matches Err(e) && sp_check_expression(symbol_table@, inp) matches Err(em) && e@ == em)
        }),
{
    let type_ref = match literal_expression.literal_expression_type {
        LiteralType::Float => symbol_table.find_type_or_err(&String::from_str("f32")),
        LiteralType::Int => symbol_table.find_type_or_err(&String::from_str("i32")),
    };
    match type_ref {
        Ok(t) => Ok(
            (
                LiteralExpression {
                    literal_expression_type: literal_expression.literal_expression_type,
                    literal_type: Some(t),
                },
                t,
            ),
        ),
        Err(e) => Err(e),
    }
}

/// Infers a variable reference's type from its symbol, which must exist
/// and already carry a resolved type.
fn check_variable_expression(
    symbol_table: &SymbolTable,
    variable_expression: &VariableExpression,
) -> (r: TypeCheckResult<(VariableExpression, TypeReference)>)
    ensures
        ({
            let inp = ExpressionStatement::Variable(*variable_expression);
            (r matches Ok(p) && sp_check_expression(symbol_table@, inp) matches Ok(t) && p.1 == t
                && expr_annotated(symbol_table@, inp, ExpressionStatement::Variable(p.0))) || (r
             matches Err(e) && sp_check_expression(symbol_table@, inp) matches Err(em) && e@ == em)
        }),
{
    match symbol_table.find_symbol(&variable_expression.variable_name.name) {
        Some(symbol) => match symbol.get_type() {
            Some(t) => Ok(
                (
                    VariableExpression {
                        variable_name: variable_expression.variable_name.duplicate(),
                        variable_type: Some(t),
                    },
                    t,
                ),
            ),
            None => Err(TypeError::CannotInfer(variable_expression.variable_name.name.clone())),
        },
        None => Err(TypeError::VariableNotFound(variable_expression.variable_name.name.clone())),
    }
}

/// Infers an infix expression's type: both operands are checked and the
/// left operand's type is recorded; operand compatibility and implicit
/// casts are deliberately not enforced yet.
fn check_infix_expression(symbol_table: &SymbolTable, infix_expression: &InfixExpression) -> (r:
    TypeCheckResult<(InfixExpression, TypeReference)>)
    ensures
        ({
            let inp = ExpressionStatement::Infix(*infix_expression);
            (r matches Ok(p) && sp_check_expression(symbol_table@, inp) matches Ok(t) && p.1 == t
                && expr_annotated(symbol_table@, inp, ExpressionStatement::Infix(p.0))) || (r
             matches Err(e) && sp_check_expression(symbol_table@, inp) matches Err(em) && e@ == em)
        }),
    decreases *infix_expression,
{
    let left = match check_expression(symbol_table, &infix_expression.left_hand) {
        Ok(p) => p,
        Err(e) => {
            return Err(e);
        },
    };
    let right = match check_expression(symbol_table, &infix_expression.right_hand) {
        Ok(p) => p,
        Err(e) => {
            return Err(e);
        },
    };
    let left_hand_type = left.1;
    Ok(
        (
            InfixExpression {
                operator: infix_expression.operator,
                left_hand: Box::new(left.0),
                right_hand: Box::new(right.0),
                infix_type: Some(left_hand_type),
            },
            left_hand_type,
        ),
    )
}

/// Infers a struct instantiation's type: the struct name must resolve, and
/// each field initializer is checked and its type recorded. Whether each
/// initializer matches the declared field type is deliberately not
/// enforced yet.
fn check_struct_instatiation_expression(
    symbol_table: &SymbolTable,
    struct_instantiation_expression: &StructInstantiationExpression,
) -> (r: TypeCheckResult<(StructInstantiationExpression, TypeReference)>)
    ensures
        ({
            let inp = ExpressionStatement::StructInstantiation(*struct_instantiation_expression);
            (r matches Ok(p) && sp_check_expression(symbol_table@, inp) matches Ok(t) && p.1 == t
                && expr_annotated(
                symbol_table@,
                inp,
                ExpressionStatement::StructInstantiation(p.0),
            )) || (r matches Err(e) && sp_check_expression(symbol_table@, inp) matches Err(em) && e@
                == em)
        }),
    decreases *struct_instantiation_expression,
{
    let struct_type = match symbol_table.find_type_or_err(
        &struct_instantiation_expression.struct_type_name.name,
    ) {
        Ok(t) => t,
        Err(e) => {
            return Err(e);
        },
    };
    let mut initializers: Vec<StructFieldInitializerExpression> = Vec::new();
    let mut m: usize = 0;
    while m < struct_instantiation_expression.struct_field_initializer.len()
        invariant
            m <= struct_instantiation_expression.struct_field_initializer@.len(),
            table_find_type(
                symbol_table@,
                struct_instantiation_expression.struct_type_name.name@,
            ) == Some(struct_type),
            initializers@.len() == m,
            sp_check_initializers(
                symbol_table@,
                struct_instantiation_expression.struct_field_initializer@,
                0,
            ) == sp_check_initializers(
                symbol_table@,
                struct_instantiation_expression.struct_field_initializer@,
                m as int,
            ),
            forall|q: int|
                0 <= q < m ==> initializer_annotated(
                    symbol_table@,
                    #[trigger] struct_instantiation_expression.struct_field_initializer@[q],
                    initializers@[q],
                ),
        decreases struct_instantiation_expression.struct_field_initializer@.len() - m,
    {
        let initializer = &struct_instantiation_expression.struct_field_initializer[m];
        match check_expression(symbol_table, &initializer.initializer) {
            Ok(p) => {
                initializers.push(
                    StructFieldInitializerExpression {
                        struct_field_name: initializer.struct_field_name.duplicate(),
                        initializer: Box::new(p.0),
                        struct_field_type: Some(p.1),
                    },
                );
                m += 1;
                proof {
                    assert(sp_check_initializers(
                        symbol_table@,
                        struct_instantiation_expression.struct_field_initializer@,
                        m - 1,
                    ) == sp_check_initializers(
                        symbol_table@,
                        struct_instantiation_expression.struct_field_initializer@,
                        m as int,
                    ));
                }
            },
            Err(e) => {
                proof {
                    assert(sp_check_initializers(
                        symbol_table@,
                        struct_instantiation_expression.struct_field_initializer@,
                        m as int,
                    ) == Some(e@));
                }
                return Err(e);
            },
        }
    }
    Ok(
        (
            StructInstantiationExpression {
                struct_type_name: struct_instantiation_expression.struct_type_name.duplicate(),
                struct_field_initializer: initializers,
                struct_type: Some(struct_type),
            },
            struct_type,
        ),
    )
}

/// Checks one expression, returning the annotated expression and its
/// inferred type, or the first error found in it.
fn check_expression(symbol_table: &SymbolTable, expression: &ExpressionStatement) -> (r:
    TypeCheckResult<(ExpressionStatement, TypeReference)>)
    ensures
        (r matches Ok(p) && sp_check_expression(symbol_table@, *expression) matches Ok(t) && p.1
            == t && expr_annotated(symbol_table@, *expression, p.0)) || (r matches Err(e)
            && sp_check_expression(symbol_table@, *expression) matches Err(em) && e@ == em),
    decreases *expression,
{
    match expression {
        ExpressionStatement::Literal(literal_expression) => {
            match check_literal_expression(symbol_table, literal_expression) {
                Ok(p) => Ok((ExpressionStatement::Literal(p.0), p.1)),
                Err(e) => Err(e),
            }
        },
        ExpressionStatement::Variable(variable_expression) => {
            match check_variable_expression(symbol_table, variable_expression) {
                Ok(p) => Ok((ExpressionStatement::Variable(p.0), p.1)),
                Err(e) => Err(e),
            }
        },
        ExpressionStatement::Infix(infix_expression) => {
            match check_infix_expression(symbol_table, infix_expression) {
                Ok(p) => Ok((ExpressionStatement::Infix(p.0), p.1)),
                Err(e) => Err(e),
            }
        },
        ExpressionStatement::StructInstantiation(struct_instantiation_expression) => {
            match check_struct_instatiation_expression(
                symbol_table,
                struct_instantiation_expression,
            ) {
                Ok(p) => Ok((ExpressionStatement::StructInstantiation(p.0), p.1)),
                Err(e) => Err(e),
            }
        },
    }
}


/// The scope stack after one successfully checked statement: a local binds
/// its name to the inferred type; other statements bind nothing.
pub open spec fn sp_statement_step(scopes: Seq<ScopeModel>, s: BlockStatement) -> Seq<ScopeModel> {
    match s {
        BlockStatement::Local(l) => match sp_check_expression(scopes, l.expression) {
            Ok(t) => if scope_has_symbol(scopes.last(), l.symbol_name.name@) {
                scopes
            } else {
                push_symbol(scopes, (SymbolModel { name: l.symbol_name.name@, ty: Some(t) }))
            },
            Err(_) => scopes,
        },
        _ => scopes,
    }
}

/// The scope stack after the first `i` statements, each assumed checked.
pub open spec fn sp_statements_state(
    scopes: Seq<ScopeModel>,
    stmts: Seq<BlockStatement>,
    i: int,
) -> Seq<ScopeModel>
    decreases i,
{
    if i <= 0 {
        scopes
    } else {
        sp_statement_step(sp_statements_state(scopes, stmts, i - 1), stmts[i - 1])
    }
}

/// The statement walk from position `i`: each statement's expression is
/// checked under the scopes left by the statements before it.
pub open spec fn sp_statements_err(
    scopes: Seq<ScopeModel>,
    stmts: Seq<BlockStatement>,
    i: int,
) -> (Seq<ScopeModel>, Option<ErrorModel>)
    decreases stmts.len() - i,
{
    if i < 0 || i >= stmts.len() {
        (scopes, None)
    } else {
        match stmts[i] {
            BlockStatement::Local(l) => match sp_check_expression(scopes, l.expression) {
                Err(em) => (scopes, Some(em)),
                Ok(t) => if scope_has_symbol(scopes.last(), l.symbol_name.name@) {
                    (scopes, Some(ErrorModel::DuplicateSymbol(l.symbol_name.name@)))
                } else {
                    sp_statements_err(
                        push_symbol(
                            scopes,
                            (SymbolModel { name: l.symbol_name.name@, ty: Some(t) }),
                        ),
                        stmts,
                        i + 1,
                    )
                },
            },
            BlockStatement::Return(rd) => match sp_check_expression(scopes, rd.expression) {
                Err(em) => (scopes, Some(em)),
                Ok(_) => sp_statements_err(scopes, stmts, i + 1),
            },
            BlockStatement::Expression(es) => match sp_check_expression(scopes, es) {
                Err(em) => (scopes, Some(em)),
                Ok(_) => sp_statements_err(scopes, stmts, i + 1),
            },
        }
    }
}

/// The first error in a block, checked in a scope of its own.
pub open spec fn sp_block_err(scopes: Seq<ScopeModel>, b: BlockDeclaration) -> Option<ErrorModel> {
    sp_statements_err(scopes.push(empty_scope()), b.statements@, 0).1
}

/// One annotated statement, checked under the scopes in force before it.
pub open spec fn stmt_annotated(
    scopes: Seq<ScopeModel>,
    inp: BlockStatement,
    out: BlockStatement,
) -> bool {
    match inp {
        BlockStatement::Local(l) => out matches BlockStatement::Local(lo) && lo.symbol_name.name@
            == l.symbol_name.name@ && expr_annotated(scopes, l.expression, lo.expression)
            && lo.local_type == checked_type(scopes, l.expression),
        BlockStatement::Return(rd) => out matches BlockStatement::Return(ro) && expr_annotated(
            scopes,
            rd.expression,
            ro.expression,
        ) && ro.return_type == checked_type(scopes, rd.expression),
        BlockStatement::Expression(es) => out matches BlockStatement::Expression(eo)
            && expr_annotated(scopes, es, eo),
    }
}

/// An annotated block: every statement annotated under the scopes its
/// predecessors left in force.
pub open spec fn block_annotated(
    scopes: Seq<ScopeModel>,
    inp: BlockDeclaration,
    out: BlockDeclaration,
) -> bool {
    out.statements@.len() == inp.statements@.len() && (forall|j: int|
        0 <= j < inp.statements@.len() ==> stmt_annotated(
            sp_statements_state(scopes.push(empty_scope()), inp.statements@, j),
            #[trigger] inp.statements@[j],
            out.statements@[j],
        ))
}

/// Checks a block in a scope of its own, so that its locals never leak
/// past its end; the scope is closed again on every path out.
fn check_block(symbol_table: &mut SymbolTable, block: &BlockDeclaration) -> (r: TypeCheckResult<
    BlockDeclaration,
>)
    ensures
        final(symbol_table)@ == old(symbol_table)@,
        err_of(r) == sp_block_err(old(symbol_table)@, *block),
        r matches Ok(out) ==> block_annotated(old(symbol_table)@, *block, out),
{
    symbol_table.enter_scope();
    let mut out_statements: Vec<BlockStatement> = Vec::new();
    let mut i: usize = 0;
    while i < block.statements.len()
        invariant
            i <= block.statements@.len(),
            symbol_table@.len() == old(symbol_table)@.len() + 1,
            forall|k: int|
                0 <= k < old(symbol_table)@.len() ==> symbol_table@[k] == old(symbol_table)@[k],
            symbol_table@ == sp_statements_state(
                old(symbol_table)@.push(empty_scope()),
                block.statements@,
                i as int,
            ),
            sp_statements_err(old(symbol_table)@.push(empty_scope()), block.statements@, 0)
                == sp_statements_err(symbol_table@, block.statements@, i as int),
            out_statements@.len() == i,
            forall|j: int|
                0 <= j < i ==> stmt_annotated(
                    sp_statements_state(
                        old(symbol_table)@.push(empty_scope()),
                        block.statements@,
                        j,
                    ),
                    #[trigger] block.statements@[j],
                    out_statements@[j],
                ),
        decreases block.statements@.len() - i,
    {
        let ghost scopes_pre = symbol_table@;
        match &block.statements[i] {
            BlockStatement::Local(local_declaration) => {
                let checked = match check_expression(symbol_table, &local_declaration.expression) {
                    Ok(p) => p,
                    Err(e) => {
                        proof {
                            assert(sp_statements_err(scopes_pre, block.statements@, i as int).1
                                == Some(e@));
                        }
                        symbol_table.leave_scope();
                        proof {
                            assert(symbol_table@ =~= old(symbol_table)@);
                        }
                        return Err(e);
                    },
                };
                let local_type = checked.1;
                match symbol_table.add_symbol_with_type(
                    &local_declaration.symbol_name.name,
                    local_type,
                ) {
                    Ok(_) => {},
                    Err(e) => {
                        proof {
                            assert(sp_statements_err(scopes_pre, block.statements@, i as int).1
                                == Some(e@));
                        }
                        symbol_table.leave_scope();
                        proof {
                            assert(symbol_table@ =~= old(symbol_table)@);
                        }
                        return Err(e);
                    },
                }
                out_statements.push(
                    BlockStatement::Local(
                        LocalDeclaration {
                            symbol_name: local_declaration.symbol_name.duplicate(),
                            expression: checked.0,
                            local_type: Some(local_type),
                        },
                    ),
                );
            },
            BlockStatement::Return(return_declaration) => {
                match check_expression(symbol_table, &return_declaration.expression) {
                    Ok(p) => {
                        out_statements.push(
                            BlockStatement::Return(
                                ReturnDeclaration { expression: p.0, return_type: Some(p.1) },
                            ),
                        );
                    },
                    Err(e) => {
                        proof {
                            assert(sp_statements_err(scopes_pre, block.statements@, i as int).1
                                == Some(e@));
                        }
                        symbol_table.leave_scope();
                        proof {
                            assert(symbol_table@ =~= old(symbol_table)@);
                        }
                        return Err(e);
                    },
                }
            },
            BlockStatement::Expression(expression_statement) => {
                match check_expression(symbol_table, expression_statement) {
                    Ok(p) => {
                        out_statements.push(BlockStatement::Expression(p.0));
                    },
                    Err(e) => {
                        proof {
                            assert(sp_statements_err(scopes_pre, block.statements@, i as int).1
                                == Some(e@));
                        }
                        symbol_table.leave_scope();
                        proof {
                            assert(symbol_table@ =~= old(symbol_table)@);
                        }
                        return Err(e);
                    },
                }
            },
        }
        i += 1;
        proof {
            assert(symbol_table@ == sp_statement_step(scopes_pre, block.statements@[i - 1]));
            assert(sp_statements_err(scopes_pre, block.statements@, i - 1)
                == sp_statements_err(symbol_table@, block.statements@, i as int));
        }
    }
    symbol_table.leave_scope();
    proof {
        assert(symbol_table@ =~= old(symbol_table)@);
    }
    Ok(BlockDeclaration { statements: out_statements })
}


/// The argument walk from position `j`: each argument's declared type name
/// must resolve, and the argument becomes a typed symbol in the function's
/// scope.
pub open spec fn sp_args_at(
    scopes: Seq<ScopeModel>,
    args: Seq<FunctionArgumentDeclaration>,
    j: int,
) -> (Seq<ScopeModel>, Option<ErrorModel>)
    decreases args.len() - j,
{
    if j < 0 || j >= args.len() {
        (scopes, None)
    } else {
        let a = args[j];
        match table_find_type(scopes, a.argument_type_name.name@) {
            None => (scopes, Some(ErrorModel::TypeNotFound(a.argument_type_name.name@))),
            Some(t) => if scope_has_symbol(scopes.last(), a.argument_name.name@) {
                (scopes, Some(ErrorModel::DuplicateSymbol(a.argument_name.name@)))
            } else {
                sp_args_at(
                    push_symbol(scopes, (SymbolModel { name: a.argument_name.name@, ty: Some(t) })),
                    args,
                    j + 1,
                )
            },
        }
    }
}

/// The scope stack after the first `j` arguments, each assumed resolved.
pub open spec fn sp_args_state(
    scopes: Seq<ScopeModel>,
    args: Seq<FunctionArgumentDeclaration>,
    j: int,
) -> Seq<ScopeModel>
    decreases j,
{
    if j <= 0 {
        scopes
    } else {
        let prev = sp_args_state(scopes, args, j - 1);
        let a = args[j - 1];
        match table_find_type(prev, a.argument_type_name.name@) {
            Some(t) => if scope_has_symbol(prev.last(), a.argument_name.name@) {
                prev
            } else {
                push_symbol(prev, (SymbolModel { name: a.argument_name.name@, ty: Some(t) }))
            },
            None => prev,
        }
    }
}

/// One annotated argument: same names, declared type resolved under the
/// scopes in force when it was reached.
pub open spec fn arg_annotated(
    scopes: Seq<ScopeModel>,
    inp: FunctionArgumentDeclaration,
    out: FunctionArgumentDeclaration,
) -> bool {
    out.argument_name.name@ == inp.argument_name.name@ && out.argument_type_name.name@
        == inp.argument_type_name.name@ && out.argument_type == table_find_type(
        scopes,
        inp.argument_type_name.name@,
    )
}

/// An annotated function: same names, every argument and the return type
/// resolved, and the body annotated under the function's own scope.
pub open spec fn function_annotated(
    st_k: CheckState,
    inp: FunctionDeclaration,
    out: FunctionDeclaration,
) -> bool {
    let fname = inp.function_name.name@;
    let fref = TypeReference { id: st_k.env.len() as usize };
    let scopes2 = push_symbol(
        st_k.scopes,
        (SymbolModel { name: fname, ty: Some(fref) }),
    ).push(empty_scope());
    let args_done = sp_args_state(scopes2, inp.arguments@, inp.arguments@.len() as int);
    out.function_name.name@ == fname && out.arguments@.len() == inp.arguments@.len() && (forall|
        q: int,
    |
        0 <= q < inp.arguments@.len() ==> arg_annotated(
            sp_args_state(scopes2, inp.arguments@, q),
            #[trigger] inp.arguments@[q],
            out.arguments@[q],
        )) && out.return_type_name.name@ == inp.return_type_name.name@ && out.return_type
        == table_find_type(args_done, inp.return_type_name.name@) && block_annotated(
        args_done,
        inp.block,
        out.block,
    )
}

/// The state after the first `i` functions, each assumed checked: each
/// function leaves behind its own type and a typed value symbol.
pub open spec fn sp_functions_state(
    st: CheckState,
    functions: Seq<FunctionDeclaration>,
    i: int,
) -> CheckState
    decreases i,
{
    if i <= 0 {
        st
    } else {
        let prev = sp_functions_state(st, functions, i - 1);
        let fname = functions[i - 1].function_name.name@;
        let fref = TypeReference { id: prev.env.len() as usize };
        CheckState {
            env: prev.env.push(fresh_type_model(fname)),
            scopes: push_symbol(prev.scopes, (SymbolModel { name: fname, ty: Some(fref) })),
        }
    }
}

/// One function checked on its own: the name becomes a typed symbol, the
/// arguments and return type are resolved in a scope of the function's
/// own, the body is checked as a block, and the scope is closed again
/// whatever the outcome.
pub open spec fn sp_check_function_one(st: CheckState, f: FunctionDeclaration) -> (
    CheckState,
    Option<ErrorModel>,
) {
    let fname = f.function_name.name@;
    let env1 = st.env.push(fresh_type_model(fname));
    let fref = TypeReference { id: st.env.len() as usize };
    if scope_has_symbol(st.scopes.last(), fname) {
        ((CheckState { env: env1, scopes: st.scopes }), Some(ErrorModel::DuplicateSymbol(fname)))
    } else {
        let scopes2 = push_symbol(
            st.scopes,
            (SymbolModel { name: fname, ty: Some(fref) }),
        ).push(empty_scope());
        let astep = sp_args_at(scopes2, f.arguments@, 0);
        if astep.1 is Some {
            ((CheckState { env: env1, scopes: astep.0.drop_last() }), astep.1)
        } else {
            match table_find_type(astep.0, f.return_type_name.name@) {
                None => (
                    (CheckState { env: env1, scopes: astep.0.drop_last() }),
                    Some(ErrorModel::TypeNotFound(f.return_type_name.name@)),
                ),
                Some(_) => (
                    (CheckState { env: env1, scopes: astep.0.drop_last() }),
                    sp_block_err(astep.0, f.block),
                ),
            }
        }
    }
}

/// The function walk from position `i`: each function is checked on its
/// own; the first error aborts the walk.
pub open spec fn sp_check_functions_at(
    st: CheckState,
    functions: Seq<FunctionDeclaration>,
    i: int,
) -> (CheckState, Option<ErrorModel>)
    decreases functions.len() - i,
{
    if i < 0 || i >= functions.len() {
        (st, None)
    } else {
        let step = sp_check_function_one(st, functions[i]);
        if step.1 is Some {
            step
        } else {
            sp_check_functions_at(step.0, functions, i + 1)
        }
    }
}

/// Checks one function declaration, returning it annotated.
#[verifier::rlimit(60)]
fn check_function_declaration(
    type_environment: &mut TypeEnvironment,
    symbol_table: &mut SymbolTable,
    f: &FunctionDeclaration,
) -> (r: TypeCheckResult<FunctionDeclaration>)
    requires
        old(symbol_table)@.len() > 0,
    ensures
        ({
            let step = sp_check_function_one(
                (CheckState { env: old(type_environment)@, scopes: old(symbol_table)@ }),
                *f,
            );
            final(type_environment)@ == step.0.env && final(symbol_table)@ == step.0.scopes
                && err_of(r) == step.1
        }),
        final(symbol_table)@.len() == old(symbol_table)@.len(),
        r is Ok ==> final(symbol_table)@ == push_symbol(
            old(symbol_table)@,
            (SymbolModel {
                name: f.function_name.name@,
                ty: Some(TypeReference { id: old(type_environment)@.len() as usize }),
            }),
        ),
        r matches Ok(out) ==> function_annotated(
            (CheckState { env: old(type_environment)@, scopes: old(symbol_table)@ }),
            *f,
            out,
        ),
{
    let ghost st_pre = CheckState { env: old(type_environment)@, scopes: old(symbol_table)@ };
    let function_type = type_environment.create_type(&f.function_name.name);
    match symbol_table.add_symbol_with_type(&f.function_name.name, function_type) {
        Ok(_) => {},
        Err(e) => {
            return Err(e);
        },
    }
    let ghost scopes1 = symbol_table@;
    symbol_table.enter_scope();
    let ghost scopes2 = symbol_table@;
    let mut out_args: Vec<FunctionArgumentDeclaration> = Vec::new();
    let mut j: usize = 0;
    while j < f.arguments.len()
        invariant
            j <= f.arguments@.len(),
            old(symbol_table)@.len() > 0,
            st_pre == (CheckState { env: old(type_environment)@, scopes: old(symbol_table)@ }),
            type_environment@ == st_pre.env.push(fresh_type_model(f.function_name.name@)),
            function_type == (TypeReference { id: st_pre.env.len() as usize }),
            !scope_has_symbol(st_pre.scopes.last(), f.function_name.name@),
            scopes1 == push_symbol(
                st_pre.scopes,
                (SymbolModel { name: f.function_name.name@, ty: Some(function_type) }),
            ),
            scopes1.len() > 0,
            scopes2 == scopes1.push(empty_scope()),
            symbol_table@.len() == scopes2.len(),
            forall|k: int| 0 <= k < scopes1.len() ==> symbol_table@[k] == scopes1[k],
            sp_args_at(scopes2, f.arguments@, 0) == sp_args_at(
                symbol_table@,
                f.arguments@,
                j as int,
            ),
            symbol_table@ == sp_args_state(scopes2, f.arguments@, j as int),
            out_args@.len() == j,
            forall|q: int|
                0 <= q < j ==> arg_annotated(
                    sp_args_state(scopes2, f.arguments@, q),
                    #[trigger] f.arguments@[q],
                    out_args@[q],
                ),
        decreases f.arguments@.len() - j,
    {
        let ghost scopes_pre = symbol_table@;
        let argument = &f.arguments[j];
        let type_ref = match symbol_table.find_type_or_err(&argument.argument_type_name.name) {
            Ok(t) => t,
            Err(e) => {
                proof {
                    assert(sp_args_at(scopes_pre, f.arguments@, j as int) == (
                        scopes_pre,
                        Some(e@),
                    ));
                }
                symbol_table.leave_scope();
                return Err(e);
            },
        };
        match symbol_table.add_symbol_with_type(&argument.argument_name.name, type_ref) {
            Ok(_) => {},
            Err(e) => {
                proof {
                    assert(sp_args_at(scopes_pre, f.arguments@, j as int) == (
                        scopes_pre,
                        Some(e@),
                    ));
                }
                symbol_table.leave_scope();
                return Err(e);
            },
        }
        out_args.push(
            FunctionArgumentDeclaration {
                argument_name: argument.argument_name.duplicate(),
                argument_type_name: argument.argument_type_name.duplicate(),
                argument_type: Some(type_ref),
            },
        );
        j += 1;
        proof {
            assert(sp_args_at(scopes_pre, f.arguments@, j - 1) == sp_args_at(
                symbol_table@,
                f.arguments@,
                j as int,
            ));
            assert(symbol_table@ == sp_args_state(scopes2, f.arguments@, j as int));
        }
    }
    let return_type = match symbol_table.find_type_or_err(&f.return_type_name.name) {
        Ok(t) => t,
        Err(e) => {
            symbol_table.leave_scope();
            return Err(e);
        },
    };
    let out_block = match check_block(symbol_table, &f.block) {
        Ok(b) => b,
        Err(e) => {
            symbol_table.leave_scope();
            return Err(e);
        },
    };
    symbol_table.leave_scope();
    proof {
        assert(symbol_table@ =~= scopes1);
    }
    Ok(
        FunctionDeclaration {
            function_name: f.function_name.duplicate(),
            arguments: out_args,
            return_type_name: f.return_type_name.duplicate(),
            return_type: Some(return_type),
            block: out_block,
        },
    )
}

/// Checks the module's function declarations in order; the first error
/// aborts the walk with the scope stack restored.
fn check_functions(
    type_environment: &mut TypeEnvironment,
    symbol_table: &mut SymbolTable,
    functions: &Vec<FunctionDeclaration>,
) -> (r: TypeCheckResult<Vec<FunctionDeclaration>>)
    requires
        old(symbol_table)@.len() > 0,
    ensures
        ({
            let step = sp_check_functions_at(
                (CheckState { env: old(type_environment)@, scopes: old(symbol_table)@ }),
                functions@,
                0,
            );
            final(type_environment)@ == step.0.env && final(symbol_table)@ == step.0.scopes
                && err_of(r) == step.1
        }),
        final(symbol_table)@.len() == old(symbol_table)@.len(),
        r matches Ok(out) ==> (out@.len() == functions@.len() && forall|k: int|
            0 <= k < functions@.len() ==> function_annotated(
                sp_functions_state(
                    (CheckState { env: old(type_environment)@, scopes: old(symbol_table)@ }),
                    functions@,
                    k,
                ),
                #[trigger] functions@[k],
                out@[k],
            )),
{
    let ghost st0 = CheckState { env: old(type_environment)@, scopes: old(symbol_table)@ };
    let mut out: Vec<FunctionDeclaration> = Vec::new();
    let mut i: usize = 0;
    while i < functions.len()
        invariant
            i <= functions@.len(),
            old(symbol_table)@.len() > 0,
            symbol_table@.len() == old(symbol_table)@.len(),
            st0 == (CheckState { env: old(type_environment)@, scopes: old(symbol_table)@ }),
            sp_check_functions_at(st0, functions@, 0) == sp_check_functions_at(
                (CheckState { env: type_environment@, scopes: symbol_table@ }),
                functions@,
                i as int,
            ),
            (CheckState { env: type_environment@, scopes: symbol_table@ }) == sp_functions_state(
                st0,
                functions@,
                i as int,
            ),
            out@.len() == i,
            forall|k: int|
                0 <= k < i ==> function_annotated(
                    sp_functions_state(st0, functions@, k),
                    #[trigger] functions@[k],
                    out@[k],
                ),
        decreases functions@.len() - i,
    {
        let ghost st_pre = CheckState { env: type_environment@, scopes: symbol_table@ };
        let f = &functions[i];
        match check_function_declaration(type_environment, symbol_table, f) {
            Ok(fd) => {
                out.push(fd);
                i += 1;
                proof {
                    assert(sp_check_function_one(st_pre, functions@[i - 1]).1 is None);
                    assert(sp_check_functions_at(st_pre, functions@, i - 1)
                        == sp_check_functions_at(
                        (CheckState { env: type_environment@, scopes: symbol_table@ }),
                        functions@,
                        i as int,
                    ));
                    assert((CheckState { env: type_environment@, scopes: symbol_table@ })
                        == sp_functions_state(st0, functions@, i as int));
                }
            },
            Err(e) => {
                proof {
                    assert(sp_check_functions_at(st_pre, functions@, i as int) == (
                        (CheckState { env: type_environment@, scopes: symbol_table@ }),
                        Some(e@),
                    ));
                }
                return Err(e);
            },
        }
    }
    Ok(out)
}

/// The whole checking pass as one mathematical step: the fixed phase order
/// over a scope entered for the module and closed again at the end,
/// success or failure.
pub open spec fn sp_type_check(env: Seq<TypeModel>, scopes: Seq<ScopeModel>, m: Module) -> (
    CheckState,
    Option<ErrorModel>,
) {
    let st0 = CheckState { env, scopes: scopes.push(empty_scope()) };
    let s1 = sp_check_primitives(m.core, st0, m.primitives@);
    if s1.1 is Some {
        ((CheckState { env: s1.0.env, scopes: s1.0.scopes.drop_last() }), s1.1)
    } else {
        let s2 = sp_check_structs(s1.0, m.structs@);
        if s2.1 is Some {
            ((CheckState { env: s2.0.env, scopes: s2.0.scopes.drop_last() }), s2.1)
        } else {
            let s3 = sp_check_casts(m.core, s2.0, m.casts@);
            if s3.1 is Some {
                ((CheckState { env: s3.0.env, scopes: s3.0.scopes.drop_last() }), s3.1)
            } else {
                let s4 = sp_check_constants_at(
                    (CheckState { env: Seq::empty(), scopes: s3.0.scopes }),
                    m.constants@,
                    0,
                );
                if s4.1 is Some {
                    ((CheckState { env: s3.0.env, scopes: s4.0.scopes.drop_last() }), s4.1)
                } else {
                    let s5 = sp_check_functions_at(
                        (CheckState { env: s3.0.env, scopes: s4.0.scopes }),
                        m.functions@,
                        0,
                    );
                    ((CheckState { env: s5.0.env, scopes: s5.0.scopes.drop_last() }), s5.1)
                }
            }
        }
    }
}

/// Checks a module: primitives, then structs, then casts, then constants,
/// then functions, each phase assuming the symbol table the earlier ones
/// built. On success the module is returned fully annotated in place; on
/// failure the first error is returned, phases already completed keep
/// their annotations, and the failing phase writes nothing back. The
/// scope entered for the module is closed again on every path out.
#[verifier::rlimit(60)]
pub fn type_check(
    type_environment: &mut TypeEnvironment,
    symbol_table: &mut SymbolTable,
    module: &mut Module,
) -> (r: TypeCheckResult<()>)
    ensures
        ({
            let step = sp_type_check(old(type_environment)@, old(symbol_table)@, *old(module));
            final(type_environment)@ == step.0.env && final(symbol_table)@ == step.0.scopes
                && err_of(r) == step.1
        }),
        final(symbol_table)@.len() == old(symbol_table)@.len(),
        !old(module).core && old(module).primitives@.len() > 0 ==> (r matches Err(e) && e@
            == ErrorModel::SyntaxOnlyValidInCoreModule),
        final(module).core == old(module).core,
        final(module).casts == old(module).casts,
        ({
            let st0 = CheckState {
                env: old(type_environment)@,
                scopes: old(symbol_table)@.push(empty_scope()),
            };
            let s1 = sp_check_primitives(old(module).core, st0, old(module).primitives@);
            let s2 = sp_check_structs(s1.0, old(module).structs@);
            let s3 = sp_check_casts(old(module).core, s2.0, old(module).casts@);
            let s4 = sp_check_constants_at(
                (CheckState { env: Seq::empty(), scopes: s3.0.scopes }),
                old(module).constants@,
                0,
            );
            (s1.1 is Some ==> final(module).primitives == old(module).primitives) && (s1.1 is None
                ==> (final(module).primitives@.len() == old(module).primitives@.len() && (forall|
                k: int,
            |
                0 <= k < old(module).primitives@.len() ==> (#[trigger] final(module).primitives@[k]).primitive_type_name.name@
                    == old(module).primitives@[k].primitive_type_name.name@ && final(module).primitives@[k].declaring_type == Some(
                    TypeReference { id: (old(type_environment)@.len() + k) as usize },
                )))) && (!(s1.1 is None && s2.1 is None) ==> final(module).structs == old(module).structs) && (s1.1 is None && s2.1 is None ==> (final(module).structs@.len() == old(module).structs@.len() && (forall|k: int|
                0 <= k < old(module).structs@.len() ==> (#[trigger] final(module).structs@[k]).struct_name.name@ == old(module).structs@[k].struct_name.name@
                    && final(module).structs@[k].declaring_type == Some(
                    TypeReference { id: (s1.0.env.len() + k) as usize },
                ) && final(module).structs@[k].struct_member@.len() == old(module).structs@[k].struct_member@.len()) && (forall|k: int, m: int|
                0 <= k < old(module).structs@.len() && 0 <= m < old(module).structs@[k].struct_member@.len() ==> {
                    let member = #[trigger] old(module).structs@[k].struct_member@[m];
                    let annotated = final(module).structs@[k].struct_member@[m];
                    annotated.struct_member_name.name@ == member.struct_member_name.name@
                        && annotated.struct_member_type_name.name@
                        == member.struct_member_type_name.name@ && annotated.struct_member_type
                        == table_find_type(s2.0.scopes, member.struct_member_type_name.name@)
                }))) && (!(s1.1 is None && s2.1 is None && s3.1 is None && s4.1 is None) ==> final(module).constants == old(module).constants) && (s1.1 is None && s2.1 is None && s3.1 is None
                && s4.1 is None ==> (final(module).constants@.len() == old(module).constants@.len()
                && (forall|k: int|
                0 <= k < old(module).constants@.len() ==> (#[trigger] final(module).constants@[k]).constant_name.name@ == old(module).constants@[k].constant_name.name@ && final(module).constants@[k].constant_type_name.name@ == old(module).constants@[k].constant_type_name.name@ && final(module).constants@[k].constant_type
                    == table_find_type(
                    s3.0.scopes,
                    old(module).constants@[k].constant_type_name.name@,
                )))) && (!(r is Ok) ==> final(module).functions == old(module).functions) && (r
                is Ok ==> (final(module).functions@.len() == old(module).functions@.len() && (
            forall|k: int|
                0 <= k < old(module).functions@.len() ==> function_annotated(
                    sp_functions_state(
                        (CheckState { env: s3.0.env, scopes: s4.0.scopes }),
                        old(module).functions@,
                        k,
                    ),
                    #[trigger] old(module).functions@[k],
                    final(module).functions@[k],
                ))))
        }),
{
    symbol_table.enter_scope();
    let r1 = check_primitives(module.is_core(), type_environment, symbol_table, &module.primitives);
    match r1 {
        Ok(v) => {
            module.primitives = v;
        },
        Err(e) => {
            symbol_table.leave_scope();
            return Err(e);
        },
    }
    let r2 = check_structs(type_environment, symbol_table, &module.structs);
    match r2 {
        Ok(v) => {
            module.structs = v;
        },
        Err(e) => {
            symbol_table.leave_scope();
            return Err(e);
        },
    }
    let r3 = check_casts(module.is_core(), type_environment, symbol_table, &module.casts);
    match r3 {
        Ok(_) => {},
        Err(e) => {
            symbol_table.leave_scope();
            return Err(e);
        },
    }
    let r4 = check_constant(symbol_table, &module.constants);
    match r4 {
        Ok(v) => {
            module.constants = v;
        },
        Err(e) => {
            symbol_table.leave_scope();
            return Err(e);
        },
    }
    let r5 = check_functions(type_environment, symbol_table, &module.functions);
    match r5 {
        Ok(v) => {
            module.functions = v;
        },
        Err(e) => {
            symbol_table.leave_scope();
            return Err(e);
        },
    }
    symbol_table.leave_scope();
    Ok(())
}

} // verus!
