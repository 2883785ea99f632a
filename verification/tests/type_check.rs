use typecheck::ast::{
    BlockDeclaration, BlockStatement, CastDeclaration, CastType, ConstantDefinition,
    ExpressionStatement, FunctionArgumentDeclaration, FunctionDeclaration, Identifier,
    InfixExpression, LiteralExpression, LiteralType, LocalDeclaration, Operator,
    PrimitiveDeclaration, ReturnDeclaration, StructDefinition, StructFieldInitializerExpression,
    StructInstantiationExpression, StructMemberDeclaration, VariableExpression,
};
use typecheck::error::{TypeCheckResult, TypeError};
use typecheck::module::Module;
use typecheck::symbol_table::SymbolTable;
use typecheck::type_check::type_check;
use typecheck::type_environment::TypeEnvironment;

fn ident(name: &str) -> Identifier {
    Identifier::new(name.to_string())
}

fn primitive(name: &str) -> PrimitiveDeclaration {
    PrimitiveDeclaration { primitive_type_name: ident(name), declaring_type: None }
}

fn member(name: &str, declared_type: &str) -> StructMemberDeclaration {
    StructMemberDeclaration {
        struct_member_name: ident(name),
        struct_member_type_name: ident(declared_type),
        struct_member_type: None,
    }
}

fn structure(name: &str, members: Vec<StructMemberDeclaration>) -> StructDefinition {
    StructDefinition { struct_name: ident(name), struct_member: members, declaring_type: None }
}

fn constant(name: &str, declared_type: &str) -> ConstantDefinition {
    ConstantDefinition {
        constant_name: ident(name),
        constant_type_name: ident(declared_type),
        constant_type: None,
    }
}

fn cast(kind: CastType, source: &str, target: &str) -> CastDeclaration {
    CastDeclaration { cast_type: kind, source_type: ident(source), target_type: ident(target) }
}

fn argument(name: &str, declared_type: &str) -> FunctionArgumentDeclaration {
    FunctionArgumentDeclaration {
        argument_name: ident(name),
        argument_type_name: ident(declared_type),
        argument_type: None,
    }
}

fn variable(name: &str) -> ExpressionStatement {
    ExpressionStatement::Variable(VariableExpression {
        variable_name: ident(name),
        variable_type: None,
    })
}

fn empty_module() -> Module {
    Module {
        core: true,
        primitives: vec![],
        structs: vec![],
        casts: vec![],
        constants: vec![],
        functions: vec![],
    }
}

fn check(module: &mut Module) -> TypeCheckResult<()> {
    let mut environment = TypeEnvironment::new();
    let mut table = SymbolTable::new();
    type_check(&mut environment, &mut table, module)
}

#[test]
fn test_check_struct() {
    let mut module = empty_module();
    module.primitives = vec![primitive("f32")];
    module.structs = vec![structure("Test", vec![member("x", "f32"), member("y", "f32")])];
    assert!(check(&mut module).is_ok());
}

#[test]
fn test_check_struct_with_unknown_type() {
    let mut module = empty_module();
    module.primitives = vec![primitive("f32")];
    module.structs = vec![structure("Test", vec![member("x", "ThisTypeShouldNotExist")])];
    assert!(check(&mut module).is_err());
}

#[test]
fn test_forward_declarations() {
    let mut module = empty_module();
    module.primitives = vec![primitive("f32")];
    module.structs = vec![
        structure("Test", vec![member("x", "Test2")]),
        structure("Test2", vec![member("y", "f32")]),
    ];
    check(&mut module).unwrap();

    let mut again = empty_module();
    again.primitives = vec![primitive("f32")];
    again.structs = vec![
        structure("Test", vec![member("x", "Test2")]),
        structure("Test2", vec![member("y", "f32")]),
    ];
    assert!(check(&mut again).is_ok());
}

#[test]
fn test_check_constant_unknown() {
    let mut module = empty_module();
    module.primitives = vec![primitive("f32")];
    module.constants = vec![constant("test", "ThisTypeShouldNotExist")];
    assert!(check(&mut module).is_err());
}

#[test]
fn test_check_constant() {
    let mut module = empty_module();
    module.primitives = vec![primitive("f32")];
    module.constants = vec![constant("test", "f32")];
    assert!(check(&mut module).is_ok());
}

#[test]
fn test_check_sampler_unknown() {
    let mut module = empty_module();
    module.primitives = vec![primitive("f32")];
    module.constants = vec![constant("test", "ThisTypeShouldNotExist")];
    assert!(check(&mut module).is_err());
}

#[test]
fn test_check_sampler() {
    let mut module = empty_module();
    module.primitives = vec![primitive("f32")];
    module.constants = vec![constant("test", "f32")];
    assert!(check(&mut module).is_ok());
}

fn add_function() -> FunctionDeclaration {
    FunctionDeclaration {
        function_name: ident("add"),
        arguments: vec![argument("x", "f32"), argument("y", "f32")],
        return_type_name: ident("f32"),
        return_type: None,
        block: BlockDeclaration {
            statements: vec![BlockStatement::Return(ReturnDeclaration {
                expression: ExpressionStatement::Infix(InfixExpression {
                    operator: Operator::Plus,
                    left_hand: Box::new(variable("x")),
                    right_hand: Box::new(variable("y")),
                    infix_type: None,
                }),
                return_type: None,
            })],
        },
    }
}

#[test]
fn test_check_function() {
    let mut module = empty_module();
    module.primitives = vec![primitive("f32")];
    module.functions = vec![add_function()];
    assert!(check(&mut module).is_ok());
}

#[test]
fn test_create_struct() {
    let mut module = empty_module();
    module.primitives = vec![primitive("f32")];
    module.structs = vec![structure(
        "Vec4",
        vec![
            member("x", "f32"),
            member("y", "f32"),
            member("z", "f32"),
            member("w", "f32"),
        ],
    )];
    module.functions = vec![FunctionDeclaration {
        function_name: ident("vec4"),
        arguments: vec![
            argument("x", "f32"),
            argument("y", "f32"),
            argument("z", "f32"),
            argument("w", "f32"),
        ],
        return_type_name: ident("Vec4"),
        return_type: None,
        block: BlockDeclaration {
            statements: vec![BlockStatement::Return(ReturnDeclaration {
                expression: ExpressionStatement::StructInstantiation(
                    StructInstantiationExpression {
                        struct_type_name: ident("Vec4"),
                        struct_field_initializer: vec![
                            initializer("x", variable("x")),
                            initializer("y", variable("y")),
                            initializer("z", variable("z")),
                            initializer("w", variable("w")),
                        ],
                        struct_type: None,
                    },
                ),
                return_type: None,
            })],
        },
    }];
    assert!(check(&mut module).is_ok());
}

fn initializer(name: &str, expression: ExpressionStatement) -> StructFieldInitializerExpression {
    StructFieldInitializerExpression {
        struct_field_name: ident(name),
        initializer: Box::new(expression),
        struct_field_type: None,
    }
}

#[test]
fn struct_members_resolve_to_primitive_reference() {
    let mut module = empty_module();
    module.primitives = vec![primitive("f32")];
    module.structs = vec![structure("Test", vec![member("x", "f32"), member("y", "f32")])];
    assert!(check(&mut module).is_ok());
    let f32_reference = module.primitives[0].declaring_type.expect("primitive annotated");
    let test = &module.structs[0];
    assert!(test.declaring_type.is_some());
    assert_ne!(test.declaring_type, Some(f32_reference));
    assert_eq!(test.struct_member[0].struct_member_type, Some(f32_reference));
    assert_eq!(test.struct_member[1].struct_member_type, Some(f32_reference));
}

#[test]
fn unknown_member_type_reports_its_name() {
    let mut module = empty_module();
    module.structs = vec![structure("Test", vec![member("x", "ThisTypeShouldNotExist")])];
    let result = check(&mut module);
    assert_eq!(
        result,
        Err(TypeError::TypeNotFound("ThisTypeShouldNotExist".to_string()))
    );
    assert_eq!(module.structs[0].struct_member[0].struct_member_type, None);
}

#[test]
fn mutual_struct_references_in_both_orders() {
    for flipped in [false, true] {
        let mut module = empty_module();
        let first = structure("A", vec![member("b", "B")]);
        let second = structure("B", vec![member("a", "A")]);
        module.structs = if flipped { vec![second, first] } else { vec![first, second] };
        assert!(check(&mut module).is_ok());
        let a_reference = module.structs[0].declaring_type.unwrap();
        let b_reference = module.structs[1].declaring_type.unwrap();
        assert_eq!(module.structs[0].struct_member[0].struct_member_type, Some(b_reference));
        assert_eq!(module.structs[1].struct_member[0].struct_member_type, Some(a_reference));
    }
}

#[test]
fn returned_expression_infers_the_declared_type() {
    let mut module = empty_module();
    module.primitives = vec![primitive("f32")];
    module.functions = vec![add_function()];
    assert!(check(&mut module).is_ok());
    let f32_reference = module.primitives[0].declaring_type.unwrap();
    let function = &module.functions[0];
    assert_eq!(function.return_type, Some(f32_reference));
    match &function.block.statements[0] {
        BlockStatement::Return(returned) => {
            assert_eq!(returned.return_type, Some(f32_reference));
        }
        _ => panic!("expected a return statement"),
    }
}

#[test]
fn duplicate_cast_of_any_kind_is_rejected() {
    let kinds = [
        (CastType::Implicit, CastType::Implicit),
        (CastType::Implicit, CastType::Explicit),
        (CastType::Explicit, CastType::Implicit),
        (CastType::Explicit, CastType::Explicit),
    ];
    for (first, second) in kinds {
        let mut module = empty_module();
        module.primitives = vec![primitive("f32"), primitive("i32")];
        module.casts = vec![cast(first, "f32", "i32"), cast(second, "f32", "i32")];
        let result = check(&mut module);
        assert_eq!(
            result,
            Err(TypeError::CastAlreadyDeclared("f32".to_string(), "i32".to_string()))
        );
    }
}

#[test]
fn reverse_cast_is_an_independent_edge() {
    let mut module = empty_module();
    module.primitives = vec![primitive("f32"), primitive("i32")];
    module.casts = vec![
        cast(CastType::Implicit, "f32", "i32"),
        cast(CastType::Explicit, "i32", "f32"),
    ];
    assert!(check(&mut module).is_ok());
}

#[test]
fn cast_with_unknown_endpoint_fails() {
    let mut module = empty_module();
    module.primitives = vec![primitive("f32")];
    module.casts = vec![cast(CastType::Implicit, "f32", "NoSuchType")];
    assert_eq!(
        check(&mut module),
        Err(TypeError::TypeNotFound("NoSuchType".to_string()))
    );
}

#[test]
fn primitives_only_in_core_module() {
    let mut module = empty_module();
    module.core = false;
    module.primitives = vec![primitive("f32")];
    assert_eq!(check(&mut module), Err(TypeError::SyntaxOnlyValidInCoreModule));
}

#[test]
fn casts_only_in_core_module() {
    let mut module = empty_module();
    module.core = false;
    module.casts = vec![cast(CastType::Implicit, "NoSuchType", "NorThisOne")];
    assert_eq!(check(&mut module), Err(TypeError::SyntaxOnlyValidInCoreModule));
}

#[test]
fn scope_depth_is_restored_on_success_and_failure() {
    let mut environment = TypeEnvironment::new();
    let mut table = SymbolTable::new();
    let mut good = empty_module();
    good.primitives = vec![primitive("f32")];
    assert_eq!(table.depth(), 0);
    assert!(type_check(&mut environment, &mut table, &mut good).is_ok());
    assert_eq!(table.depth(), 0);

    let mut bad = empty_module();
    bad.constants = vec![constant("test", "NoSuchType")];
    assert!(type_check(&mut environment, &mut table, &mut bad).is_err());
    assert_eq!(table.depth(), 0);
}

#[test]
fn duplicate_struct_name_is_rejected() {
    let mut module = empty_module();
    module.structs = vec![structure("Test", vec![]), structure("Test", vec![])];
    assert_eq!(
        check(&mut module),
        Err(TypeError::DuplicateSymbol("Test".to_string()))
    );
}

#[test]
fn duplicate_primitive_name_is_rejected() {
    let mut module = empty_module();
    module.primitives = vec![primitive("f32"), primitive("f32")];
    assert_eq!(check(&mut module), Err(TypeError::DuplicateType("f32".to_string())));
}

#[test]
fn unknown_variable_in_function_body() {
    let mut module = empty_module();
    module.primitives = vec![primitive("f32")];
    module.functions = vec![FunctionDeclaration {
        function_name: ident("f"),
        arguments: vec![],
        return_type_name: ident("f32"),
        return_type: None,
        block: BlockDeclaration {
            statements: vec![BlockStatement::Expression(variable("missing"))],
        },
    }];
    assert_eq!(
        check(&mut module),
        Err(TypeError::VariableNotFound("missing".to_string()))
    );
}

#[test]
fn struct_name_used_as_value_cannot_infer() {
    let mut module = empty_module();
    module.primitives = vec![primitive("f32")];
    module.structs = vec![structure("Test", vec![member("x", "f32")])];
    module.functions = vec![FunctionDeclaration {
        function_name: ident("f"),
        arguments: vec![],
        return_type_name: ident("f32"),
        return_type: None,
        block: BlockDeclaration {
            statements: vec![BlockStatement::Expression(variable("Test"))],
        },
    }];
    assert_eq!(check(&mut module), Err(TypeError::CannotInfer("Test".to_string())));
}

#[test]
fn literals_take_the_built_in_types() {
    let mut module = empty_module();
    module.primitives = vec![primitive("f32"), primitive("i32")];
    module.functions = vec![FunctionDeclaration {
        function_name: ident("f"),
        arguments: vec![],
        return_type_name: ident("i32"),
        return_type: None,
        block: BlockDeclaration {
            statements: vec![
                BlockStatement::Local(LocalDeclaration {
                    symbol_name: ident("a"),
                    expression: ExpressionStatement::Literal(LiteralExpression {
                        literal_expression_type: LiteralType::Float,
                        literal_type: None,
                    }),
                    local_type: None,
                }),
                BlockStatement::Local(LocalDeclaration {
                    symbol_name: ident("b"),
                    expression: ExpressionStatement::Literal(LiteralExpression {
                        literal_expression_type: LiteralType::Int,
                        literal_type: None,
                    }),
                    local_type: None,
                }),
            ],
        },
    }];
    assert!(check(&mut module).is_ok());
    let f32_reference = module.primitives[0].declaring_type.unwrap();
    let i32_reference = module.primitives[1].declaring_type.unwrap();
    match (&module.functions[0].block.statements[0], &module.functions[0].block.statements[1]) {
        (BlockStatement::Local(a), BlockStatement::Local(b)) => {
            assert_eq!(a.local_type, Some(f32_reference));
            assert_eq!(b.local_type, Some(i32_reference));
        }
        _ => panic!("expected two locals"),
    }
}

#[test]
fn empty_module_checks() {
    let mut module = empty_module();
    assert!(check(&mut module).is_ok());
    module.core = false;
    assert!(check(&mut module).is_ok());
}
