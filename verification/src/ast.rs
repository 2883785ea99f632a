use vstd::prelude::*;

use crate::type_environment::TypeReference;

verus! {

/// A textual name as it appeared in source, before resolution.
pub struct Identifier {
    pub name: String,
}

impl Identifier {
    pub fn new(name: String) -> (r: Identifier)
        ensures
            r.name@ == name@,
    {
        Identifier { name }
    }

    /// A fresh identifier with the same text.
    pub fn duplicate(&self) -> (r: Identifier)
        ensures
            r.name@ == self.name@,
    {
        Identifier { name: self.name.clone() }
    }
}

/// A primitive type declaration; legal only in the core module. After
/// checking, `declaring_type` holds the created type's identity.
pub struct PrimitiveDeclaration {
    pub primitive_type_name: Identifier,
    pub declaring_type: Option<TypeReference>,
}

impl PrimitiveDeclaration {
    /// This declaration with its created type recorded.
    pub fn annotated(&self, reference: TypeReference) -> (r: PrimitiveDeclaration)
        ensures
            r.primitive_type_name.name@ == self.primitive_type_name.name@,
            r.declaring_type == Some(reference),
    {
        PrimitiveDeclaration {
            primitive_type_name: Identifier { name: self.primitive_type_name.name.clone() },
            declaring_type: Some(reference),
        }
    }
}

/// One field of a struct definition: its name and its declared type name,
/// which checking resolves into `struct_member_type`.
pub struct StructMemberDeclaration {
    pub struct_member_name: Identifier,
    pub struct_member_type_name: Identifier,
    pub struct_member_type: Option<TypeReference>,
}

/// A struct definition. After checking, `declaring_type` holds the identity
/// created for the struct itself.
pub struct StructDefinition {
    pub struct_name: Identifier,
    pub struct_member: Vec<StructMemberDeclaration>,
    pub declaring_type: Option<TypeReference>,
}

/// Whether a cast applies silently or only when written out.
#[derive(Debug, Clone, Copy, PartialEq, Eq, Structural)]
pub enum CastType {
    Implicit,
    Explicit,
}

/// A cast declaration between two named types; legal only in the core
/// module. Checking records the edge in the type environment and writes
/// nothing back onto this node.
pub struct CastDeclaration {
    pub cast_type: CastType,
    pub source_type: Identifier,
    pub target_type: Identifier,
}

/// A constant definition: a value name with a declared type name, resolved
/// into `constant_type` by checking.
pub struct ConstantDefinition {
    pub constant_name: Identifier,
    pub constant_type_name: Identifier,
    pub constant_type: Option<TypeReference>,
}

/// The kind of a literal; each kind maps to a fixed built-in type name.
#[derive(Debug, Clone, Copy, PartialEq, Eq, Structural)]
pub enum LiteralType {
    Float,
    Int,
}

/// A literal expression; checking resolves the built-in type it denotes.
pub struct LiteralExpression {
    pub literal_expression_type: LiteralType,
    pub literal_type: Option<TypeReference>,
}

/// A reference to a value name; checking fills in the symbol's type.
pub struct VariableExpression {
    pub variable_name: Identifier,
    pub variable_type: Option<TypeReference>,
}

/// The operator of an infix expression. Operator availability per type is
/// not checked yet; the checker records only the operand type.
#[derive(Debug, Clone, Copy, PartialEq, Eq, Structural)]
pub enum Operator {
    Plus,
    Minus,
    Multiply,
    Divide,
}

/// A binary expression; its type is currently the left operand's type.
pub struct InfixExpression {
    pub operator: Operator,
    pub left_hand: Box<ExpressionStatement>,
    pub right_hand: Box<ExpressionStatement>,
    pub infix_type: Option<TypeReference>,
}

/// One field initializer inside a struct instantiation; checking records
/// the initializer expression's inferred type.
pub struct StructFieldInitializerExpression {
    pub struct_field_name: Identifier,
    pub initializer: Box<ExpressionStatement>,
    pub struct_field_type: Option<TypeReference>,
}

/// A struct instantiation; checking resolves the struct's type name.
pub struct StructInstantiationExpression {
    pub struct_type_name: Identifier,
    pub struct_field_initializer: Vec<StructFieldInitializerExpression>,
    pub struct_type: Option<TypeReference>,
}

/// The expression grammar, matched exhaustively by the checker so that a
/// new kind cannot slip through with a placeholder type.
pub enum ExpressionStatement {
    Literal(LiteralExpression),
    Variable(VariableExpression),
    Infix(InfixExpression),
    StructInstantiation(StructInstantiationExpression),
}

/// A local declaration: the name is bound to the initializer's inferred
/// type; there is no separate declared-type syntax.
pub struct LocalDeclaration {
    pub symbol_name: Identifier,
    pub expression: ExpressionStatement,
    pub local_type: Option<TypeReference>,
}

/// A return statement; checking records the returned expression's type.
pub struct ReturnDeclaration {
    pub expression: ExpressionStatement,
    pub return_type: Option<TypeReference>,
}

/// One statement of a block.
pub enum BlockStatement {
    Local(LocalDeclaration),
    Return(ReturnDeclaration),
    Expression(ExpressionStatement),
}

/// A braced sequence of statements with its own scope.
pub struct BlockDeclaration {
    pub statements: Vec<BlockStatement>,
}

/// One argument of a function declaration.
pub struct FunctionArgumentDeclaration {
    pub argument_name: Identifier,
    pub argument_type_name: Identifier,
    pub argument_type: Option<TypeReference>,
}

/// A function declaration: arguments, declared return type name, and body.
pub struct FunctionDeclaration {
    pub function_name: Identifier,
    pub arguments: Vec<FunctionArgumentDeclaration>,
    pub return_type_name: Identifier,
    pub return_type: Option<TypeReference>,
    pub block: BlockDeclaration,
}

} // verus!
