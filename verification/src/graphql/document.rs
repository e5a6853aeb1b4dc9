//! The declarations of a schema document as plain values, and the reading of
//! a schema text into them.

use async_graphql_parser::types::{ConstDirective, FieldDefinition, TypeKind, TypeSystemDefinition};
use vstd::prelude::*;

verus! {

/// A directive with its arguments; each argument is a name and the text of
/// its value.
#[derive(Debug, Clone, PartialEq, Eq)]
pub struct Directive {
    pub name: String,
    pub arguments: Vec<(String, String)>,
}

pub struct DirectiveView {
    pub name: Seq<char>,
    pub arguments: Seq<(Seq<char>, Seq<char>)>,
}

impl DeepView for Directive {
    type V = DirectiveView;

    open spec fn deep_view(&self) -> DirectiveView {
        DirectiveView { name: self.name@, arguments: self.arguments.deep_view() }
    }
}

/// A field of an object: its name, the text of its type signature (such as
/// `[Account!]!`) and its directives.
#[derive(Debug, Clone, PartialEq, Eq)]
pub struct Field {
    pub name: String,
    pub ty: String,
    pub directives: Vec<Directive>,
}

pub struct FieldView {
    pub name: Seq<char>,
    pub ty: Seq<char>,
    pub directives: Seq<DirectiveView>,
}

impl DeepView for Field {
    type V = FieldView;

    open spec fn deep_view(&self) -> FieldView {
        FieldView { name: self.name@, ty: self.ty@, directives: self.directives.deep_view() }
    }
}

/// One top-level declaration of a schema document.
#[derive(Debug, Clone, PartialEq, Eq)]
pub enum TypeDeclaration {
    Object { name: String, fields: Vec<Field>, directives: Vec<Directive> },
    Enum { name: String, values: Vec<String> },
    Union { name: String, members: Vec<String> },
    Scalar { name: String },
    Interface { name: String },
    InputObject { name: String },
    Schema,
    DirectiveDefinition { name: String },
}

pub enum TypeDeclarationView {
    Object { name: Seq<char>, fields: Seq<FieldView>, directives: Seq<DirectiveView> },
    Enum { name: Seq<char>, values: Seq<Seq<char>> },
    Union { name: Seq<char>, members: Seq<Seq<char>> },
    Scalar { name: Seq<char> },
    Interface { name: Seq<char> },
    InputObject { name: Seq<char> },
    Schema,
    DirectiveDefinition { name: Seq<char> },
}

impl DeepView for TypeDeclaration {
    type V = TypeDeclarationView;

    open spec fn deep_view(&self) -> TypeDeclarationView {
        match self {
            TypeDeclaration::Object { name, fields, directives } => TypeDeclarationView::Object {
                name: name@,
                fields: fields.deep_view(),
                directives: directives.deep_view(),
            },
            TypeDeclaration::Enum { name, values } => TypeDeclarationView::Enum {
                name: name@,
                values: values.deep_view(),
            },
            TypeDeclaration::Union { name, members } => TypeDeclarationView::Union {
                name: name@,
                members: members.deep_view(),
            },
            TypeDeclaration::Scalar { name } => TypeDeclarationView::Scalar { name: name@ },
            TypeDeclaration::Interface { name } => TypeDeclarationView::Interface { name: name@ },
            TypeDeclaration::InputObject { name } => TypeDeclarationView::InputObject {
                name: name@,
            },
            TypeDeclaration::Schema => TypeDeclarationView::Schema,
            TypeDeclaration::DirectiveDefinition { name } => {
                TypeDeclarationView::DirectiveDefinition { name: name@ }
            },
        }
    }
}

/// A copy of a list of names.
pub fn clone_names(names: &Vec<String>) -> (r: Vec<String>)
    ensures
        r.deep_view() == names.deep_view(),
{
    let mut out: Vec<String> = Vec::new();
    let mut i: usize = 0;
    while i < names.len()
        invariant
            i <= names@.len(),
            out@.len() == i,
            forall|j: int| 0 <= j < i ==> out@[j]@ == names@[j]@,
        decreases names@.len() - i,
    {
        out.push(names[i].clone());
        i = i + 1;
    }
    assert(out.deep_view() =~= names.deep_view());
    out
}

impl Directive {
    /// A copy with the same name and arguments.
    pub fn duplicate(&self) -> (r: Directive)
        ensures
            r.deep_view() == self.deep_view(),
    {
        let mut arguments: Vec<(String, String)> = Vec::new();
        let mut i: usize = 0;
        while i < self.arguments.len()
            invariant
                i <= self.arguments@.len(),
                arguments@.len() == i,
                forall|j: int|
                    0 <= j < i ==> arguments@[j].deep_view() == self.arguments@[j].deep_view(),
            decreases self.arguments@.len() - i,
        {
            let pair = (self.arguments[i].0.clone(), self.arguments[i].1.clone());
            arguments.push(pair);
            i = i + 1;
        }
        assert(arguments.deep_view() =~= self.arguments.deep_view());
        Directive { name: self.name.clone(), arguments }
    }
}

impl Field {
    /// A copy with the same name, type signature and directives.
    pub fn duplicate(&self) -> (r: Field)
        ensures
            r.deep_view() == self.deep_view(),
    {
        let mut directives: Vec<Directive> = Vec::new();
        let mut i: usize = 0;
        while i < self.directives.len()
            invariant
                i <= self.directives@.len(),
                directives@.len() == i,
                forall|j: int|
                    0 <= j < i ==> directives@[j].deep_view() == self.directives@[j].deep_view(),
            decreases self.directives@.len() - i,
        {
            directives.push(self.directives[i].duplicate());
            i = i + 1;
        }
        assert(directives.deep_view() =~= self.directives.deep_view());
        Field { name: self.name.clone(), ty: self.ty.clone(), directives }
    }
}

/// A copy of a list of fields.
pub fn clone_fields(fields: &Vec<Field>) -> (r: Vec<Field>)
    ensures
        r.deep_view() == fields.deep_view(),
{
    let mut out: Vec<Field> = Vec::new();
    let mut i: usize = 0;
    while i < fields.len()
        invariant
            i <= fields@.len(),
            out@.len() == i,
            forall|j: int| 0 <= j < i ==> out@[j].deep_view() == fields@[j].deep_view(),
        decreases fields@.len() - i,
    {
        out.push(fields[i].duplicate());
        i = i + 1;
    }
    assert(out.deep_view() =~= fields.deep_view());
    out
}

/// The kinds of top-level definition that the parser tells apart.
#[derive(Clone, Copy, Debug, PartialEq, Eq, Structural)]
pub enum DefinitionKind {
    Schema,
    Directive,
    Scalar,
    Object,
    Interface,
    Union,
    Enum,
    InputObject,
}

/// A top-level definition of a parsed document, carried as an opaque value.
#[verifier::external_type_specification]
#[verifier::external_body]
pub struct ExTypeSystemDefinition(async_graphql_parser::types::TypeSystemDefinition);

/// A parsed field, carried as an opaque value.
#[verifier::external_type_specification]
#[verifier::external_body]
pub struct ExFieldDefinition(async_graphql_parser::types::FieldDefinition);

/// A parsed directive, carried as an opaque value.
#[verifier::external_type_specification]
#[verifier::external_body]
pub struct ExConstDirective(async_graphql_parser::types::ConstDirective);

/// The parser's error, carried as an opaque value.
#[verifier::external_type_specification]
#[verifier::external_body]
pub struct ExParserError(async_graphql_parser::Error);

/// The definitions, in document order, of a schema text that
/// `parse_schema` accepts. Of a text that it refuses nothing is said.
pub uninterp spec fn parsed_definitions(text: Seq<char>) -> Seq<TypeSystemDefinition>;

/// Which kind of definition the parser produced.
pub uninterp spec fn definition_kind_of(def: TypeSystemDefinition) -> DefinitionKind;

/// The name of a type or directive definition; empty for a schema definition.
pub uninterp spec fn definition_name_of(def: TypeSystemDefinition) -> Seq<char>;

/// The directives written on a type or schema definition.
pub uninterp spec fn definition_directives_of(def: TypeSystemDefinition) -> Seq<ConstDirective>;

/// The fields of an object or interface definition.
pub uninterp spec fn definition_fields_of(def: TypeSystemDefinition) -> Seq<FieldDefinition>;

/// The value names of an enum definition, or the member names of a union.
pub uninterp spec fn definition_values_of(def: TypeSystemDefinition) -> Seq<Seq<char>>;

/// A parsed directive as plain values.
pub uninterp spec fn directive_view_of(d: ConstDirective) -> DirectiveView;

/// The name of a parsed field.
pub uninterp spec fn field_name_of(f: FieldDefinition) -> Seq<char>;

/// The type signature of a parsed field as the parser prints it.
pub uninterp spec fn field_type_of(f: FieldDefinition) -> Seq<char>;

/// The directives written on a parsed field.
pub uninterp spec fn field_directives_of(f: FieldDefinition) -> Seq<ConstDirective>;

/// Calls `async_graphql_parser::parse_schema` and hands out the
/// `definitions` of the `ServiceDocument`. Believed without proof: where the
/// parser accepts a text, the definitions depend on the text alone, so that
/// `parsed_definitions` names them. When it accepts is left open: it refuses
/// text that is no schema document, and its grammar engine also gives up
/// where the nesting of a text exhausts the stack that is left.
#[verifier::external_body]
fn parse_definitions(text: &str) -> (r: Result<Vec<TypeSystemDefinition>, async_graphql_parser::Error>)
    ensures
        r matches Ok(defs) ==> parsed_definitions(text@) == defs@,
{
    async_graphql_parser::parse_schema(text).map(|doc| doc.definitions)
}

/// Tells the variants of `TypeSystemDefinition`, and for a type definition
/// those of its `TypeKind`, apart. Believed without proof: the result is the
/// kind that `definition_kind_of` names.
#[verifier::external_body]
fn definition_kind(def: &TypeSystemDefinition) -> (r: DefinitionKind)
    ensures
        r == definition_kind_of(*def),
{
    match def {
        TypeSystemDefinition::Schema(_) => DefinitionKind::Schema,
        TypeSystemDefinition::Directive(_) => DefinitionKind::Directive,
        TypeSystemDefinition::Type(t) => match &t.node.kind {
            TypeKind::Scalar => DefinitionKind::Scalar,
            TypeKind::Object(_) => DefinitionKind::Object,
            TypeKind::Interface(_) => DefinitionKind::Interface,
            TypeKind::Union(_) => DefinitionKind::Union,
            TypeKind::Enum(_) => DefinitionKind::Enum,
            TypeKind::InputObject(_) => DefinitionKind::InputObject,
        },
    }
}

/// Reads the `name` of a `TypeDefinition` or `DirectiveDefinition`; a
/// `SchemaDefinition` has none. Believed without proof: the result holds the
/// characters that `definition_name_of` names.
#[verifier::external_body]
fn definition_name(def: &TypeSystemDefinition) -> (r: String)
    ensures
        r@ == definition_name_of(*def),
{
    match def {
        TypeSystemDefinition::Schema(_) => String::new(),
        TypeSystemDefinition::Type(t) => t.node.name.node.to_string(),
        TypeSystemDefinition::Directive(d) => d.node.name.node.to_string(),
    }
}

/// Copies the `directives` of a `TypeDefinition` or `SchemaDefinition`; a
/// `DirectiveDefinition` has none. Believed without proof: the result is
/// the list that `definition_directives_of` names.
#[verifier::external_body]
fn definition_directives(def: &TypeSystemDefinition) -> (r: Vec<ConstDirective>)
    ensures
        r@ == definition_directives_of(*def),
{
    match def {
        TypeSystemDefinition::Schema(s) => s.node.directives.iter().map(|d| d.node.clone()).collect(),
        TypeSystemDefinition::Type(t) => t.node.directives.iter().map(|d| d.node.clone()).collect(),
        TypeSystemDefinition::Directive(_) => Vec::new(),
    }
}

/// Copies the `fields` of an `ObjectType` or `InterfaceType`; other
/// definitions have none. Believed without proof: the result is the list
/// that `definition_fields_of` names.
#[verifier::external_body]
fn definition_fields(def: &TypeSystemDefinition) -> (r: Vec<FieldDefinition>)
    ensures
        r@ == definition_fields_of(*def),
{
    match def {
        TypeSystemDefinition::Type(t) => match &t.node.kind {
            TypeKind::Object(o) => o.fields.iter().map(|f| f.node.clone()).collect(),
            TypeKind::Interface(i) => i.fields.iter().map(|f| f.node.clone()).collect(),
            _ => Vec::new(),
        },
        _ => Vec::new(),
    }
}

/// Reads the `values` of an `EnumType` or the `members` of a `UnionType`;
/// other definitions have none. Believed without proof: the result holds
/// the names that `definition_values_of` names.
#[verifier::external_body]
fn definition_values(def: &TypeSystemDefinition) -> (r: Vec<String>)
    ensures
        r.deep_view() == definition_values_of(*def),
{
    match def {
        TypeSystemDefinition::Type(t) => match &t.node.kind {
            TypeKind::Enum(e) => e.values.iter().map(|v| v.node.value.node.to_string()).collect(),
            TypeKind::Union(u) => u.members.iter().map(|m| m.node.to_string()).collect(),
            _ => Vec::new(),
        },
        _ => Vec::new(),
    }
}

/// Reads the `name` and `arguments` of a `ConstDirective`; each value is
/// taken as the text that its `Display` prints. Believed without proof:
/// the result is the directive that `directive_view_of` names.
#[verifier::external_body]
fn directive_of(d: &ConstDirective) -> (r: Directive)
    ensures
        r.deep_view() == directive_view_of(*d),
{
    Directive {
        name: d.name.node.to_string(),
        arguments: d.arguments.iter().map(|a| (a.0.node.to_string(), a.1.node.to_string())).collect(),
    }
}

/// Reads the `name` of a `FieldDefinition`. Believed without proof: the
/// result holds the characters that `field_name_of` names.
#[verifier::external_body]
fn field_name(f: &FieldDefinition) -> (r: String)
    ensures
        r@ == field_name_of(*f),
{
    f.name.node.to_string()
}

/// Prints the `ty` of a `FieldDefinition` through its `Display`. Believed
/// without proof: the result holds the characters that `field_type_of` names.
#[verifier::external_body]
fn field_type(f: &FieldDefinition) -> (r: String)
    ensures
        r@ == field_type_of(*f),
{
    f.ty.node.to_string()
}

/// Copies the `directives` of a `FieldDefinition`. Believed without proof:
/// the result is the list that `field_directives_of` names.
#[verifier::external_body]
fn field_directives(f: &FieldDefinition) -> (r: Vec<ConstDirective>)
    ensures
        r@ == field_directives_of(*f),
{
    f.directives.iter().map(|d| d.node.clone()).collect()
}

/// A parsed field as plain values.
pub open spec fn field_view_of(f: FieldDefinition) -> FieldView {
    FieldView {
        name: field_name_of(f),
        ty: field_type_of(f),
        directives: field_directives_of(f).map_values(|d: ConstDirective| directive_view_of(d)),
    }
}

/// A parsed definition as plain values.
pub open spec fn declaration_view_of(def: TypeSystemDefinition) -> TypeDeclarationView {
    let name = definition_name_of(def);
    match definition_kind_of(def) {
        DefinitionKind::Schema => TypeDeclarationView::Schema,
        DefinitionKind::Directive => TypeDeclarationView::DirectiveDefinition { name },
        DefinitionKind::Scalar => TypeDeclarationView::Scalar { name },
        DefinitionKind::Interface => TypeDeclarationView::Interface { name },
        DefinitionKind::InputObject => TypeDeclarationView::InputObject { name },
        DefinitionKind::Enum => TypeDeclarationView::Enum {
            name,
            values: definition_values_of(def),
        },
        DefinitionKind::Union => TypeDeclarationView::Union {
            name,
            members: definition_values_of(def),
        },
        DefinitionKind::Object => TypeDeclarationView::Object {
            name,
            fields: definition_fields_of(def).map_values(|f: FieldDefinition| field_view_of(f)),
            directives: definition_directives_of(def).map_values(
                |d: ConstDirective| directive_view_of(d),
            ),
        },
    }
}

/// The declarations of a schema text that the parser accepts.
pub open spec fn schema_declarations(text: Seq<char>) -> Seq<TypeDeclarationView> {
    parsed_definitions(text).map_values(|d: TypeSystemDefinition| declaration_view_of(d))
}

fn directives_from(parsed: &Vec<ConstDirective>) -> (r: Vec<Directive>)
    ensures
        r.deep_view() == parsed@.map_values(|d: ConstDirective| directive_view_of(d)),
{
    let mut out: Vec<Directive> = Vec::new();
    let mut i: usize = 0;
    while i < parsed.len()
        invariant
            i <= parsed@.len(),
            out@.len() == i,
            forall|j: int| 0 <= j < i ==> out@[j].deep_view() == directive_view_of(parsed@[j]),
        decreases parsed@.len() - i,
    {
        out.push(directive_of(&parsed[i]));
        i = i + 1;
    }
    assert(out.deep_view() =~= parsed@.map_values(|d: ConstDirective| directive_view_of(d)));
    out
}

fn field_from(parsed: &FieldDefinition) -> (r: Field)
    ensures
        r.deep_view() == field_view_of(*parsed),
{
    let directives = directives_from(&field_directives(parsed));
    Field { name: field_name(parsed), ty: field_type(parsed), directives }
}

fn fields_from(parsed: &Vec<FieldDefinition>) -> (r: Vec<Field>)
    ensures
        r.deep_view() == parsed@.map_values(|f: FieldDefinition| field_view_of(f)),
{
    let mut out: Vec<Field> = Vec::new();
    let mut i: usize = 0;
    while i < parsed.len()
        invariant
            i <= parsed@.len(),
            out@.len() == i,
            forall|j: int| 0 <= j < i ==> out@[j].deep_view() == field_view_of(parsed@[j]),
        decreases parsed@.len() - i,
    {
        out.push(field_from(&parsed[i]));
        i = i + 1;
    }
    assert(out.deep_view() =~= parsed@.map_values(|f: FieldDefinition| field_view_of(f)));
    out
}

fn declaration_from(def: &TypeSystemDefinition) -> (r: TypeDeclaration)
    ensures
        r.deep_view() == declaration_view_of(*def),
{
    let name = definition_name(def);
    match definition_kind(def) {
        DefinitionKind::Schema => TypeDeclaration::Schema,
        DefinitionKind::Directive => TypeDeclaration::DirectiveDefinition { name },
        DefinitionKind::Scalar => TypeDeclaration::Scalar { name },
        DefinitionKind::Interface => TypeDeclaration::Interface { name },
        DefinitionKind::InputObject => TypeDeclaration::InputObject { name },
        DefinitionKind::Enum => TypeDeclaration::Enum { name, values: definition_values(def) },
        DefinitionKind::Union => TypeDeclaration::Union { name, members: definition_values(def) },
        DefinitionKind::Object => {
            let fields = fields_from(&definition_fields(def));
            let directives = directives_from(&definition_directives(def));
            TypeDeclaration::Object { name, fields, directives }
        },
    }
}

/// Parses a schema text into its declarations, in document order. Fails
/// with the parser's error where the parser refuses the text.
pub fn parse_declarations(text: &str) -> (r: Result<Vec<TypeDeclaration>, async_graphql_parser::Error>)
    ensures
        r matches Ok(decls) ==> decls.deep_view() == schema_declarations(text@),
{
    match parse_definitions(text) {
        Err(e) => Err(e),
        Ok(defs) => Ok(declarations_from(&defs)),
    }
}

/// Turns the definitions of a parsed document into declarations, one for
/// one and in the same order.
pub fn declarations_from(defs: &Vec<TypeSystemDefinition>) -> (r: Vec<TypeDeclaration>)
    ensures
        r.deep_view() == defs@.map_values(|d: TypeSystemDefinition| declaration_view_of(d)),
{
    let mut out: Vec<TypeDeclaration> = Vec::new();
    let mut i: usize = 0;
    while i < defs.len()
        invariant
            i <= defs@.len(),
            out@.len() == i,
            forall|j: int| 0 <= j < i ==> out@[j].deep_view() == declaration_view_of(defs@[j]),
        decreases defs@.len() - i,
    {
        out.push(declaration_from(&defs[i]));
        i = i + 1;
    }
    assert(out.deep_view() =~= defs@.map_values(|d: TypeSystemDefinition| declaration_view_of(d)));
    out
}

} // verus!
