//! The semantic model of a schema: which names are types of which kind,
//! which fields refer to other entities, and the join tables that list
//! fields give rise to.

use crate::collections::{insert_inner, push_entry, NameMap, NameSet};
use crate::graphql::document::{
    clone_fields, clone_names, parse_declarations, schema_declarations, Directive, Field,
    FieldView, TypeDeclaration, TypeDeclarationView,
};
use crate::graphql::model::{
    build_model, declared_type, field_graphql_type, is_entity, is_virtual_marked, marks_virtual,
    model_of_text, scalar_type, type_definitions, with_declared_directives, with_declared_types,
    SchemaModel, UnionPass,
};
use crate::graphql::types::IdCol;
use crate::graphql::{
    extract_foreign_key_info, field_id, field_type_name, is_list_type, is_nullable,
    list_field_type_name, GraphQLSchema, GraphQLSchemaView, BASE_SCHEMA,
};
use crate::text::{count_brackets, lowercase, lowercase_text, same_text, strip};
use crate::{
    fully_qualified_namespace, fully_qualified_namespace_text, join_table_name,
    join_table_name_text, ExecutionSource,
};
use vstd::prelude::*;

verus! {

/// Error type returned by parsing GraphQL schema.
#[derive(Debug)]
pub enum ParsedError {
    /// An error of no particular kind.
    Generic,
    /// The parser rejected the schema text.
    ParseError(async_graphql_parser::Error),
    /// The document holds a declaration of a kind that the model does not support.
    UnsupportedTypeKind,
    /// A field's signature nests lists.
    ListTypesUnsupported,
    /// The members of the named union disagree on being virtual.
    InconsistentVirtualUnion(String),
    /// The named union member is no entity object declared before the union.
    UnionMemberNotFound(String),
    /// A relationship directive names the field with this ID, which has not
    /// been indexed.
    FieldReferenceNotFound(String),
}

pub enum ParsedErrorView {
    Generic,
    ParseError,
    UnsupportedTypeKind,
    ListTypesUnsupported,
    InconsistentVirtualUnion(Seq<char>),
    UnionMemberNotFound(Seq<char>),
    FieldReferenceNotFound(Seq<char>),
}

impl View for ParsedError {
    type V = ParsedErrorView;

    open spec fn view(&self) -> ParsedErrorView {
        match self {
            ParsedError::Generic => ParsedErrorView::Generic,
            ParsedError::ParseError(_) => ParsedErrorView::ParseError,
            ParsedError::UnsupportedTypeKind => ParsedErrorView::UnsupportedTypeKind,
            ParsedError::ListTypesUnsupported => ParsedErrorView::ListTypesUnsupported,
            ParsedError::InconsistentVirtualUnion(name) => ParsedErrorView::InconsistentVirtualUnion(
                name@,
            ),
            ParsedError::UnionMemberNotFound(name) => ParsedErrorView::UnionMemberNotFound(name@),
            ParsedError::FieldReferenceNotFound(fid) => ParsedErrorView::FieldReferenceNotFound(
                fid@,
            ),
        }
    }
}

/// Type of join table relationship.
#[derive(Debug, Clone, Copy, Eq, PartialEq, Structural)]
pub enum JoinTableRelationType {
    /// `TypeDefinition` on which the list type is defined.
    Parent,
    /// A `Child` in this case, is a `FieldDefinition` on a `TypeDefinition` that
    /// contains a list type, whose inner content type is a foreign key reference.
    Child,
}

/// Represents a relationship between two `TypeDefinition`s in the GraphQL schema.
#[derive(Debug, Clone, Eq, PartialEq)]
pub struct JoinTableRelation {
    /// Whether this is the parent or the child in the join.
    pub relation_type: JoinTableRelationType,
    /// Name of the `TypeDefinition` associated with this join.
    pub typedef_name: String,
    /// Name of the column in the join table.
    pub column_name: String,
    /// Position of the child in the join table.
    pub child_position: Option<usize>,
}

pub struct JoinTableRelationView {
    pub relation_type: JoinTableRelationType,
    pub typedef_name: Seq<char>,
    pub column_name: Seq<char>,
    pub child_position: Option<usize>,
}

impl DeepView for JoinTableRelation {
    type V = JoinTableRelationView;

    open spec fn deep_view(&self) -> JoinTableRelationView {
        JoinTableRelationView {
            relation_type: self.relation_type,
            typedef_name: self.typedef_name@,
            column_name: self.column_name@,
            child_position: self.child_position,
        }
    }
}

/// Represents metadata related to a many-to-many relationship in the GraphQL schema.
#[derive(Debug, Clone, Eq, PartialEq)]
pub struct JoinTableMeta {
    /// The `TypeDefinition` on which the `FieldDefinition` with a list type is defined.
    parent: JoinTableRelation,
    /// The `TypeDefinition` who's inner content type is a list of foreign keys.
    child: JoinTableRelation,
}

pub struct JoinTableMetaView {
    pub parent: JoinTableRelationView,
    pub child: JoinTableRelationView,
}

impl DeepView for JoinTableMeta {
    type V = JoinTableMetaView;

    closed spec fn deep_view(&self) -> JoinTableMetaView {
        JoinTableMetaView { parent: self.parent.deep_view(), child: self.child.deep_view() }
    }
}

/// The metadata of a join between a parent and a child; only the parent
/// side carries a position.
pub open spec fn join_table_meta(
    parent_typedef_name: Seq<char>,
    parent_column_name: Seq<char>,
    child_typedef_name: Seq<char>,
    child_column_name: Seq<char>,
    child_position: Option<usize>,
) -> JoinTableMetaView {
    JoinTableMetaView {
        parent: JoinTableRelationView {
            relation_type: JoinTableRelationType::Parent,
            typedef_name: parent_typedef_name,
            column_name: parent_column_name,
            child_position,
        },
        child: JoinTableRelationView {
            relation_type: JoinTableRelationType::Child,
            typedef_name: child_typedef_name,
            column_name: child_column_name,
            child_position: None,
        },
    }
}

impl JoinTableMeta {
    /// Create a new `JoinTableMeta`.
    pub fn new(
        parent_typedef_name: &str,
        parent_column_name: &str,
        child_typedef_name: &str,
        child_column_name: &str,
        child_position: Option<usize>,
    ) -> (r: Self)
        ensures
            r.deep_view() == join_table_meta(
                parent_typedef_name@,
                parent_column_name@,
                child_typedef_name@,
                child_column_name@,
                child_position,
            ),
    {
        JoinTableMeta {
            parent: JoinTableRelation {
                relation_type: JoinTableRelationType::Parent,
                typedef_name: String::from_str(parent_typedef_name),
                column_name: String::from_str(parent_column_name),
                child_position,
            },
            child: JoinTableRelation {
                relation_type: JoinTableRelationType::Child,
                typedef_name: String::from_str(child_typedef_name),
                column_name: String::from_str(child_column_name),
                child_position: None,
            },
        }
    }

    pub fn parent(&self) -> (r: &JoinTableRelation)
        ensures
            r.deep_view() == self.deep_view().parent,
    {
        &self.parent
    }

    pub fn child(&self) -> (r: &JoinTableRelation)
        ensures
            r.deep_view() == self.deep_view().child,
    {
        &self.child
    }

    pub fn table_name(&self) -> (r: String)
        ensures
            r@ == join_table_name_text(
                lowercase_text(self.deep_view().parent.typedef_name),
                lowercase_text(self.deep_view().child.typedef_name),
            ),
    {
        let parent = self.parent_table_name();
        let child = self.child_table_name();
        join_table_name(parent.as_str(), child.as_str())
    }

    pub fn parent_table_name(&self) -> (r: String)
        ensures
            r@ == lowercase_text(self.deep_view().parent.typedef_name),
    {
        lowercase(self.parent.typedef_name.as_str())
    }

    pub fn parent_column_name(&self) -> (r: String)
        ensures
            r@ == self.deep_view().parent.column_name,
    {
        self.parent.column_name.clone()
    }

    pub fn child_table_name(&self) -> (r: String)
        ensures
            r@ == lowercase_text(self.deep_view().child.typedef_name),
    {
        lowercase(self.child.typedef_name.as_str())
    }

    pub fn child_column_name(&self) -> (r: String)
        ensures
            r@ == self.deep_view().child.column_name,
    {
        self.child.column_name.clone()
    }
}

/// A wrapper object used to keep track of the order of a `FieldDefinition` in an object ` TypeDefinition`.
#[derive(Debug, Clone)]
pub struct OrderedField(pub Field, pub usize);

impl DeepView for OrderedField {
    type V = (FieldView, usize);

    open spec fn deep_view(&self) -> (FieldView, usize) {
        (self.0.deep_view(), self.1)
    }
}

/// Whether a step's result agrees with what the pass defines: on success
/// the state reached is `value`, on failure the error is the defined one.
pub open spec fn outcome_is<T>(
    expected: Result<T, ParsedErrorView>,
    r: Result<(), ParsedError>,
    value: T,
) -> bool {
    match r {
        Ok(_) => expected == Ok::<T, ParsedErrorView>(value),
        Err(e) => expected == Err::<T, ParsedErrorView>(e@),
    }
}

/// The indices of the model while they are being built.
#[derive(Debug, Clone)]
struct SchemaIndices {
    declared_names: NameSet,
    scalar_names: NameSet,
    enum_names: NameSet,
    union_names: NameSet,
    virtual_names: NameSet,
    parsed_names: NameSet,
    typedef_names_to_types: NameMap<String>,
    objects: NameMap<Vec<Field>>,
    unions: NameMap<Vec<String>>,
    object_field_mappings: NameMap<NameMap<String>>,
    field_type_mappings: NameMap<String>,
    field_type_optionality: NameMap<bool>,
    field_defs: NameMap<(Field, String)>,
    foreign_key_mappings: NameMap<NameMap<(String, String)>>,
    list_field_types: NameSet,
    list_type_defs: NameSet,
    join_table_meta: NameMap<Vec<JoinTableMeta>>,
    object_ordered_fields: NameMap<Vec<OrderedField>>,
}

impl View for SchemaIndices {
    type V = SchemaModel;

    closed spec fn view(&self) -> SchemaModel {
        SchemaModel {
            declared_names: self.declared_names@,
            scalar_names: self.scalar_names@,
            enum_names: self.enum_names@,
            union_names: self.union_names@,
            virtual_names: self.virtual_names@,
            parsed_names: self.parsed_names@,
            typedef_names_to_types: self.typedef_names_to_types.deep_view(),
            objects: self.objects.deep_view(),
            unions: self.unions.deep_view(),
            object_field_mappings: self.object_field_mappings.deep_view(),
            field_type_mappings: self.field_type_mappings.deep_view(),
            field_type_optionality: self.field_type_optionality.deep_view(),
            field_defs: self.field_defs.deep_view(),
            foreign_key_mappings: self.foreign_key_mappings.deep_view(),
            list_field_types: self.list_field_types@,
            list_type_defs: self.list_type_defs@,
            join_table_meta: self.join_table_meta.deep_view(),
            object_ordered_fields: self.object_ordered_fields.deep_view(),
        }
    }
}

proof fn lemma_fields_fold_error(
    m: SchemaModel,
    owner: Seq<char>,
    fields: Seq<FieldView>,
    k: nat,
    n: nat,
)
    requires
        k <= n <= fields.len(),
        m.fields_fold(owner, fields, k) is Err,
    ensures
        m.fields_fold(owner, fields, n) == m.fields_fold(owner, fields, k),
    decreases n - k,
{
    if k < n {
        lemma_fields_fold_error(m, owner, fields, k, (n - 1) as nat);
    }
}

proof fn lemma_declarations_fold_error(
    m: SchemaModel,
    decls: Seq<TypeDeclarationView>,
    k: nat,
    n: nat,
)
    requires
        k <= n <= decls.len(),
        m.declarations_fold(decls, k) is Err,
    ensures
        m.declarations_fold(decls, n) == m.declarations_fold(decls, k),
    decreases n - k,
{
    if k < n {
        lemma_declarations_fold_error(m, decls, k, (n - 1) as nat);
    }
}

proof fn lemma_union_fields_fold_error(
    p: UnionPass,
    name: Seq<char>,
    fields: Seq<FieldView>,
    k: nat,
    n: nat,
)
    requires
        k <= n <= fields.len(),
        p.fields_fold(name, fields, k) is Err,
    ensures
        p.fields_fold(name, fields, n) == p.fields_fold(name, fields, k),
    decreases n - k,
{
    if k < n {
        lemma_union_fields_fold_error(p, name, fields, k, (n - 1) as nat);
    }
}

proof fn lemma_members_fold_error(
    p: UnionPass,
    name: Seq<char>,
    members: Seq<Seq<char>>,
    k: nat,
    n: nat,
)
    requires
        k <= n <= members.len(),
        p.members_fold(name, members, k) is Err,
    ensures
        p.members_fold(name, members, n) == p.members_fold(name, members, k),
    decreases n - k,
{
    if k < n {
        lemma_members_fold_error(p, name, members, k, (n - 1) as nat);
    }
}

/// Whether one of the directives is `@entity`.
pub fn has_entity_directive(directives: &Vec<Directive>) -> (r: bool)
    ensures
        r == is_entity(directives.deep_view()),
{
    let mut i: usize = 0;
    while i < directives.len()
        invariant
            i <= directives@.len(),
            forall|j: int| 0 <= j < i ==> directives@[j].name@ != "entity"@,
        decreases directives@.len() - i,
    {
        if same_text(directives[i].name.as_str(), "entity") {
            assert(directives.deep_view()[i as int].name == "entity"@);
            return true;
        }
        i = i + 1;
    }
    assert forall|j: int| 0 <= j < directives.deep_view().len() implies (
    #[trigger] directives.deep_view()[j]).name != "entity"@ by {
        assert(directives.deep_view()[j] == directives@[j].deep_view());
    }
    false
}

fn directive_marks_virtual(d: &Directive) -> (r: bool)
    ensures
        r == marks_virtual(d.deep_view()),
{
    let mut j: usize = 0;
    while j < d.arguments.len()
        invariant
            j <= d.arguments@.len(),
            forall|k: int|
                0 <= k < j ==> !(d.arguments@[k].0@ == "virtual"@ && d.arguments@[k].1@ == "true"@),
        decreases d.arguments@.len() - j,
    {
        if same_text(d.arguments[j].0.as_str(), "virtual") && same_text(
            d.arguments[j].1.as_str(),
            "true",
        ) {
            assert(d.deep_view().arguments[j as int] == d.arguments@[j as int].deep_view());
            return true;
        }
        j = j + 1;
    }
    assert forall|k: int| 0 <= k < d.deep_view().arguments.len() implies !((
    #[trigger] d.deep_view().arguments[k]).0 == "virtual"@ && d.deep_view().arguments[k].1
        == "true"@) by {
        assert(d.deep_view().arguments[k] == d.arguments@[k].deep_view());
    }
    false
}

/// Whether one of the directives carries the argument `virtual: true`.
pub fn has_virtual_argument(directives: &Vec<Directive>) -> (r: bool)
    ensures
        r == is_virtual_marked(directives.deep_view()),
{
    let mut i: usize = 0;
    while i < directives.len()
        invariant
            i <= directives@.len(),
            forall|j: int| 0 <= j < i ==> !marks_virtual(directives@[j].deep_view()),
        decreases directives@.len() - i,
    {
        if directive_marks_virtual(&directives[i]) {
            assert(directives.deep_view()[i as int] == directives@[i as int].deep_view());
            return true;
        }
        i = i + 1;
    }
    assert forall|j: int| 0 <= j < directives.deep_view().len() implies !marks_virtual(
        #[trigger] directives.deep_view()[j],
    ) by {
        assert(directives.deep_view()[j] == directives@[j].deep_view());
    }
    false
}

fn declared_type_name(d: &TypeDeclaration) -> (r: Option<&String>)
    ensures
        r.deep_view() == declared_type(d.deep_view()),
{
    match d {
        TypeDeclaration::Object { name, .. } => Some(name),
        TypeDeclaration::Enum { name, .. } => Some(name),
        TypeDeclaration::Union { name, .. } => Some(name),
        TypeDeclaration::Scalar { name } => Some(name),
        TypeDeclaration::Interface { name } => Some(name),
        TypeDeclaration::InputObject { name } => Some(name),
        TypeDeclaration::Schema => None,
        TypeDeclaration::DirectiveDefinition { .. } => None,
    }
}

/// Given a document's declarations, return the names of the types and the
/// names of the directives that it declares.
pub fn build_schema_types_set(ast: &Vec<TypeDeclaration>) -> (r: (NameSet, NameSet))
    ensures
        r.0@ == with_declared_types(Set::empty(), ast.deep_view(), ast.deep_view().len()),
        r.1@ == with_declared_directives(
            Set::empty(),
            ast.deep_view(),
            ast.deep_view().len(),
        ),
{
    let mut types = NameSet::new();
    add_declared_types(&mut types, ast);
    let mut directives = NameSet::new();
    let mut i: usize = 0;
    while i < ast.len()
        invariant
            i <= ast@.len(),
            directives@ == with_declared_directives(
                Set::empty(),
                ast.deep_view(),
                i as nat,
            ),
        decreases ast@.len() - i,
    {
        assert(ast.deep_view()[i as int] == ast@[i as int].deep_view());
        match &ast[i] {
            TypeDeclaration::DirectiveDefinition { name } => {
                directives.insert(name.clone());
            },
            _ => {},
        }
        i = i + 1;
    }
    (types, directives)
}

fn add_declared_types(set: &mut NameSet, decls: &Vec<TypeDeclaration>)
    ensures
        final(set)@ == with_declared_types(old(set)@, decls.deep_view(), decls.deep_view().len()),
{
    let mut i: usize = 0;
    while i < decls.len()
        invariant
            i <= decls@.len(),
            set@ == with_declared_types(old(set)@, decls.deep_view(), i as nat),
        decreases decls@.len() - i,
    {
        assert(decls.deep_view()[i as int] == decls@[i as int].deep_view());
        match declared_type_name(&decls[i]) {
            Some(name) => {
                set.insert(name.clone());
            },
            None => {},
        }
        i = i + 1;
    }
}

impl SchemaIndices {
    fn initial(base: &Vec<TypeDeclaration>, decls: &Vec<TypeDeclaration>) -> (r: Self)
        ensures
            r@ == SchemaModel::initial(
                with_declared_types(Set::empty(), base.deep_view(), base.deep_view().len()),
                with_declared_types(
                    with_declared_types(Set::empty(), base.deep_view(), base.deep_view().len()),
                    decls.deep_view(),
                    decls.deep_view().len(),
                ),
            ),
    {
        let mut scalar_names = NameSet::new();
        add_declared_types(&mut scalar_names, base);
        let mut declared_names = NameSet::new();
        add_declared_types(&mut declared_names, base);
        add_declared_types(&mut declared_names, decls);
        SchemaIndices {
            declared_names,
            scalar_names,
            enum_names: NameSet::new(),
            union_names: NameSet::new(),
            virtual_names: NameSet::new(),
            parsed_names: NameSet::new(),
            typedef_names_to_types: NameMap::new(),
            objects: NameMap::new(),
            unions: NameMap::new(),
            object_field_mappings: NameMap::new(),
            field_type_mappings: NameMap::new(),
            field_type_optionality: NameMap::new(),
            field_defs: NameMap::new(),
            foreign_key_mappings: NameMap::new(),
            list_field_types: NameSet::new(),
            list_type_defs: NameSet::new(),
            join_table_meta: NameMap::new(),
            object_ordered_fields: NameMap::new(),
        }
    }

    fn is_possible_foreign_key(&self, name: &str) -> (r: bool)
        ensures
            r == self@.is_possible_foreign_key(name@),
    {
        self.parsed_names.contains(name) && !self.scalar_names.contains(name)
            && !self.enum_names.contains(name) && !(self.virtual_names.contains(name)
            && !self.enum_names.contains(name))
    }

    fn index_field(&mut self, owner: &str, declared_in: &str, f: &Field)
        ensures
            final(self)@ == old(self)@.with_field_indexed(owner@, declared_in@, f.deep_view()),
    {
        let fid = field_id(owner, f.name.as_str());
        let named = field_type_name(f);
        insert_inner(&mut self.object_field_mappings, owner, f.name.clone(), named.clone());
        self.field_type_optionality.insert(fid.clone(), is_nullable(f));
        self.field_type_mappings.insert(fid.clone(), named);
        self.field_defs.insert(fid, (f.duplicate(), String::from_str(declared_in)));
    }

    fn process_field(&mut self, owner: &str, i: usize, f: &Field) -> (r: Result<(), ParsedError>)
        ensures
            outcome_is(old(self)@.field_step(owner@, i, f.deep_view()), r, final(self)@),
    {
        if count_brackets(f.ty.as_str()) > 2 {
            return Err(ParsedError::ListTypesUnsupported);
        }
        push_entry(&mut self.object_ordered_fields, owner, OrderedField(f.duplicate(), i));
        let list = is_list_type(f);
        if list {
            self.list_field_types.insert(list_field_type_name(f));
            self.list_type_defs.insert(String::from_str(owner));
        }
        assert(self@ == old(self)@.with_field_noted(owner@, i, f.deep_view()));
        let ghost noted = self@;
        let named = field_type_name(f);
        if self.is_possible_foreign_key(named.as_str()) {
            match extract_foreign_key_info(f, &self.field_type_mappings) {
                Err(e) => {
                    return Err(e);
                },
                Ok(info) => {
                    let table = lowercase(owner);
                    if list {
                        push_entry(
                            &mut self.join_table_meta,
                            owner,
                            JoinTableMeta::new(
                                table.as_str(),
                                IdCol::to_lowercase_str(),
                                info.2.as_str(),
                                info.1.as_str(),
                                Some(i),
                            ),
                        );
                    }
                    insert_inner(
                        &mut self.foreign_key_mappings,
                        table.as_str(),
                        f.name.clone(),
                        (lowercase(named.as_str()), info.1),
                    );
                    assert(self@ == noted.with_foreign_key(
                        owner@,
                        i,
                        f.deep_view(),
                        (info.0@, info.1@, info.2@),
                    ));
                },
            }
        }
        self.index_field(owner, owner, f);
        Ok(())
    }

    fn process_object(&mut self, name: &str, fields: &Vec<Field>, directives: &Vec<Directive>) -> (r:
        Result<(), ParsedError>)
        ensures
            outcome_is(
                old(self)@.object_step(name@, fields.deep_view(), directives.deep_view()),
                r,
                final(self)@,
            ),
    {
        if !has_entity_directive(directives) {
            return Ok(());
        }
        self.objects.insert(String::from_str(name), clone_fields(fields));
        self.parsed_names.insert(String::from_str(name));
        self.typedef_names_to_types.insert(lowercase(name), String::from_str(name));
        if has_virtual_argument(directives) {
            self.virtual_names.insert(String::from_str(name));
        }
        self.object_field_mappings.insert(String::from_str(name), NameMap::new());
        assert(self@ == old(self)@.with_object(name@, fields.deep_view(), directives.deep_view()));
        let ghost start = self@;
        let mut i: usize = 0;
        while i < fields.len()
            invariant
                i <= fields@.len(),
                fields.deep_view().len() == fields@.len(),
                is_entity(directives.deep_view()),
                start == old(self)@.with_object(name@, fields.deep_view(), directives.deep_view()),
                start.fields_fold(name@, fields.deep_view(), i as nat) == Ok::<
                    SchemaModel,
                    ParsedErrorView,
                >(self@),
            decreases fields@.len() - i,
        {
            assert(fields.deep_view()[i as int] == fields@[i as int].deep_view());
            match self.process_field(name, i, &fields[i]) {
                Err(e) => {
                    proof {
                        lemma_fields_fold_error(
                            start,
                            name@,
                            fields.deep_view(),
                            (i + 1) as nat,
                            fields@.len(),
                        );
                    }
                    return Err(e);
                },
                Ok(_) => {},
            }
            i = i + 1;
        }
        Ok(())
    }

    fn process_enum(&mut self, name: &str, values: &Vec<String>)
        ensures
            final(self)@ == old(self)@.enum_step(name@, values.deep_view()),
    {
        self.virtual_names.insert(String::from_str(name));
        self.enum_names.insert(String::from_str(name));
        let ghost start = self@;
        let mut i: usize = 0;
        while i < values.len()
            invariant
                i <= values@.len(),
                values.deep_view().len() == values@.len(),
                self@ == start.enum_values_fold(name@, values.deep_view(), i as nat),
            decreases values@.len() - i,
        {
            assert(values.deep_view()[i as int] == values@[i as int]@);
            let value = &values[i];
            insert_inner(
                &mut self.object_field_mappings,
                name,
                value.clone(),
                String::from_str(name),
            );
            self.field_type_mappings.insert(
                field_id(name, value.as_str()),
                String::from_str(name),
            );
            i = i + 1;
        }
    }

    fn virtual_members(&self, members: &Vec<String>) -> (r: (bool, bool))
        ensures
            r.0 == self@.any_virtual(members.deep_view()),
            r.1 == self@.all_virtual(members.deep_view()),
    {
        let mut any = false;
        let mut all = true;
        let mut i: usize = 0;
        while i < members.len()
            invariant
                i <= members@.len(),
                members.deep_view().len() == members@.len(),
                any == (exists|j: int|
                    0 <= j < i && self@.virtual_names.contains(#[trigger] members.deep_view()[j])),
                all == (forall|j: int|
                    0 <= j < i ==> self@.virtual_names.contains(#[trigger] members.deep_view()[j])),
            decreases members@.len() - i,
        {
            assert(members.deep_view()[i as int] == members@[i as int]@);
            if self.virtual_names.contains(members[i].as_str()) {
                any = true;
            } else {
                all = false;
            }
            i = i + 1;
        }
        (any, all)
    }

    fn pass_field(&mut self, seen: &mut NameSet, name: &str, f: &Field) -> (r: Result<
        (),
        ParsedError,
    >)
        ensures
            outcome_is(
                UnionPass { model: old(self)@, seen: old(seen)@ }.field_step(name@, f.deep_view()),
                r,
                UnionPass { model: final(self)@, seen: final(seen)@ },
            ),
    {
        if seen.contains(f.name.as_str()) {
            return Ok(());
        }
        let position = seen.len();
        seen.insert(f.name.clone());
        let named = field_type_name(f);
        if self.is_possible_foreign_key(named.as_str()) {
            match extract_foreign_key_info(f, &self.field_type_mappings) {
                Err(e) => {
                    return Err(e);
                },
                Ok(info) => {
                    if is_list_type(f) {
                        let table = lowercase(name);
                        push_entry(
                            &mut self.join_table_meta,
                            name,
                            JoinTableMeta::new(
                                table.as_str(),
                                IdCol::to_lowercase_str(),
                                info.2.as_str(),
                                info.1.as_str(),
                                Some(position),
                            ),
                        );
                    }
                },
            }
        }
        Ok(())
    }

    fn pass_member(&mut self, seen: &mut NameSet, name: &str, member: &String) -> (r: Result<
        (),
        ParsedError,
    >)
        ensures
            outcome_is(
                UnionPass { model: old(self)@, seen: old(seen)@ }.member_step(name@, member@),
                r,
                UnionPass { model: final(self)@, seen: final(seen)@ },
            ),
    {
        let fields = match self.objects.get(member.as_str()) {
            Some(fields) => clone_fields(fields),
            None => {
                return Err(ParsedError::UnionMemberNotFound(member.clone()));
            },
        };
        self.join_table_meta.remove(member.as_str());
        let ghost start = UnionPass { model: self@, seen: seen@ };
        let ghost entry = UnionPass { model: old(self)@, seen: old(seen)@ };
        let mut i: usize = 0;
        while i < fields.len()
            invariant
                i <= fields@.len(),
                fields.deep_view().len() == fields@.len(),
                entry == (UnionPass { model: old(self)@, seen: old(seen)@ }),
                entry.member_step(name@, member@) == start.fields_fold(
                    name@,
                    fields.deep_view(),
                    fields.deep_view().len(),
                ),
                start.fields_fold(name@, fields.deep_view(), i as nat) == Ok::<
                    UnionPass,
                    ParsedErrorView,
                >(UnionPass { model: self@, seen: seen@ }),
            decreases fields@.len() - i,
        {
            assert(fields.deep_view()[i as int] == fields@[i as int].deep_view());
            match self.pass_field(seen, name, &fields[i]) {
                Err(e) => {
                    proof {
                        lemma_union_fields_fold_error(
                            start,
                            name@,
                            fields.deep_view(),
                            (i + 1) as nat,
                            fields@.len(),
                        );
                    }
                    return Err(e);
                },
                Ok(_) => {},
            }
            i = i + 1;
        }
        Ok(())
    }

    fn index_member(&mut self, name: &str, member: &String)
        ensures
            final(self)@ == (if old(self)@.objects.contains_key(member@) {
                old(self)@.union_index_fold(
                    name@,
                    member@,
                    old(self)@.objects[member@],
                    old(self)@.objects[member@].len(),
                )
            } else {
                old(self)@
            }),
    {
        let fields = match self.objects.get(member.as_str()) {
            Some(fields) => clone_fields(fields),
            None => {
                return ;
            },
        };
        let ghost start = self@;
        let mut i: usize = 0;
        while i < fields.len()
            invariant
                i <= fields@.len(),
                fields.deep_view().len() == fields@.len(),
                self@ == start.union_index_fold(name@, member@, fields.deep_view(), i as nat),
            decreases fields@.len() - i,
        {
            assert(fields.deep_view()[i as int] == fields@[i as int].deep_view());
            self.index_field(name, member.as_str(), &fields[i]);
            i = i + 1;
        }
    }

    fn process_union(&mut self, name: &str, members: &Vec<String>) -> (r: Result<(), ParsedError>)
        ensures
            outcome_is(old(self)@.union_step(name@, members.deep_view()), r, final(self)@),
    {
        let (any, all) = self.virtual_members(members);
        if any && !all {
            return Err(ParsedError::InconsistentVirtualUnion(String::from_str(name)));
        }
        self.parsed_names.insert(String::from_str(name));
        self.unions.insert(String::from_str(name), clone_names(members));
        self.union_names.insert(String::from_str(name));
        self.typedef_names_to_types.insert(lowercase(name), String::from_str(name));
        if any {
            self.virtual_names.insert(String::from_str(name));
        }
        assert(self@ == old(self)@.with_union(name@, members.deep_view()));
        let mut seen = NameSet::new();
        let ghost start = UnionPass { model: self@, seen: seen@ };
        let mut i: usize = 0;
        while i < members.len()
            invariant
                i <= members@.len(),
                members.deep_view().len() == members@.len(),
                !(old(self)@.any_virtual(members.deep_view()) && !old(self)@.all_virtual(
                    members.deep_view(),
                )),
                start == (UnionPass {
                    model: old(self)@.with_union(name@, members.deep_view()),
                    seen: Set::empty(),
                }),
                start.members_fold(name@, members.deep_view(), i as nat) == Ok::<
                    UnionPass,
                    ParsedErrorView,
                >(UnionPass { model: self@, seen: seen@ }),
            decreases members@.len() - i,
        {
            assert(members.deep_view()[i as int] == members@[i as int]@);
            match self.pass_member(&mut seen, name, &members[i]) {
                Err(e) => {
                    proof {
                        lemma_members_fold_error(
                            start,
                            name@,
                            members.deep_view(),
                            (i + 1) as nat,
                            members@.len(),
                        );
                    }
                    return Err(e);
                },
                Ok(_) => {},
            }
            i = i + 1;
        }
        let ghost passed = self@;
        let mut i: usize = 0;
        while i < members.len()
            invariant
                i <= members@.len(),
                members.deep_view().len() == members@.len(),
                self@ == passed.union_index_members_fold(name@, members.deep_view(), i as nat),
            decreases members@.len() - i,
        {
            assert(members.deep_view()[i as int] == members@[i as int]@);
            self.index_member(name, &members[i]);
            i = i + 1;
        }
        Ok(())
    }

    fn process_declaration(&mut self, d: &TypeDeclaration) -> (r: Result<(), ParsedError>)
        ensures
            outcome_is(old(self)@.declaration_step(d.deep_view()), r, final(self)@),
    {
        match d {
            TypeDeclaration::Object { name, fields, directives } => self.process_object(
                name.as_str(),
                fields,
                directives,
            ),
            TypeDeclaration::Enum { name, values } => {
                self.process_enum(name.as_str(), values);
                Ok(())
            },
            TypeDeclaration::Union { name, members } => self.process_union(name.as_str(), members),
            TypeDeclaration::DirectiveDefinition { .. } => Ok(()),
            TypeDeclaration::Scalar { .. } => Err(ParsedError::UnsupportedTypeKind),
            TypeDeclaration::Interface { .. } => Err(ParsedError::UnsupportedTypeKind),
            TypeDeclaration::InputObject { .. } => Err(ParsedError::UnsupportedTypeKind),
            TypeDeclaration::Schema => Err(ParsedError::UnsupportedTypeKind),
        }
    }

    fn build(base: &Vec<TypeDeclaration>, decls: &Vec<TypeDeclaration>) -> (r: Result<
        SchemaIndices,
        ParsedError,
    >)
        ensures
            match r {
                Ok(indices) => build_model(
                    base.deep_view(),
                    decls.deep_view(),
                ) == Ok::<SchemaModel, ParsedErrorView>(indices@),
                Err(e) => build_model(base.deep_view(), decls.deep_view())
                    == Err::<SchemaModel, ParsedErrorView>(e@),
            },
    {
        let mut indices = SchemaIndices::initial(base, decls);
        let ghost start = indices@;
        let mut i: usize = 0;
        while i < decls.len()
            invariant
                i <= decls@.len(),
                decls.deep_view().len() == decls@.len(),
                build_model(base.deep_view(), decls.deep_view())
                    == start.declarations_fold(decls.deep_view(), decls.deep_view().len()),
                start.declarations_fold(decls.deep_view(), i as nat) == Ok::<
                    SchemaModel,
                    ParsedErrorView,
                >(indices@),
            decreases decls@.len() - i,
        {
            assert(decls.deep_view()[i as int] == decls@[i as int].deep_view());
            match indices.process_declaration(&decls[i]) {
                Err(e) => {
                    proof {
                        lemma_declarations_fold_error(
                            start,
                            decls.deep_view(),
                            (i + 1) as nat,
                            decls@.len(),
                        );
                    }
                    return Err(e);
                },
                Ok(_) => {},
            }
            i = i + 1;
        }
        Ok(indices)
    }
}

/// A wrapper object used to encapsulate a lot of the boilerplate logic related
/// to parsing schema, creating mappings of types, fields, objects, etc.
#[derive(Debug, Clone)]
pub struct ParsedGraphQLSchema {
    /// Namespace of the indexer.
    namespace: String,
    /// Identifier of the indexer.
    identifier: String,
    /// Indexer method of execution.
    exec_source: ExecutionSource,
    /// Raw GraphQL schema content.
    schema: GraphQLSchema,
    /// The declarations of the parsed schema.
    ast: Vec<TypeDeclaration>,
    /// The indices built from the declarations.
    indices: SchemaIndices,
}

pub struct ParsedGraphQLSchemaView {
    pub namespace: Seq<char>,
    pub identifier: Seq<char>,
    pub exec_source: ExecutionSource,
    pub schema: GraphQLSchemaView,
    pub ast: Seq<TypeDeclarationView>,
    pub model: SchemaModel,
}

impl View for ParsedGraphQLSchema {
    type V = ParsedGraphQLSchemaView;

    closed spec fn view(&self) -> ParsedGraphQLSchemaView {
        ParsedGraphQLSchemaView {
            namespace: self.namespace@,
            identifier: self.identifier@,
            exec_source: self.exec_source,
            schema: self.schema@,
            ast: self.ast.deep_view(),
            model: self.indices@,
        }
    }
}

impl Default for ParsedGraphQLSchema {
    /// The model of no document: every index is empty, and the declarations
    /// are those of the built-in schema.
    fn default() -> (r: Self)
        ensures
            r@.namespace == Seq::<char>::empty(),
            r@.identifier == Seq::<char>::empty(),
            r@.exec_source == ExecutionSource::Wasm,
            r@.model == SchemaModel::initial(Set::empty(), Set::empty()),
            r@.schema.schema == Seq::<char>::empty(),
            r@.schema.version == Seq::<char>::empty(),
            r@.ast == schema_declarations(BASE_SCHEMA@) || r@.ast == Seq::<
                TypeDeclarationView,
            >::empty(),
    {
        let ast = match parse_declarations(BASE_SCHEMA) {
            Ok(ast) => ast,
            Err(_) => Vec::new(),
        };
        let none: Vec<TypeDeclaration> = Vec::new();
        assert(none.deep_view() =~= Seq::<TypeDeclarationView>::empty());
        let r = ParsedGraphQLSchema {
            namespace: String::new(),
            identifier: String::new(),
            exec_source: ExecutionSource::Wasm,
            schema: GraphQLSchema::default(),
            ast,
            indices: SchemaIndices::initial(&none, &none),
        };
        r
    }
}

impl ParsedGraphQLSchema {
    /// Create a new ParsedGraphQLSchema: the built-in schema and the given
    /// schema's text are parsed, and the model is built from their
    /// declarations. Where the parser refuses one of the two texts, the
    /// result is a parse error; else it is what the pass over the
    /// declarations gives.
    pub fn new(
        namespace: &str,
        identifier: &str,
        exec_source: ExecutionSource,
        schema: Option<&GraphQLSchema>,
    ) -> (r: Result<Self, ParsedError>)
        requires
            schema is Some,
        ensures
            match r {
                Ok(parsed) => {
                    &&& model_of_text(BASE_SCHEMA@, schema.unwrap()@.schema) == Ok::<
                        SchemaModel,
                        ParsedErrorView,
                    >(parsed@.model)
                    &&& parsed@.namespace == namespace@
                    &&& parsed@.identifier == identifier@
                    &&& parsed@.exec_source == exec_source
                    &&& parsed@.schema == schema.unwrap()@
                    &&& parsed@.ast == schema_declarations(schema.unwrap()@.schema)
                },
                Err(e) => e@ is ParseError || model_of_text(
                    BASE_SCHEMA@,
                    schema.unwrap()@.schema,
                ) == Err::<SchemaModel, ParsedErrorView>(e@),
            },
    {
        let base = match parse_declarations(BASE_SCHEMA) {
            Ok(base) => base,
            Err(e) => {
                return Err(ParsedError::ParseError(e));
            },
        };
        let schema = schema.unwrap();
        let declarations = match parse_declarations(schema.schema()) {
            Ok(declarations) => declarations,
            Err(e) => {
                return Err(ParsedError::ParseError(e));
            },
        };
        ParsedGraphQLSchema::from_declarations(
            namespace,
            identifier,
            exec_source,
            schema.duplicate(),
            &base,
            declarations,
        )
    }

    /// Builds the model from declarations: `base` gives the scalars, and
    /// `declarations` are processed in order. The first error ends the
    /// pass, and no model is returned.
    pub fn from_declarations(
        namespace: &str,
        identifier: &str,
        exec_source: ExecutionSource,
        schema: GraphQLSchema,
        base: &Vec<TypeDeclaration>,
        declarations: Vec<TypeDeclaration>,
    ) -> (r: Result<Self, ParsedError>)
        ensures
            match r {
                Ok(parsed) => {
                    &&& build_model(base.deep_view(), declarations.deep_view()) == Ok::<
                        SchemaModel,
                        ParsedErrorView,
                    >(parsed@.model)
                    &&& parsed@.namespace == namespace@
                    &&& parsed@.identifier == identifier@
                    &&& parsed@.exec_source == exec_source
                    &&& parsed@.schema == schema@
                    &&& parsed@.ast == declarations.deep_view()
                },
                Err(e) => build_model(base.deep_view(), declarations.deep_view()) == Err::<
                    SchemaModel,
                    ParsedErrorView,
                >(e@),
            },
    {
        match SchemaIndices::build(base, &declarations) {
            Err(e) => Err(e),
            Ok(indices) => Ok(
                ParsedGraphQLSchema {
                    namespace: String::from_str(namespace),
                    identifier: String::from_str(identifier),
                    exec_source,
                    schema,
                    ast: declarations,
                    indices,
                },
            ),
        }
    }

    /// Namespace of the indexer.
    pub fn namespace(&self) -> (r: &str)
        ensures
            r@ == self@.namespace,
    {
        self.namespace.as_str()
    }

    /// Identifier of the indexer.
    pub fn identifier(&self) -> (r: &str)
        ensures
            r@ == self@.identifier,
    {
        self.identifier.as_str()
    }

    /// Indexer method of execution.
    pub fn exec_source(&self) -> (r: &ExecutionSource)
        ensures
            *r == self@.exec_source,
    {
        &self.exec_source
    }

    /// Mapping of object names to the objects' fields.
    pub fn objects(&self) -> (r: &NameMap<Vec<Field>>)
        ensures
            r.deep_view() == self@.model.objects,
    {
        &self.indices.objects
    }

    /// Mapping of fully qualified field names to their field types.
    pub fn field_type_mappings(&self) -> (r: &NameMap<String>)
        ensures
            r.deep_view() == self@.model.field_type_mappings,
    {
        &self.indices.field_type_mappings
    }

    /// A mapping of fully qualified field names to their respective optionalities.
    pub fn field_type_optionality(&self) -> (r: &NameMap<bool>)
        ensures
            r.deep_view() == self@.model.field_type_optionality,
    {
        &self.indices.field_type_optionality
    }

    /// The declarations of the parsed schema.
    pub fn ast(&self) -> (r: &Vec<TypeDeclaration>)
        ensures
            r.deep_view() == self@.ast,
    {
        &self.ast
    }

    /// Raw GraphQL schema content.
    pub fn schema(&self) -> (r: &GraphQLSchema)
        ensures
            r@ == self@.schema,
    {
        &self.schema
    }

    /// Mapping of fully qualified field names to their `FieldDefinition` and `TypeDefinition` name.
    pub fn field_defs(&self) -> (r: &NameMap<(Field, String)>)
        ensures
            r.deep_view() == self@.model.field_defs,
    {
        &self.indices.field_defs
    }

    /// All unique names of foreign key types in the schema.
    pub fn foreign_key_mappings(&self) -> (r: &NameMap<NameMap<(String, String)>>)
        ensures
            r.deep_view() == self@.model.foreign_key_mappings,
    {
        &self.indices.foreign_key_mappings
    }

    /// All objects and their field names and types, indexed by object name.
    pub fn object_field_mappings(&self) -> (r: &NameMap<NameMap<String>>)
        ensures
            r.deep_view() == self@.model.object_field_mappings,
    {
        &self.indices.object_field_mappings
    }

    /// Metadata related to many-to-many relationships in the GraphQL schema.
    pub fn join_table_meta(&self) -> (r: &NameMap<Vec<JoinTableMeta>>)
        ensures
            r.deep_view() == self@.model.join_table_meta,
    {
        &self.indices.join_table_meta
    }

    pub fn object_ordered_fields(&self) -> (r: &NameMap<Vec<OrderedField>>)
        ensures
            r.deep_view() == self@.model.object_ordered_fields,
    {
        &self.indices.object_ordered_fields
    }

    /// Return the base scalar type for a given `FieldDefinition`.
    pub fn scalar_type_for(&self, f: &Field) -> (r: Result<String, ParsedError>)
        ensures
            match r {
                Ok(t) => scalar_type(self@.model, f.deep_view()) == Ok::<
                    Seq<char>,
                    ParsedErrorView,
                >(t@),
                Err(e) => scalar_type(self@.model, f.deep_view()) == Err::<
                    Seq<char>,
                    ParsedErrorView,
                >(e@),
            },
    {
        let listed = list_field_type_name(f);
        let named = if self.is_list_field_type(listed.as_str()) {
            field_type_name(f)
        } else {
            listed
        };
        if self.is_possible_foreign_key(named.as_str()) {
            match extract_foreign_key_info(f, &self.indices.field_type_mappings) {
                Ok(info) => Ok(info.0),
                Err(e) => Err(e),
            }
        } else if self.is_virtual_typedef(named.as_str()) {
            Ok(String::from_str("Virtual"))
        } else if self.is_enum_typedef(named.as_str()) {
            Ok(String::from_str("Charfield"))
        } else {
            Ok(named)
        }
    }

    fn definitions(&self, non_enum: bool) -> (r: Vec<&TypeDeclaration>)
        ensures
            r.deep_view() == type_definitions(self@.ast, non_enum, self@.ast.len()),
    {
        let mut out: Vec<&TypeDeclaration> = Vec::new();
        let mut i: usize = 0;
        while i < self.ast.len()
            invariant
                i <= self.ast@.len(),
                self.ast.deep_view().len() == self.ast@.len(),
                out.deep_view() == type_definitions(self.ast.deep_view(), non_enum, i as nat),
            decreases self.ast@.len() - i,
        {
            let d = &self.ast[i];
            assert(self.ast.deep_view()[i as int] == d.deep_view());
            let keep = match d {
                TypeDeclaration::Object { directives, .. } => has_entity_directive(directives),
                TypeDeclaration::Union { .. } => true,
                TypeDeclaration::Enum { .. } => !non_enum,
                _ => false,
            };
            if keep {
                let ghost held = out.deep_view();
                out.push(d);
                assert(out.deep_view() =~= held.push(d.deep_view()));
            }
            i = i + 1;
        }
        out
    }

    /// All type definitions in the schema: the entity objects, enums and
    /// unions, in document order.
    pub fn type_defs(&self) -> (r: Vec<&TypeDeclaration>)
        ensures
            r.deep_view() == type_definitions(self@.ast, false, self@.ast.len()),
    {
        self.definitions(false)
    }

    /// Return a list of all non-enum type definitions.
    pub fn non_enum_typdefs(&self) -> (r: Vec<&TypeDeclaration>)
        ensures
            r.deep_view() == type_definitions(self@.ast, true, self@.ast.len()),
    {
        self.definitions(true)
    }

    /// Return the members of the union with the given name.
    pub fn get_union(&self, name: &str) -> (r: Option<&Vec<String>>)
        ensures
            match r {
                Some(members) => self@.model.unions.contains_key(name@) && members.deep_view()
                    == self@.model.unions[name@],
                None => !self@.model.unions.contains_key(name@),
            },
    {
        self.indices.unions.get(name)
    }

    /// Whether the given field type name is a possible foreign key.
    pub fn is_possible_foreign_key(&self, name: &str) -> (r: bool)
        ensures
            r == self@.model.is_possible_foreign_key(name@),
    {
        self.indices.is_possible_foreign_key(name)
    }

    /// Whether the given field type name is a type from which tables are not created.
    pub fn is_virtual_typedef(&self, name: &str) -> (r: bool)
        ensures
            r == self@.model.is_virtual_typedef(name@),
    {
        self.indices.virtual_names.contains(name) && !self.is_enum_typedef(name)
    }

    /// Whether the given field type name is an enum type.
    pub fn is_enum_typedef(&self, name: &str) -> (r: bool)
        ensures
            r == self@.model.is_enum_typedef(name@),
    {
        self.indices.enum_names.contains(name)
    }

    /// Whether the given field type name is a list type.
    pub fn is_list_field_type(&self, name: &str) -> (r: bool)
        ensures
            r == self@.model.list_field_types.contains(name@),
    {
        self.indices.list_field_types.contains(name)
    }

    /// Whether a given `TypeDefinition` contains a field that is a list type.
    pub fn is_list_typedef(&self, name: &str) -> (r: bool)
        ensures
            r == self@.model.list_type_defs.contains(name@),
    {
        self.indices.list_type_defs.contains(name)
    }

    /// Whether the given field type name is a union type.
    pub fn is_union_typedef(&self, name: &str) -> (r: bool)
        ensures
            r == self@.model.union_names.contains(name@),
    {
        self.indices.union_names.contains(name)
    }

    /// Return the GraphQL type for a given `FieldDefinition` name.
    fn field_type(&self, cond: &str, name: &str) -> (r: Option<&String>)
        ensures
            r.deep_view() == field_graphql_type(self@.model, cond@, name@),
    {
        match self.indices.object_field_mappings.get(cond) {
            Some(fieldset) => fieldset.get(name),
            None => {
                let tablename = strip(cond, true);
                match self.indices.object_field_mappings.get(tablename.as_str()) {
                    Some(fieldset) => fieldset.get(name),
                    None => None,
                }
            },
        }
    }

    /// Return the GraphQL type for a given `TypeDefinition` name.
    fn typedef_type(&self, name: &str) -> (r: Option<&String>)
        ensures
            r.deep_view() == (if self@.model.typedef_names_to_types.contains_key(name@) {
                Some(self@.model.typedef_names_to_types[name@])
            } else {
                None
            }),
    {
        self.indices.typedef_names_to_types.get(name)
    }

    /// Return the GraphQL type for a given `FieldDefinition` or `TypeDefinition` name.
    ///
    /// With `cond`, the type of the field `name` of the owner `cond`;
    /// without, the type registered under the lower-case name `name`.
    pub fn graphql_type(&self, cond: Option<&String>, name: &str) -> (r: Option<&String>)
        ensures
            r.deep_view() == (match cond {
                Some(c) => field_graphql_type(self@.model, c@, name@),
                None => if self@.model.typedef_names_to_types.contains_key(name@) {
                    Some(self@.model.typedef_names_to_types[name@])
                } else {
                    None
                },
            }),
    {
        match cond {
            Some(c) => self.field_type(c.as_str(), name),
            None => self.typedef_type(name),
        }
    }

    /// Ensure the given type is included in this `Schema`'s types
    pub fn has_type(&self, name: &str) -> (r: bool)
        ensures
            r == self@.model.declared_names.contains(name@),
    {
        self.indices.declared_names.contains(name)
    }

    /// Fully qualified namespace for the indexer.
    pub fn fully_qualified_namespace(&self) -> (r: String)
        ensures
            r@ == fully_qualified_namespace_text(self@.namespace, self@.identifier),
    {
        fully_qualified_namespace(self.namespace.as_str(), self.identifier.as_str())
    }
}

} // verus!
