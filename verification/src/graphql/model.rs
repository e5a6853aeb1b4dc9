//! The semantic model as mathematical values, and the single forward pass
//! over a document's declarations that defines it.

use crate::collections::{inner_inserted, pushed};
use crate::graphql::document::{
    schema_declarations, DirectiveView, FieldView, TypeDeclarationView,
};
use crate::graphql::parser::{join_table_meta, JoinTableMetaView, ParsedErrorView};
use crate::graphql::types::id_column;
use crate::graphql::{field_id_text, foreign_key_info, is_list_signature, is_nullable_signature};
use crate::text::{bracket_count, lowercase_text, stripped};
use vstd::prelude::*;

verus! {

/// The indices of the semantic model. Names and field IDs are texts; a
/// field ID is `{owner}.{field}`.
pub struct SchemaModel {
    /// The names of the built-in scalars and of every type that the document declares.
    pub declared_names: Set<Seq<char>>,
    /// The names of the built-in scalars.
    pub scalar_names: Set<Seq<char>>,
    pub enum_names: Set<Seq<char>>,
    pub union_names: Set<Seq<char>>,
    /// The names of the types for which no table is made.
    pub virtual_names: Set<Seq<char>>,
    /// The names of the entity objects and unions processed so far.
    pub parsed_names: Set<Seq<char>>,
    /// From the lower-case name of each entity object and union to its name.
    pub typedef_names_to_types: Map<Seq<char>, Seq<char>>,
    /// The fields of each entity object.
    pub objects: Map<Seq<char>, Seq<FieldView>>,
    /// The members of each union.
    pub unions: Map<Seq<char>, Seq<Seq<char>>>,
    /// For each owner, the named type of each of its fields.
    pub object_field_mappings: Map<Seq<char>, Map<Seq<char>, Seq<char>>>,
    /// The named type of each field, by field ID.
    pub field_type_mappings: Map<Seq<char>, Seq<char>>,
    /// Whether each field is nullable, by field ID.
    pub field_type_optionality: Map<Seq<char>, bool>,
    /// Each field with the object that declares it, by field ID.
    pub field_defs: Map<Seq<char>, (FieldView, Seq<char>)>,
    /// For each owning table, the referenced table and column of each foreign-key field.
    pub foreign_key_mappings: Map<Seq<char>, Map<Seq<char>, (Seq<char>, Seq<char>)>>,
    /// The signatures, without `!`, of the list fields.
    pub list_field_types: Set<Seq<char>>,
    /// The names of the objects that have a list field.
    pub list_type_defs: Set<Seq<char>>,
    /// The join tables of each object or union, by its declared name.
    pub join_table_meta: Map<Seq<char>, Seq<JoinTableMetaView>>,
    /// The fields of each entity object, each with its position.
    pub object_ordered_fields: Map<Seq<char>, Seq<(FieldView, usize)>>,
}

/// Whether one of the directives is `@entity`.
pub open spec fn is_entity(ds: Seq<DirectiveView>) -> bool {
    exists|i: int| 0 <= i < ds.len() && (#[trigger] ds[i]).name == "entity"@
}

/// Whether a directive carries the argument `virtual: true`.
pub open spec fn marks_virtual(d: DirectiveView) -> bool {
    exists|j: int|
        0 <= j < d.arguments.len() && (#[trigger] d.arguments[j]).0 == "virtual"@
            && d.arguments[j].1 == "true"@
}

/// Whether one of the directives carries the argument `virtual: true`.
pub open spec fn is_virtual_marked(ds: Seq<DirectiveView>) -> bool {
    exists|i: int| 0 <= i < ds.len() && marks_virtual(#[trigger] ds[i])
}

/// The name that a declaration gives to a type; `None` for schema and
/// directive definitions.
pub open spec fn declared_type(d: TypeDeclarationView) -> Option<Seq<char>> {
    match d {
        TypeDeclarationView::Object { name, .. } => Some(name),
        TypeDeclarationView::Enum { name, .. } => Some(name),
        TypeDeclarationView::Union { name, .. } => Some(name),
        TypeDeclarationView::Scalar { name } => Some(name),
        TypeDeclarationView::Interface { name } => Some(name),
        TypeDeclarationView::InputObject { name } => Some(name),
        TypeDeclarationView::Schema => None,
        TypeDeclarationView::DirectiveDefinition { .. } => None,
    }
}

/// `acc` with the type names that the first `n` declarations declare.
pub open spec fn with_declared_types(
    acc: Set<Seq<char>>,
    decls: Seq<TypeDeclarationView>,
    n: nat,
) -> Set<Seq<char>>
    decreases n,
{
    if n == 0 || n > decls.len() {
        acc
    } else {
        let before = with_declared_types(acc, decls, (n - 1) as nat);
        match declared_type(decls[n - 1]) {
            Some(name) => before.insert(name),
            None => before,
        }
    }
}

/// Whether a declaration is kept as a type definition: an entity object,
/// a union or, unless `non_enum` is set, an enum.
pub open spec fn is_type_definition(d: TypeDeclarationView, non_enum: bool) -> bool {
    match d {
        TypeDeclarationView::Object { directives, .. } => is_entity(directives),
        TypeDeclarationView::Union { .. } => true,
        TypeDeclarationView::Enum { .. } => !non_enum,
        _ => false,
    }
}

/// The type definitions among the first `n` declarations, in document order.
pub open spec fn type_definitions(decls: Seq<TypeDeclarationView>, non_enum: bool, n: nat) -> Seq<
    TypeDeclarationView,
>
    decreases n,
{
    if n == 0 || n > decls.len() {
        Seq::empty()
    } else if is_type_definition(decls[n - 1], non_enum) {
        type_definitions(decls, non_enum, (n - 1) as nat).push(decls[n - 1])
    } else {
        type_definitions(decls, non_enum, (n - 1) as nat)
    }
}

/// `acc` with the names of the directives that the first `n` declarations define.
pub open spec fn with_declared_directives(
    acc: Set<Seq<char>>,
    decls: Seq<TypeDeclarationView>,
    n: nat,
) -> Set<Seq<char>>
    decreases n,
{
    if n == 0 || n > decls.len() {
        acc
    } else {
        let before = with_declared_directives(acc, decls, (n - 1) as nat);
        match decls[n - 1] {
            TypeDeclarationView::DirectiveDefinition { name } => before.insert(name),
            _ => before,
        }
    }
}

/// The state of the first pass over a union's members: the model, and the
/// field names met so far.
pub struct UnionPass {
    pub model: SchemaModel,
    pub seen: Set<Seq<char>>,
}

impl SchemaModel {
    /// The model before any declaration is processed.
    pub open spec fn initial(scalars: Set<Seq<char>>, declared: Set<Seq<char>>) -> SchemaModel {
        SchemaModel {
            declared_names: declared,
            scalar_names: scalars,
            enum_names: Set::empty(),
            union_names: Set::empty(),
            virtual_names: Set::empty(),
            parsed_names: Set::empty(),
            typedef_names_to_types: Map::empty(),
            objects: Map::empty(),
            unions: Map::empty(),
            object_field_mappings: Map::empty(),
            field_type_mappings: Map::empty(),
            field_type_optionality: Map::empty(),
            field_defs: Map::empty(),
            foreign_key_mappings: Map::empty(),
            list_field_types: Set::empty(),
            list_type_defs: Set::empty(),
            join_table_meta: Map::empty(),
            object_ordered_fields: Map::empty(),
        }
    }

    pub open spec fn is_enum_typedef(self, name: Seq<char>) -> bool {
        self.enum_names.contains(name)
    }

    /// A virtual type that is no enum.
    pub open spec fn is_virtual_typedef(self, name: Seq<char>) -> bool {
        self.virtual_names.contains(name) && !self.is_enum_typedef(name)
    }

    /// A name can refer to another entity where it is a processed entity
    /// object or union and is no scalar, no enum and not virtual.
    pub open spec fn is_possible_foreign_key(self, name: Seq<char>) -> bool {
        self.parsed_names.contains(name) && !self.scalar_names.contains(name)
            && !self.is_enum_typedef(name) && !self.is_virtual_typedef(name)
    }

    /// The model with a field's type, nullability and definition indexed
    /// under `{owner}.{field}`, the definition together with `declared_in`.
    pub open spec fn with_field_indexed(
        self,
        owner: Seq<char>,
        declared_in: Seq<char>,
        f: FieldView,
    ) -> SchemaModel {
        let fid = field_id_text(owner, f.name);
        let named = stripped(f.ty, true);
        SchemaModel {
            object_field_mappings: inner_inserted(self.object_field_mappings, owner, f.name, named),
            field_type_optionality: self.field_type_optionality.insert(
                fid,
                is_nullable_signature(f.ty),
            ),
            field_type_mappings: self.field_type_mappings.insert(fid, named),
            field_defs: self.field_defs.insert(fid, (f, declared_in)),
            ..self
        }
    }

    /// The model with the field at position `i` of the entity object `owner`
    /// noted as ordered field and, where it is a list, as list field.
    pub open spec fn with_field_noted(self, owner: Seq<char>, i: usize, f: FieldView) -> SchemaModel {
        SchemaModel {
            object_ordered_fields: pushed(self.object_ordered_fields, owner, (f, i)),
            list_field_types: if is_list_signature(f.ty) {
                self.list_field_types.insert(stripped(f.ty, false))
            } else {
                self.list_field_types
            },
            list_type_defs: if is_list_signature(f.ty) {
                self.list_type_defs.insert(owner)
            } else {
                self.list_type_defs
            },
            ..self
        }
    }

    /// The model with the foreign key of a field of `owner` recorded: the
    /// referenced table and column, and for a list field the join table
    /// with the field's position.
    pub open spec fn with_foreign_key(
        self,
        owner: Seq<char>,
        i: usize,
        f: FieldView,
        info: (Seq<char>, Seq<char>, Seq<char>),
    ) -> SchemaModel {
        SchemaModel {
            join_table_meta: if is_list_signature(f.ty) {
                pushed(
                    self.join_table_meta,
                    owner,
                    join_table_meta(lowercase_text(owner), id_column(), info.2, info.1, Some(i)),
                )
            } else {
                self.join_table_meta
            },
            foreign_key_mappings: inner_inserted(
                self.foreign_key_mappings,
                lowercase_text(owner),
                f.name,
                (lowercase_text(stripped(f.ty, true)), info.1),
            ),
            ..self
        }
    }

    /// One field of an entity object: a nested list is refused; the field is
    /// noted; where its named type can be a foreign key, the key is
    /// resolved against the fields indexed so far and recorded; then the
    /// field itself is indexed.
    pub open spec fn field_step(self, owner: Seq<char>, i: usize, f: FieldView) -> Result<
        SchemaModel,
        ParsedErrorView,
    > {
        if bracket_count(f.ty) > 2 {
            Err(ParsedErrorView::ListTypesUnsupported)
        } else {
            let noted = self.with_field_noted(owner, i, f);
            if noted.is_possible_foreign_key(stripped(f.ty, true)) {
                match foreign_key_info(f, noted.field_type_mappings) {
                    Err(e) => Err(e),
                    Ok(info) => Ok(
                        noted.with_foreign_key(owner, i, f, info).with_field_indexed(owner, owner, f),
                    ),
                }
            } else {
                Ok(noted.with_field_indexed(owner, owner, f))
            }
        }
    }

    /// The first `n` fields of an entity object, in order.
    pub open spec fn fields_fold(self, owner: Seq<char>, fields: Seq<FieldView>, n: nat) -> Result<
        SchemaModel,
        ParsedErrorView,
    >
        decreases n,
    {
        if n == 0 || n > fields.len() {
            Ok(self)
        } else {
            match self.fields_fold(owner, fields, (n - 1) as nat) {
                Err(e) => Err(e),
                Ok(m) => m.field_step(owner, (n - 1) as usize, fields[n - 1]),
            }
        }
    }

    /// The model with an entity object registered, before its fields.
    pub open spec fn with_object(
        self,
        name: Seq<char>,
        fields: Seq<FieldView>,
        directives: Seq<DirectiveView>,
    ) -> SchemaModel {
        SchemaModel {
            objects: self.objects.insert(name, fields),
            parsed_names: self.parsed_names.insert(name),
            typedef_names_to_types: self.typedef_names_to_types.insert(lowercase_text(name), name),
            virtual_names: if is_virtual_marked(directives) {
                self.virtual_names.insert(name)
            } else {
                self.virtual_names
            },
            object_field_mappings: self.object_field_mappings.insert(name, Map::empty()),
            ..self
        }
    }

    /// An object declaration: ignored unless it is an entity.
    pub open spec fn object_step(
        self,
        name: Seq<char>,
        fields: Seq<FieldView>,
        directives: Seq<DirectiveView>,
    ) -> Result<SchemaModel, ParsedErrorView> {
        if is_entity(directives) {
            self.with_object(name, fields, directives).fields_fold(name, fields, fields.len())
        } else {
            Ok(self)
        }
    }

    /// One value of an enum, indexed as a field of the enum's own type.
    pub open spec fn enum_value_step(self, name: Seq<char>, value: Seq<char>) -> SchemaModel {
        SchemaModel {
            object_field_mappings: inner_inserted(self.object_field_mappings, name, value, name),
            field_type_mappings: self.field_type_mappings.insert(field_id_text(name, value), name),
            ..self
        }
    }

    pub open spec fn enum_values_fold(self, name: Seq<char>, values: Seq<Seq<char>>, n: nat) -> SchemaModel
        decreases n,
    {
        if n == 0 || n > values.len() {
            self
        } else {
            self.enum_values_fold(name, values, (n - 1) as nat).enum_value_step(name, values[n - 1])
        }
    }

    /// An enum declaration: the enum is virtual, and its values are indexed.
    pub open spec fn enum_step(self, name: Seq<char>, values: Seq<Seq<char>>) -> SchemaModel {
        SchemaModel {
            virtual_names: self.virtual_names.insert(name),
            enum_names: self.enum_names.insert(name),
            ..self
        }.enum_values_fold(name, values, values.len())
    }

    /// Whether one of the members is virtual.
    pub open spec fn any_virtual(self, members: Seq<Seq<char>>) -> bool {
        exists|i: int| 0 <= i < members.len() && self.virtual_names.contains(#[trigger] members[i])
    }

    /// Whether every member is virtual.
    pub open spec fn all_virtual(self, members: Seq<Seq<char>>) -> bool {
        forall|i: int| 0 <= i < members.len() ==> self.virtual_names.contains(#[trigger] members[i])
    }

    /// The model with a union registered; the union is virtual where one
    /// of its members is.
    pub open spec fn with_union(self, name: Seq<char>, members: Seq<Seq<char>>) -> SchemaModel {
        SchemaModel {
            parsed_names: self.parsed_names.insert(name),
            unions: self.unions.insert(name, members),
            union_names: self.union_names.insert(name),
            typedef_names_to_types: self.typedef_names_to_types.insert(lowercase_text(name), name),
            virtual_names: if self.any_virtual(members) {
                self.virtual_names.insert(name)
            } else {
                self.virtual_names
            },
            ..self
        }
    }

    /// One field of a union member, indexed once more under the union's name.
    pub open spec fn union_index_fold(
        self,
        name: Seq<char>,
        member: Seq<char>,
        fields: Seq<FieldView>,
        n: nat,
    ) -> SchemaModel
        decreases n,
    {
        if n == 0 || n > fields.len() {
            self
        } else {
            self.union_index_fold(name, member, fields, (n - 1) as nat).with_field_indexed(
                name,
                member,
                fields[n - 1],
            )
        }
    }

    /// The fields of the first `n` members, indexed under the union's name.
    pub open spec fn union_index_members_fold(
        self,
        name: Seq<char>,
        members: Seq<Seq<char>>,
        n: nat,
    ) -> SchemaModel
        decreases n,
    {
        if n == 0 || n > members.len() {
            self
        } else {
            let before = self.union_index_members_fold(name, members, (n - 1) as nat);
            let member = members[n - 1];
            if before.objects.contains_key(member) {
                before.union_index_fold(
                    name,
                    member,
                    before.objects[member],
                    before.objects[member].len(),
                )
            } else {
                before
            }
        }
    }

    /// A union declaration. Its members must agree on being virtual and
    /// be entity objects declared before it. Join tables kept under a
    /// member's name are dropped; the members' fields, each name taken at
    /// its first occurrence and counted across all members, give the
    /// union's own join tables; then every member field is indexed under
    /// the union's name.
    pub open spec fn union_step(self, name: Seq<char>, members: Seq<Seq<char>>) -> Result<
        SchemaModel,
        ParsedErrorView,
    > {
        if self.any_virtual(members) && !self.all_virtual(members) {
            Err(ParsedErrorView::InconsistentVirtualUnion(name))
        } else {
            let start = UnionPass { model: self.with_union(name, members), seen: Set::empty() };
            match start.members_fold(name, members, members.len()) {
                Err(e) => Err(e),
                Ok(p) => Ok(p.model.union_index_members_fold(name, members, members.len())),
            }
        }
    }

    /// One declaration of the document.
    pub open spec fn declaration_step(self, d: TypeDeclarationView) -> Result<
        SchemaModel,
        ParsedErrorView,
    > {
        match d {
            TypeDeclarationView::Object { name, fields, directives } => self.object_step(
                name,
                fields,
                directives,
            ),
            TypeDeclarationView::Enum { name, values } => Ok(self.enum_step(name, values)),
            TypeDeclarationView::Union { name, members } => self.union_step(name, members),
            TypeDeclarationView::DirectiveDefinition { .. } => Ok(self),
            TypeDeclarationView::Scalar { .. } => Err(ParsedErrorView::UnsupportedTypeKind),
            TypeDeclarationView::Interface { .. } => Err(ParsedErrorView::UnsupportedTypeKind),
            TypeDeclarationView::InputObject { .. } => Err(ParsedErrorView::UnsupportedTypeKind),
            TypeDeclarationView::Schema => Err(ParsedErrorView::UnsupportedTypeKind),
        }
    }

    /// The first `n` declarations, in document order; the first error ends the pass.
    pub open spec fn declarations_fold(self, decls: Seq<TypeDeclarationView>, n: nat) -> Result<
        SchemaModel,
        ParsedErrorView,
    >
        decreases n,
    {
        if n == 0 || n > decls.len() {
            Ok(self)
        } else {
            match self.declarations_fold(decls, (n - 1) as nat) {
                Err(e) => Err(e),
                Ok(m) => m.declaration_step(decls[n - 1]),
            }
        }
    }
}

impl UnionPass {
    /// One field of a union member. A name met before is skipped. The
    /// field's position is the number of names met before it.
    pub open spec fn field_step(self, name: Seq<char>, f: FieldView) -> Result<
        UnionPass,
        ParsedErrorView,
    > {
        if self.seen.contains(f.name) {
            Ok(self)
        } else {
            let seen = self.seen.insert(f.name);
            if self.model.is_possible_foreign_key(stripped(f.ty, true)) {
                match foreign_key_info(f, self.model.field_type_mappings) {
                    Err(e) => Err(e),
                    Ok(info) => Ok(
                        UnionPass {
                            model: if is_list_signature(f.ty) {
                                SchemaModel {
                                    join_table_meta: pushed(
                                        self.model.join_table_meta,
                                        name,
                                        join_table_meta(
                                            lowercase_text(name),
                                            id_column(),
                                            info.2,
                                            info.1,
                                            Some(self.seen.len() as usize),
                                        ),
                                    ),
                                    ..self.model
                                }
                            } else {
                                self.model
                            },
                            seen,
                        },
                    ),
                }
            } else {
                Ok(UnionPass { model: self.model, seen })
            }
        }
    }

    pub open spec fn fields_fold(self, name: Seq<char>, fields: Seq<FieldView>, n: nat) -> Result<
        UnionPass,
        ParsedErrorView,
    >
        decreases n,
    {
        if n == 0 || n > fields.len() {
            Ok(self)
        } else {
            match self.fields_fold(name, fields, (n - 1) as nat) {
                Err(e) => Err(e),
                Ok(p) => p.field_step(name, fields[n - 1]),
            }
        }
    }

    /// One member of a union: its own join tables are dropped, it must be
    /// an entity object, and its fields are passed over.
    pub open spec fn member_step(self, name: Seq<char>, member: Seq<char>) -> Result<
        UnionPass,
        ParsedErrorView,
    > {
        if self.model.objects.contains_key(member) {
            UnionPass {
                model: SchemaModel {
                    join_table_meta: self.model.join_table_meta.remove(member),
                    ..self.model
                },
                seen: self.seen,
            }.fields_fold(name, self.model.objects[member], self.model.objects[member].len())
        } else {
            Err(ParsedErrorView::UnionMemberNotFound(member))
        }
    }

    pub open spec fn members_fold(self, name: Seq<char>, members: Seq<Seq<char>>, n: nat) -> Result<
        UnionPass,
        ParsedErrorView,
    >
        decreases n,
    {
        if n == 0 || n > members.len() {
            Ok(self)
        } else {
            match self.members_fold(name, members, (n - 1) as nat) {
                Err(e) => Err(e),
                Ok(p) => p.member_step(name, members[n - 1]),
            }
        }
    }
}

/// The model of a document: the built-in declarations give the scalars,
/// and the document's declarations are processed in order.
pub open spec fn build_model(base: Seq<TypeDeclarationView>, decls: Seq<TypeDeclarationView>) -> Result<
    SchemaModel,
    ParsedErrorView,
> {
    let scalars = with_declared_types(Set::empty(), base, base.len());
    SchemaModel::initial(
        scalars,
        with_declared_types(scalars, decls, decls.len()),
    ).declarations_fold(decls, decls.len())
}

/// The model of a schema text, given the text of the built-in
/// declarations, where the parser accepts both.
pub open spec fn model_of_text(base: Seq<char>, text: Seq<char>) -> Result<
    SchemaModel,
    ParsedErrorView,
> {
    build_model(schema_declarations(base), schema_declarations(text))
}

/// The column type of a field: the referenced column's type for a foreign
/// key, `Virtual` for a virtual type, `Charfield` for an enum, else the
/// field's own type. A list field whose signature is known to the model
/// goes by its element type.
pub open spec fn scalar_type(m: SchemaModel, f: FieldView) -> Result<Seq<char>, ParsedErrorView> {
    let listed = stripped(f.ty, false);
    let named = if m.list_field_types.contains(listed) {
        stripped(f.ty, true)
    } else {
        listed
    };
    if m.is_possible_foreign_key(named) {
        match foreign_key_info(f, m.field_type_mappings) {
            Ok(info) => Ok(info.0),
            Err(e) => Err(e),
        }
    } else if m.is_virtual_typedef(named) {
        Ok("Virtual"@)
    } else if m.is_enum_typedef(named) {
        Ok("Charfield"@)
    } else {
        Ok(named)
    }
}

/// The type of the field `name` of the owner `cond`; where `cond` is no
/// owner, it is read as a signature and its named type is the owner.
pub open spec fn field_graphql_type(m: SchemaModel, cond: Seq<char>, name: Seq<char>) -> Option<
    Seq<char>,
> {
    let owner = if m.object_field_mappings.contains_key(cond) {
        cond
    } else {
        stripped(cond, true)
    };
    if m.object_field_mappings.contains_key(owner) && m.object_field_mappings[owner].contains_key(
        name,
    ) {
        Some(m.object_field_mappings[owner][name])
    } else {
        None
    }
}

} // verus!
