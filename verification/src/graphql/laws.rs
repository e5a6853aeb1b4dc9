//! What holds of every model that the pass over a document builds.

use crate::collections::pushed;
use crate::graphql::document::{DirectiveView, FieldView, TypeDeclarationView};
use crate::graphql::model::{
    build_model, is_entity, is_virtual_marked, with_declared_types, SchemaModel, UnionPass,
};
use crate::graphql::parser::{join_table_meta, JoinTableMetaView, ParsedErrorView};
use crate::graphql::types::id_column;
use crate::graphql::{is_list_signature, join_column};
use crate::text::{lowercase_text, stripped};
use vstd::prelude::*;

verus! {

/// Whether the join tables under `key` hold `e`.
pub open spec fn has_join(m: SchemaModel, key: Seq<char>, e: JoinTableMetaView) -> bool {
    m.join_table_meta.contains_key(key) && m.join_table_meta[key].contains(e)
}

/// Whether two models agree on which names are processed, scalar, enum
/// and virtual, and on the entity objects.
pub open spec fn same_kinds(a: SchemaModel, b: SchemaModel) -> bool {
    &&& a.parsed_names == b.parsed_names
    &&& a.scalar_names == b.scalar_names
    &&& a.enum_names == b.enum_names
    &&& a.virtual_names == b.virtual_names
    &&& a.objects == b.objects
}

/// Whether a declaration is a union that lists `name` as a member.
pub open spec fn lists_member(d: TypeDeclarationView, name: Seq<char>) -> bool {
    match d {
        TypeDeclarationView::Union { members, .. } => members.contains(name),
        _ => false,
    }
}

/// Whether a declaration is an object or a union named `name`.
pub open spec fn declares_owner(d: TypeDeclarationView, name: Seq<char>) -> bool {
    match d {
        TypeDeclarationView::Object { name: n, .. } => n == name,
        TypeDeclarationView::Union { name: n, .. } => n == name,
        _ => false,
    }
}

/// Whether a declaration can make `name` an enum or a virtual type: an
/// enum or a union of that name, or an entity object of that name that is
/// marked virtual.
pub open spec fn may_exclude(d: TypeDeclarationView, name: Seq<char>) -> bool {
    match d {
        TypeDeclarationView::Enum { name: n, .. } => n == name,
        TypeDeclarationView::Union { name: n, .. } => n == name,
        TypeDeclarationView::Object { name: n, directives, .. } => n == name && is_entity(
            directives,
        ) && is_virtual_marked(directives),
        _ => false,
    }
}

/// The model after the first `n` declarations of a document.
pub open spec fn model_after(
    base: Seq<TypeDeclarationView>,
    decls: Seq<TypeDeclarationView>,
    n: nat,
) -> Result<SchemaModel, ParsedErrorView> {
    let scalars = with_declared_types(Set::empty(), base, base.len());
    SchemaModel::initial(scalars, with_declared_types(scalars, decls, decls.len())).declarations_fold(
        decls,
        n,
    )
}

proof fn lemma_pushed_keeps<T>(
    m: Map<Seq<char>, Seq<T>>,
    key: Seq<char>,
    item: T,
    k: Seq<char>,
    e: T,
)
    requires
        m.contains_key(k) && m[k].contains(e),
    ensures
        pushed(m, key, item).contains_key(k) && pushed(m, key, item)[k].contains(e),
{
    if k == key {
        let i = choose|i: int| 0 <= i < m[k].len() && m[k][i] == e;
        assert(m[k].push(item)[i] == e);
    }
}

proof fn lemma_pushed_has<T>(m: Map<Seq<char>, Seq<T>>, key: Seq<char>, item: T)
    ensures
        pushed(m, key, item).contains_key(key) && pushed(m, key, item)[key].contains(item),
{
    let list = pushed(m, key, item)[key];
    assert(list[list.len() - 1] == item);
}

proof fn lemma_field_step(
    m: SchemaModel,
    owner: Seq<char>,
    i: usize,
    f: FieldView,
    m2: SchemaModel,
    k: Seq<char>,
    e: JoinTableMetaView,
)
    requires
        m.field_step(owner, i, f) == Ok::<SchemaModel, ParsedErrorView>(m2),
    ensures
        same_kinds(m, m2),
        has_join(m, k, e) ==> has_join(m2, k, e),
        k != owner && !m.join_table_meta.contains_key(k) ==> !m2.join_table_meta.contains_key(k),
{
    let noted = m.with_field_noted(owner, i, f);
    if noted.is_possible_foreign_key(stripped(f.ty, true)) && is_list_signature(f.ty) && has_join(
        m,
        k,
        e,
    ) {
        let info = crate::graphql::foreign_key_info(f, noted.field_type_mappings)->Ok_0;
        lemma_pushed_keeps(
            m.join_table_meta,
            owner,
            join_table_meta(lowercase_text(owner), id_column(), info.2, info.1, Some(i)),
            k,
            e,
        );
    }
}

proof fn lemma_fields_fold(
    m: SchemaModel,
    owner: Seq<char>,
    fields: Seq<FieldView>,
    n: nat,
    m2: SchemaModel,
    k: Seq<char>,
    e: JoinTableMetaView,
)
    requires
        n <= fields.len(),
        m.fields_fold(owner, fields, n) == Ok::<SchemaModel, ParsedErrorView>(m2),
    ensures
        same_kinds(m, m2),
        has_join(m, k, e) ==> has_join(m2, k, e),
        k != owner && !m.join_table_meta.contains_key(k) ==> !m2.join_table_meta.contains_key(k),
    decreases n,
{
    if n > 0 {
        let before = m.fields_fold(owner, fields, (n - 1) as nat)->Ok_0;
        lemma_fields_fold(m, owner, fields, (n - 1) as nat, before, k, e);
        lemma_field_step(before, owner, (n - 1) as usize, fields[n - 1], m2, k, e);
    }
}

proof fn lemma_fields_fold_prefix(m: SchemaModel, owner: Seq<char>, fields: Seq<FieldView>, t: nat, n: nat)
    requires
        t <= n <= fields.len(),
        m.fields_fold(owner, fields, n) is Ok,
    ensures
        m.fields_fold(owner, fields, t) is Ok,
    decreases n,
{
    if t < n {
        lemma_fields_fold_prefix(m, owner, fields, t, (n - 1) as nat);
    }
}

proof fn lemma_fields_fold_from(
    m: SchemaModel,
    owner: Seq<char>,
    fields: Seq<FieldView>,
    t: nat,
    n: nat,
    k: Seq<char>,
    e: JoinTableMetaView,
)
    requires
        t <= n <= fields.len(),
        m.fields_fold(owner, fields, n) is Ok,
        m.fields_fold(owner, fields, t) is Ok,
        has_join(m.fields_fold(owner, fields, t)->Ok_0, k, e),
    ensures
        has_join(m.fields_fold(owner, fields, n)->Ok_0, k, e),
    decreases n,
{
    if t < n {
        lemma_fields_fold_prefix(m, owner, fields, (n - 1) as nat, n);
        lemma_fields_fold_from(m, owner, fields, t, (n - 1) as nat, k, e);
        let before = m.fields_fold(owner, fields, (n - 1) as nat)->Ok_0;
        lemma_field_step(
            before,
            owner,
            (n - 1) as usize,
            fields[n - 1],
            m.fields_fold(owner, fields, n)->Ok_0,
            k,
            e,
        );
    }
}

proof fn lemma_enum_values_fold(m: SchemaModel, name: Seq<char>, values: Seq<Seq<char>>, n: nat)
    requires
        n <= values.len(),
    ensures
        same_kinds(m, m.enum_values_fold(name, values, n)),
        m.enum_values_fold(name, values, n).join_table_meta == m.join_table_meta,
    decreases n,
{
    if n > 0 {
        lemma_enum_values_fold(m, name, values, (n - 1) as nat);
    }
}

proof fn lemma_union_index_fold(
    m: SchemaModel,
    name: Seq<char>,
    member: Seq<char>,
    fields: Seq<FieldView>,
    n: nat,
)
    requires
        n <= fields.len(),
    ensures
        same_kinds(m, m.union_index_fold(name, member, fields, n)),
        m.union_index_fold(name, member, fields, n).join_table_meta == m.join_table_meta,
    decreases n,
{
    if n > 0 {
        lemma_union_index_fold(m, name, member, fields, (n - 1) as nat);
    }
}

proof fn lemma_union_index_members_fold(
    m: SchemaModel,
    name: Seq<char>,
    members: Seq<Seq<char>>,
    n: nat,
)
    requires
        n <= members.len(),
    ensures
        same_kinds(m, m.union_index_members_fold(name, members, n)),
        m.union_index_members_fold(name, members, n).join_table_meta == m.join_table_meta,
    decreases n,
{
    if n > 0 {
        lemma_union_index_members_fold(m, name, members, (n - 1) as nat);
        let before = m.union_index_members_fold(name, members, (n - 1) as nat);
        let member = members[n - 1];
        if before.objects.contains_key(member) {
            lemma_union_index_fold(
                before,
                name,
                member,
                before.objects[member],
                before.objects[member].len(),
            );
        }
    }
}

proof fn lemma_pass_field_step(
    p: UnionPass,
    name: Seq<char>,
    f: FieldView,
    q: UnionPass,
    k: Seq<char>,
    e: JoinTableMetaView,
)
    requires
        p.field_step(name, f) == Ok::<UnionPass, ParsedErrorView>(q),
    ensures
        same_kinds(p.model, q.model),
        has_join(p.model, k, e) ==> has_join(q.model, k, e),
        k != name && !p.model.join_table_meta.contains_key(k) ==> !q.model.join_table_meta.contains_key(
            k,
        ),
{
    if !p.seen.contains(f.name) && p.model.is_possible_foreign_key(stripped(f.ty, true))
        && is_list_signature(f.ty) && has_join(p.model, k, e) {
        let info = crate::graphql::foreign_key_info(f, p.model.field_type_mappings)->Ok_0;
        lemma_pushed_keeps(
            p.model.join_table_meta,
            name,
            join_table_meta(
                lowercase_text(name),
                id_column(),
                info.2,
                info.1,
                Some(p.seen.len() as usize),
            ),
            k,
            e,
        );
    }
}

proof fn lemma_pass_fields_fold(
    p: UnionPass,
    name: Seq<char>,
    fields: Seq<FieldView>,
    n: nat,
    q: UnionPass,
    k: Seq<char>,
    e: JoinTableMetaView,
)
    requires
        n <= fields.len(),
        p.fields_fold(name, fields, n) == Ok::<UnionPass, ParsedErrorView>(q),
    ensures
        same_kinds(p.model, q.model),
        has_join(p.model, k, e) ==> has_join(q.model, k, e),
        k != name && !p.model.join_table_meta.contains_key(k) ==> !q.model.join_table_meta.contains_key(
            k,
        ),
    decreases n,
{
    if n > 0 {
        let before = p.fields_fold(name, fields, (n - 1) as nat)->Ok_0;
        lemma_pass_fields_fold(p, name, fields, (n - 1) as nat, before, k, e);
        lemma_pass_field_step(before, name, fields[n - 1], q, k, e);
    }
}

proof fn lemma_member_step(
    p: UnionPass,
    name: Seq<char>,
    member: Seq<char>,
    q: UnionPass,
    k: Seq<char>,
    e: JoinTableMetaView,
)
    requires
        p.member_step(name, member) == Ok::<UnionPass, ParsedErrorView>(q),
    ensures
        same_kinds(p.model, q.model),
        k != member && has_join(p.model, k, e) ==> has_join(q.model, k, e),
        k != name && (k == member || !p.model.join_table_meta.contains_key(k))
            ==> !q.model.join_table_meta.contains_key(k),
{
    let cleared = UnionPass {
        model: SchemaModel {
            join_table_meta: p.model.join_table_meta.remove(member),
            ..p.model
        },
        seen: p.seen,
    };
    let fields = p.model.objects[member];
    lemma_pass_fields_fold(cleared, name, fields, fields.len(), q, k, e);
}

proof fn lemma_members_fold(
    p: UnionPass,
    name: Seq<char>,
    members: Seq<Seq<char>>,
    n: nat,
    q: UnionPass,
    k: Seq<char>,
    e: JoinTableMetaView,
)
    requires
        n <= members.len(),
        p.members_fold(name, members, n) == Ok::<UnionPass, ParsedErrorView>(q),
    ensures
        same_kinds(p.model, q.model),
        (forall|j: int| 0 <= j < n ==> members[j] != k) && has_join(p.model, k, e) ==> has_join(
            q.model,
            k,
            e,
        ),
        k != name && ((exists|j: int| 0 <= j < n && members[j] == k)
            || !p.model.join_table_meta.contains_key(k)) ==> !q.model.join_table_meta.contains_key(
            k,
        ),
    decreases n,
{
    if n > 0 {
        let before = p.members_fold(name, members, (n - 1) as nat)->Ok_0;
        lemma_members_fold(p, name, members, (n - 1) as nat, before, k, e);
        lemma_member_step(before, name, members[n - 1], q, k, e);
        if k != name && (exists|j: int| 0 <= j < n && members[j] == k) {
            let j = choose|j: int| 0 <= j < n && members[j] == k;
            if j < n - 1 {
                assert(0 <= j < n - 1 && members[j] == k);
            }
        }
    }
}

/// What one declaration does to the join tables and to the processed names.
pub proof fn lemma_declaration_step(
    m: SchemaModel,
    d: TypeDeclarationView,
    m2: SchemaModel,
    k: Seq<char>,
    e: JoinTableMetaView,
)
    requires
        m.declaration_step(d) == Ok::<SchemaModel, ParsedErrorView>(m2),
    ensures
        !lists_member(d, k) && has_join(m, k, e) ==> has_join(m2, k, e),
        !declares_owner(d, k) && !m.join_table_meta.contains_key(k) ==> !m2.join_table_meta.contains_key(
            k,
        ),
        lists_member(d, k) && !declares_owner(d, k) ==> !m2.join_table_meta.contains_key(k),
        m.parsed_names.subset_of(m2.parsed_names),
        m.scalar_names == m2.scalar_names,
        !may_exclude(d, k) ==> m2.enum_names.contains(k) == m.enum_names.contains(k)
            && m2.virtual_names.contains(k) == m.virtual_names.contains(k),
{
    match d {
        TypeDeclarationView::Object { name, fields, directives } => {
            if is_entity(directives) {
                lemma_fields_fold(
                    m.with_object(name, fields, directives),
                    name,
                    fields,
                    fields.len(),
                    m2,
                    k,
                    e,
                );
            }
        },
        TypeDeclarationView::Enum { name, values } => {
            lemma_enum_values_fold(
                SchemaModel {
                    virtual_names: m.virtual_names.insert(name),
                    enum_names: m.enum_names.insert(name),
                    ..m
                },
                name,
                values,
                values.len(),
            );
        },
        TypeDeclarationView::Union { name, members } => {
            let start = UnionPass { model: m.with_union(name, members), seen: Set::empty() };
            let passed = start.members_fold(name, members, members.len())->Ok_0;
            lemma_members_fold(start, name, members, members.len(), passed, k, e);
            lemma_union_index_members_fold(passed.model, name, members, members.len());
            if lists_member(d, k) {
                let j = choose|j: int| 0 <= j < members.len() && members[j] == k;
                assert(0 <= j < members.len() && members[j] == k);
            }
        },
        _ => {},
    }
}

proof fn lemma_declarations_fold_prefix(m: SchemaModel, decls: Seq<TypeDeclarationView>, t: nat, n: nat)
    requires
        t <= n <= decls.len(),
        m.declarations_fold(decls, n) is Ok,
    ensures
        m.declarations_fold(decls, t) is Ok,
    decreases n,
{
    if t < n {
        lemma_declarations_fold_prefix(m, decls, t, (n - 1) as nat);
    }
}

proof fn lemma_declarations_fold_from(
    m: SchemaModel,
    decls: Seq<TypeDeclarationView>,
    t: nat,
    n: nat,
    k: Seq<char>,
    e: JoinTableMetaView,
)
    requires
        t <= n <= decls.len(),
        m.declarations_fold(decls, n) is Ok,
    ensures
        m.declarations_fold(decls, t) is Ok,
        (forall|j: int| t <= j < n ==> !lists_member(#[trigger] decls[j], k)) && has_join(
            m.declarations_fold(decls, t)->Ok_0,
            k,
            e,
        ) ==> has_join(m.declarations_fold(decls, n)->Ok_0, k, e),
        (forall|j: int| t <= j < n ==> !declares_owner(#[trigger] decls[j], k))
            && !m.declarations_fold(decls, t)->Ok_0.join_table_meta.contains_key(k)
            ==> !m.declarations_fold(decls, n)->Ok_0.join_table_meta.contains_key(k),
        m.declarations_fold(decls, t)->Ok_0.parsed_names.subset_of(
            m.declarations_fold(decls, n)->Ok_0.parsed_names,
        ),
        m.declarations_fold(decls, t)->Ok_0.scalar_names == m.declarations_fold(
            decls,
            n,
        )->Ok_0.scalar_names,
        (forall|j: int| t <= j < n ==> !may_exclude(#[trigger] decls[j], k)) ==> {
            let from = m.declarations_fold(decls, t)->Ok_0;
            let to = m.declarations_fold(decls, n)->Ok_0;
            to.enum_names.contains(k) == from.enum_names.contains(k) && to.virtual_names.contains(k)
                == from.virtual_names.contains(k)
        },
    decreases n,
{
    lemma_declarations_fold_prefix(m, decls, t, n);
    if t < n {
        lemma_declarations_fold_prefix(m, decls, (n - 1) as nat, n);
        lemma_declarations_fold_from(m, decls, t, (n - 1) as nat, k, e);
        lemma_declaration_step(
            m.declarations_fold(decls, (n - 1) as nat)->Ok_0,
            decls[n - 1],
            m.declarations_fold(decls, n)->Ok_0,
            k,
            e,
        );
    }
}

/// A list field of an entity object gives a join table under the
/// object's declared name. Where the field names no column and its named
/// type `U` can be a foreign key when the object `T` is processed, and no
/// later union lists `T` as a member, the final model holds under `T` the
/// entry with parent (lowercase `T`, `id`) at the field's index and child
/// (lowercase `U`, `id`).
pub proof fn lemma_list_field_gives_join_table(
    base: Seq<TypeDeclarationView>,
    decls: Seq<TypeDeclarationView>,
    t: int,
    name: Seq<char>,
    fields: Seq<FieldView>,
    directives: Seq<DirectiveView>,
    i: int,
)
    requires
        build_model(base, decls) is Ok,
        0 <= t < decls.len(),
        decls[t] == (TypeDeclarationView::Object { name, fields, directives }),
        is_entity(directives),
        0 <= i < fields.len(),
        i <= usize::MAX,
        is_list_signature(fields[i].ty),
        join_column(fields[i]) is None,
        model_after(base, decls, t as nat) is Ok ==> model_after(
            base,
            decls,
            t as nat,
        )->Ok_0.with_object(name, fields, directives).is_possible_foreign_key(
            stripped(fields[i].ty, true),
        ),
        forall|j: int| t < j < decls.len() ==> !lists_member(#[trigger] decls[j], name),
    ensures
        has_join(
            build_model(base, decls)->Ok_0,
            name,
            join_table_meta(
                lowercase_text(name),
                id_column(),
                lowercase_text(stripped(fields[i].ty, true)),
                id_column(),
                Some(i as usize),
            ),
        ),
{
    let scalars = with_declared_types(Set::empty(), base, base.len());
    let m0 = SchemaModel::initial(scalars, with_declared_types(scalars, decls, decls.len()));
    let e = join_table_meta(
        lowercase_text(name),
        id_column(),
        lowercase_text(stripped(fields[i].ty, true)),
        id_column(),
        Some(i as usize),
    );
    lemma_declarations_fold_prefix(m0, decls, (t + 1) as nat, decls.len());
    lemma_declarations_fold_prefix(m0, decls, t as nat, decls.len());
    let before = m0.declarations_fold(decls, t as nat)->Ok_0;
    let start = before.with_object(name, fields, directives);
    let after = m0.declarations_fold(decls, (t + 1) as nat)->Ok_0;
    assert(start.fields_fold(name, fields, fields.len()) == Ok::<SchemaModel, ParsedErrorView>(after));
    lemma_fields_fold_prefix(start, name, fields, (i + 1) as nat, fields.len());
    lemma_fields_fold_prefix(start, name, fields, i as nat, fields.len());
    let at = start.fields_fold(name, fields, i as nat)->Ok_0;
    lemma_fields_fold(start, name, fields, i as nat, at, name, e);
    let noted = at.with_field_noted(name, i as usize, fields[i]);
    assert(noted.is_possible_foreign_key(stripped(fields[i].ty, true)));
    lemma_pushed_has(noted.join_table_meta, name, e);
    assert(has_join(start.fields_fold(name, fields, (i + 1) as nat)->Ok_0, name, e));
    lemma_fields_fold_from(start, name, fields, (i + 1) as nat, fields.len(), name, e);
    lemma_declarations_fold_from(m0, decls, (t + 1) as nat, decls.len(), name, e);
}

/// A union takes over the join tables of its members. Where a union
/// lists `member`, is not itself named `member`, and no later declaration
/// is an object or a union named `member`, the final model holds no join
/// table under `member`.
pub proof fn lemma_union_member_keeps_no_join_table(
    base: Seq<TypeDeclarationView>,
    decls: Seq<TypeDeclarationView>,
    s: int,
    member: Seq<char>,
)
    requires
        build_model(base, decls) is Ok,
        0 <= s < decls.len(),
        lists_member(decls[s], member),
        !declares_owner(decls[s], member),
        forall|j: int| s < j < decls.len() ==> !declares_owner(#[trigger] decls[j], member),
    ensures
        !build_model(base, decls)->Ok_0.join_table_meta.contains_key(member),
{
    let scalars = with_declared_types(Set::empty(), base, base.len());
    let m0 = SchemaModel::initial(scalars, with_declared_types(scalars, decls, decls.len()));
    let e = join_table_meta(member, member, member, member, None);
    lemma_declarations_fold_prefix(m0, decls, (s + 1) as nat, decls.len());
    lemma_declarations_fold_prefix(m0, decls, s as nat, decls.len());
    lemma_declaration_step(
        m0.declarations_fold(decls, s as nat)->Ok_0,
        decls[s],
        m0.declarations_fold(decls, (s + 1) as nat)->Ok_0,
        member,
        e,
    );
    lemma_declarations_fold_from(m0, decls, (s + 1) as nat, decls.len(), member, e);
}

/// Scalars, enums and virtual types are never possible foreign keys; a
/// processed name that is none of them is one.
pub proof fn lemma_possible_foreign_key(m: SchemaModel, name: Seq<char>)
    ensures
        m.scalar_names.contains(name) ==> !m.is_possible_foreign_key(name),
        m.enum_names.contains(name) ==> !m.is_possible_foreign_key(name),
        m.virtual_names.contains(name) ==> !m.is_possible_foreign_key(name),
        m.parsed_names.contains(name) && !m.scalar_names.contains(name) && !m.enum_names.contains(
            name,
        ) && !m.virtual_names.contains(name) ==> m.is_possible_foreign_key(name),
{
}

/// The name of every entity object of a document is a processed name of
/// the final model, so it is a possible foreign key unless it is a scalar,
/// an enum or virtual.
pub proof fn lemma_entity_objects_are_processed(
    base: Seq<TypeDeclarationView>,
    decls: Seq<TypeDeclarationView>,
    t: int,
    name: Seq<char>,
    fields: Seq<FieldView>,
    directives: Seq<DirectiveView>,
)
    requires
        build_model(base, decls) is Ok,
        0 <= t < decls.len(),
        decls[t] == (TypeDeclarationView::Object { name, fields, directives }),
        is_entity(directives),
    ensures
        build_model(base, decls)->Ok_0.parsed_names.contains(name),
        ({
            let m = build_model(base, decls)->Ok_0;
            !m.scalar_names.contains(name) && !m.enum_names.contains(name)
                && !m.virtual_names.contains(name) ==> m.is_possible_foreign_key(name)
        }),
{
    let scalars = with_declared_types(Set::empty(), base, base.len());
    let m0 = SchemaModel::initial(scalars, with_declared_types(scalars, decls, decls.len()));
    let e = join_table_meta(name, name, name, name, None);
    lemma_declarations_fold_prefix(m0, decls, (t + 1) as nat, decls.len());
    lemma_declarations_fold_prefix(m0, decls, t as nat, decls.len());
    let before = m0.declarations_fold(decls, t as nat)->Ok_0;
    let start = before.with_object(name, fields, directives);
    let after = m0.declarations_fold(decls, (t + 1) as nat)->Ok_0;
    lemma_fields_fold(start, name, fields, fields.len(), after, name, e);
    lemma_declarations_fold_from(m0, decls, (t + 1) as nat, decls.len(), name, e);
}

proof fn lemma_pass_fields_fold_prefix(
    p: UnionPass,
    name: Seq<char>,
    fields: Seq<FieldView>,
    t: nat,
    n: nat,
)
    requires
        t <= n <= fields.len(),
        p.fields_fold(name, fields, n) is Ok,
    ensures
        p.fields_fold(name, fields, t) is Ok,
    decreases n,
{
    if t < n {
        lemma_pass_fields_fold_prefix(p, name, fields, t, (n - 1) as nat);
    }
}

proof fn lemma_pass_fields_fold_from(
    p: UnionPass,
    name: Seq<char>,
    fields: Seq<FieldView>,
    t: nat,
    n: nat,
    e: JoinTableMetaView,
)
    requires
        t <= n <= fields.len(),
        p.fields_fold(name, fields, n) is Ok,
        p.fields_fold(name, fields, t) is Ok,
        has_join(p.fields_fold(name, fields, t)->Ok_0.model, name, e),
    ensures
        has_join(p.fields_fold(name, fields, n)->Ok_0.model, name, e),
    decreases n,
{
    if t < n {
        lemma_pass_fields_fold_prefix(p, name, fields, (n - 1) as nat, n);
        lemma_pass_fields_fold_from(p, name, fields, t, (n - 1) as nat, e);
        lemma_pass_field_step(
            p.fields_fold(name, fields, (n - 1) as nat)->Ok_0,
            name,
            fields[n - 1],
            p.fields_fold(name, fields, n)->Ok_0,
            name,
            e,
        );
    }
}

proof fn lemma_members_fold_prefix(
    p: UnionPass,
    name: Seq<char>,
    members: Seq<Seq<char>>,
    t: nat,
    n: nat,
)
    requires
        t <= n <= members.len(),
        p.members_fold(name, members, n) is Ok,
    ensures
        p.members_fold(name, members, t) is Ok,
    decreases n,
{
    if t < n {
        lemma_members_fold_prefix(p, name, members, t, (n - 1) as nat);
    }
}

proof fn lemma_members_fold_from(
    p: UnionPass,
    name: Seq<char>,
    members: Seq<Seq<char>>,
    t: nat,
    n: nat,
    e: JoinTableMetaView,
)
    requires
        t <= n <= members.len(),
        p.members_fold(name, members, n) is Ok,
        p.members_fold(name, members, t) is Ok,
        has_join(p.members_fold(name, members, t)->Ok_0.model, name, e),
        forall|x: int| t <= x < n ==> members[x] != name,
    ensures
        has_join(p.members_fold(name, members, n)->Ok_0.model, name, e),
    decreases n,
{
    if t < n {
        lemma_members_fold_prefix(p, name, members, (n - 1) as nat, n);
        lemma_members_fold_from(p, name, members, t, (n - 1) as nat, e);
        lemma_member_step(
            p.members_fold(name, members, (n - 1) as nat)->Ok_0,
            name,
            members[n - 1],
            p.members_fold(name, members, n)->Ok_0,
            name,
            e,
        );
    }
}

/// The state of a union's first pass when it reaches the field at index
/// `k` of the member at index `j`; `m` is the model before the union.
pub open spec fn pass_at(
    m: SchemaModel,
    name: Seq<char>,
    members: Seq<Seq<char>>,
    j: nat,
    k: nat,
) -> Result<UnionPass, ParsedErrorView> {
    let start = UnionPass { model: m.with_union(name, members), seen: Set::empty() };
    match start.members_fold(name, members, j) {
        Err(e) => Err(e),
        Ok(p) => UnionPass {
            model: SchemaModel {
                join_table_meta: p.model.join_table_meta.remove(members[j as int]),
                ..p.model
            },
            seen: p.seen,
        }.fields_fold(name, m.objects[members[j as int]], k),
    }
}

/// A list field of a union's member gives a join table under the union's
/// name. Where the field's name occurs for the first time among the
/// members' fields, the field names no column, its named type `U` can be
/// a foreign key when the union is processed, the union is not listed as
/// a member after this one, and no later union lists the union itself,
/// the final model holds under the union's name the entry with parent
/// (lowercase union, `id`) at the number of field names met before, and
/// child (lowercase `U`, `id`).
pub proof fn lemma_union_list_field_gives_join_table(
    base: Seq<TypeDeclarationView>,
    decls: Seq<TypeDeclarationView>,
    s: int,
    name: Seq<char>,
    members: Seq<Seq<char>>,
    j: int,
    k: int,
)
    requires
        build_model(base, decls) is Ok,
        0 <= s < decls.len(),
        decls[s] == (TypeDeclarationView::Union { name, members }),
        0 <= j < members.len(),
        model_after(base, decls, s as nat) is Ok ==> {
            let before = model_after(base, decls, s as nat)->Ok_0;
            let f = before.objects[members[j]][k];
            &&& 0 <= k < before.objects[members[j]].len()
            &&& is_list_signature(f.ty)
            &&& join_column(f) is None
            &&& before.with_union(name, members).is_possible_foreign_key(stripped(f.ty, true))
            &&& pass_at(before, name, members, j as nat, k as nat) is Ok ==> !pass_at(
                before,
                name,
                members,
                j as nat,
                k as nat,
            )->Ok_0.seen.contains(f.name)
        },
        forall|x: int| j < x < members.len() ==> members[x] != name,
        forall|x: int| s < x < decls.len() ==> !lists_member(#[trigger] decls[x], name),
    ensures
        ({
            let before = model_after(base, decls, s as nat)->Ok_0;
            let f = before.objects[members[j]][k];
            has_join(
                build_model(base, decls)->Ok_0,
                name,
                join_table_meta(
                    lowercase_text(name),
                    id_column(),
                    lowercase_text(stripped(f.ty, true)),
                    id_column(),
                    Some(pass_at(before, name, members, j as nat, k as nat)->Ok_0.seen.len() as usize),
                ),
            )
        }),
{
    let scalars = with_declared_types(Set::empty(), base, base.len());
    let m0 = SchemaModel::initial(scalars, with_declared_types(scalars, decls, decls.len()));
    lemma_declarations_fold_prefix(m0, decls, (s + 1) as nat, decls.len());
    lemma_declarations_fold_prefix(m0, decls, s as nat, decls.len());
    let before = m0.declarations_fold(decls, s as nat)->Ok_0;
    let after = m0.declarations_fold(decls, (s + 1) as nat)->Ok_0;
    assert(before.union_step(name, members) == Ok::<SchemaModel, ParsedErrorView>(after));
    let start = UnionPass { model: before.with_union(name, members), seen: Set::empty() };
    let n = members.len();
    let passed = start.members_fold(name, members, n)->Ok_0;
    lemma_union_index_members_fold(passed.model, name, members, n);
    lemma_members_fold_prefix(start, name, members, (j + 1) as nat, n);
    lemma_members_fold_prefix(start, name, members, j as nat, n);
    let pj = start.members_fold(name, members, j as nat)->Ok_0;
    let pj1 = start.members_fold(name, members, (j + 1) as nat)->Ok_0;
    let f = before.objects[members[j]][k];
    let dummy = join_table_meta(name, name, name, name, None);
    lemma_members_fold(start, name, members, j as nat, pj, name, dummy);
    let fields = pj.model.objects[members[j]];
    assert(fields == before.objects[members[j]]);
    let cleared = UnionPass {
        model: SchemaModel {
            join_table_meta: pj.model.join_table_meta.remove(members[j]),
            ..pj.model
        },
        seen: pj.seen,
    };
    assert(cleared.fields_fold(name, fields, fields.len()) == Ok::<UnionPass, ParsedErrorView>(pj1));
    lemma_pass_fields_fold_prefix(cleared, name, fields, (k + 1) as nat, fields.len());
    lemma_pass_fields_fold_prefix(cleared, name, fields, k as nat, fields.len());
    let pk = cleared.fields_fold(name, fields, k as nat)->Ok_0;
    assert(pass_at(before, name, members, j as nat, k as nat) == Ok::<UnionPass, ParsedErrorView>(pk));
    lemma_pass_fields_fold(cleared, name, fields, k as nat, pk, name, dummy);
    let e = join_table_meta(
        lowercase_text(name),
        id_column(),
        lowercase_text(stripped(f.ty, true)),
        id_column(),
        Some(pk.seen.len() as usize),
    );
    assert(pk.model.is_possible_foreign_key(stripped(f.ty, true)));
    lemma_pushed_has(pk.model.join_table_meta, name, e);
    assert(has_join(cleared.fields_fold(name, fields, (k + 1) as nat)->Ok_0.model, name, e));
    lemma_pass_fields_fold_from(cleared, name, fields, (k + 1) as nat, fields.len(), e);
    lemma_members_fold_from(start, name, members, (j + 1) as nat, n, e);
    lemma_declarations_fold_from(m0, decls, (s + 1) as nat, decls.len(), name, e);
}

/// An entity object declared earlier in the document can be a foreign
/// key. Where the declaration at `u` is an entity object named `name`,
/// `name` is no built-in scalar, and none of the first `t > u`
/// declarations makes `name` an enum or virtual, `name` is a possible
/// foreign key after those `t` declarations.
pub proof fn lemma_earlier_entity_is_possible_foreign_key(
    base: Seq<TypeDeclarationView>,
    decls: Seq<TypeDeclarationView>,
    u: int,
    t: int,
    name: Seq<char>,
    fields: Seq<FieldView>,
    directives: Seq<DirectiveView>,
)
    requires
        0 <= u < t <= decls.len(),
        model_after(base, decls, t as nat) is Ok,
        decls[u] == (TypeDeclarationView::Object { name, fields, directives }),
        is_entity(directives),
        !with_declared_types(Set::empty(), base, base.len()).contains(name),
        forall|j: int| 0 <= j < t ==> !may_exclude(#[trigger] decls[j], name),
    ensures
        model_after(base, decls, t as nat)->Ok_0.is_possible_foreign_key(name),
{
    let scalars = with_declared_types(Set::empty(), base, base.len());
    let m0 = SchemaModel::initial(scalars, with_declared_types(scalars, decls, decls.len()));
    let e = join_table_meta(name, name, name, name, None);
    lemma_declarations_fold_from(m0, decls, 0, t as nat, name, e);
    lemma_declarations_fold_from(m0, decls, (u + 1) as nat, t as nat, name, e);
    lemma_declarations_fold_prefix(m0, decls, u as nat, t as nat);
    let before = m0.declarations_fold(decls, u as nat)->Ok_0;
    let after = m0.declarations_fold(decls, (u + 1) as nat)->Ok_0;
    lemma_fields_fold(
        before.with_object(name, fields, directives),
        name,
        fields,
        fields.len(),
        after,
        name,
        e,
    );
}

/// A list field that refers to an entity object declared earlier gives a
/// join table. Where the entity object `name` declared at `t` has at
/// index `i` a list field that names no column and whose named type is
/// the entity object `target` declared at `u < t`, `target` is no
/// built-in scalar, none of the declarations up to `t` makes `target` an
/// enum or virtual, and no later union lists `name` as a member, the
/// final model holds under `name` the entry with parent (lowercase
/// `name`, `id`) at position `i` and child (lowercase `target`, `id`).
pub proof fn lemma_list_field_of_earlier_entity_gives_join_table(
    base: Seq<TypeDeclarationView>,
    decls: Seq<TypeDeclarationView>,
    u: int,
    target: Seq<char>,
    target_fields: Seq<FieldView>,
    target_directives: Seq<DirectiveView>,
    t: int,
    name: Seq<char>,
    fields: Seq<FieldView>,
    directives: Seq<DirectiveView>,
    i: int,
)
    requires
        build_model(base, decls) is Ok,
        0 <= u < t < decls.len(),
        decls[u] == (TypeDeclarationView::Object {
            name: target,
            fields: target_fields,
            directives: target_directives,
        }),
        is_entity(target_directives),
        !with_declared_types(Set::empty(), base, base.len()).contains(target),
        forall|j: int| 0 <= j <= t ==> !may_exclude(#[trigger] decls[j], target),
        decls[t] == (TypeDeclarationView::Object { name, fields, directives }),
        is_entity(directives),
        0 <= i < fields.len(),
        i <= usize::MAX,
        is_list_signature(fields[i].ty),
        join_column(fields[i]) is None,
        stripped(fields[i].ty, true) == target,
        forall|j: int| t < j < decls.len() ==> !lists_member(#[trigger] decls[j], name),
    ensures
        has_join(
            build_model(base, decls)->Ok_0,
            name,
            join_table_meta(
                lowercase_text(name),
                id_column(),
                lowercase_text(target),
                id_column(),
                Some(i as usize),
            ),
        ),
{
    let scalars = with_declared_types(Set::empty(), base, base.len());
    let m0 = SchemaModel::initial(scalars, with_declared_types(scalars, decls, decls.len()));
    lemma_declarations_fold_prefix(m0, decls, t as nat, decls.len());
    lemma_earlier_entity_is_possible_foreign_key(
        base,
        decls,
        u,
        t,
        target,
        target_fields,
        target_directives,
    );
    assert(!may_exclude(decls[t], target));
    lemma_list_field_gives_join_table(base, decls, t, name, fields, directives, i);
}

/// The names of the first `n` fields.
pub open spec fn field_names(fields: Seq<FieldView>, n: nat) -> Set<Seq<char>>
    decreases n,
{
    if n == 0 || n > fields.len() {
        Set::empty()
    } else {
        field_names(fields, (n - 1) as nat).insert(fields[n - 1].name)
    }
}

/// The names of the fields of the first `n` members.
pub open spec fn member_field_names(
    objects: Map<Seq<char>, Seq<FieldView>>,
    members: Seq<Seq<char>>,
    n: nat,
) -> Set<Seq<char>>
    decreases n,
{
    if n == 0 || n > members.len() {
        Set::empty()
    } else {
        member_field_names(objects, members, (n - 1) as nat).union(
            field_names(objects[members[n - 1]], objects[members[n - 1]].len()),
        )
    }
}

proof fn lemma_pass_fields_seen(p: UnionPass, name: Seq<char>, fields: Seq<FieldView>, n: nat)
    requires
        n <= fields.len(),
        p.fields_fold(name, fields, n) is Ok,
    ensures
        p.fields_fold(name, fields, n)->Ok_0.seen == p.seen.union(field_names(fields, n)),
    decreases n,
{
    if n > 0 {
        lemma_pass_fields_fold_prefix(p, name, fields, (n - 1) as nat, n);
        lemma_pass_fields_seen(p, name, fields, (n - 1) as nat);
        let before = p.fields_fold(name, fields, (n - 1) as nat)->Ok_0;
        assert(before.seen.insert(fields[n - 1].name) =~= p.seen.union(field_names(fields, n)));
        assert(before.seen.contains(fields[n - 1].name) ==> before.seen =~= before.seen.insert(
            fields[n - 1].name,
        ));
    } else {
        assert(p.seen =~= p.seen.union(field_names(fields, 0)));
    }
}

proof fn lemma_members_seen(p: UnionPass, name: Seq<char>, members: Seq<Seq<char>>, n: nat)
    requires
        n <= members.len(),
        p.members_fold(name, members, n) is Ok,
    ensures
        p.members_fold(name, members, n)->Ok_0.seen == p.seen.union(
            member_field_names(p.model.objects, members, n),
        ),
    decreases n,
{
    if n > 0 {
        lemma_members_fold_prefix(p, name, members, (n - 1) as nat, n);
        lemma_members_seen(p, name, members, (n - 1) as nat);
        let before = p.members_fold(name, members, (n - 1) as nat)->Ok_0;
        let dummy = join_table_meta(name, name, name, name, None);
        lemma_members_fold(p, name, members, (n - 1) as nat, before, name, dummy);
        let member = members[n - 1];
        let fields = before.model.objects[member];
        let cleared = UnionPass {
            model: SchemaModel {
                join_table_meta: before.model.join_table_meta.remove(member),
                ..before.model
            },
            seen: before.seen,
        };
        lemma_pass_fields_seen(cleared, name, fields, fields.len());
        assert(before.seen.union(field_names(fields, fields.len())) =~= p.seen.union(
            member_field_names(p.model.objects, members, n),
        ));
    } else {
        assert(p.seen =~= p.seen.union(member_field_names(p.model.objects, members, 0)));
    }
}

/// The field names that a union's first pass has met when it reaches the
/// field at index `k` of the member at index `j` are the names of all
/// fields of the earlier members and of the earlier fields of this member.
pub proof fn lemma_pass_at_seen(
    m: SchemaModel,
    name: Seq<char>,
    members: Seq<Seq<char>>,
    j: nat,
    k: nat,
)
    requires
        j < members.len(),
        k <= m.objects[members[j as int]].len(),
        pass_at(m, name, members, j, k) is Ok,
    ensures
        pass_at(m, name, members, j, k)->Ok_0.seen == member_field_names(m.objects, members, j).union(
            field_names(m.objects[members[j as int]], k),
        ),
{
    let start = UnionPass { model: m.with_union(name, members), seen: Set::empty() };
    lemma_members_seen(start, name, members, j);
    let p = start.members_fold(name, members, j)->Ok_0;
    let cleared = UnionPass {
        model: SchemaModel {
            join_table_meta: p.model.join_table_meta.remove(members[j as int]),
            ..p.model
        },
        seen: p.seen,
    };
    lemma_pass_fields_seen(cleared, name, m.objects[members[j as int]], k);
    assert(p.seen =~= member_field_names(m.objects, members, j));
}

} // verus!
