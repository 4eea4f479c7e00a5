//! Compilation of shapes into output declarations.

use vstd::prelude::*;
use vstd::string::*;
use crate::model::{MemberRef, Service, Shape, ShapeBody};
use crate::names::{field_name_of, generate_field_name, mutate_type_name, type_name_of};
use crate::protocol::{Protocol, StructAttributes, TimestampRepr};
use crate::reach::{filter_types, reachable};

verus! {

/// The type a primitive shape is declared as.
#[derive(PartialEq, Eq, Structural, Clone, Copy, Debug)]
pub enum Primitive {
    Bytes,
    Bool,
    Float64,
    Float32,
    Int32,
    Int64,
    Text,
    Timestamp(TimestampRepr),
}

/// A wire-encoding hint attached to a field of a decorated record.
#[derive(PartialEq, Eq, Structural, Clone, Copy, Debug)]
pub enum FieldHint {
    Plain,
    /// Encoded and decoded as a blob, with a default when absent.
    Blob,
    /// Left out of the encoding when absent.
    SkipIfAbsent,
}

/// One field of a record declaration.
pub struct Field {
    pub name: String,
    /// The translated name of the field's type.
    pub field_type: String,
    /// Whether the type is wrapped in `Option`.
    pub optional: bool,
    /// Escaped documentation text.
    pub documentation: Option<String>,
    /// The member's schema name, carried where the record has encoding decorations.
    pub wire_name: Option<String>,
    pub hint: FieldHint,
}

/// What a declaration declares.
pub enum DeclKind {
    /// A structure without members.
    Marker,
    Record(Vec<Field>),
    /// An ordered sequence of the named element type.
    Sequence(String),
    /// A mapping between the named key and value types.
    Mapping(String, String),
    Alias(Primitive),
}

/// The declaration produced for one shape.
pub struct Declaration {
    /// Index of the shape in the service.
    pub shape: usize,
    pub name: String,
    /// Escaped documentation text.
    pub documentation: Option<String>,
    /// The decorations of a structure's declaration; `None` for other kinds.
    pub attributes: Option<StructAttributes>,
    pub kind: DeclKind,
    /// The protocol supplies a serializer body for this shape.
    pub custom_serializer: bool,
    /// The protocol supplies a deserializer body for this shape.
    pub custom_deserializer: bool,
}

/// Documentation text with backslashes and quotes escaped for a string literal.
pub open spec fn escaped_doc(s: Seq<char>) -> Seq<char>
    decreases s.len(),
{
    if s.len() == 0 {
        s
    } else {
        escaped_doc(s.drop_last()) + if s.last() == '\\' {
            seq!['\\', '\\']
        } else if s.last() == '"' {
            seq!['\\', '"']
        } else {
            seq![s.last()]
        }
    }
}

pub open spec fn doc_matches(src: Option<String>, out: Option<String>) -> bool {
    match src {
        None => out is None,
        Some(t) => out is Some && out->0@ == escaped_doc(t@),
    }
}

/// The members that produce fields: the non-deprecated ones, in order.
pub open spec fn kept(ms: Seq<MemberRef>) -> Seq<MemberRef>
    decreases ms.len(),
{
    if ms.len() == 0 {
        ms
    } else if ms.last().deprecated {
        kept(ms.drop_last())
    } else {
        kept(ms.drop_last()).push(ms.last())
    }
}

pub open spec fn hint_of(s: &Service, m: MemberRef, serde_attrs: bool) -> FieldHint {
    if !serde_attrs {
        FieldHint::Plain
    } else if s.shapes@[m.target as int].body is Blob {
        FieldHint::Blob
    } else if s.shapes@[m.target as int].body is Boolean && !m.required {
        FieldHint::SkipIfAbsent
    } else {
        FieldHint::Plain
    }
}

pub open spec fn field_matches(s: &Service, m: MemberRef, serde_attrs: bool, f: Field) -> bool {
    &&& f.name@ == field_name_of(m.name@)
    &&& f.field_type@ == type_name_of(s.shapes@[m.target as int].name@)
    &&& f.optional == !m.required
    &&& doc_matches(m.documentation, f.documentation)
    &&& if serde_attrs {
        f.wire_name is Some && f.wire_name->0@ == m.name@
    } else {
        f.wire_name is None
    }
    &&& f.hint == hint_of(s, m, serde_attrs)
}

pub open spec fn fields_match(s: &Service, ms: Seq<MemberRef>, serde_attrs: bool, fs: Seq<Field>) -> bool {
    &&& fs.len() == kept(ms).len()
    &&& forall|k: int| 0 <= k < fs.len() ==> field_matches(s, kept(ms)[k], serde_attrs, #[trigger] fs[k])
}

pub open spec fn primitive_of(body: ShapeBody, ts: TimestampRepr) -> Option<Primitive> {
    match body {
        ShapeBody::Blob => Some(Primitive::Bytes),
        ShapeBody::Boolean => Some(Primitive::Bool),
        ShapeBody::Double => Some(Primitive::Float64),
        ShapeBody::Float => Some(Primitive::Float32),
        ShapeBody::Integer => Some(Primitive::Int32),
        ShapeBody::Long => Some(Primitive::Int64),
        ShapeBody::String => Some(Primitive::Text),
        ShapeBody::Timestamp => Some(Primitive::Timestamp(ts)),
        _ => None,
    }
}

pub open spec fn needs_serde_attrs(p: Protocol, ser: bool, de: bool) -> bool {
    p.spec_struct_attributes(ser, de).serialize || p.spec_struct_attributes(ser, de).deserialize
}

/// The declaration kind that the kind of shape `i` calls for.
pub open spec fn kind_matches(s: &Service, i: int, p: Protocol, ser: bool, de: bool, k: DeclKind) -> bool {
    match s.shapes@[i].body {
        ShapeBody::Structure(ms) => if ms@.len() == 0 {
            k is Marker
        } else {
            k is Record && fields_match(s, ms@, needs_serde_attrs(p, ser, de), k->Record_0@)
        },
        ShapeBody::List(e) => k is Sequence && k->Sequence_0@ == type_name_of(
            s.shapes@[e as int].name@,
        ),
        ShapeBody::Mapping(a, b) => k is Mapping && k->Mapping_0@ == type_name_of(
            s.shapes@[a as int].name@,
        ) && k->Mapping_1@ == type_name_of(s.shapes@[b as int].name@),
        _ => k is Alias && Some(k->Alias_0) == primitive_of(
            s.shapes@[i].body,
            p.spec_timestamp_type(),
        ),
    }
}

/// The declaration of shape `i` under protocol `p`, given its membership in the
/// serialized and deserialized sets.
pub open spec fn decl_matches(s: &Service, i: int, p: Protocol, ser: bool, de: bool, d: Declaration) -> bool {
    &&& d.shape == i
    &&& d.name@ == type_name_of(s.shapes@[i].name@)
    &&& doc_matches(s.shapes@[i].documentation, d.documentation)
    &&& d.attributes == if s.shapes@[i].body is Structure {
        Some(p.spec_struct_attributes(ser, de))
    } else {
        None::<StructAttributes>
    }
    &&& kind_matches(s, i, p, ser, de, d.kind)
    &&& d.custom_serializer == (ser && p.spec_custom_bodies())
    &&& d.custom_deserializer == (de && p.spec_custom_bodies())
}

/// Escapes backslashes and quotes so the text can stand in a string literal.
pub fn escape_doc(s: &str) -> (r: String)
    ensures
        r@ == escaped_doc(s@),
{
    let n = s.unicode_len();
    let mut out = String::new();
    let mut i: usize = 0;
    assert(s@.take(0) =~= Seq::<char>::empty());
    while i < n
        invariant
            n == s@.len(),
            i <= n,
            out@ == escaped_doc(s@.take(i as int)),
        decreases n - i,
    {
        let c = s.get_char(i);
        assert(s@.take(i + 1).drop_last() =~= s@.take(i as int));
        let ghost prev = out@;
        if c == '\\' {
            proof {
                reveal_strlit("\\\\");
            }
            out.append("\\\\");
            assert(out@ =~= prev + seq!['\\', '\\']);
        } else if c == '"' {
            proof {
                reveal_strlit("\\\"");
            }
            out.append("\\\"");
            assert(out@ =~= prev + seq!['\\', '"']);
        } else {
            let one = s.substring_char(i, i + 1);
            out.append(one);
            assert(out@ =~= prev + seq![c]);
        }
        i += 1;
    }
    assert(s@.take(n as int) =~= s@);
    out
}

/// Escaped documentation, when there is any.
pub fn escape_doc_option(d: &Option<String>) -> (r: Option<String>)
    ensures
        doc_matches(*d, r),
{
    match d {
        Some(t) => Some(escape_doc(t.as_str())),
        None => None,
    }
}

/// The fields of a record: one per non-deprecated member, in member order.
pub fn generate_struct_fields(service: &Service, members: &Vec<MemberRef>, serde_attrs: bool) -> (r: Vec<Field>)
    requires
        forall|j: int| 0 <= j < members@.len() ==> (#[trigger] members@[j]).target < service.shapes@.len(),
    ensures
        fields_match(service, members@, serde_attrs, r@),
{
    let mut fields: Vec<Field> = Vec::new();
    let mut i: usize = 0;
    assert(members@.take(0) =~= Seq::<MemberRef>::empty());
    while i < members.len()
        invariant
            i <= members@.len(),
            forall|j: int| 0 <= j < members@.len() ==> (#[trigger] members@[j]).target < service.shapes@.len(),
            fields_match(service, members@.take(i as int), serde_attrs, fields@),
        decreases members@.len() - i,
    {
        let m = &members[i];
        assert(members@.take(i + 1).drop_last() =~= members@.take(i as int));
        assert(members@.take(i + 1).last() == *m);
        if !m.deprecated {
            let target = &service.shapes[m.target];
            let wire_name = if serde_attrs {
                Some(m.name.clone())
            } else {
                None
            };
            let hint = if !serde_attrs {
                FieldHint::Plain
            } else {
                match target.body {
                    ShapeBody::Blob => FieldHint::Blob,
                    ShapeBody::Boolean => if m.required {
                        FieldHint::Plain
                    } else {
                        FieldHint::SkipIfAbsent
                    },
                    _ => FieldHint::Plain,
                }
            };
            let f = Field {
                name: generate_field_name(m.name.as_str()),
                field_type: mutate_type_name(target.name.as_str()),
                optional: !m.required,
                documentation: escape_doc_option(&m.documentation),
                wire_name,
                hint,
            };
            assert(field_matches(service, *m, serde_attrs, f));
            fields.push(f);
        }
        i += 1;
        assert(fields_match(service, members@.take(i as int), serde_attrs, fields@));
    }
    assert(members@.take(i as int) =~= members@);
    fields
}

/// The indices of the shapes whose exception flag is `exception`, in order.
pub open spec fn indices_where(shapes: Seq<Shape>, exception: bool) -> Seq<int>
    decreases shapes.len(),
{
    if shapes.len() == 0 {
        Seq::empty()
    } else if shapes.last().exception == exception {
        indices_where(shapes.drop_last(), exception).push(shapes.len() - 1)
    } else {
        indices_where(shapes.drop_last(), exception)
    }
}

/// The declarations of a service: one per non-exception shape, in shape order,
/// each compiled with its membership in the reachability sets.
pub open spec fn types_match(s: &Service, p: Protocol, ds: Seq<Declaration>) -> bool {
    &&& ds.len() == indices_where(s.shapes@, false).len()
    &&& forall|k: int|
        0 <= k < ds.len() ==> (#[trigger] ds[k]).shape == indices_where(s.shapes@, false)[k]
            && decl_matches(
            s,
            ds[k].shape as int,
            p,
            reachable(s, false, ds[k].shape as int),
            reachable(s, true, ds[k].shape as int),
            ds[k],
        )
}

/// The declared type of a primitive shape; `None` for structures, lists and maps.
pub fn generate_primitive_type(body: &ShapeBody, for_timestamps: TimestampRepr) -> (r: Option<Primitive>)
    ensures
        r == primitive_of(*body, for_timestamps),
{
    match body {
        ShapeBody::Blob => Some(Primitive::Bytes),
        ShapeBody::Boolean => Some(Primitive::Bool),
        ShapeBody::Double => Some(Primitive::Float64),
        ShapeBody::Float => Some(Primitive::Float32),
        ShapeBody::Integer => Some(Primitive::Int32),
        ShapeBody::Long => Some(Primitive::Int64),
        ShapeBody::String => Some(Primitive::Text),
        ShapeBody::Timestamp => Some(Primitive::Timestamp(for_timestamps)),
        _ => None,
    }
}

/// Compiles shape `i` into its declaration.
pub fn generate_declaration(
    service: &Service,
    i: usize,
    serialized: bool,
    deserialized: bool,
    protocol: Protocol,
) -> (r: Declaration)
    requires
        service.wf(),
        i < service.shapes@.len(),
    ensures
        decl_matches(service, i as int, protocol, serialized, deserialized, r),
{
    let shape = &service.shapes[i];
    let ghost succ = crate::model::successors_of(service.shapes@[i as int].body);
    let name = mutate_type_name(shape.name.as_str());
    let (attributes, kind) = match &shape.body {
        ShapeBody::Structure(ms) => {
            let attrs = protocol.generate_struct_attributes(serialized, deserialized);
            if ms.len() == 0 {
                (Some(attrs), DeclKind::Marker)
            } else {
                assert forall|j: int| 0 <= j < ms@.len() implies (#[trigger] ms@[j]).target
                    < service.shapes@.len() by {
                    assert(succ[j] == ms@[j].target);
                }
                let fields = generate_struct_fields(service, ms, attrs.serialize || attrs.deserialize);
                (Some(attrs), DeclKind::Record(fields))
            }
        },
        ShapeBody::List(e) => {
            assert(succ[0] == *e);
            (None, DeclKind::Sequence(mutate_type_name(service.shapes[*e].name.as_str())))
        },
        ShapeBody::Mapping(a, b) => {
            assert(succ[0] == *a && succ[1] == *b);
            let key = mutate_type_name(service.shapes[*a].name.as_str());
            let value = mutate_type_name(service.shapes[*b].name.as_str());
            (None, DeclKind::Mapping(key, value))
        },
        _ => {
            let prim = generate_primitive_type(&shape.body, protocol.timestamp_type());
            (None, DeclKind::Alias(prim.unwrap()))
        },
    };
    let custom = protocol.custom_bodies();
    Declaration {
        shape: i,
        name,
        documentation: escape_doc_option(&shape.documentation),
        attributes,
        kind,
        custom_serializer: serialized && custom,
        custom_deserializer: deserialized && custom,
    }
}

/// Compiles every non-exception shape, in shape order.
pub fn generate_types(service: &Service, protocol: Protocol) -> (r: Vec<Declaration>)
    requires
        service.wf(),
    ensures
        types_match(service, protocol, r@),
{
    let (serialized_types, deserialized_types) = filter_types(service);
    let mut decls: Vec<Declaration> = Vec::new();
    let mut i: usize = 0;
    assert(service.shapes@.take(0) =~= Seq::<Shape>::empty());
    while i < service.shapes.len()
        invariant
            service.wf(),
            i <= service.shapes@.len(),
            serialized_types@.len() == service.shapes@.len(),
            deserialized_types@.len() == service.shapes@.len(),
            forall|x: int|
                0 <= x < serialized_types@.len() ==> serialized_types@[x] == reachable(service, false, x),
            forall|x: int|
                0 <= x < deserialized_types@.len() ==> deserialized_types@[x] == reachable(service, true, x),
            decls@.len() == indices_where(service.shapes@.take(i as int), false).len(),
            forall|k: int|
                0 <= k < decls@.len() ==> (#[trigger] decls@[k]).shape == indices_where(
                    service.shapes@.take(i as int),
                    false,
                )[k] && decl_matches(
                    service,
                    decls@[k].shape as int,
                    protocol,
                    reachable(service, false, decls@[k].shape as int),
                    reachable(service, true, decls@[k].shape as int),
                    decls@[k],
                ),
        decreases service.shapes@.len() - i,
    {
        assert(service.shapes@.take(i + 1).drop_last() =~= service.shapes@.take(i as int));
        if !service.shapes[i].exception {
            let d = generate_declaration(service, i, serialized_types[i], deserialized_types[i], protocol);
            decls.push(d);
        }
        i += 1;
    }
    assert(service.shapes@.take(i as int) =~= service.shapes@);
    decls
}

/// Every index listed for a flag value is in range and names a shape carrying it.
pub proof fn lemma_indices_where_bounds(shapes: Seq<Shape>, exception: bool)
    ensures
        forall|k: int|
            0 <= k < indices_where(shapes, exception).len() ==> 0 <= #[trigger] indices_where(
                shapes,
                exception,
            )[k] < shapes.len() && shapes[indices_where(shapes, exception)[k]].exception
                == exception,
    decreases shapes.len(),
{
    if shapes.len() > 0 {
        let prev = shapes.drop_last();
        lemma_indices_where_bounds(prev, exception);
        assert forall|k: int| 0 <= k < indices_where(prev, exception).len() implies shapes[indices_where(
            prev,
            exception,
        )[k]] == prev[#[trigger] indices_where(prev, exception)[k]] by {}
    }
}

/// A shape is listed for a flag value exactly when it carries that flag: in
/// particular no exception shape is declared, and every other shape is.
pub proof fn lemma_indices_where_exact(shapes: Seq<Shape>, exception: bool, x: int)
    requires
        0 <= x < shapes.len(),
    ensures
        indices_where(shapes, exception).contains(x) <==> shapes[x].exception == exception,
    decreases shapes.len(),
{
    let prev = shapes.drop_last();
    let pi = indices_where(prev, exception);
    let all = indices_where(shapes, exception);
    lemma_indices_where_bounds(prev, exception);
    if x == shapes.len() - 1 {
        if shapes[x].exception == exception {
            assert(all[all.len() - 1] == x);
        } else {
            assert(all == pi);
            if all.contains(x) {
                let k = choose|k: int| 0 <= k < all.len() && all[k] == x;
                assert(pi[k] < prev.len());
            }
        }
    } else {
        lemma_indices_where_exact(prev, exception, x);
        assert(prev[x] == shapes[x]);
        if pi.contains(x) {
            let k = choose|k: int| 0 <= k < pi.len() && pi[k] == x;
            assert(all[k] == x);
        }
        if all.contains(x) {
            let k = choose|k: int| 0 <= k < all.len() && all[k] == x;
            if k < pi.len() {
                assert(pi[k] == x);
            }
        }
    }
}

/// A structure holding one deprecated and one normal member, in either order,
/// yields exactly one field, for the normal member.
pub proof fn lemma_deprecated_member_dropped(dep: MemberRef, normal: MemberRef)
    requires
        dep.deprecated,
        !normal.deprecated,
    ensures
        kept(seq![dep, normal]) == seq![normal],
        kept(seq![normal, dep]) == seq![normal],
{
    assert(seq![dep, normal].drop_last() =~= seq![dep]);
    assert(seq![dep].drop_last() =~= Seq::<MemberRef>::empty());
    assert(seq![normal, dep].drop_last() =~= seq![normal]);
    assert(seq![normal].drop_last() =~= Seq::<MemberRef>::empty());
    assert(seq![dep].last() == dep);
    assert(seq![normal].last() == normal);
    assert(seq![dep, normal].last() == normal);
    assert(seq![normal, dep].last() == dep);
    assert(kept(Seq::<MemberRef>::empty()) =~= Seq::<MemberRef>::empty());
    assert(kept(seq![dep]) == kept(Seq::<MemberRef>::empty()));
    assert(kept(seq![dep]) =~= Seq::<MemberRef>::empty());
    assert(kept(seq![normal]) =~= seq![normal]);
    assert(kept(seq![dep, normal]) =~= seq![normal]);
}

} // verus!
