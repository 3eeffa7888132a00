use vstd::prelude::*;

use crate::error::{BuildErrorView, PrutoipaBuildError, view_result};
use crate::field::{Field, FieldView, field_has_defect, field_is_well_formed, resolve_field};
use crate::proto::{FieldProto, MessageProto};
use crate::syntax::Syntax;

verus! {

/// A message type with its resolved fields, in declaration order, and the
/// names of the fields it leaves out because they are not supported yet.
#[derive(Debug)]
pub struct MessageDescriptor {
    fields: Vec<Field>,
    skipped: Vec<String>,
}

impl View for MessageDescriptor {
    type V = Seq<FieldView>;

    closed spec fn view(&self) -> Seq<FieldView> {
        self.fields@.map_values(|f: Field| f@)
    }
}

impl MessageDescriptor {
    /// The names of the fields left out, in declaration order.
    pub closed spec fn skipped_view(&self) -> Seq<Seq<char>> {
        self.skipped@.map_values(|s: String| s@)
    }
}

/// Whether no raw field of a message is a defect.
pub open spec fn fields_well_formed(fs: Seq<FieldProto>) -> bool {
    forall|i: int| 0 <= i < fs.len() ==> !field_has_defect(#[trigger] fs[i])
}

/// Whether no raw field of a message is a defect.
pub fn fields_are_well_formed(fields: &Vec<FieldProto>) -> (r: bool)
    ensures
        r == fields_well_formed(fields@),
{
    let mut i: usize = 0;
    while i < fields.len()
        invariant
            i <= fields.len(),
            forall|k: int| 0 <= k < i ==> !field_has_defect(#[trigger] fields@[k]),
        decreases fields.len() - i,
    {
        if !field_is_well_formed(&fields[i]) {
            return false;
        }
        i = i + 1;
    }
    true
}

/// The names of the members of real one-of groups, in declaration order:
/// the fields a message leaves out.
pub open spec fn skipped_fields(fs: Seq<FieldProto>) -> Seq<Seq<char>>
    decreases fs.len(),
{
    if fs.len() == 0 {
        Seq::empty()
    } else {
        let prev = skipped_fields(fs.drop_last());
        if is_plain_oneof_member(fs.last()) && fs.last().name is Some {
            prev.push(fs.last().name->0@)
        } else {
            prev
        }
    }
}

/// Whether a raw field belongs to a real one-of group, as opposed to the
/// synthetic one-of of a proto3 `optional` field. Such fields are not
/// supported yet and are left out of their message.
pub open spec fn is_plain_oneof_member(f: FieldProto) -> bool {
    f.oneof_index is Some && f.proto3_optional != Some(true)
}

/// The fields of a message resolved in order: the first error stops the
/// resolution, and members of a real one-of group are left out.
pub open spec fn resolve_fields(syntax: Syntax, fs: Seq<FieldProto>) -> Result<
    Seq<FieldView>,
    BuildErrorView,
>
    decreases fs.len(),
{
    if fs.len() == 0 {
        Ok(Seq::empty())
    } else {
        match resolve_fields(syntax, fs.drop_last()) {
            Err(e) => Err(e),
            Ok(prev) => match resolve_field(syntax, fs.last()) {
                Err(e) => Err(e),
                Ok(f) => if is_plain_oneof_member(fs.last()) {
                    Ok(prev)
                } else {
                    Ok(prev.push(f))
                },
            },
        }
    }
}

/// Once a prefix of the fields fails to resolve, the whole sequence fails with the same error.
pub proof fn lemma_resolve_fields_error_persists(syntax: Syntax, fs: Seq<FieldProto>, k: int)
    requires
        0 <= k <= fs.len(),
        resolve_fields(syntax, fs.take(k)) is Err,
    ensures
        resolve_fields(syntax, fs) == resolve_fields(syntax, fs.take(k)),
    decreases fs.len(),
{
    if k == fs.len() {
        assert(fs.take(k) == fs);
    } else {
        assert(fs.drop_last().take(k) == fs.take(k));
        lemma_resolve_fields_error_persists(syntax, fs.drop_last(), k);
    }
}

/// Copies a sequence of fields.
fn clone_fields(fields: &Vec<Field>) -> (r: Vec<Field>)
    ensures
        r@ == fields@,
{
    let mut out: Vec<Field> = Vec::new();
    let mut i: usize = 0;
    while i < fields.len()
        invariant
            i <= fields.len(),
            out@ == fields@.take(i as int),
        decreases fields.len() - i,
    {
        out.push(fields[i].clone());
        assert(fields@.take(i + 1) == fields@.take(i as int).push(fields@[i as int]));
        i = i + 1;
    }
    assert(fields@.take(fields.len() as int) == fields@);
    out
}

/// Copies a sequence of names.
fn clone_names(names: &Vec<String>) -> (r: Vec<String>)
    ensures
        r@.map_values(|s: String| s@) == names@.map_values(|s: String| s@),
{
    let mut out: Vec<String> = Vec::new();
    let mut i: usize = 0;
    while i < names.len()
        invariant
            i <= names.len(),
            out@ == names@.take(i as int),
        decreases names.len() - i,
    {
        out.push(names[i].clone());
        assert(names@.take(i + 1) == names@.take(i as int).push(names@[i as int]));
        i = i + 1;
    }
    assert(names@.take(names.len() as int) == names@);
    out
}

impl Clone for MessageDescriptor {
    fn clone(&self) -> (r: Self)
        ensures
            r@ == self@,
            r.skipped_view() == self.skipped_view(),
    {
        MessageDescriptor { fields: clone_fields(&self.fields), skipped: clone_names(&self.skipped) }
    }
}

impl MessageDescriptor {
    /// Resolves every field of a raw message under the given dialect.
    pub fn new(syntax: Syntax, descriptor: &MessageProto) -> (r: Result<Self, PrutoipaBuildError>)
        requires
            fields_well_formed(descriptor.field@),
        ensures
            view_result(r) == resolve_fields(syntax, descriptor.field@),
            r matches Ok(m) ==> m.skipped_view() == skipped_fields(descriptor.field@),
    {
        let mut fields: Vec<Field> = Vec::new();
        let mut skipped: Vec<String> = Vec::new();
        let mut i: usize = 0;
        let n = descriptor.field.len();
        assert(descriptor.field@.take(0) =~= Seq::<FieldProto>::empty());
        assert(fields@.map_values(|f: Field| f@) =~= Seq::<FieldView>::empty());
        assert(skipped@.map_values(|s: String| s@) =~= Seq::<Seq<char>>::empty());
        while i < n
            invariant
                n == descriptor.field@.len(),
                i <= n,
                fields_well_formed(descriptor.field@),
                skipped@.map_values(|s: String| s@) == skipped_fields(descriptor.field@.take(i as int)),
                resolve_fields(syntax, descriptor.field@.take(i as int)) == Ok::<
                    Seq<FieldView>,
                    BuildErrorView,
                >(fields@.map_values(|f: Field| f@)),
            decreases n - i,
        {
            let raw = &descriptor.field[i];
            assert(descriptor.field@.take(i + 1).drop_last() == descriptor.field@.take(i as int));
            assert(descriptor.field@.take(i + 1).last() == *raw);
            let field = match Field::new(&syntax, raw) {
                Ok(f) => f,
                Err(e) => {
                    proof {
                        lemma_resolve_fields_error_persists(
                            syntax,
                            descriptor.field@,
                            i + 1,
                        );
                    }
                    return Err(e);
                },
            };
            let plain_oneof = raw.oneof_index.is_some() && match raw.proto3_optional {
                Some(b) => !b,
                None => true,
            };
            if !plain_oneof {
                let ghost before = fields@;
                fields.push(field);
                assert(fields@.map_values(|f: Field| f@) =~= before.map_values(|f: Field| f@).push(
                    field@,
                ));
            } else {
                let ghost before = skipped@;
                let name = field.get_declared_name();
                skipped.push(name);
                assert(skipped@.map_values(|s: String| s@) =~= before.map_values(|s: String| s@).push(
                    raw.name->0@,
                ));
            }
            i = i + 1;
        }
        assert(descriptor.field@.take(n as int) == descriptor.field@);
        Ok(MessageDescriptor { fields, skipped })
    }

    /// The names of the fields left out because they belong to a real one-of
    /// group, which is not supported yet.
    pub fn get_skipped_fields(&self) -> (r: Vec<String>)
        ensures
            r@.map_values(|s: String| s@) == self.skipped_view(),
    {
        clone_names(&self.skipped)
    }

    /// The resolved fields, in declaration order.
    pub fn get_fields(&self) -> (r: Vec<Field>)
        ensures
            r@.map_values(|f: Field| f@) == self@,
    {
        clone_fields(&self.fields)
    }
}

} // verus!
