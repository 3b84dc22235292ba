//! ABI description generation: a read-only projection of typed
//! declarations into `(name, type string, nested components)` triples,
//! suitable for serialization into an external interface-description
//! format. Nothing here mutates the type table, and recursion is bounded
//! because an interned type can contain other types only through earlier
//! identifiers, never by value.

use vstd::prelude::*;
use vstd::string::StringExecFns;
use crate::type_engine::{IntegerBits, TypeEngine, TypeId, TypeInfo};
use crate::type_engine::{deref_in, lemma_deref_le, type_at, tys_wf, valid_in};

verus! {

/// One entry of an ABI description: a component's name, the name of its
/// type, and the descriptions of the type's own components, if it has
/// any.
#[derive(Debug)]
pub struct Property {
    pub name: String,
    pub type_field: String,
    pub components: Option<Vec<Property>>,
}

/// The type string the ABI uses for the type `id` resolves to.
pub open spec fn spec_type_str(ts: Seq<TypeInfo>, id: TypeId) -> Seq<char> {
    match type_at(ts, deref_in(ts, id)) {
        TypeInfo::Unit => "()"@,
        TypeInfo::Boolean => "bool"@,
        TypeInfo::UnsignedInteger { bits } => match bits {
            IntegerBits::Eight => "u8"@,
            IntegerBits::Sixteen => "u16"@,
            IntegerBits::ThirtyTwo => "u32"@,
            IntegerBits::SixtyFour => "u64"@,
        },
        TypeInfo::UnknownGeneric { name } => name.text@,
        TypeInfo::Ref { .. } => "ref"@,
        TypeInfo::Struct { name, .. } => "struct "@ + name.text@,
        TypeInfo::Enum { name, .. } => "enum "@ + name.text@,
    }
}

/// Whether `p` correctly describes the type `id` resolves to: the right
/// type string, and one component per field or variant for the compound
/// kinds, each correctly described in turn.
pub open spec fn abi_matches(ts: Seq<TypeInfo>, id: TypeId, p: Property) -> bool
    decreases id.index, 1int,
{
    p.type_field@ == spec_type_str(ts, id) && abi_components_match(ts, id, p.components)
}

/// Whether `comps` lists exactly the components of the type `id` resolves
/// to: one per field of a struct or variant of an enum, under its own
/// name, and nothing for any other kind of type.
pub open spec fn abi_components_match(ts: Seq<TypeInfo>, id: TypeId, comps: Option<Vec<Property>>) -> bool
    decreases id.index, 0int,
{
    match type_at(ts, deref_in(ts, id)) {
        TypeInfo::Struct { fields, .. } => match comps {
            Some(cs) => cs@.len() == fields@.len() && forall|i: int|
                0 <= i < fields@.len() ==> (#[trigger] cs@[i]).name@ == fields@[i].name.text@ && (
                if fields@[i].type_id.index < id.index {
                    abi_matches(ts, fields@[i].type_id, cs@[i])
                } else {
                    false
                }),
            None => false,
        },
        TypeInfo::Enum { variant_types, .. } => match comps {
            Some(cs) => cs@.len() == variant_types@.len() && forall|i: int|
                0 <= i < variant_types@.len() ==> (#[trigger] cs@[i]).name@
                    == variant_types@[i].name.text@ && (
                if variant_types@[i].type_id.index < id.index {
                    abi_matches(ts, variant_types@[i].type_id, cs@[i])
                } else {
                    false
                }),
            None => false,
        },
        _ => comps is None,
    }
}

/// The ABI type string of the type `id` resolves to.
pub fn json_abi_str(engine: &TypeEngine, id: TypeId) -> (r: String)
    requires
        valid_in(engine@, id),
    ensures
        r@ == spec_type_str(engine@, id),
{
    let d = engine.resolved_id(id);
    proof {
        lemma_deref_le(engine@, id);
    }
    match engine.look_up_type_id_raw(d) {
        TypeInfo::Unit => "()".to_owned(),
        TypeInfo::Boolean => "bool".to_owned(),
        TypeInfo::UnsignedInteger { bits } => match bits {
            IntegerBits::Eight => "u8".to_owned(),
            IntegerBits::Sixteen => "u16".to_owned(),
            IntegerBits::ThirtyTwo => "u32".to_owned(),
            IntegerBits::SixtyFour => "u64".to_owned(),
        },
        TypeInfo::UnknownGeneric { name } => name.text.clone(),
        TypeInfo::Ref { .. } => "ref".to_owned(),
        TypeInfo::Struct { name, .. } => "struct ".to_owned().concat(name.text.as_str()),
        TypeInfo::Enum { name, .. } => "enum ".to_owned().concat(name.text.as_str()),
    }
}

/// The component descriptions of the type `id` resolves to: one per field
/// or variant for the compound kinds, nothing otherwise.
pub fn generate_components(engine: &TypeEngine, id: TypeId) -> (r: Option<Vec<Property>>)
    requires
        tys_wf(engine@),
        valid_in(engine@, id),
    ensures
        abi_components_match(engine@, id, r),
    decreases id.index,
{
    let d = engine.resolved_id(id);
    proof {
        lemma_deref_le(engine@, id);
    }
    match engine.look_up_type_id_raw(d) {
        TypeInfo::Struct { fields, .. } => {
            let n = fields.len();
            let mut comps: Vec<Property> = Vec::new();
            let mut i: usize = 0;
            while i < n
                invariant
                    tys_wf(engine@),
                    valid_in(engine@, id),
                    d == deref_in(engine@, id),
                    type_at(engine@, d) matches TypeInfo::Struct { fields: fs, .. } && fs@
                        =~= fields@,
                    n == fields@.len(),
                    i <= n,
                    comps@.len() == i,
                    forall|k: int|
                        0 <= k < n ==> (#[trigger] fields@[k]).type_id.index < id.index,
                    forall|k: int|
                        0 <= k < i ==> (#[trigger] comps@[k]).name@ == fields@[k].name.text@
                            && abi_matches(engine@, fields@[k].type_id, comps@[k]),
                decreases n - i,
            {
                let tf = json_abi_str(engine, fields[i].type_id);
                let sub = generate_components(engine, fields[i].type_id);
                comps.push(Property {
                    name: fields[i].name.text.clone(),
                    type_field: tf,
                    components: sub,
                });
                i += 1;
            }
            Some(comps)
        },
        TypeInfo::Enum { variant_types, .. } => {
            let n = variant_types.len();
            let mut comps: Vec<Property> = Vec::new();
            let mut i: usize = 0;
            while i < n
                invariant
                    tys_wf(engine@),
                    valid_in(engine@, id),
                    d == deref_in(engine@, id),
                    type_at(engine@, d) matches TypeInfo::Enum { variant_types: vs, .. } && vs@
                        =~= variant_types@,
                    n == variant_types@.len(),
                    i <= n,
                    comps@.len() == i,
                    forall|k: int|
                        0 <= k < n ==> (#[trigger] variant_types@[k]).type_id.index < id.index,
                    forall|k: int|
                        0 <= k < i ==> (#[trigger] comps@[k]).name@ == variant_types@[k].name.text@
                            && abi_matches(engine@, variant_types@[k].type_id, comps@[k]),
                decreases n - i,
            {
                let tf = json_abi_str(engine, variant_types[i].type_id);
                let sub = generate_components(engine, variant_types[i].type_id);
                comps.push(Property {
                    name: variant_types[i].name.text.clone(),
                    type_field: tf,
                    components: sub,
                });
                i += 1;
            }
            Some(comps)
        },
        _ => None,
    }
}

} // verus!
