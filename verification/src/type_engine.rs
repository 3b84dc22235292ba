//! The type table: an interning store mapping structural type descriptions
//! to small type identifiers.
//!
//! A [`TypeId`] is an opaque handle into the table; identifiers are never
//! compared by themselves but by the structural value they resolve to. A
//! description produced by a substitution is stored as a `Ref` wrapper
//! around the concrete type it was substituted with; resolution
//! ([`deref_in`]) sees through such wrappers, so a `Ref` and its target
//! denote the same type while remaining distinguishable descriptions.
//!
//! The table enforces two invariants ([`tys_wf`]): every description only
//! mentions identifiers minted before it, and no two stored descriptions
//! are structurally equal. Under these, "same type" is exactly equality of
//! resolved identifiers ([`tys_eq`]), and interning is canonical: equal
//! descriptions always receive equal identifiers.

use vstd::prelude::*;
use crate::span::Ident;
use crate::struct_decl::TypedStructField;
use crate::enum_decl::TypedEnumVariant;

verus! {

/// An opaque handle to an interned structural type description.
#[derive(Clone, Copy, Debug, PartialEq, Eq, Structural)]
pub struct TypeId {
    pub index: usize,
}

/// How many bits an unsigned-integer type has.
#[derive(Clone, Copy, Debug, PartialEq, Eq, Structural)]
pub enum IntegerBits {
    Eight,
    Sixteen,
    ThirtyTwo,
    SixtyFour,
}

/// A formal type parameter of a generic declaration; `type_id` names the
/// interned placeholder type the parameter stands for.
#[derive(Debug)]
pub struct TypeParameter {
    pub name: Ident,
    pub type_id: TypeId,
}

impl Clone for TypeParameter {
    fn clone(&self) -> (r: Self)
        ensures
            r == *self,
    {
        TypeParameter { name: self.name.clone(), type_id: self.type_id }
    }
}

/// A structural type description: primitive kinds, references to other
/// types, placeholders for unresolved generics, and the two compound kinds.
#[derive(Debug)]
pub enum TypeInfo {
    Unit,
    Boolean,
    UnsignedInteger { bits: IntegerBits },
    /// A not-yet-substituted type parameter.
    UnknownGeneric { name: Ident },
    /// A reference to another interned type; the marker a substitution
    /// leaves behind.
    Ref { referenced: TypeId },
    Struct { name: Ident, fields: Vec<TypedStructField>, type_parameters: Vec<TypeParameter> },
    Enum { name: Ident, variant_types: Vec<TypedEnumVariant>, type_parameters: Vec<TypeParameter> },
}

/// An ordered mapping from formal type parameters to the concrete types
/// substituted for them.
pub type TypeMapping = Vec<(TypeParameter, TypeId)>;

/// The description stored for `id`.
pub open spec fn type_at(ts: Seq<TypeInfo>, id: TypeId) -> TypeInfo {
    ts[id.index as int]
}

/// Whether `id` was minted by the table holding `ts`.
pub open spec fn valid_in(ts: Seq<TypeInfo>, id: TypeId) -> bool {
    id.index < ts.len()
}

/// The identifier `id` resolves to: `Ref` wrappers are followed until a
/// plain description is reached.
pub open spec fn deref_in(ts: Seq<TypeInfo>, id: TypeId) -> TypeId
    decreases id.index,
{
    if valid_in(ts, id) {
        match type_at(ts, id) {
            TypeInfo::Ref { referenced } => {
                if referenced.index < id.index {
                    deref_in(ts, referenced)
                } else {
                    id
                }
            },
            _ => id,
        }
    } else {
        id
    }
}

/// Whether `a` and `b` denote the same type: both resolve to the same
/// canonical identifier.
pub open spec fn tys_eq(ts: Seq<TypeInfo>, a: TypeId, b: TypeId) -> bool {
    deref_in(ts, a) == deref_in(ts, b)
}

/// Structural equality of field lists: same length, same names in order,
/// and pairwise the same resolved types. Source spans play no part.
pub open spec fn fields_eq_in(ts: Seq<TypeInfo>, a: Seq<TypedStructField>, b: Seq<TypedStructField>) -> bool {
    a.len() == b.len() && forall|i: int|
        0 <= i < a.len() ==> (#[trigger] a[i]).name.text@ == b[i].name.text@
            && tys_eq(ts, a[i].type_id, b[i].type_id)
}

/// Structural equality of variant lists: names, resolved types and
/// discriminant tags agree in order. Source spans play no part.
pub open spec fn variants_eq_in(ts: Seq<TypeInfo>, a: Seq<TypedEnumVariant>, b: Seq<TypedEnumVariant>) -> bool {
    a.len() == b.len() && forall|i: int|
        0 <= i < a.len() ==> (#[trigger] a[i]).name.text@ == b[i].name.text@
            && tys_eq(ts, a[i].type_id, b[i].type_id) && a[i].tag == b[i].tag
}

/// Structural equality of type-parameter lists.
pub open spec fn params_eq_in(ts: Seq<TypeInfo>, a: Seq<TypeParameter>, b: Seq<TypeParameter>) -> bool {
    a.len() == b.len() && forall|i: int|
        0 <= i < a.len() ==> (#[trigger] a[i]).name.text@ == b[i].name.text@
            && tys_eq(ts, a[i].type_id, b[i].type_id)
}

/// Structural equality of two type descriptions relative to the table:
/// the same kind of type, with equal names and pairwise the same resolved
/// components. A `Ref` equals only another `Ref` to the same type, so the
/// substitution marker survives interning.
pub open spec fn infos_eq_in(ts: Seq<TypeInfo>, x: TypeInfo, y: TypeInfo) -> bool {
    match (x, y) {
        (TypeInfo::Unit, TypeInfo::Unit) => true,
        (TypeInfo::Boolean, TypeInfo::Boolean) => true,
        (TypeInfo::UnsignedInteger { bits: bx }, TypeInfo::UnsignedInteger { bits: by }) => bx == by,
        (TypeInfo::UnknownGeneric { name: nx }, TypeInfo::UnknownGeneric { name: ny }) => nx.text@ == ny.text@,
        (TypeInfo::Ref { referenced: rx }, TypeInfo::Ref { referenced: ry }) => tys_eq(ts, rx, ry),
        (
            TypeInfo::Struct { name: nx, fields: fx, type_parameters: px },
            TypeInfo::Struct { name: ny, fields: fy, type_parameters: py },
        ) => nx.text@ == ny.text@ && fields_eq_in(ts, fx@, fy@) && params_eq_in(ts, px@, py@),
        (
            TypeInfo::Enum { name: nx, variant_types: vx, type_parameters: px },
            TypeInfo::Enum { name: ny, variant_types: vy, type_parameters: py },
        ) => nx.text@ == ny.text@ && variants_eq_in(ts, vx@, vy@) && params_eq_in(ts, px@, py@),
        _ => false,
    }
}

/// Whether every identifier mentioned by the lists lies below `bound`.
pub open spec fn fields_wf_in(fields: Seq<TypedStructField>, bound: int) -> bool {
    forall|i: int| 0 <= i < fields.len() ==> (#[trigger] fields[i]).type_id.index < bound
}

pub open spec fn variants_wf_in(variants: Seq<TypedEnumVariant>, bound: int) -> bool {
    forall|i: int| 0 <= i < variants.len() ==> (#[trigger] variants[i]).type_id.index < bound
}

pub open spec fn params_wf_in(params: Seq<TypeParameter>, bound: int) -> bool {
    forall|i: int| 0 <= i < params.len() ==> (#[trigger] params[i]).type_id.index < bound
}

/// Whether every identifier mentioned by `info` lies below `bound`; stored
/// descriptions only mention identifiers minted before them.
pub open spec fn info_wf_in(info: TypeInfo, bound: int) -> bool {
    match info {
        TypeInfo::Ref { referenced } => referenced.index < bound,
        TypeInfo::Struct { fields, type_parameters, .. } =>
            fields_wf_in(fields@, bound) && params_wf_in(type_parameters@, bound),
        TypeInfo::Enum { variant_types, type_parameters, .. } =>
            variants_wf_in(variant_types@, bound) && params_wf_in(type_parameters@, bound),
        _ => true,
    }
}

/// The table's invariant: entries mention only earlier identifiers, and no
/// two entries are structurally equal.
pub open spec fn tys_wf(ts: Seq<TypeInfo>) -> bool {
    &&& forall|i: int| 0 <= i < ts.len() ==> info_wf_in(#[trigger] ts[i], i)
    &&& forall|i: int, j: int|
        0 <= i < j < ts.len() ==> !infos_eq_in(ts, #[trigger] ts[i], #[trigger] ts[j])
}

/// `post` is `pre` with zero or more descriptions appended.
pub open spec fn tys_extend(post: Seq<TypeInfo>, pre: Seq<TypeInfo>) -> bool {
    pre.len() <= post.len() && forall|i: int| 0 <= i < pre.len() ==> post[i] == #[trigger] pre[i]
}

/// The first entry at or after `j` structurally equal to `info`, if any.
pub open spec fn find_eq_in(ts: Seq<TypeInfo>, info: TypeInfo, j: int) -> Option<TypeId>
    decreases ts.len() - j,
{
    if j < 0 || j >= ts.len() {
        None
    } else if infos_eq_in(ts, ts[j], info) {
        Some(TypeId { index: j as usize })
    } else {
        find_eq_in(ts, info, j + 1)
    }
}

/// The identifier interning `info` yields: the existing structurally-equal
/// entry if there is one, else the next fresh index.
pub open spec fn intern_id_in(ts: Seq<TypeInfo>, info: TypeInfo) -> TypeId {
    match find_eq_in(ts, info, 0) {
        Some(id) => id,
        None => TypeId { index: ts.len() as usize },
    }
}

/// The table state interning `info` leaves behind.
pub open spec fn intern_tys(ts: Seq<TypeInfo>, info: TypeInfo) -> Seq<TypeInfo> {
    match find_eq_in(ts, info, 0) {
        Some(_) => ts,
        None => ts.push(info),
    }
}

/// The first mapping pair at or after `i` whose formal parameter denotes
/// the same type as `id`, yielding the concrete type substituted for it.
pub open spec fn subst_match_in(ts: Seq<TypeInfo>, mapping: Seq<(TypeParameter, TypeId)>, id: TypeId, i: int) -> Option<TypeId>
    decreases mapping.len() - i,
{
    if i < 0 || i >= mapping.len() {
        None
    } else if tys_eq(ts, mapping[i].0.type_id, id) {
        Some(mapping[i].1)
    } else {
        subst_match_in(ts, mapping, id, i + 1)
    }
}

/// Whether every identifier the mapping mentions was minted by the table.
pub open spec fn mapping_wf_in(ts: Seq<TypeInfo>, mapping: Seq<(TypeParameter, TypeId)>) -> bool {
    forall|i: int|
        0 <= i < mapping.len() ==> (#[trigger] mapping[i]).0.type_id.index < ts.len()
            && mapping[i].1.index < ts.len()
}

/// Resolution never moves upward: the resolved identifier is at most the
/// identifier itself, so resolving a valid identifier stays valid.
pub proof fn lemma_deref_le(ts: Seq<TypeInfo>, id: TypeId)
    ensures
        deref_in(ts, id).index <= id.index,
    decreases id.index,
{
    if valid_in(ts, id) {
        match type_at(ts, id) {
            TypeInfo::Ref { referenced } => {
                if referenced.index < id.index {
                    lemma_deref_le(ts, referenced);
                }
            },
            _ => {},
        }
    }
}

/// Appending descriptions to the table never changes what an existing
/// identifier resolves to.
pub proof fn lemma_deref_extend(post: Seq<TypeInfo>, pre: Seq<TypeInfo>, id: TypeId)
    requires
        tys_extend(post, pre),
        id.index < pre.len(),
    ensures
        deref_in(post, id) == deref_in(pre, id),
    decreases id.index,
{
    match type_at(pre, id) {
        TypeInfo::Ref { referenced } => {
            if referenced.index < id.index {
                lemma_deref_extend(post, pre, referenced);
            }
        },
        _ => {},
    }
}

/// Appending descriptions never changes whether two existing identifiers
/// denote the same type.
pub proof fn lemma_tys_eq_extend(post: Seq<TypeInfo>, pre: Seq<TypeInfo>, a: TypeId, b: TypeId)
    requires
        tys_extend(post, pre),
        a.index < pre.len(),
        b.index < pre.len(),
    ensures
        tys_eq(post, a, b) == tys_eq(pre, a, b),
{
    lemma_deref_extend(post, pre, a);
    lemma_deref_extend(post, pre, b);
}

/// Appending descriptions never changes structural equality of
/// descriptions whose identifiers were already minted.
pub proof fn lemma_infos_eq_extend(post: Seq<TypeInfo>, pre: Seq<TypeInfo>, x: TypeInfo, y: TypeInfo)
    requires
        tys_extend(post, pre),
        info_wf_in(x, pre.len() as int),
        info_wf_in(y, pre.len() as int),
    ensures
        infos_eq_in(post, x, y) == infos_eq_in(pre, x, y),
{
    match (x, y) {
        (TypeInfo::Ref { referenced: rx }, TypeInfo::Ref { referenced: ry }) => {
            lemma_tys_eq_extend(post, pre, rx, ry);
        },
        (
            TypeInfo::Struct { fields: fx, type_parameters: px, .. },
            TypeInfo::Struct { fields: fy, type_parameters: py, .. },
        ) => {
            assert forall|i: int| 0 <= i < fx@.len() && fy@.len() == fx@.len() implies
                tys_eq(post, (#[trigger] fx@[i]).type_id, fy@[i].type_id)
                    == tys_eq(pre, fx@[i].type_id, fy@[i].type_id) by {
                lemma_tys_eq_extend(post, pre, fx@[i].type_id, fy@[i].type_id);
            }
            assert forall|i: int| 0 <= i < px@.len() && py@.len() == px@.len() implies
                tys_eq(post, (#[trigger] px@[i]).type_id, py@[i].type_id)
                    == tys_eq(pre, px@[i].type_id, py@[i].type_id) by {
                lemma_tys_eq_extend(post, pre, px@[i].type_id, py@[i].type_id);
            }
        },
        (
            TypeInfo::Enum { variant_types: vx, type_parameters: px, .. },
            TypeInfo::Enum { variant_types: vy, type_parameters: py, .. },
        ) => {
            assert forall|i: int| 0 <= i < vx@.len() && vy@.len() == vx@.len() implies
                tys_eq(post, (#[trigger] vx@[i]).type_id, vy@[i].type_id)
                    == tys_eq(pre, vx@[i].type_id, vy@[i].type_id) by {
                lemma_tys_eq_extend(post, pre, vx@[i].type_id, vy@[i].type_id);
            }
            assert forall|i: int| 0 <= i < px@.len() && py@.len() == px@.len() implies
                tys_eq(post, (#[trigger] px@[i]).type_id, py@[i].type_id)
                    == tys_eq(pre, px@[i].type_id, py@[i].type_id) by {
                lemma_tys_eq_extend(post, pre, px@[i].type_id, py@[i].type_id);
            }
        },
        _ => {},
    }
}

/// If no entry before `j` is structurally equal to `info`, the search may
/// as well start at `j`.
pub proof fn lemma_find_eq_skip(ts: Seq<TypeInfo>, info: TypeInfo, j: int)
    requires
        0 <= j <= ts.len(),
        forall|k: int| 0 <= k < j ==> !infos_eq_in(ts, #[trigger] ts[k], info),
    ensures
        find_eq_in(ts, info, 0) == find_eq_in(ts, info, j),
    decreases j,
{
    if j > 0 {
        lemma_find_eq_skip(ts, info, j - 1);
        assert(find_eq_in(ts, info, j - 1) == find_eq_in(ts, info, j));
    }
}

/// A failed search means no entry from `j` on is structurally equal.
pub proof fn lemma_find_eq_none_all(ts: Seq<TypeInfo>, info: TypeInfo, j: int)
    requires
        0 <= j,
        find_eq_in(ts, info, j) is None,
    ensures
        forall|k: int| j <= k < ts.len() ==> !infos_eq_in(ts, #[trigger] ts[k], info),
    decreases ts.len() - j,
{
    if j < ts.len() {
        lemma_find_eq_none_all(ts, info, j + 1);
    }
}

/// Appending descriptions never changes which concrete type a mapping
/// substitutes for an existing identifier.
pub proof fn lemma_subst_match_extend(
    post: Seq<TypeInfo>,
    pre: Seq<TypeInfo>,
    mapping: Seq<(TypeParameter, TypeId)>,
    id: TypeId,
    i: int,
)
    requires
        tys_extend(post, pre),
        mapping_wf_in(pre, mapping),
        id.index < pre.len(),
    ensures
        subst_match_in(post, mapping, id, i) == subst_match_in(pre, mapping, id, i),
    decreases mapping.len() - i,
{
    if 0 <= i < mapping.len() {
        lemma_tys_eq_extend(post, pre, mapping[i].0.type_id, id);
        lemma_subst_match_extend(post, pre, mapping, id, i + 1);
    }
}

/// Structural equality of descriptions is symmetric.
pub proof fn lemma_infos_eq_sym(ts: Seq<TypeInfo>, x: TypeInfo, y: TypeInfo)
    ensures
        infos_eq_in(ts, x, y) == infos_eq_in(ts, y, x),
{
}

/// Structural equality of descriptions is transitive.
pub proof fn lemma_infos_eq_trans(ts: Seq<TypeInfo>, x: TypeInfo, y: TypeInfo, z: TypeInfo)
    requires
        infos_eq_in(ts, x, y),
        infos_eq_in(ts, y, z),
    ensures
        infos_eq_in(ts, x, z),
{
}

/// Structurally-equal descriptions are found at the same entry.
pub proof fn lemma_find_eq_congr(ts: Seq<TypeInfo>, x: TypeInfo, y: TypeInfo, j: int)
    requires
        infos_eq_in(ts, x, y),
    ensures
        find_eq_in(ts, x, j) == find_eq_in(ts, y, j),
    decreases ts.len() - j,
{
    if 0 <= j < ts.len() {
        lemma_infos_eq_sym(ts, x, y);
        if infos_eq_in(ts, ts[j], x) {
            lemma_infos_eq_trans(ts, ts[j], x, y);
        }
        if infos_eq_in(ts, ts[j], y) {
            lemma_infos_eq_trans(ts, ts[j], y, x);
        }
        lemma_find_eq_congr(ts, x, y, j + 1);
    }
}

/// Widening the bound preserves well-formedness of a description.
pub proof fn lemma_info_wf_mono(info: TypeInfo, b1: int, b2: int)
    requires
        info_wf_in(info, b1),
        b1 <= b2,
    ensures
        info_wf_in(info, b2),
{
}

/// Law: interning is canonical. Interning a description `b` that is
/// structurally equal to an already-interned description `a` yields the
/// identifier `a` received, with the table unchanged.
pub proof fn lemma_intern_canonical(ts: Seq<TypeInfo>, a: TypeInfo, b: TypeInfo)
    requires
        tys_wf(ts),
        info_wf_in(a, ts.len() as int),
        info_wf_in(b, ts.len() as int),
        infos_eq_in(ts, a, b),
    ensures
        intern_id_in(intern_tys(ts, a), b) == intern_id_in(ts, a),
        intern_tys(intern_tys(ts, a), b) == intern_tys(ts, a),
{
    match find_eq_in(ts, a, 0) {
        Some(_) => {
            lemma_find_eq_congr(ts, a, b, 0);
        },
        None => {
            let ts1 = ts.push(a);
            assert(tys_extend(ts1, ts));
            lemma_find_eq_congr(ts, a, b, 0);
            assert(find_eq_in(ts, b, 0) is None);
            lemma_find_eq_none_all(ts, b, 0);
            assert forall|k: int| 0 <= k < ts.len() implies !infos_eq_in(
                ts1,
                #[trigger] ts1[k],
                b,
            ) by {
                lemma_infos_eq_extend(ts1, ts, ts[k], b);
            }
            assert forall|k: int| 0 <= k < ts1.len() implies !(k < ts.len()
                && infos_eq_in(ts1, ts1[k], b)) by {}
            lemma_find_eq_skip(ts1, b, ts.len() as int);
            lemma_infos_eq_extend(ts1, ts, a, b);
            assert(infos_eq_in(ts1, ts1[ts.len() as int], b));
            assert(find_eq_in(ts1, b, ts.len() as int) == Some(
                TypeId { index: ts.len() as usize },
            ));
        },
    }
}

/// In a well-formed table, a description structurally equal to the entry
/// of `id` is found exactly at `id`: entries are canonical.
pub proof fn lemma_find_unique(ts: Seq<TypeInfo>, info: TypeInfo, id: TypeId)
    requires
        tys_wf(ts),
        valid_in(ts, id),
        infos_eq_in(ts, type_at(ts, id), info),
    ensures
        find_eq_in(ts, info, 0) == Some(id),
{
    assert forall|k: int| 0 <= k < id.index implies !infos_eq_in(ts, #[trigger] ts[k], info) by {
        if infos_eq_in(ts, ts[k], info) {
            lemma_infos_eq_sym(ts, type_at(ts, id), info);
            lemma_infos_eq_trans(ts, ts[k], info, type_at(ts, id));
            assert(!infos_eq_in(ts, ts[k], ts[id.index as int]));
        }
    }
    lemma_find_eq_skip(ts, info, id.index as int);
    assert(infos_eq_in(ts, ts[id.index as int], info));
}

/// A successful substitution match yields an identifier the table minted.
pub proof fn lemma_subst_match_valid(ts: Seq<TypeInfo>, mapping: Seq<(TypeParameter, TypeId)>, id: TypeId, i: int)
    requires
        mapping_wf_in(ts, mapping),
    ensures
        match subst_match_in(ts, mapping, id, i) {
            Some(nid) => nid.index < ts.len(),
            None => true,
        },
    decreases mapping.len() - i,
{
    if 0 <= i < mapping.len() && !tys_eq(ts, mapping[i].0.type_id, id) {
        lemma_subst_match_valid(ts, mapping, id, i + 1);
    }
}

/// The process-wide interning store for structural type descriptions.
/// No removal operation exists; entries live as long as the table.
#[derive(Debug)]
pub struct TypeEngine {
    slab: Vec<TypeInfo>,
}

impl View for TypeEngine {
    type V = Seq<TypeInfo>;

    closed spec fn view(&self) -> Seq<TypeInfo> {
        self.slab@
    }
}

impl TypeEngine {
    /// A fresh, empty table.
    pub fn new() -> (r: Self)
        ensures
            r@.len() == 0,
            tys_wf(r@),
    {
        TypeEngine { slab: Vec::new() }
    }

    pub fn len(&self) -> (r: usize)
        ensures
            r == self@.len(),
    {
        self.slab.len()
    }

    /// The canonical identifier `id` resolves to, following `Ref` wrappers.
    pub fn resolved_id(&self, id: TypeId) -> (r: TypeId)
        ensures
            r == deref_in(self@, id),
        decreases id.index,
    {
        if id.index < self.slab.len() {
            match &self.slab[id.index] {
                TypeInfo::Ref { referenced } => {
                    if referenced.index < id.index {
                        self.resolved_id(*referenced)
                    } else {
                        id
                    }
                },
                _ => id,
            }
        } else {
            id
        }
    }

    /// Whether `a` and `b` denote the same type.
    pub fn type_ids_equal(&self, a: TypeId, b: TypeId) -> (r: bool)
        ensures
            r == tys_eq(self@, a, b),
    {
        let ra = self.resolved_id(a);
        let rb = self.resolved_id(b);
        ra == rb
    }

    /// The resolved description of `id`: `Ref` wrappers are followed.
    pub fn look_up_type_id(&self, id: TypeId) -> (r: &TypeInfo)
        requires
            valid_in(self@, id),
        ensures
            *r == type_at(self@, deref_in(self@, id)),
    {
        let d = self.resolved_id(id);
        proof {
            lemma_deref_le(self@, id);
        }
        &self.slab[d.index]
    }

    /// The stored description of `id` itself, `Ref` wrapper and all.
    pub fn look_up_type_id_raw(&self, id: TypeId) -> (r: &TypeInfo)
        requires
            valid_in(self@, id),
        ensures
            *r == type_at(self@, id),
    {
        &self.slab[id.index]
    }

    /// Whether two field lists are structurally equal relative to this
    /// table.
    pub fn fields_equal(&self, a: &Vec<TypedStructField>, b: &Vec<TypedStructField>) -> (r: bool)
        ensures
            r == fields_eq_in(self@, a@, b@),
    {
        if a.len() != b.len() {
            return false;
        }
        let n = a.len();
        let mut i: usize = 0;
        while i < n
            invariant
                n == a@.len(),
                a@.len() == b@.len(),
                i <= n,
                forall|k: int|
                    0 <= k < i ==> (#[trigger] a@[k]).name.text@ == b@[k].name.text@ && tys_eq(
                        self@,
                        a@[k].type_id,
                        b@[k].type_id,
                    ),
            decreases n - i,
        {
            if !(a[i].name.text == b[i].name.text && self.type_ids_equal(a[i].type_id, b[i].type_id)) {
                return false;
            }
            i += 1;
        }
        true
    }

    /// Whether two variant lists are structurally equal relative to this
    /// table.
    pub fn variants_equal(&self, a: &Vec<TypedEnumVariant>, b: &Vec<TypedEnumVariant>) -> (r: bool)
        ensures
            r == variants_eq_in(self@, a@, b@),
    {
        if a.len() != b.len() {
            return false;
        }
        let n = a.len();
        let mut i: usize = 0;
        while i < n
            invariant
                n == a@.len(),
                a@.len() == b@.len(),
                i <= n,
                forall|k: int|
                    0 <= k < i ==> (#[trigger] a@[k]).name.text@ == b@[k].name.text@ && tys_eq(
                        self@,
                        a@[k].type_id,
                        b@[k].type_id,
                    ) && a@[k].tag == b@[k].tag,
            decreases n - i,
        {
            if !(a[i].name.text == b[i].name.text && self.type_ids_equal(a[i].type_id, b[i].type_id)
                && a[i].tag == b[i].tag) {
                return false;
            }
            i += 1;
        }
        true
    }

    /// Whether two type-parameter lists are structurally equal relative to
    /// this table.
    pub fn params_equal(&self, a: &Vec<TypeParameter>, b: &Vec<TypeParameter>) -> (r: bool)
        ensures
            r == params_eq_in(self@, a@, b@),
    {
        if a.len() != b.len() {
            return false;
        }
        let n = a.len();
        let mut i: usize = 0;
        while i < n
            invariant
                n == a@.len(),
                a@.len() == b@.len(),
                i <= n,
                forall|k: int|
                    0 <= k < i ==> (#[trigger] a@[k]).name.text@ == b@[k].name.text@ && tys_eq(
                        self@,
                        a@[k].type_id,
                        b@[k].type_id,
                    ),
            decreases n - i,
        {
            if !(a[i].name.text == b[i].name.text && self.type_ids_equal(a[i].type_id, b[i].type_id)) {
                return false;
            }
            i += 1;
        }
        true
    }

    /// Whether two type descriptions are structurally equal relative to
    /// this table.
    pub fn infos_equal(&self, x: &TypeInfo, y: &TypeInfo) -> (r: bool)
        ensures
            r == infos_eq_in(self@, *x, *y),
    {
        match (x, y) {
            (TypeInfo::Unit, TypeInfo::Unit) => true,
            (TypeInfo::Boolean, TypeInfo::Boolean) => true,
            (TypeInfo::UnsignedInteger { bits: bx }, TypeInfo::UnsignedInteger { bits: by }) => bx
                == by,
            (TypeInfo::UnknownGeneric { name: nx }, TypeInfo::UnknownGeneric { name: ny }) => nx.text
                == ny.text,
            (TypeInfo::Ref { referenced: rx }, TypeInfo::Ref { referenced: ry }) => self
                .type_ids_equal(*rx, *ry),
            (
                TypeInfo::Struct { name: nx, fields: fx, type_parameters: px },
                TypeInfo::Struct { name: ny, fields: fy, type_parameters: py },
            ) => nx.text == ny.text && self.fields_equal(fx, fy) && self.params_equal(px, py),
            (
                TypeInfo::Enum { name: nx, variant_types: vx, type_parameters: px },
                TypeInfo::Enum { name: ny, variant_types: vy, type_parameters: py },
            ) => nx.text == ny.text && self.variants_equal(vx, vy) && self.params_equal(px, py),
            _ => false,
        }
    }

    /// `intern(description)`: returns the identifier of an existing
    /// structurally-equal description if one is present, else inserts the
    /// description and returns a fresh identifier. Either way the table
    /// stays well formed and nothing already interned changes.
    pub fn insert_type(&mut self, info: TypeInfo) -> (id: TypeId)
        requires
            tys_wf(old(self)@),
            info_wf_in(info, old(self)@.len() as int),
        ensures
            tys_wf(final(self)@),
            tys_extend(final(self)@, old(self)@),
            final(self)@ == intern_tys(old(self)@, info),
            id == intern_id_in(old(self)@, info),
            valid_in(final(self)@, id),
            infos_eq_in(final(self)@, type_at(final(self)@, id), info),
    {
        let n = self.slab.len();
        let mut j: usize = 0;
        while j < n
            invariant
                *self == *old(self),
                n == self@.len(),
                j <= n,
                tys_wf(self@),
                forall|k: int| 0 <= k < j ==> !infos_eq_in(self@, self@[k], info),
            decreases n - j,
        {
            let eq = self.infos_equal(&self.slab[j], &info);
            if eq {
                proof {
                    lemma_find_eq_skip(self@, info, j as int);
                }
                return TypeId { index: j };
            }
            j += 1;
        }
        proof {
            lemma_find_eq_skip(self@, info, n as int);
        }
        let id = TypeId { index: n };
        self.slab.push(info);
        proof {
            let pre = old(self)@;
            let post = self@;
            assert(post == pre.push(info));
            assert(tys_extend(post, pre));
            assert forall|i: int| 0 <= i < post.len() implies info_wf_in(#[trigger] post[i], i) by {
                if i < pre.len() {
                } else {
                    lemma_info_wf_mono(info, pre.len() as int, i);
                }
            }
            assert forall|i: int, k: int| 0 <= i < k < post.len() implies !infos_eq_in(
                post,
                #[trigger] post[i],
                #[trigger] post[k],
            ) by {
                if k < pre.len() {
                    lemma_infos_eq_extend(post, pre, pre[i], pre[k]);
                } else {
                    lemma_infos_eq_extend(post, pre, pre[i], info);
                }
            }
        }
        id
    }

    /// The concrete type the mapping substitutes for `id`, if the type of
    /// `id` is one of the mapping's formal parameters.
    pub fn matches_type_parameter(&self, mapping: &TypeMapping, id: TypeId) -> (r: Option<TypeId>)
        ensures
            r == subst_match_in(self@, mapping@, id, 0),
    {
        let n = mapping.len();
        let mut i: usize = 0;
        while i < n
            invariant
                n == mapping@.len(),
                i <= n,
                subst_match_in(self@, mapping@, id, 0) == subst_match_in(self@, mapping@, id, i as int),
            decreases n - i,
        {
            let matched = self.type_ids_equal(mapping[i].0.type_id, id);
            if matched {
                return Some(mapping[i].1);
            }
            i += 1;
        }
        None
    }

    /// Apply a substitution to one type: if the type of `id` matches a
    /// formal parameter of the mapping, the result is a fresh `Ref` to the
    /// concrete type substituted for it; otherwise the same raw description
    /// is re-interned, which by canonicity returns `id` itself unchanged.
    pub fn substitute_type_id(&mut self, mapping: &TypeMapping, id: TypeId) -> (r: TypeId)
        requires
            tys_wf(old(self)@),
            valid_in(old(self)@, id),
            mapping_wf_in(old(self)@, mapping@),
        ensures
            tys_wf(final(self)@),
            tys_extend(final(self)@, old(self)@),
            final(self)@.len() <= old(self)@.len() + 1,
            valid_in(final(self)@, r),
            match subst_match_in(old(self)@, mapping@, id, 0) {
                Some(nid) => tys_eq(final(self)@, r, nid) && type_at(final(self)@, r) is Ref,
                None => r == id && final(self)@ == old(self)@,
            },
    {
        let matched = self.matches_type_parameter(mapping, id);
        match matched {
            Some(nid) => {
                proof {
                    lemma_subst_match_valid(self@, mapping@, id, 0);
                }
                let info = TypeInfo::Ref { referenced: nid };
                let r = self.insert_type(info);
                proof {
                    let pre = old(self)@;
                    let post = self@;
                    assert(infos_eq_in(post, type_at(post, r), info));
                    match type_at(post, r) {
                        TypeInfo::Ref { referenced: x } => {
                            assert(tys_eq(post, x, nid));
                            assert(info_wf_in(type_at(post, r), r.index as int));
                            assert(x.index < r.index);
                            assert(deref_in(post, r) == deref_in(post, x));
                        },
                        _ => {
                            assert(false);
                        },
                    }
                }
                r
            },
            None => {
                let raw = clone_info(self.look_up_type_id_raw(id));
                proof {
                    let pre = old(self)@;
                    // the raw description is its own first structurally-equal
                    // entry, so re-interning it yields `id` back
                    assert(infos_eq_in(pre, type_at(pre, id), raw));
                    assert forall|k: int| 0 <= k < id.index implies !infos_eq_in(
                        pre,
                        #[trigger] pre[k],
                        raw,
                    ) by {
                        assert(!infos_eq_in(pre, pre[k], pre[id.index as int]));
                        if infos_eq_in(pre, pre[k], raw) {
                            lemma_infos_eq_sym(pre, pre[id.index as int], raw);
                            lemma_infos_eq_trans(pre, pre[k], raw, pre[id.index as int]);
                        }
                    }
                    lemma_find_eq_skip(pre, raw, id.index as int);
                    assert(find_eq_in(pre, raw, id.index as int) == Some(id));
                    lemma_info_wf_mono(raw, id.index as int, pre.len() as int);
                }
                let r = self.insert_type(raw);
                r
            },
        }
    }
}

/// The index of the first mapping pair whose formal parameter denotes the
/// same type as `id`.
pub open spec fn subst_match_idx(ts: Seq<TypeInfo>, mapping: Seq<(TypeParameter, TypeId)>, id: TypeId, i: int) -> Option<int>
    decreases mapping.len() - i,
{
    if i < 0 || i >= mapping.len() {
        None
    } else if tys_eq(ts, mapping[i].0.type_id, id) {
        Some(i)
    } else {
        subst_match_idx(ts, mapping, id, i + 1)
    }
}

/// The match is the target at the matching index.
pub proof fn lemma_subst_match_is_idx(ts: Seq<TypeInfo>, mapping: Seq<(TypeParameter, TypeId)>, id: TypeId, i: int)
    requires
        0 <= i,
    ensures
        subst_match_in(ts, mapping, id, i) == (match subst_match_idx(ts, mapping, id, i) {
            Some(k) => Some(mapping[k].1),
            None => None::<TypeId>,
        }),
        match subst_match_idx(ts, mapping, id, i) {
            Some(k) => i <= k < mapping.len() && tys_eq(ts, mapping[k].0.type_id, id) && (forall|
                j: int,
            |
                i <= j < k ==> !tys_eq(ts, (#[trigger] mapping[j]).0.type_id, id)),
            None => forall|j: int|
                i <= j < mapping.len() ==> !tys_eq(ts, (#[trigger] mapping[j]).0.type_id, id),
        },
    decreases mapping.len() - i,
{
    if 0 <= i < mapping.len() && !tys_eq(ts, mapping[i].0.type_id, id) {
        lemma_subst_match_is_idx(ts, mapping, id, i + 1);
        match subst_match_idx(ts, mapping, id, i + 1) {
            Some(k) => {
                assert forall|j: int| i <= j < k implies !tys_eq(
                    ts,
                    (#[trigger] mapping[j]).0.type_id,
                    id,
                ) by {}
            },
            None => {
                assert forall|j: int| i <= j < mapping.len() implies !tys_eq(
                    ts,
                    (#[trigger] mapping[j]).0.type_id,
                    id,
                ) by {}
            },
        }
    }
}

/// Matching only consults what the identifier resolves to: identifiers
/// denoting the same type match the same pair.
pub proof fn lemma_subst_match_congr(ts: Seq<TypeInfo>, mapping: Seq<(TypeParameter, TypeId)>, a: TypeId, b: TypeId, i: int)
    requires
        tys_eq(ts, a, b),
    ensures
        subst_match_in(ts, mapping, a, i) == subst_match_in(ts, mapping, b, i),
        subst_match_idx(ts, mapping, a, i) == subst_match_idx(ts, mapping, b, i),
    decreases mapping.len() - i,
{
    if 0 <= i < mapping.len() {
        lemma_subst_match_congr(ts, mapping, a, b, i + 1);
    }
}

/// Matching pairs from two mappings with the same formal parameters picks
/// the same index.
pub proof fn lemma_subst_match_idx_params(
    ts: Seq<TypeInfo>,
    ma: Seq<(TypeParameter, TypeId)>,
    mb: Seq<(TypeParameter, TypeId)>,
    id: TypeId,
    i: int,
)
    requires
        ma.len() == mb.len(),
        forall|k: int| 0 <= k < ma.len() ==> (#[trigger] ma[k]).0 == mb[k].0,
    ensures
        subst_match_idx(ts, ma, id, i) == subst_match_idx(ts, mb, id, i),
    decreases ma.len() - i,
{
    if 0 <= i < ma.len() {
        lemma_subst_match_idx_params(ts, ma, mb, id, i + 1);
    }
}

/// Matching against two mappings laid end to end tries the first and
/// falls through to the second.
pub proof fn lemma_subst_match_concat(
    ts: Seq<TypeInfo>,
    ma: Seq<(TypeParameter, TypeId)>,
    mb: Seq<(TypeParameter, TypeId)>,
    id: TypeId,
)
    ensures
        subst_match_in(ts, ma + mb, id, 0) == (match subst_match_in(ts, ma, id, 0) {
            Some(n) => Some(n),
            None => subst_match_in(ts, mb, id, 0),
        }),
{
    lemma_subst_match_is_idx(ts, ma, id, 0);
    lemma_subst_match_is_idx(ts, mb, id, 0);
    lemma_subst_match_is_idx(ts, ma + mb, id, 0);
    let mc = ma + mb;
    match subst_match_idx(ts, ma, id, 0) {
        Some(k) => {
            assert forall|j: int| 0 <= j < k implies !tys_eq(
                ts,
                (#[trigger] mc[j]).0.type_id,
                id,
            ) by {
                assert(mc[j] == ma[j]);
            }
            lemma_subst_match_idx_skip(ts, mc, id, 0, k);
            assert(mc[k] == ma[k]);
        },
        None => {
            match subst_match_idx(ts, mb, id, 0) {
                Some(k) => {
                    assert forall|j: int| 0 <= j < ma.len() + k implies !tys_eq(
                        ts,
                        (#[trigger] mc[j]).0.type_id,
                        id,
                    ) by {
                        if j < ma.len() {
                            assert(mc[j] == ma[j]);
                        } else {
                            assert(mc[j] == mb[j - ma.len()]);
                        }
                    }
                    lemma_subst_match_idx_skip(ts, mc, id, 0, ma.len() + k);
                    assert(mc[ma.len() + k] == mb[k]);
                },
                None => {
                    assert forall|j: int| 0 <= j < mc.len() implies !tys_eq(
                        ts,
                        (#[trigger] mc[j]).0.type_id,
                        id,
                    ) by {
                        if j < ma.len() {
                            assert(mc[j] == ma[j]);
                        } else {
                            assert(mc[j] == mb[j - ma.len()]);
                        }
                    }
                    lemma_subst_match_idx_skip(ts, mc, id, 0, mc.len() as int);
                },
            }
        },
    }
}

/// If nothing before `j` matches, the search may as well start at `j`.
pub proof fn lemma_subst_match_idx_skip(
    ts: Seq<TypeInfo>,
    mapping: Seq<(TypeParameter, TypeId)>,
    id: TypeId,
    i: int,
    j: int,
)
    requires
        0 <= i <= j <= mapping.len(),
        forall|k: int| i <= k < j ==> !tys_eq(ts, (#[trigger] mapping[k]).0.type_id, id),
    ensures
        subst_match_idx(ts, mapping, id, i) == subst_match_idx(ts, mapping, id, j),
    decreases j - i,
{
    if i < j {
        lemma_subst_match_idx_skip(ts, mapping, id, i + 1, j);
    }
}

/// The composition of two substitution mappings: each formal of `m1` is
/// sent to its target as `m2` further substitutes it, followed by the
/// pairs of `m2` themselves.
pub fn compose_mappings(engine: &TypeEngine, m1: &TypeMapping, m2: &TypeMapping) -> (r: TypeMapping)
    ensures
        r@.len() == m1@.len() + m2@.len(),
        forall|i: int|
            0 <= i < m1@.len() ==> (#[trigger] r@[i]).0 == m1@[i].0 && r@[i].1 == (
            match subst_match_in(engine@, m2@, m1@[i].1, 0) {
                Some(n) => n,
                None => m1@[i].1,
            }),
        forall|i: int| 0 <= i < m2@.len() ==> #[trigger] r@[m1@.len() + i] == m2@[i],
{
    let mut r: TypeMapping = Vec::new();
    let n1 = m1.len();
    let mut i: usize = 0;
    while i < n1
        invariant
            n1 == m1@.len(),
            i <= n1,
            r@.len() == i,
            forall|k: int|
                0 <= k < i ==> (#[trigger] r@[k]).0 == m1@[k].0 && r@[k].1 == (
                match subst_match_in(engine@, m2@, m1@[k].1, 0) {
                    Some(n) => n,
                    None => m1@[k].1,
                }),
        decreases n1 - i,
    {
        let target = match engine.matches_type_parameter(m2, m1[i].1) {
            Some(n) => n,
            None => m1[i].1,
        };
        r.push((m1[i].0.clone(), target));
        i += 1;
    }
    let n2 = m2.len();
    let mut j: usize = 0;
    while j < n2
        invariant
            n1 == m1@.len(),
            n2 == m2@.len(),
            j <= n2,
            r@.len() == n1 + j,
            forall|k: int|
                0 <= k < n1 ==> (#[trigger] r@[k]).0 == m1@[k].0 && r@[k].1 == (
                match subst_match_in(engine@, m2@, m1@[k].1, 0) {
                    Some(n) => n,
                    None => m1@[k].1,
                }),
            forall|k: int| 0 <= k < j ==> #[trigger] r@[n1 + k] == m2@[k],
        decreases n2 - j,
    {
        r.push((m2[j].0.clone(), m2[j].1));
        j += 1;
    }
    r
}

/// Law: substituting a type under `m1` and then under `m2` denotes the
/// same type as substituting it once under their composition. The two
/// results are returned for inspection: the first went through both
/// mappings in turn, the second through the composed mapping.
#[verifier::rlimit(100)]
pub fn substitution_compose_law(
    engine: &mut TypeEngine,
    m1: &TypeMapping,
    m2: &TypeMapping,
    id: TypeId,
) -> (r: (TypeId, TypeId))
    requires
        tys_wf(old(engine)@),
        valid_in(old(engine)@, id),
        mapping_wf_in(old(engine)@, m1@),
        mapping_wf_in(old(engine)@, m2@),
    ensures
        tys_wf(final(engine)@),
        tys_extend(final(engine)@, old(engine)@),
        tys_eq(final(engine)@, r.0, r.1),
{
    let ghost ts0 = engine@;
    let composed = compose_mappings(engine, m1, m2);
    let step_one = engine.substitute_type_id(m1, id);
    let ghost ts1 = engine@;
    let step_two = engine.substitute_type_id(m2, step_one);
    let ghost ts2 = engine@;
    proof {
        lemma_mapping_wf_extend(ts2, ts0, m1@);
        lemma_mapping_wf_extend(ts2, ts0, m2@);
        assert forall|k: int| 0 <= k < composed@.len() implies (#[trigger] composed@[k]).0.type_id.index
            < ts0.len() && composed@[k].1.index < ts0.len() by {
            if k < m1@.len() {
                assert(composed@[k].0 == m1@[k].0);
                match subst_match_in(ts0, m2@, m1@[k].1, 0) {
                    Some(n) => {
                        lemma_subst_match_valid(ts0, m2@, m1@[k].1, 0);
                    },
                    None => {},
                }
            } else {
                let k2 = k - m1@.len();
                assert(composed@[m1@.len() + k2] == m2@[k2]);
                assert(k == m1@.len() + k2);
            }
        }
        assert(mapping_wf_in(ts0, composed@));
        lemma_mapping_wf_extend(ts2, ts0, composed@);
    }
    let once = engine.substitute_type_id(&composed, id);
    proof {
        let ts3 = engine@;
        lemma_subst_match_valid(ts0, m1@, id, 0);
        lemma_subst_match_extend(ts2, ts0, composed@, id, 0);
        lemma_subst_match_concat(ts2, composed@.subrange(0, m1@.len() as int), composed@.subrange(m1@.len() as int, composed@.len() as int), id);
        assert(composed@.subrange(0, m1@.len() as int) + composed@.subrange(
            m1@.len() as int,
            composed@.len() as int,
        ) =~= composed@);
        let ca = composed@.subrange(0, m1@.len() as int);
        let cb = composed@.subrange(m1@.len() as int, composed@.len() as int);
        assert forall|i2: int| 0 <= i2 < cb.len() implies cb[i2] == m2@[i2] by {
            assert(composed@[m1@.len() + i2] == m2@[i2]);
        }
        assert(cb =~= m2@);
        lemma_subst_match_is_idx(ts2, ca, id, 0);
        lemma_subst_match_is_idx(ts2, m1@, id, 0);
        lemma_subst_match_idx_params(ts2, ca, m1@, id, 0);
        lemma_subst_match_extend(ts1, ts0, m1@, id, 0);
        lemma_subst_match_extend(ts2, ts0, m1@, id, 0);
        match subst_match_in(ts0, m1@, id, 0) {
            Some(c) => {
                // the first substitution left a reference to `c`
                assert(tys_eq(ts1, step_one, c));
                lemma_subst_match_extend(ts2, ts1, m2@, step_one, 0);
                assert(subst_match_in(ts1, m2@, step_one, 0) == subst_match_in(ts2, m2@, step_one, 0));
                lemma_subst_match_congr(ts2, m2@, step_one, c, 0);
                lemma_tys_eq_extend(ts2, ts1, step_one, c);
                lemma_subst_match_extend(ts2, ts0, m2@, c, 0);
                let k = subst_match_idx(ts2, m1@, id, 0).unwrap();
                assert(composed@[k].1 == (match subst_match_in(ts0, m2@, m1@[k].1, 0) {
                    Some(n) => n,
                    None => m1@[k].1,
                }));
                match subst_match_in(ts2, m2@, c, 0) {
                    Some(n2) => {
                        assert(tys_eq(ts3, step_two, n2));
                        assert(tys_eq(ts3, once, n2));
                    },
                    None => {
                        assert(step_two == step_one);
                        assert(tys_eq(ts3, once, c));
                        lemma_tys_eq_extend(ts3, ts1, step_one, c);
                    },
                }
            },
            None => {
                assert(step_one == id);
                assert(ts1 == ts0);
                lemma_subst_match_extend(ts2, ts0, m2@, id, 0);
                match subst_match_in(ts0, m2@, id, 0) {
                    Some(n2) => {
                        assert(tys_eq(ts2, step_two, n2));
                        lemma_subst_match_valid(ts0, m2@, id, 0);
                        assert(tys_eq(ts3, once, n2));
                        lemma_tys_eq_extend(ts3, ts2, step_two, n2);
                    },
                    None => {
                        assert(step_two == id);
                        assert(once == id);
                    },
                }
            },
        }
    }
    (step_two, once)
}

/// Appending descriptions keeps a mapping well formed.
pub proof fn lemma_mapping_wf_extend(post: Seq<TypeInfo>, pre: Seq<TypeInfo>, mapping: Seq<(TypeParameter, TypeId)>)
    requires
        tys_extend(post, pre),
        mapping_wf_in(pre, mapping),
    ensures
        mapping_wf_in(post, mapping),
{
}

/// One step of hash accumulation.
pub open spec fn spec_mix(h: u64, v: u64) -> u64 {
    h.wrapping_mul(31).wrapping_add(v)
}

/// One step of hash accumulation, executable.
pub fn mix_hash(h: u64, v: u64) -> (r: u64)
    ensures
        r == spec_mix(h, v),
{
    h.wrapping_mul(31).wrapping_add(v)
}

/// An owned copy of a type description, structurally equal to the original
/// in any table and mentioning exactly the same identifiers.
pub fn clone_info(info: &TypeInfo) -> (r: TypeInfo)
    ensures
        forall|ts: Seq<TypeInfo>| #[trigger] infos_eq_in(ts, *info, r),
        forall|b: int| #[trigger] info_wf_in(r, b) == info_wf_in(*info, b),
{
    match info {
        TypeInfo::Unit => TypeInfo::Unit,
        TypeInfo::Boolean => TypeInfo::Boolean,
        TypeInfo::UnsignedInteger { bits } => TypeInfo::UnsignedInteger { bits: *bits },
        TypeInfo::UnknownGeneric { name } => TypeInfo::UnknownGeneric { name: name.clone() },
        TypeInfo::Ref { referenced } => TypeInfo::Ref { referenced: *referenced },
        TypeInfo::Struct { name, fields, type_parameters } => {
            let f = crate::struct_decl::clone_fields(fields);
            let p = clone_params(type_parameters);
            TypeInfo::Struct { name: name.clone(), fields: f, type_parameters: p }
        },
        TypeInfo::Enum { name, variant_types, type_parameters } => {
            let v = crate::enum_decl::clone_variants(variant_types);
            let p = clone_params(type_parameters);
            TypeInfo::Enum { name: name.clone(), variant_types: v, type_parameters: p }
        },
    }
}

/// An elementwise copy of a type-parameter list.
pub fn clone_params(params: &Vec<TypeParameter>) -> (r: Vec<TypeParameter>)
    ensures
        r@ == params@,
{
    let n = params.len();
    let mut r: Vec<TypeParameter> = Vec::new();
    let mut i: usize = 0;
    while i < n
        invariant
            n == params@.len(),
            i <= n,
            r@ =~= params@.subrange(0, i as int),
        decreases n - i,
    {
        r.push(params[i].clone());
        i += 1;
    }
    proof {
        assert(r@ =~= params@);
    }
    r
}

} // verus!
