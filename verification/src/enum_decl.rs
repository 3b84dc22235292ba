//! Typed, name-resolved enum declarations.
//!
//! A declaration owns its ordered variant list and its formal type
//! parameters, and can monomorphize itself against a substitution mapping.
//! Equality of declarations deliberately ignores source spans, and
//! discriminant tags are assigned once at typing time: substitution never
//! renumbers them.

use vstd::prelude::*;
use crate::span::{Ident, Span};
use crate::language::Visibility;
use crate::error::{CompileError, CompileResult, CompileWarning, err, ok};
use crate::items::Items;
use crate::items::items_wf_in;
use crate::items::{
    lemma_methods_of_in_extend, lemma_methods_of_in_wf, lemma_methods_substituted_pre_extend,
    methods_of_in, methods_substituted,
};
use crate::type_engine::{TypeEngine, TypeId, TypeInfo, TypeMapping, TypeParameter};
use crate::type_engine::{
    find_eq_in, info_wf_in, infos_eq_in, intern_id_in, lemma_find_eq_congr, lemma_find_unique,
    lemma_info_wf_mono, lemma_infos_eq_extend, lemma_infos_eq_trans, lemma_subst_match_extend,
    lemma_subst_match_valid, lemma_tys_eq_extend,
    mapping_wf_in, params_eq_in, params_wf_in, subst_match_in, type_at, tys_eq, tys_extend, tys_wf,
    valid_in, variants_eq_in, variants_wf_in,
};
use crate::type_engine::clone_params;
use crate::type_engine::{deref_in, spec_mix, mix_hash};
use crate::type_engine::{compose_mappings, lemma_subst_match_concat, lemma_subst_match_congr,
    lemma_subst_match_is_idx, lemma_subst_match_idx_params, lemma_mapping_wf_extend,
    subst_match_idx};
use crate::abi::{Property, abi_matches, generate_components, json_abi_str};
use vstd::string::StrSliceExecFns;

verus! {

/// A variant of a typed enum declaration. The discriminant `tag` is
/// assigned once at typing time and never renumbered afterwards.
#[derive(Debug)]
pub struct TypedEnumVariant {
    pub name: Ident,
    pub type_id: TypeId,
    pub tag: usize,
    pub span: Span,
}

impl Clone for TypedEnumVariant {
    fn clone(&self) -> (r: Self)
        ensures
            r == *self,
    {
        TypedEnumVariant { name: self.name.clone(), type_id: self.type_id, tag: self.tag, span: self.span }
    }
}

/// Structural equality of two variants: same name, same resolved type and
/// same discriminant tag; the spans play no part.
pub open spec fn variant_eq_in(ts: Seq<TypeInfo>, a: TypedEnumVariant, b: TypedEnumVariant) -> bool {
    a.name.text@ == b.name.text@ && tys_eq(ts, a.type_id, b.type_id) && a.tag == b.tag
}

/// How a substituted variant list relates to the original: names, spans
/// and tags are kept; a variant whose type matches a formal parameter of
/// the mapping now holds a `Ref` to the concrete type, and every other
/// variant is unchanged.
pub open spec fn variants_substituted(
    pre: Seq<TypeInfo>,
    post: Seq<TypeInfo>,
    old_vs: Seq<TypedEnumVariant>,
    new_vs: Seq<TypedEnumVariant>,
    mapping: Seq<(TypeParameter, TypeId)>,
) -> bool {
    &&& new_vs.len() == old_vs.len()
    &&& forall|i: int|
        0 <= i < old_vs.len() ==> (#[trigger] new_vs[i]).name == old_vs[i].name && new_vs[i].span
            == old_vs[i].span && new_vs[i].tag == old_vs[i].tag && (match subst_match_in(
            pre,
            mapping,
            old_vs[i].type_id,
            0,
        ) {
            Some(nid) => tys_eq(post, new_vs[i].type_id, nid) && valid_in(post, new_vs[i].type_id)
                && type_at(post, new_vs[i].type_id) is Ref,
            None => new_vs[i].type_id == old_vs[i].type_id,
        })
}

impl TypedEnumVariant {
    /// Whether this variant and `other` are structurally the same variant.
    pub fn eq_in(&self, other: &TypedEnumVariant, engine: &TypeEngine) -> (r: bool)
        ensures
            r == variant_eq_in(engine@, *self, *other),
    {
        self.name.text == other.name.text && engine.type_ids_equal(self.type_id, other.type_id)
            && self.tag == other.tag
    }

    /// The ABI description of this variant: its name, its type's ABI
    /// string and the recursive component descriptions of its type.
    pub fn generate_json_abi(&self, engine: &TypeEngine) -> (r: Property)
        requires
            tys_wf(engine@),
            valid_in(engine@, self.type_id),
        ensures
            r.name@ == self.name.text@,
            abi_matches(engine@, self.type_id, r),
    {
        Property {
            name: self.name.text.clone(),
            type_field: json_abi_str(engine, self.type_id),
            components: generate_components(engine, self.type_id),
        }
    }

    /// This variant's hash: derived from the resolved type, not the raw
    /// handle, so that hashing stays consistent with equality.
    pub fn hash_code(&self, engine: &TypeEngine) -> (r: u64)
        ensures
            r == spec_variant_hash(engine@, *self),
    {
        mix_hash(
            mix_hash(
                self.name.text.as_str().unicode_len() as u64,
                engine.resolved_id(self.type_id).index as u64,
            ),
            self.tag as u64,
        )
    }

    /// Replace this variant's type under the mapping, exactly as a struct
    /// field's type is replaced; the tag is untouched.
    pub fn copy_types(&mut self, mapping: &TypeMapping, engine: &mut TypeEngine)
        requires
            tys_wf(old(engine)@),
            valid_in(old(engine)@, old(self).type_id),
            mapping_wf_in(old(engine)@, mapping@),
        ensures
            tys_wf(final(engine)@),
            tys_extend(final(engine)@, old(engine)@),
            final(engine)@.len() <= old(engine)@.len() + 1,
            final(self).name == old(self).name,
            final(self).span == old(self).span,
            final(self).tag == old(self).tag,
            valid_in(final(engine)@, final(self).type_id),
            match subst_match_in(old(engine)@, mapping@, old(self).type_id, 0) {
                Some(nid) => tys_eq(final(engine)@, final(self).type_id, nid) && type_at(
                    final(engine)@,
                    final(self).type_id,
                ) is Ref,
                None => final(self).type_id == old(self).type_id && final(engine)@ == old(engine)@,
            },
    {
        self.type_id = engine.substitute_type_id(mapping, self.type_id);
    }
}

/// What a variant hashes to: a function of exactly what variant equality
/// compares — the name, the resolved type and the tag, never the span or
/// the raw handle — so equal variants always hash equal.
pub open spec fn spec_variant_hash(ts: Seq<TypeInfo>, v: TypedEnumVariant) -> u64 {
    spec_mix(
        spec_mix(v.name.text@.len() as u64, deref_in(ts, v.type_id).index as u64),
        v.tag as u64,
    )
}

/// The hash of a variant list folded left to right over `acc`.
pub open spec fn spec_variants_hash(ts: Seq<TypeInfo>, vs: Seq<TypedEnumVariant>, i: int, acc: u64) -> u64
    decreases vs.len() - i,
{
    if i < 0 || i >= vs.len() {
        acc
    } else {
        spec_variants_hash(ts, vs, i + 1, spec_mix(acc, spec_variant_hash(ts, vs[i])))
    }
}

/// What an enum declaration hashes to: a function of exactly what
/// declaration equality compares, so equal declarations always hash
/// equal.
pub open spec fn spec_enum_decl_hash(ts: Seq<TypeInfo>, d: TypedEnumDeclaration) -> u64 {
    spec_variants_hash(
        ts,
        d.variants@,
        0,
        spec_mix(
            spec_mix(
                d.name.text@.len() as u64,
                d.type_parameters@.len() as u64,
            ),
            if d.visibility is Public {
                1u64
            } else {
                0u64
            },
        ),
    )
}

/// Structurally equal variant lists fold to the same hash, whatever the
/// accumulator.
pub proof fn lemma_variants_hash_eq(
    ts: Seq<TypeInfo>,
    va: Seq<TypedEnumVariant>,
    vb: Seq<TypedEnumVariant>,
    i: int,
    acc: u64,
)
    requires
        variants_eq_in(ts, va, vb),
    ensures
        spec_variants_hash(ts, va, i, acc) == spec_variants_hash(ts, vb, i, acc),
    decreases va.len() - i,
{
    if 0 <= i < va.len() {
        assert(spec_variant_hash(ts, va[i]) == spec_variant_hash(ts, vb[i]));
        lemma_variants_hash_eq(ts, va, vb, i + 1, spec_mix(acc, spec_variant_hash(ts, va[i])));
    }
}

/// Law: hashing and equality uphold the invariant `d1 == d2` implies
/// `hash(d1) == hash(d2)` — the hash reads only the span-free projection
/// that equality compares.
pub proof fn lemma_enum_decl_hash_respects_eq(
    ts: Seq<TypeInfo>,
    a: TypedEnumDeclaration,
    b: TypedEnumDeclaration,
)
    requires
        enum_decl_eq(ts, a, b),
    ensures
        spec_enum_decl_hash(ts, a) == spec_enum_decl_hash(ts, b),
{
    lemma_variants_hash_eq(
        ts,
        a.variants@,
        b.variants@,
        0,
        spec_mix(
            spec_mix(a.name.text@.len() as u64, a.type_parameters@.len() as u64),
            if a.visibility is Public {
                1u64
            } else {
                0u64
            },
        ),
    );
}

/// The first variant at or after `i` whose name is `name`, if any.
pub open spec fn find_variant_in(variants: Seq<TypedEnumVariant>, name: Seq<char>, i: int) -> Option<int>
    decreases variants.len() - i,
{
    if i < 0 || i >= variants.len() {
        None
    } else if variants[i].name.text@ == name {
        Some(i)
    } else {
        find_variant_in(variants, name, i + 1)
    }
}

/// A typed, name-resolved enum declaration.
#[derive(Debug)]
pub struct TypedEnumDeclaration {
    pub name: Ident,
    pub type_parameters: Vec<TypeParameter>,
    pub variants: Vec<TypedEnumVariant>,
    pub span: Span,
    pub visibility: Visibility,
}

/// Whether every identifier the declaration mentions was minted by the
/// table.
pub open spec fn enum_decl_wf(ts: Seq<TypeInfo>, d: TypedEnumDeclaration) -> bool {
    variants_wf_in(d.variants@, ts.len() as int) && params_wf_in(d.type_parameters@, ts.len() as int)
}

/// Structural equality of enum declarations: name, type parameters,
/// variants and visibility agree; the source spans play no part.
pub open spec fn enum_decl_eq(ts: Seq<TypeInfo>, a: TypedEnumDeclaration, b: TypedEnumDeclaration) -> bool {
    a.name.text@ == b.name.text@ && params_eq_in(ts, a.type_parameters@, b.type_parameters@)
        && variants_eq_in(ts, a.variants@, b.variants@) && a.visibility == b.visibility
}

/// The structural description an enum declaration denotes.
pub open spec fn enum_decl_info(d: TypedEnumDeclaration) -> TypeInfo {
    TypeInfo::Enum { name: d.name, variant_types: d.variants, type_parameters: d.type_parameters }
}

/// Law: declarations differing only in source span are the same
/// declaration — structural equality never reads the spans.
pub proof fn lemma_enum_decl_eq_ignores_span(
    ts: Seq<TypeInfo>,
    a: TypedEnumDeclaration,
    b: TypedEnumDeclaration,
)
    requires
        a.name.text@ == b.name.text@,
        a.type_parameters@ == b.type_parameters@,
        a.variants@ == b.variants@,
        a.visibility == b.visibility,
    ensures
        enum_decl_eq(ts, a, b),
{
}

impl TypedEnumDeclaration {
    /// Whether this declaration and `other` are structurally the same
    /// declaration. Source spans play no part.
    pub fn eq_in(&self, other: &TypedEnumDeclaration, engine: &TypeEngine) -> (r: bool)
        ensures
            r == enum_decl_eq(engine@, *self, *other),
    {
        self.name.text == other.name.text && engine.params_equal(
            &self.type_parameters,
            &other.type_parameters,
        ) && engine.variants_equal(&self.variants, &other.variants) && self.visibility
            == other.visibility
    }

    /// An independent copy of this declaration, structurally identical to
    /// it.
    pub fn duplicate(&self) -> (r: Self)
        ensures
            r.name == self.name,
            r.variants@ == self.variants@,
            r.type_parameters@ == self.type_parameters@,
            r.visibility == self.visibility,
            r.span == self.span,
    {
        TypedEnumDeclaration {
            name: self.name.clone(),
            type_parameters: clone_params(&self.type_parameters),
            variants: clone_variants(&self.variants),
            span: self.span,
            visibility: self.visibility,
        }
    }

    /// This declaration's hash: a function of the same span-free
    /// projection that equality compares.
    pub fn hash_code(&self, engine: &TypeEngine) -> (r: u64)
        ensures
            r == spec_enum_decl_hash(engine@, *self),
    {
        let mut acc = mix_hash(
            mix_hash(
                self.name.text.as_str().unicode_len() as u64,
                self.type_parameters.len() as u64,
            ),
            if self.visibility == Visibility::Public {
                1
            } else {
                0
            },
        );
        let n = self.variants.len();
        let mut i: usize = 0;
        while i < n
            invariant
                n == self.variants@.len(),
                i <= n,
                spec_enum_decl_hash(engine@, *self) == spec_variants_hash(
                    engine@,
                    self.variants@,
                    i as int,
                    acc,
                ),
            decreases n - i,
        {
            acc = mix_hash(acc, self.variants[i].hash_code(engine));
            i += 1;
        }
        acc
    }

    pub fn type_parameters(&self) -> (r: &Vec<TypeParameter>)
        ensures
            r == &self.type_parameters,
    {
        &self.type_parameters
    }

    pub fn name(&self) -> (r: &Ident)
        ensures
            r == &self.name,
    {
        &self.name
    }

    pub fn span(&self) -> (r: Span)
        ensures
            r == self.span,
    {
        self.span
    }

    /// Intern the structural description this declaration currently
    /// denotes and return its identifier. The identity is re-derived from
    /// the current variants every time, never cached, because substitution
    /// changes the variants.
    pub fn type_id(&self, engine: &mut TypeEngine) -> (r: TypeId)
        requires
            tys_wf(old(engine)@),
            enum_decl_wf(old(engine)@, *self),
        ensures
            tys_wf(final(engine)@),
            tys_extend(final(engine)@, old(engine)@),
            final(engine)@.len() <= old(engine)@.len() + 1,
            r == intern_id_in(old(engine)@, enum_decl_info(*self)),
            valid_in(final(engine)@, r),
            infos_eq_in(final(engine)@, type_at(final(engine)@, r), enum_decl_info(*self)),
            find_eq_in(old(engine)@, enum_decl_info(*self), 0) is Some ==> final(engine)@ == old(engine)@,
    {
        let info = TypeInfo::Enum {
            name: self.name.clone(),
            variant_types: clone_variants(&self.variants),
            type_parameters: clone_params(&self.type_parameters),
        };
        proof {
            assert(infos_eq_in(old(engine)@, info, enum_decl_info(*self)));
            lemma_find_eq_congr(old(engine)@, info, enum_decl_info(*self), 0);
        }
        let r = engine.insert_type(info);
        proof {
            lemma_infos_eq_trans(
                final(engine)@,
                type_at(final(engine)@, r),
                info,
                enum_decl_info(*self),
            );
        }
        r
    }

    /// Apply the mapping to every variant. Variants whose types match a
    /// formal parameter become `Ref`s to the concrete types; all other
    /// variants are unchanged, and an empty mapping changes nothing at
    /// all. Tags are never renumbered.
    pub fn copy_types(&mut self, mapping: &TypeMapping, engine: &mut TypeEngine)
        requires
            tys_wf(old(engine)@),
            enum_decl_wf(old(engine)@, *old(self)),
            mapping_wf_in(old(engine)@, mapping@),
        ensures
            tys_wf(final(engine)@),
            tys_extend(final(engine)@, old(engine)@),
            final(self).name == old(self).name,
            final(self).span == old(self).span,
            final(self).visibility == old(self).visibility,
            final(self).type_parameters == old(self).type_parameters,
            variants_substituted(
                old(engine)@,
                final(engine)@,
                old(self).variants@,
                final(self).variants@,
                mapping@,
            ),
            enum_decl_wf(final(engine)@, *final(self)),
            mapping@.len() == 0 ==> final(self).variants@ == old(self).variants@ && final(engine)@
                == old(engine)@,
    {
        let n = self.variants.len();
        let mut i: usize = 0;
        while i < n
            invariant
                n == self.variants@.len(),
                self.variants@.len() == old(self).variants@.len(),
                i <= n,
                self.name == old(self).name,
                self.span == old(self).span,
                self.visibility == old(self).visibility,
                self.type_parameters == old(self).type_parameters,
                tys_wf(engine@),
                tys_extend(engine@, old(engine)@),
                mapping_wf_in(old(engine)@, mapping@),
                enum_decl_wf(old(engine)@, *old(self)),
                forall|k: int| i <= k < n ==> #[trigger] self.variants@[k] == old(self).variants@[k],
                forall|k: int|
                    0 <= k < i ==> (#[trigger] self.variants@[k]).name == old(self).variants@[k].name
                        && self.variants@[k].span == old(self).variants@[k].span
                        && self.variants@[k].tag == old(self).variants@[k].tag && (
                    match subst_match_in(old(engine)@, mapping@, old(self).variants@[k].type_id, 0) {
                        Some(nid) => tys_eq(engine@, self.variants@[k].type_id, nid) && valid_in(
                            engine@,
                            self.variants@[k].type_id,
                        ) && type_at(engine@, self.variants@[k].type_id) is Ref,
                        None => self.variants@[k].type_id == old(self).variants@[k].type_id,
                    }),
                mapping@.len() == 0 ==> self.variants@ =~= old(self).variants@ && engine@ == old(engine)@,
            decreases n - i,
        {
            let ghost pre_loop_ts = engine@;
            let mut v = self.variants[i].clone();
            v.copy_types(mapping, engine);
            self.variants.set(i, v);
            proof {
                let pre = old(engine)@;
                let mid = pre_loop_ts;
                let post = engine@;
                lemma_subst_match_extend(mid, pre, mapping@, old(self).variants@[i as int].type_id, 0);
                assert forall|k: int|
                    0 <= k < i ==> (#[trigger] self.variants@[k]).name == old(self).variants@[k].name
                        && self.variants@[k].span == old(self).variants@[k].span
                        && self.variants@[k].tag == old(self).variants@[k].tag && (
                    match subst_match_in(pre, mapping@, old(self).variants@[k].type_id, 0) {
                        Some(nid) => tys_eq(post, self.variants@[k].type_id, nid) && valid_in(
                            post,
                            self.variants@[k].type_id,
                        ) && type_at(post, self.variants@[k].type_id) is Ref,
                        None => self.variants@[k].type_id == old(self).variants@[k].type_id,
                    }) by {
                    if 0 <= k < i {
                        match subst_match_in(pre, mapping@, old(self).variants@[k].type_id, 0) {
                            Some(nid) => {
                                lemma_subst_match_valid(pre, mapping@, old(self).variants@[k].type_id, 0);
                                lemma_tys_eq_extend(post, mid, self.variants@[k].type_id, nid);
                            },
                            None => {},
                        }
                    }
                }
            }
            i += 1;
        }
        proof {
            if mapping@.len() == 0 {
                assert(self.variants@ == old(self).variants@);
            }
        }
    }

    /// Monomorphize this declaration against the mapping: recompute the
    /// old type identity, substitute the variants, recompute the new type
    /// identity, and migrate the methods registered for the old type to
    /// the new one, substituted under the same mapping: when the old and
    /// new identities differ, whatever was registered for the old type is
    /// now registered for the new type with names and purities kept and
    /// return types substituted. Monomorphizing with an empty mapping is a
    /// correct no-op that still performs the recomputation and the
    /// migration call.
    #[verifier::rlimit(100)]
    pub fn monomorphize_inner(
        self,
        mapping: &TypeMapping,
        engine: &mut TypeEngine,
        namespace: &mut Items,
    ) -> (r: Self)
        requires
            tys_wf(old(engine)@),
            enum_decl_wf(old(engine)@, self),
            mapping_wf_in(old(engine)@, mapping@),
            items_wf_in(old(namespace).methods@, old(engine)@),
        ensures
            tys_wf(final(engine)@),
            tys_extend(final(engine)@, old(engine)@),
            items_wf_in(final(namespace).methods@, final(engine)@),
            r.name == self.name,
            r.span == self.span,
            r.visibility == self.visibility,
            r.type_parameters == self.type_parameters,
            variants_substituted(old(engine)@, final(engine)@, self.variants@, r.variants@, mapping@),
            enum_decl_wf(final(engine)@, r),
            mapping@.len() == 0 ==> r.variants@ == self.variants@ && *final(namespace) == *old(namespace),
            ({
                let old_id = intern_id_in(final(engine)@, enum_decl_info(self));
                let new_id = intern_id_in(final(engine)@, enum_decl_info(r));
                !tys_eq(final(engine)@, old_id, new_id) ==> methods_substituted(
                    final(engine)@,
                    final(engine)@,
                    methods_of_in(old(namespace).methods@, final(engine)@, old_id),
                    methods_of_in(final(namespace).methods@, final(engine)@, new_id),
                    mapping@,
                )
            }),
    {
        let ghost ts0 = engine@;
        let old_type_id = self.type_id(engine);
        let ghost ts1 = engine@;
        let mut new_decl = self;
        new_decl.copy_types(mapping, engine);
        let ghost ts2 = engine@;
        let new_type_id = new_decl.type_id(engine);
        proof {
            if mapping@.len() == 0 {
                assert(ts2 == ts1);
                assert(infos_eq_in(ts1, enum_decl_info(new_decl), enum_decl_info(self)));
                lemma_find_eq_congr(ts1, enum_decl_info(new_decl), enum_decl_info(self), 0);
                lemma_find_unique(ts1, enum_decl_info(self), old_type_id);
                assert(new_type_id == old_type_id);
            }
        }
        let ghost ts3 = engine@;
        namespace.copy_methods_to_type(engine, old_type_id, new_type_id, mapping);
        proof {
            let ts0b = old(engine)@;
            let ts_final = engine@;
            assert(tys_extend(ts2, ts0b));
            assert(tys_extend(ts_final, ts2));
            assert(tys_extend(ts_final, ts0b));
            assert forall|i: int|
                0 <= i < self.variants@.len() ==> (#[trigger] new_decl.variants@[i]).name
                    == self.variants@[i].name && new_decl.variants@[i].span == self.variants@[i].span
                    && new_decl.variants@[i].tag == self.variants@[i].tag && (
            match subst_match_in(ts0b, mapping@, self.variants@[i].type_id, 0) {
                Some(nid) => tys_eq(ts_final, new_decl.variants@[i].type_id, nid) && valid_in(
                    ts_final,
                    new_decl.variants@[i].type_id,
                ) && type_at(ts_final, new_decl.variants@[i].type_id) is Ref,
                None => new_decl.variants@[i].type_id == self.variants@[i].type_id,
            }) by {
                if 0 <= i < self.variants@.len() {
                    lemma_subst_match_extend(ts1, ts0b, mapping@, self.variants@[i].type_id, 0);
                    match subst_match_in(ts0b, mapping@, self.variants@[i].type_id, 0) {
                        Some(nid) => {
                            lemma_subst_match_valid(ts0b, mapping@, self.variants@[i].type_id, 0);
                            lemma_tys_eq_extend(ts_final, ts2, new_decl.variants@[i].type_id, nid);
                        },
                        None => {},
                    }
                }
            }
            // the old and new type identities are still found where the two
            // recomputations interned them
            let info_self = enum_decl_info(self);
            let info_r = enum_decl_info(new_decl);
            assert(info_wf_in(info_self, ts0b.len() as int));
            assert(info_wf_in(type_at(ts1, old_type_id), old_type_id.index as int));
            lemma_info_wf_mono(type_at(ts1, old_type_id), old_type_id.index as int, ts1.len() as int);
            lemma_info_wf_mono(info_self, ts0b.len() as int, ts1.len() as int);
            lemma_infos_eq_extend(ts_final, ts1, type_at(ts1, old_type_id), info_self);
            lemma_find_unique(ts_final, info_self, old_type_id);
            assert(intern_id_in(ts_final, info_self) == old_type_id);
            assert(info_wf_in(info_r, ts2.len() as int));
            assert(info_wf_in(type_at(ts3, new_type_id), new_type_id.index as int));
            lemma_info_wf_mono(type_at(ts3, new_type_id), new_type_id.index as int, ts3.len() as int);
            lemma_info_wf_mono(info_r, ts2.len() as int, ts3.len() as int);
            lemma_infos_eq_extend(ts_final, ts3, type_at(ts3, new_type_id), info_r);
            lemma_find_unique(ts_final, info_r, new_type_id);
            assert(intern_id_in(ts_final, info_r) == new_type_id);
            // the migration clause transfers from the registry's contract
            lemma_tys_eq_extend(ts_final, ts3, old_type_id, new_type_id);
            if !tys_eq(ts_final, old_type_id, new_type_id) {
                assert(!tys_eq(ts3, old_type_id, new_type_id));
                assert(items_wf_in(old(namespace).methods@, ts3));
                lemma_methods_of_in_extend(ts_final, ts3, old(namespace).methods@, old_type_id);
                lemma_methods_of_in_wf(old(namespace).methods@, ts3, old_type_id);
                lemma_methods_substituted_pre_extend(
                    ts_final,
                    ts3,
                    ts_final,
                    methods_of_in(old(namespace).methods@, ts3, old_type_id),
                    methods_of_in(final(namespace).methods@, ts_final, new_type_id),
                    mapping@,
                );
            }
        }
        new_decl
    }

    /// Find the variant named `variant_name`, consuming the declaration.
    /// On success the variant is returned with no diagnostics; an unknown
    /// name fails with a diagnostic carrying the enum's name, the
    /// requested name and the declaration's span.
    pub fn expect_variant_from_name(self, variant_name: &Ident) -> (r: CompileResult<TypedEnumVariant>)
        ensures
            r.warnings@.len() == 0,
            match find_variant_in(self.variants@, variant_name.text@, 0) {
                Some(k) => r.value == Some(self.variants@[k]) && r.errors@.len() == 0,
                None => r.value is None && r.errors@.len() == 1 && r.errors@[0] == (
                CompileError::UnknownEnumVariant {
                    enum_name: self.name,
                    variant_name: *variant_name,
                    span: self.span,
                }),
            },
    {
        let warnings: Vec<CompileWarning> = Vec::new();
        let mut errors: Vec<CompileError> = Vec::new();
        let n = self.variants.len();
        let mut i: usize = 0;
        while i < n
            invariant
                n == self.variants@.len(),
                i <= n,
                warnings@.len() == 0,
                errors@.len() == 0,
                find_variant_in(self.variants@, variant_name.text@, 0) == find_variant_in(
                    self.variants@,
                    variant_name.text@,
                    i as int,
                ),
            decreases n - i,
        {
            if self.variants[i].name.text == variant_name.text {
                return ok(self.variants[i].clone(), warnings, errors);
            }
            i += 1;
        }
        errors.push(CompileError::UnknownEnumVariant {
            enum_name: self.name,
            variant_name: variant_name.clone(),
            span: self.span,
        });
        err(warnings, errors)
    }
}

/// Law: monomorphizing a declaration under `m1` and then under `m2`
/// yields a declaration structurally equal to monomorphizing it once
/// under their composition. The two results are returned for inspection:
/// the first went through both mappings in turn, the second through the
/// composed mapping.
#[verifier::rlimit(100)]
pub fn enum_monomorphize_compose_law(
    engine: &mut TypeEngine,
    items: &mut Items,
    d: &TypedEnumDeclaration,
    m1: &TypeMapping,
    m2: &TypeMapping,
) -> (r: (TypedEnumDeclaration, TypedEnumDeclaration))
    requires
        tys_wf(old(engine)@),
        enum_decl_wf(old(engine)@, *d),
        mapping_wf_in(old(engine)@, m1@),
        mapping_wf_in(old(engine)@, m2@),
        items_wf_in(old(items).methods@, old(engine)@),
    ensures
        tys_wf(final(engine)@),
        tys_extend(final(engine)@, old(engine)@),
        enum_decl_eq(final(engine)@, r.0, r.1),
{
    let ghost ts0 = engine@;
    let composed = compose_mappings(engine, m1, m2);
    proof {
        assert forall|k: int| 0 <= k < composed@.len() implies (#[trigger] composed@[k]).0.type_id.index
            < ts0.len() && composed@[k].1.index < ts0.len() by {
            if k < m1@.len() {
                assert(composed@[k].0 == m1@[k].0);
                match subst_match_in(ts0, m2@, m1@[k].1, 0) {
                    Some(n) => {
                        lemma_subst_match_valid(ts0, m2@, m1@[k].1, 0);
                    },
                    None => {},
                }
            } else {
                let k2 = k - m1@.len();
                assert(composed@[m1@.len() + k2] == m2@[k2]);
                assert(k == m1@.len() + k2);
            }
        }
        assert(mapping_wf_in(ts0, composed@));
    }
    let d1 = d.duplicate();
    let d2 = d.duplicate();
    let step1 = d1.monomorphize_inner(m1, engine, items);
    let ghost ts_a = engine@;
    proof {
        lemma_mapping_wf_extend(ts_a, ts0, m2@);
    }
    let step2 = step1.monomorphize_inner(m2, engine, items);
    let ghost ts_b = engine@;
    proof {
        lemma_mapping_wf_extend(ts_b, ts0, composed@);
    }
    let once = d2.monomorphize_inner(&composed, engine, items);
    proof {
        let ts_c = engine@;
        let n = d.variants@.len();
        assert forall|i: int|
            0 <= i < n ==> (#[trigger] step2.variants@[i]).name.text@ == once.variants@[i].name.text@
                && step2.variants@[i].tag == once.variants@[i].tag && tys_eq(
            ts_c,
            step2.variants@[i].type_id,
            once.variants@[i].type_id,
        ) by {
            if 0 <= i < n {
                let f0 = d.variants@[i].type_id;
                let f1 = step1.variants@[i].type_id;
                let f2 = step2.variants@[i].type_id;
                let fc = once.variants@[i].type_id;
                let ca = composed@.subrange(0, m1@.len() as int);
                let cb = composed@.subrange(m1@.len() as int, composed@.len() as int);
                assert forall|i2: int| 0 <= i2 < cb.len() implies cb[i2] == m2@[i2] by {
                    assert(composed@[m1@.len() + i2] == m2@[i2]);
                }
                assert(cb =~= m2@);
                assert(ca + cb =~= composed@);
                lemma_subst_match_extend(ts_b, ts0, composed@, f0, 0);
                lemma_subst_match_concat(ts_b, ca, cb, f0);
                lemma_subst_match_is_idx(ts_b, ca, f0, 0);
                lemma_subst_match_is_idx(ts_b, m1@, f0, 0);
                lemma_subst_match_idx_params(ts_b, ca, m1@, f0, 0);
                lemma_subst_match_extend(ts_a, ts0, m1@, f0, 0);
                lemma_subst_match_extend(ts_b, ts0, m1@, f0, 0);
                match subst_match_in(ts0, m1@, f0, 0) {
                    Some(c1) => {
                        // the first pass left `f1` as a reference to `c1`
                        assert(tys_eq(ts_a, f1, c1));
                        lemma_subst_match_valid(ts0, m1@, f0, 0);
                        lemma_subst_match_congr(ts_a, m2@, f1, c1, 0);
                        lemma_subst_match_extend(ts_a, ts0, m2@, c1, 0);
                        let k = subst_match_idx(ts_b, m1@, f0, 0).unwrap();
                        assert(composed@[k].1 == (match subst_match_in(ts0, m2@, m1@[k].1, 0) {
                            Some(nn) => nn,
                            None => m1@[k].1,
                        }));
                        match subst_match_in(ts0, m2@, c1, 0) {
                            Some(n2) => {
                                assert(tys_eq(ts_b, f2, n2));
                                lemma_subst_match_valid(ts0, m2@, c1, 0);
                                assert(tys_eq(ts_c, fc, n2));
                                lemma_tys_eq_extend(ts_c, ts_b, f2, n2);
                            },
                            None => {
                                assert(f2 == f1);
                                assert(tys_eq(ts_c, fc, c1));
                                lemma_tys_eq_extend(ts_b, ts_a, f1, c1);
                                lemma_tys_eq_extend(ts_c, ts_b, f1, c1);
                            },
                        }
                    },
                    None => {
                        assert(f1 == f0);
                        lemma_subst_match_extend(ts_a, ts0, m2@, f0, 0);
                        lemma_subst_match_extend(ts_b, ts0, m2@, f0, 0);
                        match subst_match_in(ts0, m2@, f0, 0) {
                            Some(n2) => {
                                assert(tys_eq(ts_b, f2, n2));
                                lemma_subst_match_valid(ts0, m2@, f0, 0);
                                assert(tys_eq(ts_c, fc, n2));
                                lemma_tys_eq_extend(ts_c, ts_b, f2, n2);
                            },
                            None => {
                                assert(f2 == f0);
                                assert(fc == f0);
                            },
                        }
                    },
                }
            }
        }
        assert forall|i: int|
            0 <= i < once.type_parameters@.len() implies (#[trigger] step2.type_parameters@[i]).name.text@
                == once.type_parameters@[i].name.text@ && tys_eq(
            ts_c,
            step2.type_parameters@[i].type_id,
            once.type_parameters@[i].type_id,
        ) by {
            assert(step2.type_parameters@[i] == d.type_parameters@[i]);
            assert(once.type_parameters@[i] == d.type_parameters@[i]);
        }
    }
    (step2, once)
}

/// An elementwise copy of a variant list.
pub fn clone_variants(variants: &Vec<TypedEnumVariant>) -> (r: Vec<TypedEnumVariant>)
    ensures
        r@ == variants@,
{
    let n = variants.len();
    let mut r: Vec<TypedEnumVariant> = Vec::new();
    let mut i: usize = 0;
    while i < n
        invariant
            n == variants@.len(),
            i <= n,
            r@ =~= variants@.subrange(0, i as int),
        decreases n - i,
    {
        r.push(variants[i].clone());
        i += 1;
    }
    proof {
        assert(r@ =~= variants@);
    }
    r
}

} // verus!
