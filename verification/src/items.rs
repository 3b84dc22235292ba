//! The method registry: methods and trait implementations registered per
//! type, keyed by type identifier.
//!
//! Monomorphization asks the registry to migrate everything registered
//! under a generic type's identifier to the specialized type's identifier,
//! substituting the signatures under the same mapping, so a specialized
//! type keeps the methods of the generic template it came from.

use vstd::prelude::*;
use crate::purity::Purity;
use crate::type_engine::{TypeEngine, TypeId, TypeInfo, TypeMapping, TypeParameter};
use crate::type_engine::{
    lemma_subst_match_extend, lemma_subst_match_valid, lemma_tys_eq_extend, mapping_wf_in,
    subst_match_in, tys_eq, tys_extend, tys_wf, valid_in,
};

verus! {

/// What the registry records of a method: its name, its declared storage
/// purity, and its return type.
#[derive(Debug)]
pub struct MethodSignature {
    pub name: String,
    pub purity: Purity,
    pub return_type: TypeId,
}

impl Clone for MethodSignature {
    fn clone(&self) -> (r: Self)
        ensures
            r == *self,
    {
        MethodSignature { name: self.name.clone(), purity: self.purity, return_type: self.return_type }
    }
}

/// Whether every identifier the registry mentions was minted by the table.
pub open spec fn items_wf_in(entries: Seq<(TypeId, Vec<MethodSignature>)>, ts: Seq<TypeInfo>) -> bool {
    forall|i: int|
        0 <= i < entries.len() ==> (#[trigger] entries[i]).0.index < ts.len() && (forall|j: int|
            0 <= j < entries[i].1@.len() ==> (#[trigger] entries[i].1@[j]).return_type.index
                < ts.len())
}

/// The first registry entry at or after `i` whose key denotes the same
/// type as `key`, if any.
pub open spec fn find_methods_entry(
    entries: Seq<(TypeId, Vec<MethodSignature>)>,
    ts: Seq<TypeInfo>,
    key: TypeId,
    i: int,
) -> Option<int>
    decreases entries.len() - i,
{
    if i < 0 || i >= entries.len() {
        None
    } else if tys_eq(ts, entries[i].0, key) {
        Some(i)
    } else {
        find_methods_entry(entries, ts, key, i + 1)
    }
}

/// The methods registered for the type `key` denotes: the list of its
/// first matching entry, or nothing.
pub open spec fn methods_of_in(
    entries: Seq<(TypeId, Vec<MethodSignature>)>,
    ts: Seq<TypeInfo>,
    key: TypeId,
) -> Seq<MethodSignature> {
    match find_methods_entry(entries, ts, key, 0) {
        Some(k) => entries[k].1@,
        None => Seq::empty(),
    }
}

/// How a substituted method list relates to the original: names and
/// purities are kept; a return type matching a formal parameter of the
/// mapping now denotes the concrete type, and every other return type is
/// unchanged.
pub open spec fn methods_substituted(
    pre: Seq<TypeInfo>,
    post: Seq<TypeInfo>,
    old_ms: Seq<MethodSignature>,
    new_ms: Seq<MethodSignature>,
    mapping: Seq<(TypeParameter, TypeId)>,
) -> bool {
    &&& new_ms.len() == old_ms.len()
    &&& forall|i: int|
        0 <= i < old_ms.len() ==> (#[trigger] new_ms[i]).name@ == old_ms[i].name@ && new_ms[i].purity
            == old_ms[i].purity && (match subst_match_in(pre, mapping, old_ms[i].return_type, 0) {
            Some(nid) => tys_eq(post, new_ms[i].return_type, nid) && valid_in(
                post,
                new_ms[i].return_type,
            ),
            None => new_ms[i].return_type == old_ms[i].return_type,
        })
}

/// The set of items scoped to one module; here, its method registry.
#[derive(Debug)]
pub struct Items {
    pub methods: Vec<(TypeId, Vec<MethodSignature>)>,
}

impl Items {
    /// An empty registry.
    pub fn new() -> (r: Self)
        ensures
            r.methods@.len() == 0,
    {
        Items { methods: Vec::new() }
    }

    /// The index of the first entry whose key denotes the same type as
    /// `key`.
    fn find_entry(&self, engine: &TypeEngine, key: TypeId) -> (r: Option<usize>)
        ensures
            match r {
                Some(k) => k < self.methods@.len() && find_methods_entry(
                    self.methods@,
                    engine@,
                    key,
                    0,
                ) == Some(k as int),
                None => find_methods_entry(self.methods@, engine@, key, 0) is None,
            },
    {
        let n = self.methods.len();
        let mut i: usize = 0;
        while i < n
            invariant
                n == self.methods@.len(),
                i <= n,
                find_methods_entry(self.methods@, engine@, key, 0) == find_methods_entry(
                    self.methods@,
                    engine@,
                    key,
                    i as int,
                ),
            decreases n - i,
        {
            let hit = engine.type_ids_equal(self.methods[i].0, key);
            if hit {
                return Some(i);
            }
            i += 1;
        }
        None
    }

    /// The methods registered for the type `key` denotes.
    pub fn methods_of_type(&self, engine: &TypeEngine, key: TypeId) -> (r: Vec<MethodSignature>)
        ensures
            r@ == methods_of_in(self.methods@, engine@, key),
    {
        let found = self.find_entry(engine, key);
        match found {
            Some(k) => clone_methods(&self.methods[k].1),
            None => Vec::new(),
        }
    }

    /// Register `methods` for the type `key` denotes, shadowing whatever
    /// was registered for it before.
    pub fn register_methods(&mut self, key: TypeId, methods: Vec<MethodSignature>)
        ensures
            final(self).methods@ == old(self).methods@.insert(0, (key, methods)),
            forall|ts: Seq<TypeInfo>| #[trigger] methods_of_in(final(self).methods@, ts, key)
                == methods@,
    {
        self.methods.insert(0, (key, methods));
        proof {
            assert forall|ts: Seq<TypeInfo>| #[trigger] methods_of_in(final(self).methods@, ts, key)
                == methods@ by {
                assert(tys_eq(ts, key, key));
                assert(find_methods_entry(final(self).methods@, ts, key, 0) == Some(0int));
            }
        }
    }

    /// Migrate the methods registered under `old_key` so they are also
    /// registered under `new_key`, substituted under the mapping. When
    /// both keys already denote the same type this is a no-op.
    pub fn copy_methods_to_type(
        &mut self,
        engine: &mut TypeEngine,
        old_key: TypeId,
        new_key: TypeId,
        mapping: &TypeMapping,
    )
        requires
            tys_wf(old(engine)@),
            valid_in(old(engine)@, old_key),
            valid_in(old(engine)@, new_key),
            mapping_wf_in(old(engine)@, mapping@),
            items_wf_in(old(self).methods@, old(engine)@),
        ensures
            tys_wf(final(engine)@),
            tys_extend(final(engine)@, old(engine)@),
            items_wf_in(final(self).methods@, final(engine)@),
            tys_eq(old(engine)@, old_key, new_key) ==> *final(self) == *old(self) && final(engine)@ == old(engine)@,
            !tys_eq(old(engine)@, old_key, new_key) ==> methods_substituted(
                old(engine)@,
                final(engine)@,
                methods_of_in(old(self).methods@, old(engine)@, old_key),
                methods_of_in(final(self).methods@, final(engine)@, new_key),
                mapping@,
            ),
            forall|key: TypeId|
                key.index < old(engine)@.len() && !tys_eq(old(engine)@, key, new_key)
                    ==> #[trigger] methods_of_in(final(self).methods@, final(engine)@, key)
                    == methods_of_in(old(self).methods@, old(engine)@, key),
    {
        let same = engine.type_ids_equal(old_key, new_key);
        if same {
            return;
        }
        let ms = self.methods_of_type(engine, old_key);
        proof {
            assert forall|k: int| 0 <= k < ms@.len() implies (#[trigger] ms@[k]).return_type.index
                < old(engine)@.len() by {
                match find_methods_entry(old(self).methods@, old(engine)@, old_key, 0) {
                    Some(e) => {
                        lemma_find_methods_entry_in_range(
                            old(self).methods@,
                            old(engine)@,
                            old_key,
                            0,
                        );
                    },
                    None => {},
                }
            }
        }
        let n = ms.len();
        let mut new_ms: Vec<MethodSignature> = Vec::new();
        let mut i: usize = 0;
        while i < n
            invariant
                *self == *old(self),
                n == ms@.len(),
                i <= n,
                new_ms@.len() == i,
                tys_wf(engine@),
                tys_extend(engine@, old(engine)@),
                mapping_wf_in(old(engine)@, mapping@),
                forall|k: int|
                    0 <= k < n ==> (#[trigger] ms@[k]).return_type.index < old(engine)@.len(),
                forall|k: int|
                    0 <= k < i ==> (#[trigger] new_ms@[k]).name@ == ms@[k].name@ && new_ms@[k].purity
                        == ms@[k].purity && (match subst_match_in(
                        old(engine)@,
                        mapping@,
                        ms@[k].return_type,
                        0,
                    ) {
                        Some(nid) => tys_eq(engine@, new_ms@[k].return_type, nid) && valid_in(
                            engine@,
                            new_ms@[k].return_type,
                        ),
                        None => new_ms@[k].return_type == ms@[k].return_type,
                    }),
            decreases n - i,
        {
            let ghost mid = engine@;
            let nid = engine.substitute_type_id(mapping, ms[i].return_type);
            new_ms.push(MethodSignature {
                name: ms[i].name.clone(),
                purity: ms[i].purity,
                return_type: nid,
            });
            proof {
                let pre = old(engine)@;
                let post = engine@;
                lemma_subst_match_extend(mid, pre, mapping@, ms@[i as int].return_type, 0);
                assert forall|k: int| 0 <= k < i implies (#[trigger] new_ms@[k]).name@
                    == ms@[k].name@ && new_ms@[k].purity == ms@[k].purity && (match subst_match_in(
                    pre,
                    mapping@,
                    ms@[k].return_type,
                    0,
                ) {
                    Some(nid2) => tys_eq(post, new_ms@[k].return_type, nid2) && valid_in(
                        post,
                        new_ms@[k].return_type,
                    ),
                    None => new_ms@[k].return_type == ms@[k].return_type,
                }) by {
                    match subst_match_in(pre, mapping@, ms@[k].return_type, 0) {
                        Some(nid2) => {
                            lemma_subst_match_valid(pre, mapping@, ms@[k].return_type, 0);
                            lemma_tys_eq_extend(post, mid, new_ms@[k].return_type, nid2);
                        },
                        None => {},
                    }
                }
            }
            i += 1;
        }
        self.methods.insert(0, (new_key, new_ms));
        proof {
            let post = engine@;
            let pre = old(engine)@;
            let e = old(self).methods@;
            let e2 = self.methods@;
            assert(tys_eq(post, new_key, new_key));
            assert forall|key: TypeId|
                key.index < pre.len() && !tys_eq(pre, key, new_key) implies #[trigger] methods_of_in(
                e2,
                post,
                key,
            ) == methods_of_in(e, pre, key) by {
                lemma_tys_eq_extend(post, pre, key, new_key);
                assert(!tys_eq(post, e2[0].0, key));
                lemma_find_methods_entry_unshift(e2, e, post, key, 0);
                lemma_find_methods_entry_extend(post, pre, e, key, 0);
                match find_methods_entry(e, pre, key, 0) {
                    Some(k) => {
                        lemma_find_methods_entry_in_range(e, pre, key, 0);
                        assert(0 <= k < e.len());
                        assert(e2[k + 1] == e[k]);
                    },
                    None => {},
                }
            }
            assert(find_methods_entry(final(self).methods@, post, new_key, 0) == Some(0int));
            assert(methods_of_in(final(self).methods@, post, new_key) == new_ms@);
        }
    }
}

/// Every entry a search returns lies inside the registry.
proof fn lemma_find_methods_entry_in_range(
    entries: Seq<(TypeId, Vec<MethodSignature>)>,
    ts: Seq<TypeInfo>,
    key: TypeId,
    i: int,
)
    ensures
        match find_methods_entry(entries, ts, key, i) {
            Some(k) => i <= k < entries.len() && tys_eq(ts, entries[k].0, key),
            None => true,
        },
    decreases entries.len() - i,
{
    if 0 <= i < entries.len() && !tys_eq(ts, entries[i].0, key) {
        lemma_find_methods_entry_in_range(entries, ts, key, i + 1);
    }
}

/// Appending descriptions to the table never changes which registry
/// entry a key finds.
proof fn lemma_find_methods_entry_extend(
    post: Seq<TypeInfo>,
    pre: Seq<TypeInfo>,
    entries: Seq<(TypeId, Vec<MethodSignature>)>,
    key: TypeId,
    i: int,
)
    requires
        tys_extend(post, pre),
        key.index < pre.len(),
        forall|k: int| 0 <= k < entries.len() ==> (#[trigger] entries[k]).0.index < pre.len(),
    ensures
        find_methods_entry(entries, post, key, i) == find_methods_entry(entries, pre, key, i),
    decreases entries.len() - i,
{
    if 0 <= i < entries.len() {
        lemma_tys_eq_extend(post, pre, entries[i].0, key);
        lemma_find_methods_entry_extend(post, pre, entries, key, i + 1);
    }
}

/// Appending descriptions to the table never changes what is registered
/// for an existing key.
pub proof fn lemma_methods_of_in_extend(
    post: Seq<TypeInfo>,
    pre: Seq<TypeInfo>,
    entries: Seq<(TypeId, Vec<MethodSignature>)>,
    key: TypeId,
)
    requires
        tys_extend(post, pre),
        key.index < pre.len(),
        forall|k: int| 0 <= k < entries.len() ==> (#[trigger] entries[k]).0.index < pre.len(),
    ensures
        methods_of_in(entries, post, key) == methods_of_in(entries, pre, key),
{
    lemma_find_methods_entry_extend(post, pre, entries, key, 0);
}

/// A search over a registry with one entry prepended, started past that
/// entry, finds what the original registry finds, one position later.
proof fn lemma_find_methods_entry_unshift(
    e2: Seq<(TypeId, Vec<MethodSignature>)>,
    e: Seq<(TypeId, Vec<MethodSignature>)>,
    ts: Seq<TypeInfo>,
    key: TypeId,
    j: int,
)
    requires
        0 <= j,
        e2.len() == e.len() + 1,
        forall|k: int| 0 <= k < e.len() ==> e2[k + 1] == #[trigger] e[k],
    ensures
        match find_methods_entry(e, ts, key, j) {
            Some(k) => find_methods_entry(e2, ts, key, j + 1) == Some(k + 1),
            None => find_methods_entry(e2, ts, key, j + 1) is None,
        },
    decreases e.len() - j,
{
    if j < e.len() {
        assert(e2[j + 1] == e[j]);
        lemma_find_methods_entry_unshift(e2, e, ts, key, j + 1);
    }
}

/// In a well-formed registry, every registered method's return type was
/// minted by the table.
pub proof fn lemma_methods_of_in_wf(
    entries: Seq<(TypeId, Vec<MethodSignature>)>,
    ts: Seq<TypeInfo>,
    key: TypeId,
)
    requires
        items_wf_in(entries, ts),
    ensures
        forall|j: int|
            0 <= j < methods_of_in(entries, ts, key).len() ==> (#[trigger] methods_of_in(
                entries,
                ts,
                key,
            )[j]).return_type.index < ts.len(),
{
    lemma_find_methods_entry_in_range(entries, ts, key, 0);
}

/// A substitution relation established against a smaller table also holds
/// against any extension of it, for methods the smaller table minted.
pub proof fn lemma_methods_substituted_pre_extend(
    pre2: Seq<TypeInfo>,
    pre: Seq<TypeInfo>,
    post: Seq<TypeInfo>,
    old_ms: Seq<MethodSignature>,
    new_ms: Seq<MethodSignature>,
    mapping: Seq<(TypeParameter, TypeId)>,
)
    requires
        methods_substituted(pre, post, old_ms, new_ms, mapping),
        tys_extend(pre2, pre),
        mapping_wf_in(pre, mapping),
        forall|j: int| 0 <= j < old_ms.len() ==> (#[trigger] old_ms[j]).return_type.index < pre.len(),
    ensures
        methods_substituted(pre2, post, old_ms, new_ms, mapping),
{
    assert forall|j: int| 0 <= j < old_ms.len() implies subst_match_in(
        pre2,
        mapping,
        (#[trigger] old_ms[j]).return_type,
        0,
    ) == subst_match_in(pre, mapping, old_ms[j].return_type, 0) by {
        lemma_subst_match_extend(pre2, pre, mapping, old_ms[j].return_type, 0);
    }
}

/// An elementwise copy of a method list.
pub fn clone_methods(ms: &Vec<MethodSignature>) -> (r: Vec<MethodSignature>)
    ensures
        r@ == ms@,
{
    let n = ms.len();
    let mut r: Vec<MethodSignature> = Vec::new();
    let mut i: usize = 0;
    while i < n
        invariant
            n == ms@.len(),
            i <= n,
            r@ =~= ms@.subrange(0, i as int),
        decreases n - i,
    {
        r.push(ms[i].clone());
        i += 1;
    }
    proof {
        assert(r@ =~= ms@);
    }
    r
}

} // verus!
