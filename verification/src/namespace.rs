//! The module tree and the namespace cursor.
//!
//! A [`Namespace`] holds an `init` module template (the baseline every new
//! submodule starts from), the `root` of the project's module tree, and
//! `mod_path`, the path of the module currently being checked. The path
//! never contains the root package's own name. The cursor is scoped:
//! entering a submodule hands back a guard holding the previous path, and
//! releasing the guard restores it, while the entered module itself stays
//! attached to the tree for good.

use vstd::prelude::*;
use crate::span::{Ident, Span};
use crate::language::Visibility;

verus! {

/// One module of the tree: its name, metadata, whether it belongs to a
/// different compiled package (`is_external`), and its submodules.
#[derive(Debug)]
pub struct Module {
    pub name: String,
    pub visibility: Visibility,
    pub span: Option<Span>,
    pub is_external: bool,
    pub submodules: Vec<Module>,
}

/// The root of a project's namespace.
#[derive(Debug)]
pub struct Root {
    pub module: Module,
}

/// Structural likeness of module trees: equal names, metadata and
/// externality, with pairwise alike submodules. A copied tree is alike its
/// original.
pub open spec fn module_mirror(a: Module, b: Module) -> bool
    decreases a,
{
    &&& a.name@ == b.name@
    &&& a.visibility == b.visibility
    &&& a.span == b.span
    &&& a.is_external == b.is_external
    &&& a.submodules@.len() == b.submodules@.len()
    &&& forall|i: int|
        0 <= i < a.submodules@.len() ==> module_mirror(
            #[trigger] a.submodules@[i],
            b.submodules@[i],
        )
}

/// How marking a pre-existing submodule external relates the new tree to
/// the old: an already-external module is left entirely alone (the marking
/// short-circuits), and any other module is marked external with all of
/// its own submodules marked in turn.
pub open spec fn submodule_marked(pre: Module, post: Module) -> bool
    decreases pre,
{
    if pre.is_external {
        module_mirror(pre, post)
    } else {
        &&& post.name@ == pre.name@
        &&& post.visibility == pre.visibility
        &&& post.span == pre.span
        &&& post.is_external == true
        &&& post.submodules@.len() == pre.submodules@.len()
        &&& forall|i: int|
            0 <= i < pre.submodules@.len() ==> submodule_marked(
                #[trigger] pre.submodules@[i],
                post.submodules@[i],
            )
    }
}

/// How seeding the root marks it: the top module keeps its identity and is
/// explicitly non-external, while every pre-existing submodule is marked
/// external.
pub open spec fn root_marked(pre: Module, post: Module) -> bool {
    &&& post.name@ == pre.name@
    &&& post.visibility == pre.visibility
    &&& post.span == pre.span
    &&& post.is_external == false
    &&& post.submodules@.len() == pre.submodules@.len()
    &&& forall|i: int|
        0 <= i < pre.submodules@.len() ==> submodule_marked(
            #[trigger] pre.submodules@[i],
            post.submodules@[i],
        )
}

/// Pairwise structural likeness of two submodule lists.
pub open spec fn submodules_mirror(a: Seq<Module>, b: Seq<Module>) -> bool {
    a.len() == b.len() && forall|i: int|
        0 <= i < a.len() ==> module_mirror(#[trigger] a[i], b[i])
}

/// Exactly how attaching `child` under the module at the end of the path
/// suffix starting at `i` changes a tree: modules off the visited spine
/// are the very same values, every visited module keeps its own fields,
/// and at the target either nothing at all changes (a submodule of that
/// name already existed) or `child` is appended to the target's
/// submodules.
pub open spec fn child_added(pre: Module, post: Module, path: Seq<String>, i: int, child: Module) -> bool
    decreases path.len() - i,
{
    if i >= path.len() {
        match find_child(pre.submodules@, child.name@, 0) {
            Some(_) => post == pre,
            None => {
                &&& post.name == pre.name
                &&& post.visibility == pre.visibility
                &&& post.span == pre.span
                &&& post.is_external == pre.is_external
                &&& post.submodules@ == pre.submodules@.push(child)
            },
        }
    } else {
        match find_child(pre.submodules@, path[i]@, 0) {
            Some(j) => {
                &&& post.name == pre.name
                &&& post.visibility == pre.visibility
                &&& post.span == pre.span
                &&& post.is_external == pre.is_external
                &&& post.submodules@.len() == pre.submodules@.len()
                &&& forall|k: int|
                    0 <= k < pre.submodules@.len() && k != j ==> post.submodules@[k]
                        == #[trigger] pre.submodules@[k]
                &&& child_added(pre.submodules@[j], post.submodules@[j], path, i + 1, child)
            },
            None => false,
        }
    }
}

/// The first submodule at or after `i` named `name`, if any.
pub open spec fn find_child(subs: Seq<Module>, name: Seq<char>, i: int) -> Option<int>
    decreases subs.len() - i,
{
    if i < 0 || i >= subs.len() {
        None
    } else if subs[i].name@ == name {
        Some(i)
    } else {
        find_child(subs, name, i + 1)
    }
}

/// The module reached from `m` by following the path segments from
/// position `i` on, if every segment resolves.
pub open spec fn lookup_in(m: Module, path: Seq<String>, i: int) -> Option<Module>
    decreases path.len() - i,
{
    if i >= path.len() {
        Some(m)
    } else {
        match find_child(m.submodules@, path[i]@, 0) {
            Some(j) => lookup_in(m.submodules@[j], path, i + 1),
            None => None,
        }
    }
}

/// If no submodule before `j` matches, the search may as well start at
/// `j`.
proof fn lemma_find_child_skip(subs: Seq<Module>, name: Seq<char>, j: int)
    requires
        0 <= j <= subs.len(),
        forall|k: int| 0 <= k < j ==> (#[trigger] subs[k]).name@ != name,
    ensures
        find_child(subs, name, 0) == find_child(subs, name, j),
    decreases j,
{
    if j > 0 {
        lemma_find_child_skip(subs, name, j - 1);
    }
}

/// A failed search means no submodule from `i` on has the name.
proof fn lemma_find_child_none(subs: Seq<Module>, name: Seq<char>, i: int)
    requires
        0 <= i,
        find_child(subs, name, i) is None,
    ensures
        forall|k: int| i <= k < subs.len() ==> (#[trigger] subs[k]).name@ != name,
    decreases subs.len() - i,
{
    if i < subs.len() {
        lemma_find_child_none(subs, name, i + 1);
    }
}

/// Lists whose modules carry the same names in order are searched alike.
proof fn lemma_find_child_names_eq(a: Seq<Module>, b: Seq<Module>, name: Seq<char>, i: int)
    requires
        a.len() == b.len(),
        forall|k: int| 0 <= k < a.len() ==> (#[trigger] a[k]).name@ == b[k].name@,
    ensures
        find_child(a, name, i) == find_child(b, name, i),
    decreases a.len() - i,
{
    if 0 <= i < a.len() {
        lemma_find_child_names_eq(a, b, name, i + 1);
    }
}

impl Module {
    /// A fresh module with no submodules, belonging to the current
    /// package.
    pub fn new(name: String, visibility: Visibility, span: Option<Span>) -> (r: Module)
        ensures
            r.name == name,
            r.visibility == visibility,
            r.span == span,
            r.is_external == false,
            r.submodules@.len() == 0,
    {
        Module { name, visibility, span, is_external: false, submodules: Vec::new() }
    }

    /// The index of the first submodule named `name`.
    pub fn find_submodule_index(&self, name: &String) -> (r: Option<usize>)
        ensures
            match r {
                Some(j) => j < self.submodules@.len() && find_child(self.submodules@, name@, 0)
                    == Some(j as int),
                None => find_child(self.submodules@, name@, 0) is None,
            },
    {
        let n = self.submodules.len();
        let mut i: usize = 0;
        while i < n
            invariant
                n == self.submodules@.len(),
                i <= n,
                find_child(self.submodules@, name@, 0) == find_child(
                    self.submodules@,
                    name@,
                    i as int,
                ),
            decreases n - i,
        {
            if self.submodules[i].name == *name {
                return Some(i);
            }
            i += 1;
        }
        None
    }

    /// The module reached by following the path segments from position
    /// `i` on.
    pub fn lookup_submodule(&self, path: &Vec<String>, i: usize) -> (r: Option<&Module>)
        requires
            i <= path@.len(),
        ensures
            match r {
                Some(m) => lookup_in(*self, path@, i as int) == Some(*m),
                None => lookup_in(*self, path@, i as int) is None,
            },
        decreases path@.len() - i,
    {
        if i == path.len() {
            return Some(self);
        }
        let idx = self.find_submodule_index(&path[i]);
        match idx {
            Some(j) => self.submodules[j].lookup_submodule(path, i + 1),
            None => None,
        }
    }
}

/// A copy of a module tree, alike the original in every respect.
pub fn clone_module(m: &Module) -> (r: Module)
    ensures
        module_mirror(*m, r),
    decreases *m,
{
    let n = m.submodules.len();
    let mut subs: Vec<Module> = Vec::new();
    let mut i: usize = 0;
    while i < n
        invariant
            n == m.submodules@.len(),
            i <= n,
            subs@.len() == i,
            forall|k: int|
                0 <= k < i ==> module_mirror(m.submodules@[k], #[trigger] subs@[k]),
        decreases n - i,
    {
        proof {
            assert(decreases_to!(*m => m.submodules));
            assert(decreases_to!(m.submodules => m.submodules@[i as int]));
        }
        subs.push(clone_module(&m.submodules[i]));
        i += 1;
    }
    Module {
        name: m.name.clone(),
        visibility: m.visibility,
        span: m.span,
        is_external: m.is_external,
        submodules: subs,
    }
}

/// A copy of a module with everything not yet external marked external,
/// short-circuiting (and leaving alone) subtrees that already are.
pub fn mark_external_copy(m: &Module) -> (r: Module)
    ensures
        submodule_marked(*m, r),
    decreases *m,
{
    if m.is_external {
        return clone_module(m);
    }
    let n = m.submodules.len();
    let mut subs: Vec<Module> = Vec::new();
    let mut i: usize = 0;
    while i < n
        invariant
            n == m.submodules@.len(),
            i <= n,
            subs@.len() == i,
            forall|k: int|
                0 <= k < i ==> submodule_marked(m.submodules@[k], #[trigger] subs@[k]),
        decreases n - i,
    {
        proof {
            assert(decreases_to!(*m => m.submodules));
            assert(decreases_to!(m.submodules => m.submodules@[i as int]));
        }
        subs.push(mark_external_copy(&m.submodules[i]));
        i += 1;
    }
    Module {
        name: m.name.clone(),
        visibility: m.visibility,
        span: m.span,
        is_external: true,
        submodules: subs,
    }
}

/// A copy of the root module seeded for a fresh compilation: the top
/// module itself stays non-external while every pre-existing submodule is
/// marked external.
fn mark_root_copy(m: &Module) -> (r: Module)
    ensures
        root_marked(*m, r),
{
    let n = m.submodules.len();
    let mut subs: Vec<Module> = Vec::new();
    let mut i: usize = 0;
    while i < n
        invariant
            n == m.submodules@.len(),
            i <= n,
            subs@.len() == i,
            forall|k: int|
                0 <= k < i ==> submodule_marked(m.submodules@[k], #[trigger] subs@[k]),
        decreases n - i,
    {
        subs.push(mark_external_copy(&m.submodules[i]));
        i += 1;
    }
    Module {
        name: m.name.clone(),
        visibility: m.visibility,
        span: m.span,
        is_external: false,
        submodules: subs,
    }
}

/// An elementwise copy of a path.
pub fn clone_strings(v: &Vec<String>) -> (r: Vec<String>)
    ensures
        r@ == v@,
{
    let n = v.len();
    let mut r: Vec<String> = Vec::new();
    let mut i: usize = 0;
    while i < n
        invariant
            n == v@.len(),
            i <= n,
            r@ =~= v@.subrange(0, i as int),
        decreases n - i,
    {
        r.push(v[i].clone());
        i += 1;
    }
    proof {
        assert(r@ =~= v@);
    }
    r
}

/// Ensure a module named `child.name` exists under the module at the path
/// suffix starting at `i`: the child is attached if no submodule of that
/// name is present, and nothing happens if one is. Only the module tree
/// grows; every path that resolved before still resolves.
fn add_child_at(m: &mut Module, path: &Vec<String>, i: usize, child: Module)
    requires
        i <= path@.len(),
        lookup_in(*old(m), path@, i as int) is Some,
    ensures
        final(m).name == old(m).name,
        final(m).visibility == old(m).visibility,
        final(m).span == old(m).span,
        final(m).is_external == old(m).is_external,
        lookup_in(*final(m), path@, i as int) is Some,
        lookup_in(*final(m), path@.push(child.name), i as int) is Some,
        child_added(*old(m), *final(m), path@, i as int, child),
    decreases path@.len() - i,
{
    if i == path.len() {
        let idx = m.find_submodule_index(&child.name);
        match idx {
            Some(j) => {
                proof {
                    let pushed = path@.push(child.name);
                    assert(pushed[i as int] == child.name);
                    assert(lookup_in(m.submodules@[j as int], pushed, i as int + 1) is Some);
                    assert(lookup_in(*m, pushed, i as int) is Some);
                    assert(child_added(*old(m), *m, path@, i as int, child));
                }
            },
            None => {
                proof {
                    lemma_find_child_none(m.submodules@, child.name@, 0);
                }
                let ghost pre_subs = m.submodules@;
                m.submodules.push(child);
                proof {
                    let subs = m.submodules@;
                    assert forall|k: int| 0 <= k < pre_subs.len() implies (#[trigger] subs[k]).name@
                        != child.name@ by {
                        assert(subs[k] == pre_subs[k]);
                    }
                    lemma_find_child_skip(subs, child.name@, pre_subs.len() as int);
                    assert(find_child(subs, child.name@, pre_subs.len() as int) == Some(
                        pre_subs.len() as int,
                    ));
                    let pushed = path@.push(child.name);
                    assert(pushed[i as int] == child.name);
                    assert(find_child(subs, child.name@, 0) == Some(pre_subs.len() as int));
                    assert(lookup_in(subs[pre_subs.len() as int], pushed, i as int + 1) is Some);
                    assert(lookup_in(*m, pushed, i as int) is Some);
                    assert(find_child(pre_subs, child.name@, 0) is None);
                    assert(child_added(*old(m), *m, path@, i as int, child));
                }
            },
        }
    } else {
        let idx = m.find_submodule_index(&path[i]);
        let j = match idx {
            Some(j) => j,
            None => unreached(),
        };
        let ghost pre_subs = m.submodules@;
        let mut sub = m.submodules.remove(j);
        add_child_at(&mut sub, path, i + 1, child);
        m.submodules.insert(j, sub);
        proof {
            let subs = m.submodules@;
            assert(subs =~= pre_subs.update(j as int, sub));
            assert forall|k: int| 0 <= k < subs.len() implies (#[trigger] subs[k]).name@
                == pre_subs[k].name@ by {}
            lemma_find_child_names_eq(pre_subs, subs, path@[i as int]@, 0);
            assert(find_child(subs, path@[i as int]@, 0) == Some(j as int));
            let pushed = path@.push(child.name);
            assert(pushed[i as int] == path@[i as int]);
            lemma_find_child_names_eq(pre_subs, subs, pushed[i as int]@, 0);
            assert(lookup_in(*m, path@, i as int) == lookup_in(sub, path@, i + 1));
            assert(lookup_in(*m, pushed, i as int) == lookup_in(sub, pushed, i + 1));
            assert(find_child(pre_subs, path@[i as int]@, 0) == Some(j as int));
            assert(subs[j as int] == sub);
            assert(child_added(pre_subs[j as int], sub, path@, i as int + 1, child));
            assert(child_added(*old(m), *m, path@, i as int, child));
        }
    }
}

/// The set of names in scope throughout type checking: the `init`
/// template, the project's `root` tree, and the current module path.
#[derive(Debug)]
pub struct Namespace {
    /// The baseline module state every new submodule starts from;
    /// typically the prelude and external-dependency names.
    pub init: Module,
    /// The root of the project namespace.
    pub root: Root,
    /// The path, relative to the root, of the module currently being
    /// checked; it never contains the root package's own name.
    pub mod_path: Vec<String>,
}

/// The guard a scoped submodule entry returns: it remembers the path that
/// was current before entry, and restores it on release.
#[derive(Debug)]
pub struct SubmoduleNamespace {
    pub parent_mod_path: Vec<String>,
}

impl SubmoduleNamespace {
    /// Restore the namespace cursor to the path that was current before
    /// the matching `enter_submodule`. The entered module itself stays in
    /// the tree; only the cursor moves back.
    pub fn release(self, namespace: &mut Namespace)
        ensures
            final(namespace).mod_path@ == self.parent_mod_path@,
            final(namespace).root == old(namespace).root,
            final(namespace).init == old(namespace).init,
    {
        namespace.mod_path = self.parent_mod_path;
    }
}

/// Whether the current module is a submodule (or, depending on
/// `true_if_same`, the same module) as the one the absolute path names.
/// The absolute path carries the package name first; the current path does
/// not.
pub open spec fn spec_is_submodule_of(ns: Namespace, path: Seq<String>, true_if_same: bool) -> bool {
    &&& path[0]@ == ns.root.module.name@
    &&& path.len() - 1 <= ns.mod_path@.len()
    &&& forall|i: int| 0 <= i < path.len() - 1 ==> (#[trigger] path[i + 1])@ == ns.mod_path@[i]@
    &&& (ns.mod_path@.len() == path.len() - 1 ==> true_if_same)
}

impl Namespace {
    /// An empty namespace: empty template, empty root, cursor at the
    /// root.
    pub fn new() -> (r: Self)
        ensures
            r.mod_path@.len() == 0,
            r.init.submodules@.len() == 0,
            r.root.module.submodules@.len() == 0,
            r.root.module.is_external == false,
    {
        Namespace {
            init: Module::new(String::new(), Visibility::Private, None),
            root: Root { module: Module::new(String::new(), Visibility::Private, None) },
            mod_path: Vec::new(),
        }
    }

    /// Seed a fresh namespace from a pre-populated root. Every submodule
    /// added before this call is now considered external and is marked so,
    /// short-circuiting subtrees already marked by an earlier pass; the
    /// top module itself is explicitly forced non-external. The `init`
    /// template and the namespace's root are both seeded from the marked
    /// tree.
    pub fn init_root(root: &mut Root) -> (ns: Namespace)
        requires
            !old(root).module.is_external,
        ensures
            root_marked(old(root).module, final(root).module),
            root_marked(old(root).module, ns.init),
            root_marked(old(root).module, ns.root.module),
            ns.mod_path@.len() == 0,
    {
        let marked = mark_root_copy(&root.module);
        let init = mark_root_copy(&root.module);
        let ns_root = mark_root_copy(&root.module);
        root.module = marked;
        Namespace { init, root: Root { module: ns_root }, mod_path: Vec::new() }
    }

    /// The path of the module currently being checked.
    pub fn mod_path(&self) -> (r: &Vec<String>)
        ensures
            r == &self.mod_path,
    {
        &self.mod_path
    }

    /// The current module path with `prefixes` appended.
    pub fn prepend_module_path(&self, prefixes: &Vec<String>) -> (r: Vec<String>)
        ensures
            r@ == self.mod_path@ + prefixes@,
    {
        let mut r = clone_strings(&self.mod_path);
        let n = prefixes.len();
        let mut i: usize = 0;
        while i < n
            invariant
                n == prefixes@.len(),
                i <= n,
                r@ =~= self.mod_path@ + prefixes@.subrange(0, i as int),
            decreases n - i,
        {
            r.push(prefixes[i].clone());
            i += 1;
        }
        proof {
            assert(r@ =~= self.mod_path@ + prefixes@);
        }
        r
    }

    /// The root of the project namespace.
    pub fn root(&self) -> (r: &Root)
        ensures
            r == &self.root,
    {
        &self.root
    }

    pub fn root_module(&self) -> (r: &Module)
        ensures
            r == &self.root.module,
    {
        &self.root.module
    }

    /// The current module: the module at `mod_path`. The cursor must
    /// resolve — a path the namespace itself pushed always does.
    pub fn module(&self) -> (r: &Module)
        requires
            lookup_in(self.root.module, self.mod_path@, 0) is Some,
        ensures
            lookup_in(self.root.module, self.mod_path@, 0) == Some(*r),
    {
        let found = self.root.module.lookup_submodule(&self.mod_path, 0);
        match found {
            Some(m) => m,
            None => unreached(),
        }
    }

    /// The module of the program currently being checked; the same module
    /// the cursor points at.
    pub fn program_id(&self) -> (r: &Module)
        requires
            lookup_in(self.root.module, self.mod_path@, 0) is Some,
        ensures
            lookup_in(self.root.module, self.mod_path@, 0) == Some(*r),
    {
        self.module()
    }

    /// Whether the current module is a direct or indirect submodule of the
    /// module the absolute path names; `true_if_same` decides the answer
    /// when they are the same module. The path's package-name segment must
    /// agree with the root's own name, the current path must be at least
    /// as deep, and every compared segment must match.
    pub fn module_is_submodule_of(&self, absolute_module_path: &Vec<String>, true_if_same: bool) -> (r: bool)
        requires
            absolute_module_path@.len() >= 1,
        ensures
            r == spec_is_submodule_of(*self, absolute_module_path@, true_if_same),
    {
        if !(absolute_module_path[0] == self.root.module.name) {
            return false;
        }
        let m = absolute_module_path.len() - 1;
        if self.mod_path.len() < m {
            return false;
        }
        let mut i: usize = 0;
        while i < m
            invariant
                m == absolute_module_path@.len() - 1,
                m <= self.mod_path@.len(),
                i <= m,
                forall|k: int|
                    0 <= k < i ==> (#[trigger] absolute_module_path@[k + 1])@
                        == self.mod_path@[k]@,
            decreases m - i,
        {
            if !(absolute_module_path[i + 1] == self.mod_path[i]) {
                return false;
            }
            i += 1;
        }
        if self.mod_path.len() == m {
            true_if_same
        } else {
            true
        }
    }

    /// Whether the module the absolute path names belongs to a different
    /// compiled package: its package-name segment differs from the root's
    /// own name. Every absolute path carries at least the package name.
    pub fn module_is_external(&self, absolute_module_path: &Vec<String>) -> (r: bool)
        requires
            absolute_module_path@.len() >= 1,
        ensures
            r == (absolute_module_path@[0]@ != self.root.module.name@),
    {
        !(absolute_module_path[0] == self.root.module.name)
    }

    /// Enter the submodule named by `mod_name`: look it up or create it
    /// from the `init` template (inheriting the current module's
    /// externality), move the cursor into it, and hand back a guard
    /// holding the previous path. Releasing the guard restores the cursor;
    /// the module itself stays attached to the tree. The `child_added`
    /// clause pins the whole new tree: nothing but the one named child
    /// under the current module may differ from the old tree, a missing
    /// child is created from the `init` template with the given name,
    /// visibility and span and the current module's externality, and an
    /// existing child is left exactly as it was.
    pub fn enter_submodule(&mut self, mod_name: Ident, visibility: Visibility, module_span: Span) -> (guard: SubmoduleNamespace)
        requires
            lookup_in(old(self).root.module, old(self).mod_path@, 0) is Some,
        ensures
            guard.parent_mod_path@ == old(self).mod_path@,
            final(self).mod_path@ == old(self).mod_path@.push(mod_name.text),
            final(self).init == old(self).init,
            lookup_in(final(self).root.module, old(self).mod_path@, 0) is Some,
            lookup_in(final(self).root.module, final(self).mod_path@, 0) is Some,
            ({
                let cur = lookup_in(old(self).root.module, old(self).mod_path@, 0).unwrap();
                exists|c: Module|
                    {
                        &&& #[trigger] child_added(
                            old(self).root.module,
                            final(self).root.module,
                            old(self).mod_path@,
                            0,
                            c,
                        )
                        &&& c.name@ == mod_name.text@
                        &&& c.visibility == visibility
                        &&& c.span == Some(module_span)
                        &&& c.is_external == cur.is_external
                        &&& submodules_mirror(old(self).init.submodules@, c.submodules@)
                    }
            }),
    {
        let is_external = self.module().is_external;
        let mut child = clone_module(&self.init);
        child.name = mod_name.text.clone();
        child.visibility = visibility;
        child.span = Some(module_span);
        child.is_external = is_external;
        let parent = clone_strings(&self.mod_path);
        let ghost child_g = child;
        add_child_at(&mut self.root.module, &self.mod_path, 0, child);
        proof {
            let cur = lookup_in(old(self).root.module, old(self).mod_path@, 0).unwrap();
            assert(cur.is_external == is_external);
            assert(child_g.name@ == mod_name.text@);
            assert(submodules_mirror(old(self).init.submodules@, child_g.submodules@));
            assert(child_added(
                old(self).root.module,
                self.root.module,
                old(self).mod_path@,
                0,
                child_g,
            ));
        }
        self.mod_path.push(mod_name.text);
        SubmoduleNamespace { parent_mod_path: parent }
    }

    /// Push a submodule without a guard: the caller manages the matching
    /// `pop_submodule` itself. The `child_added` clause pins the whole new
    /// tree: nothing but the one named child under the current module may
    /// differ from the old tree, a missing child is created as a plain
    /// empty module — deliberately not from the `init` template, unlike
    /// `enter_submodule` — and an existing child is left exactly as it
    /// was.
    pub fn push_submodule(&mut self, mod_name: Ident, visibility: Visibility, module_span: Span)
        requires
            lookup_in(old(self).root.module, old(self).mod_path@, 0) is Some,
        ensures
            final(self).mod_path@ == old(self).mod_path@.push(mod_name.text),
            final(self).init == old(self).init,
            lookup_in(final(self).root.module, old(self).mod_path@, 0) is Some,
            lookup_in(final(self).root.module, final(self).mod_path@, 0) is Some,
            exists|c: Module|
                {
                    &&& #[trigger] child_added(
                        old(self).root.module,
                        final(self).root.module,
                        old(self).mod_path@,
                        0,
                        c,
                    )
                    &&& c.name@ == mod_name.text@
                    &&& c.visibility == visibility
                    &&& c.span == Some(module_span)
                    &&& c.is_external == false
                    &&& c.submodules@.len() == 0
                },
    {
        let child = Module::new(mod_name.text.clone(), visibility, Some(module_span));
        let ghost child_g = child;
        add_child_at(&mut self.root.module, &self.mod_path, 0, child);
        proof {
            assert(child_g.name@ == mod_name.text@);
            assert(child_added(
                old(self).root.module,
                self.root.module,
                old(self).mod_path@,
                0,
                child_g,
            ));
        }
        self.mod_path.push(mod_name.text);
    }

    /// Pop the innermost segment of the current path. Popping at the root
    /// leaves the path empty.
    pub fn pop_submodule(&mut self)
        ensures
            old(self).mod_path@.len() > 0 ==> final(self).mod_path@ == old(
                self,
            ).mod_path@.drop_last(),
            old(self).mod_path@.len() == 0 ==> final(self).mod_path@ == old(self).mod_path@,
            final(self).root == old(self).root,
            final(self).init == old(self).init,
    {
        if self.mod_path.len() > 0 {
            self.mod_path.pop();
        }
    }
}

/// Law: a scoped submodule entry, once its guard is released, leaves the
/// current path exactly as it was before the entry, and the entered module
/// remains reachable from the root afterwards: only the cursor is scoped,
/// the created module is permanent. The `child_added` clause pins the rest
/// of the tree: nothing else is removed or replaced.
pub fn scoped_submodule_roundtrip(ns: &mut Namespace, mod_name: Ident, visibility: Visibility, module_span: Span)
    requires
        lookup_in(old(ns).root.module, old(ns).mod_path@, 0) is Some,
    ensures
        final(ns).mod_path@ == old(ns).mod_path@,
        lookup_in(final(ns).root.module, old(ns).mod_path@.push(mod_name.text), 0) is Some,
        lookup_in(final(ns).root.module, old(ns).mod_path@, 0) is Some,
        exists|c: Module|
            {
                &&& #[trigger] child_added(
                    old(ns).root.module,
                    final(ns).root.module,
                    old(ns).mod_path@,
                    0,
                    c,
                )
                &&& c.name@ == mod_name.text@
            },
{
    let guard = ns.enter_submodule(mod_name, visibility, module_span);
    guard.release(ns);
}

} // verus!
