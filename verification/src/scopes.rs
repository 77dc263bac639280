//! The scope tree: text fragments filed under hierarchical namespace paths,
//! rendered as nested declaration blocks in insertion order.

use vstd::prelude::*;

use crate::ident::spec_zig_ident;
use crate::ident::to_zig_ident;
use crate::text::spec_concat;

verus! {

/// The key a group of functions is filed under: a plain world-level name, or
/// a fully qualified interface reference with its package's namespace and
/// name resolved.
#[derive(Debug)]
pub enum ScopeKey {
    Name(String),
    Interface { namespace: String, package: String, iface: String },
}

/// The namespace path of a key: one segment for a named key, three segments
/// (package namespace, package name, interface name) for an interface key,
/// each converted to a declaration-safe identifier.
pub open spec fn spec_scope_path(k: ScopeKey) -> Seq<Seq<char>> {
    match k {
        ScopeKey::Name(n) => seq![spec_zig_ident(n@)],
        ScopeKey::Interface { namespace, package, iface } => seq![
            spec_zig_ident(namespace@),
            spec_zig_ident(package@),
            spec_zig_ident(iface@),
        ],
    }
}

/// The display name of a key: the name itself, or `namespace:package/iface`.
pub open spec fn spec_world_key_name(k: ScopeKey) -> Seq<char> {
    match k {
        ScopeKey::Name(n) => n@,
        ScopeKey::Interface { namespace, package, iface } => namespace@ + ":"@ + package@ + "/"@
            + iface@,
    }
}

/// Derives the namespace path of a key.
pub fn get_path(key: &ScopeKey) -> (r: Vec<String>)
    ensures
        r.deep_view() == spec_scope_path(*key),
{
    let mut path: Vec<String> = Vec::new();
    match key {
        ScopeKey::Name(n) => {
            path.push(to_zig_ident(n.as_str()));
            proof {
                assert(path.deep_view() =~= spec_scope_path(*key));
            }
        },
        ScopeKey::Interface { namespace, package, iface } => {
            path.push(to_zig_ident(namespace.as_str()));
            path.push(to_zig_ident(package.as_str()));
            path.push(to_zig_ident(iface.as_str()));
            proof {
                assert(path.deep_view() =~= spec_scope_path(*key));
            }
        },
    }
    path
}

/// Renders the display name of a key.
pub fn name_world_key(key: &ScopeKey) -> (r: String)
    ensures
        r@ == spec_world_key_name(*key),
{
    match key {
        ScopeKey::Name(n) => {
            let mut out = String::new();
            out.append(n.as_str());
            proof {
                assert(out@ =~= spec_world_key_name(*key));
            }
            out
        },
        ScopeKey::Interface { namespace, package, iface } => {
            let mut out = String::new();
            out.append(namespace.as_str());
            out.append(":");
            out.append(package.as_str());
            out.append("/");
            out.append(iface.as_str());
            proof {
                assert(out@ =~= spec_world_key_name(*key));
            }
            out
        },
    }
}

/// One filed fragment: its namespace path and its text.
#[derive(Debug)]
pub struct ScopedSource {
    pub scope: Vec<String>,
    pub src: String,
}

/// The spec-level value of one filed fragment.
pub ghost struct EntryM {
    pub path: Seq<Seq<char>>,
    pub text: Seq<char>,
}

/// The spec-level scope tree.
pub ghost struct TreeM {
    pub texts: Seq<Seq<char>>,
    pub children: Seq<ChildM>,
}

/// One named child of a spec-level scope tree node.
pub ghost struct ChildM {
    pub name: Seq<char>,
    pub node: TreeM,
}

/// The tree with nothing filed.
pub open spec fn empty_tree() -> TreeM {
    TreeM { texts: Seq::empty(), children: Seq::empty() }
}

/// The index of the child named `name`, or -1 when there is none.
pub open spec fn child_index(cs: Seq<ChildM>, name: Seq<char>) -> int
    decreases cs.len(),
{
    if cs.len() == 0 {
        -1
    } else if cs[0].name == name {
        0
    } else {
        let r = child_index(cs.drop_first(), name);
        if r < 0 {
            -1
        } else {
            r + 1
        }
    }
}

/// Files one fragment under `path`, creating intermediate nodes as needed;
/// a new child is appended after the existing ones, so sibling order is
/// insertion order.
pub open spec fn tree_insert(t: TreeM, path: Seq<Seq<char>>, text: Seq<char>) -> TreeM
    decreases path.len(),
{
    if path.len() == 0 {
        TreeM { texts: t.texts.push(text), children: t.children }
    } else {
        let i = child_index(t.children, path[0]);
        if i < 0 {
            TreeM {
                texts: t.texts,
                children: t.children.push(
                    ChildM { name: path[0], node: tree_insert(empty_tree(), path.drop_first(), text) },
                ),
            }
        } else {
            TreeM {
                texts: t.texts,
                children: t.children.update(
                    i,
                    ChildM { name: path[0], node: tree_insert(t.children[i].node, path.drop_first(), text) },
                ),
            }
        }
    }
}

/// The tree that filing every entry of `entries` in order builds.
pub open spec fn tree_of(entries: Seq<EntryM>) -> TreeM
    decreases entries.len(),
{
    if entries.len() == 0 {
        empty_tree()
    } else {
        tree_insert(tree_of(entries.drop_last()), entries.last().path, entries.last().text)
    }
}

/// The texts filed at exactly `path`, in filing order.
pub open spec fn tree_lookup(t: TreeM, path: Seq<Seq<char>>) -> Seq<Seq<char>>
    decreases path.len(),
{
    if path.len() == 0 {
        t.texts
    } else {
        let i = child_index(t.children, path[0]);
        if i < 0 {
            Seq::empty()
        } else {
            tree_lookup(t.children[i].node, path.drop_first())
        }
    }
}

/// The rendering of a node: its own fragments first, then one nested
/// declaration block per child, in insertion order.
pub open spec fn tree_render(t: TreeM) -> Seq<char>
    decreases t,
{
    spec_concat(t.texts) + render_children(t.children)
}

/// The renderings of the children, in order.
pub open spec fn render_children(cs: Seq<ChildM>) -> Seq<char>
    decreases cs,
{
    if cs.len() == 0 {
        Seq::empty()
    } else {
        render_children(cs.drop_last()) + render_child(cs.last())
    }
}

/// One nested declaration block.
pub open spec fn render_child(c: ChildM) -> Seq<char>
    decreases c,
{
    "pub const "@ + c.name + " = struct {\n"@ + tree_render(c.node) + "};\n"@
}

struct ScopeNode {
    texts: Vec<String>,
    children: Vec<ScopeChild>,
}

struct ScopeChild {
    name: String,
    node: ScopeNode,
}

spec fn node_model(n: ScopeNode) -> TreeM
    decreases n,
{
    TreeM { texts: n.texts.deep_view(), children: children_model(n.children@) }
}

spec fn children_model(cs: Seq<ScopeChild>) -> Seq<ChildM>
    decreases cs,
{
    if cs.len() == 0 {
        Seq::empty()
    } else {
        children_model(cs.drop_last()).push(child_model(cs.last()))
    }
}

spec fn child_model(c: ScopeChild) -> ChildM
    decreases c,
{
    ChildM { name: c.name@, node: node_model(c.node) }
}

proof fn lemma_children_model_len(cs: Seq<ScopeChild>)
    ensures
        children_model(cs).len() == cs.len(),
    decreases cs.len(),
{
    if cs.len() > 0 {
        lemma_children_model_len(cs.drop_last());
    }
}

proof fn lemma_children_model_index(cs: Seq<ScopeChild>, i: int)
    requires
        0 <= i < cs.len(),
    ensures
        children_model(cs).len() == cs.len(),
        children_model(cs)[i] == child_model(cs[i]),
    decreases cs.len(),
{
    lemma_children_model_len(cs);
    if i < cs.len() - 1 {
        lemma_children_model_index(cs.drop_last(), i);
        assert(cs.drop_last()[i] == cs[i]);
    }
}

proof fn lemma_children_model_update(cs: Seq<ScopeChild>, i: int, c: ScopeChild)
    requires
        0 <= i < cs.len(),
    ensures
        children_model(cs.update(i, c)) == children_model(cs).update(i, child_model(c)),
    decreases cs.len(),
{
    lemma_children_model_len(cs);
    if i == cs.len() - 1 {
        assert(cs.update(i, c).drop_last() =~= cs.drop_last());
        assert(cs.update(i, c).last() == c);
        assert(children_model(cs).update(i, child_model(c)) =~= children_model(
            cs.drop_last(),
        ).push(child_model(c)));
    } else {
        assert(cs.update(i, c).drop_last() =~= cs.drop_last().update(i, c));
        assert(cs.update(i, c).last() == cs.last());
        lemma_children_model_update(cs.drop_last(), i, c);
        lemma_children_model_len(cs.drop_last());
        assert(children_model(cs).update(i, child_model(c)) =~= children_model(
            cs.drop_last().update(i, c),
        ).push(child_model(cs.last())));
    }
}

proof fn lemma_children_model_push(cs: Seq<ScopeChild>, c: ScopeChild)
    ensures
        children_model(cs.push(c)) == children_model(cs).push(child_model(c)),
{
    assert(cs.push(c).drop_last() =~= cs);
    assert(cs.push(c).last() == c);
}

proof fn lemma_child_index_found(cs: Seq<ChildM>, name: Seq<char>, j: int)
    requires
        0 <= j < cs.len(),
        cs[j].name == name,
        forall|m: int| 0 <= m < j ==> cs[m].name != name,
    ensures
        child_index(cs, name) == j,
    decreases cs.len(),
{
    if j > 0 {
        assert(cs[0].name != name);
        lemma_child_index_found(cs.drop_first(), name, j - 1);
    }
}

proof fn lemma_child_index_none(cs: Seq<ChildM>, name: Seq<char>)
    requires
        forall|m: int| 0 <= m < cs.len() ==> cs[m].name != name,
    ensures
        child_index(cs, name) == -1,
    decreases cs.len(),
{
    if cs.len() > 0 {
        assert(cs[0].name != name);
        lemma_child_index_none(cs.drop_first(), name);
    }
}

/// The index of the first child of `children` named `name`, or the length
/// when there is none.
fn find_child(children: &Vec<ScopeChild>, name: &String) -> (r: usize)
    ensures
        r <= children@.len(),
        r < children@.len() ==> children@[r as int].name@ == name@,
        forall|m: int| 0 <= m < r ==> children@[m].name@ != name@,
    decreases children@.len(),
{
    let mut j: usize = 0;
    while j < children.len()
        invariant
            j <= children@.len(),
            forall|m: int| 0 <= m < j ==> children@[m].name@ != name@,
        decreases children@.len() - j,
    {
        if children[j].name == *name {
            return j;
        }
        j = j + 1;
    }
    j
}

/// Files `text` under the part of `path` from `depth` on, creating
/// intermediate nodes as needed.
#[verifier::loop_isolation(false)]
fn insert_node(node: &mut ScopeNode, path: &Vec<String>, depth: usize, text: String)
    requires
        depth <= path@.len(),
    ensures
        node_model(*final(node)) == tree_insert(
            node_model(*old(node)),
            path.deep_view().skip(depth as int),
            text@,
        ),
    decreases path@.len() - depth,
{
    if depth == path.len() {
        let ghost t0 = node_model(*node);
        node.texts.push(text);
        proof {
            assert(path.deep_view().skip(depth as int) =~= Seq::<Seq<char>>::empty());
            assert(node.texts.deep_view() =~= t0.texts.push(text@));
        }
    } else {
        let ghost t0 = node_model(*node);
        let ghost rest = path.deep_view().skip(depth as int);
        proof {
            assert(rest[0] == path.deep_view()[depth as int]);
            assert(rest.drop_first() =~= path.deep_view().skip(depth as int + 1));
        }
        let idx = find_child(&node.children, &path[depth]);
        if idx < node.children.len() {
            proof {
                lemma_children_model_len(node.children@);
                lemma_children_model_index(node.children@, idx as int);
                assert forall|m: int| 0 <= m < idx implies children_model(node.children@)[m].name
                    != rest[0] by {
                    lemma_children_model_index(node.children@, m);
                };
                lemma_child_index_found(children_model(node.children@), rest[0], idx as int);
            }
            let ghost cs0 = node.children@;
            let mut child = node.children.remove(idx);
            let ghost sub0 = node_model(child.node);
            insert_node(&mut child.node, path, depth + 1, text);
            proof {
                assert(child.name@ == rest[0]);
            }
            node.children.insert(idx, child);
            proof {
                assert(node.children@ =~= cs0.update(idx as int, node.children@[idx as int]));
                lemma_children_model_update(cs0, idx as int, node.children@[idx as int]);
                assert(child_model(node.children@[idx as int]) == ChildM {
                    name: rest[0],
                    node: tree_insert(sub0, rest.drop_first(), text@),
                });
                assert(node_model(*node) =~~= tree_insert(t0, rest, text@));
            }
        } else {
            proof {
                lemma_children_model_len(node.children@);
                assert forall|m: int|
                    0 <= m < children_model(node.children@).len() implies children_model(
                    node.children@,
                )[m].name != rest[0] by {
                    lemma_children_model_index(node.children@, m);
                };
                lemma_child_index_none(children_model(node.children@), rest[0]);
            }
            let mut fresh = ScopeNode { texts: Vec::new(), children: Vec::new() };
            proof {
                assert(fresh.texts.deep_view() =~= Seq::<Seq<char>>::empty());
                assert(node_model(fresh) == empty_tree());
            }
            insert_node(&mut fresh, path, depth + 1, text);
            let name = path[depth].clone();
            let ghost cs0 = node.children@;
            node.children.push(ScopeChild { name, node: fresh });
            proof {
                assert(node.children@ =~= cs0.push(node.children@.last()));
                lemma_children_model_push(cs0, node.children@.last());
                assert(child_model(node.children@.last()) == ChildM {
                    name: rest[0],
                    node: tree_insert(empty_tree(), rest.drop_first(), text@),
                });
                assert(node_model(*node) =~~= tree_insert(t0, rest, text@));
            }
        }
    }
}

/// Renders a node: its fragments, then one `pub const <name> = struct { .. }`
/// block per child, in insertion order.
#[verifier::loop_isolation(false)]
fn render_node(node: &ScopeNode) -> (r: String)
    ensures
        r@ == tree_render(node_model(*node)),
    decreases *node,
{
    let mut out = String::new();
    let mut i: usize = 0;
    proof {
        assert(node.texts.deep_view().take(0) =~= Seq::<Seq<char>>::empty());
    }
    while i < node.texts.len()
        invariant
            i <= node.texts@.len(),
            out@ == spec_concat(node.texts.deep_view().take(i as int)),
        decreases node.texts@.len() - i,
    {
        out.append(node.texts[i].as_str());
        proof {
            assert(node.texts.deep_view().take(i as int + 1).drop_last() =~= node.texts.deep_view()
                .take(i as int));
        }
        i = i + 1;
    }
    proof {
        assert(node.texts.deep_view().take(node.texts@.len() as int) =~= node.texts.deep_view());
        lemma_children_model_len(node.children@);
        assert(children_model(node.children@).take(0) =~= Seq::<ChildM>::empty());
    }
    let mut j: usize = 0;
    while j < node.children.len()
        invariant
            j <= node.children@.len(),
            out@ == spec_concat(node.texts.deep_view()) + render_children(
                children_model(node.children@).take(j as int),
            ),
        decreases node.children@.len() - j,
    {
        proof {
            assert(decreases_to!(*node => node.children));
            assert(decreases_to!(node.children => node.children@));
            assert(decreases_to!(node.children@ => node.children@[j as int]));
            assert(decreases_to!(node.children@[j as int] => node.children@[j as int].node));
        }
        out.append("pub const ");
        let child = &node.children[j];
        out.append(child.name.as_str());
        out.append(" = struct {\n");
        let inner = render_node(&child.node);
        out.append(inner.as_str());
        out.append("};\n");
        proof {
            lemma_children_model_index(node.children@, j as int);
            assert(children_model(node.children@).take(j as int + 1).drop_last()
                =~= children_model(node.children@).take(j as int));
            assert(children_model(node.children@).take(j as int + 1).last() == children_model(
                node.children@,
            )[j as int]);
            assert(children_model(node.children@)[j as int].name == node.children@[j as int].name@);
            assert(inner@ == tree_render(children_model(node.children@)[j as int].node));
            assert(render_children(children_model(node.children@).take(j as int + 1))
                == render_children(children_model(node.children@).take(j as int)) + render_child(
                children_model(node.children@)[j as int],
            ));
            assert(render_child(children_model(node.children@)[j as int]) == "pub const "@
                + node.children@[j as int].name@ + " = struct {\n"@ + inner@ + "};\n"@);
            assert(out@ =~= spec_concat(node.texts.deep_view()) + render_children(
                children_model(node.children@).take(j as int + 1),
            ));
        }
        j = j + 1;
    }
    proof {
        assert(children_model(node.children@).take(children_model(node.children@).len() as int)
            =~= children_model(node.children@));
    }
    out
}

/// Text fragments filed under namespace paths, in filing order.
#[derive(Debug)]
pub struct ScopedSources(Vec<ScopedSource>);

impl ScopedSources {
    /// The filed fragments, each with its path, in filing order.
    pub closed spec fn model(&self) -> Seq<EntryM> {
        self.0@.map_values(|e: ScopedSource| EntryM { path: e.scope.deep_view(), text: e.src@ })
    }

    /// An empty collection of fragments.
    pub fn new() -> (r: ScopedSources)
        ensures
            r.model() == Seq::<EntryM>::empty(),
    {
        let r = ScopedSources(Vec::new());
        proof {
            assert(r.model() =~= Seq::<EntryM>::empty());
        }
        r
    }

    /// Files a fragment under the path of `key`.
    pub fn push(&mut self, key: &ScopeKey, src: String)
        ensures
            final(self).model() == old(self).model().push(
                EntryM { path: spec_scope_path(*key), text: src@ },
            ),
    {
        let ghost m0 = self.model();
        let scope = get_path(key);
        let ghost sv = src@;
        self.0.push(ScopedSource { scope, src });
        proof {
            assert(self.model() =~= m0.push(EntryM { path: spec_scope_path(*key), text: sv }));
        }
    }

    /// Files a fragment under the empty path: it will stand at the render
    /// root.
    pub fn push_flat(&mut self, src: String)
        ensures
            final(self).model() == old(self).model().push(
                EntryM { path: Seq::empty(), text: src@ },
            ),
    {
        let ghost m0 = self.model();
        let ghost sv = src@;
        self.0.push(ScopedSource { scope: Vec::new(), src });
        proof {
            assert(self.0@.last().scope.deep_view() =~= Seq::<Seq<char>>::empty());
            assert(self.model() =~= m0.push(EntryM { path: Seq::empty(), text: sv }));
        }
    }

    /// Whether nothing has been filed.
    pub fn is_empty(&self) -> (r: bool)
        ensures
            r == (self.model().len() == 0),
    {
        self.0.len() == 0
    }

    /// Renders every filed fragment: the tree built by filing each fragment
    /// in order, rendered as nested declaration blocks.
    pub fn get_source(&self) -> (r: String)
        ensures
            r@ == tree_render(tree_of(self.model())),
    {
        let mut root = ScopeNode { texts: Vec::new(), children: Vec::new() };
        proof {
            assert(root.texts.deep_view() =~= Seq::<Seq<char>>::empty());
            assert(node_model(root) == empty_tree());
            assert(self.model().take(0) =~= Seq::<EntryM>::empty());
        }
        let mut i: usize = 0;
        while i < self.0.len()
            invariant
                i <= self.0@.len(),
                self.model().len() == self.0@.len(),
                node_model(root) == tree_of(self.model().take(i as int)),
            decreases self.0@.len() - i,
        {
            let text = self.0[i].src.clone();
            insert_node(&mut root, &self.0[i].scope, 0, text);
            proof {
                assert(self.0[i as int].scope.deep_view().skip(0) =~= self.model()[i as int].path);
                assert(self.model().take(i as int + 1).drop_last() =~= self.model().take(i as int));
                assert(self.model().take(i as int + 1).last() == self.model()[i as int]);
            }
            i = i + 1;
        }
        proof {
            assert(self.model().take(self.0@.len() as int) =~= self.model());
        }
        render_node(&root)
    }
}

impl Default for ScopedSources {
    /// An empty collection of fragments.
    fn default() -> (r: ScopedSources)
        ensures
            r.model() == Seq::<EntryM>::empty(),
    {
        ScopedSources::new()
    }
}


/// What `child_index` finds: a valid index bearing the name, left of which
/// the name does not occur, or -1 when the name occurs nowhere.
proof fn lemma_child_index_props(cs: Seq<ChildM>, name: Seq<char>)
    ensures
        -1 <= child_index(cs, name) < cs.len(),
        child_index(cs, name) >= 0 ==> cs[child_index(cs, name)].name == name,
        child_index(cs, name) >= 0 ==> (forall|m: int|
            0 <= m < child_index(cs, name) ==> cs[m].name != name),
        child_index(cs, name) == -1 ==> (forall|m: int| 0 <= m < cs.len() ==> cs[m].name != name),
    decreases cs.len(),
{
    if cs.len() > 0 {
        if cs[0].name != name {
            lemma_child_index_props(cs.drop_first(), name);
            assert forall|m: int| 0 <= m < cs.len() && cs[m].name == name implies m
                > 0 && cs.drop_first()[m - 1].name == name by {};
        }
    }
}

/// The index of the first child named `name` in a sequence whose names
/// match elementwise is the same.
proof fn lemma_child_index_same_names(cs1: Seq<ChildM>, cs2: Seq<ChildM>, name: Seq<char>)
    requires
        cs1.len() == cs2.len(),
        forall|m: int| 0 <= m < cs1.len() ==> cs1[m].name == cs2[m].name,
    ensures
        child_index(cs1, name) == child_index(cs2, name),
{
    lemma_child_index_props(cs1, name);
    let i = child_index(cs1, name);
    if i >= 0 {
        lemma_child_index_found(cs2, name, i);
    } else {
        lemma_child_index_none(cs2, name);
    }
}

/// Looking anything up in the empty tree finds nothing.
proof fn lemma_lookup_empty(q: Seq<Seq<char>>)
    ensures
        tree_lookup(empty_tree(), q) == Seq::<Seq<char>>::empty(),
{
    if q.len() > 0 {
        lemma_child_index_none(empty_tree().children, q[0]);
    }
}

/// Filing appends the fragment under exactly its own path: what is looked
/// up there afterwards is what was there before, with the new fragment
/// after it.
pub proof fn lemma_insert_same(t: TreeM, p: Seq<Seq<char>>, x: Seq<char>)
    ensures
        tree_lookup(tree_insert(t, p, x), p) == tree_lookup(t, p).push(x),
    decreases p.len(),
{
    if p.len() > 0 {
        let cs = t.children;
        let i = child_index(cs, p[0]);
        lemma_child_index_props(cs, p[0]);
        if i < 0 {
            let sub = tree_insert(empty_tree(), p.drop_first(), x);
            let c = ChildM { name: p[0], node: sub };
            lemma_child_index_found(cs.push(c), p[0], cs.len() as int);
            lemma_insert_same(empty_tree(), p.drop_first(), x);
            lemma_lookup_empty(p.drop_first());
            assert(tree_lookup(t, p) =~= Seq::<Seq<char>>::empty());
        } else {
            let sub = tree_insert(cs[i].node, p.drop_first(), x);
            let c = ChildM { name: p[0], node: sub };
            let cs2 = cs.update(i, c);
            assert forall|m: int| 0 <= m < cs.len() implies cs[m].name == cs2[m].name by {};
            lemma_child_index_same_names(cs, cs2, p[0]);
            lemma_insert_same(cs[i].node, p.drop_first(), x);
        }
    }
}

/// Two distinct paths never merge: filing under one path leaves what is
/// looked up under every other path unchanged.
pub proof fn lemma_insert_other(t: TreeM, p: Seq<Seq<char>>, q: Seq<Seq<char>>, x: Seq<char>)
    requires
        p != q,
    ensures
        tree_lookup(tree_insert(t, p, x), q) == tree_lookup(t, q),
    decreases p.len(),
{
    if p.len() == 0 {
        if q.len() == 0 {
            assert(p =~= q);
        }
    } else if q.len() == 0 {
    } else {
        let cs = t.children;
        let i = child_index(cs, p[0]);
        lemma_child_index_props(cs, p[0]);
        lemma_child_index_props(cs, q[0]);
        let j = child_index(cs, q[0]);
        if i < 0 {
            let sub = tree_insert(empty_tree(), p.drop_first(), x);
            let c = ChildM { name: p[0], node: sub };
            let cs2 = cs.push(c);
            if p[0] == q[0] {
                assert(j == -1);
                lemma_child_index_found(cs2, q[0], cs.len() as int);
                assert(p.drop_first() != q.drop_first()) by {
                    if p.drop_first() == q.drop_first() {
                        assert forall|ii: int| 0 <= ii < p.len() implies p[ii] == q[ii] by {
                            if ii > 0 {
                                assert(p[ii] == p.drop_first()[ii - 1]);
                                assert(q[ii] == q.drop_first()[ii - 1]);
                            }
                        };
                        assert(p =~= q);
                    }
                }
                lemma_insert_other(empty_tree(), p.drop_first(), q.drop_first(), x);
                lemma_lookup_empty(q.drop_first());
                lemma_lookup_empty(q);
            } else {
                if j >= 0 {
                    lemma_child_index_found(cs2, q[0], j);
                } else {
                    lemma_child_index_none(cs2, q[0]);
                }
            }
        } else {
            let sub = tree_insert(cs[i].node, p.drop_first(), x);
            let c = ChildM { name: p[0], node: sub };
            let cs2 = cs.update(i, c);
            assert forall|m: int| 0 <= m < cs.len() implies cs[m].name == cs2[m].name by {};
            lemma_child_index_same_names(cs, cs2, q[0]);
            if p[0] == q[0] {
                assert(j == i);
                assert(p.drop_first() != q.drop_first()) by {
                    if p.drop_first() == q.drop_first() {
                        assert forall|ii: int| 0 <= ii < p.len() implies p[ii] == q[ii] by {
                            if ii > 0 {
                                assert(p[ii] == p.drop_first()[ii - 1]);
                                assert(q[ii] == q.drop_first()[ii - 1]);
                            }
                        };
                        assert(p =~= q);
                    }
                }
                lemma_insert_other(cs[i].node, p.drop_first(), q.drop_first(), x);
            } else {
                if j >= 0 {
                    assert(cs[j].name == q[0]);
                    assert(j != i);
                    assert(cs2[j].node == cs[j].node);
                }
            }
        }
    }
}

/// A fragment filed under the empty path stands in the root node, and the
/// rendering of the tree begins with the root's own fragments.
pub proof fn lemma_root_fragments(t: TreeM, x: Seq<char>)
    ensures
        tree_insert(t, Seq::empty(), x).texts == t.texts.push(x),
        tree_insert(t, Seq::empty(), x).children == t.children,
        tree_render(tree_insert(t, Seq::empty(), x)) == spec_concat(t.texts.push(x))
            + render_children(t.children),
{
}


/// The texts of the entries filed under exactly `p`, in filing order.
pub open spec fn filed_at(entries: Seq<EntryM>, p: Seq<Seq<char>>) -> Seq<Seq<char>>
    decreases entries.len(),
{
    if entries.len() == 0 {
        Seq::empty()
    } else if entries.last().path == p {
        filed_at(entries.drop_last(), p).push(entries.last().text)
    } else {
        filed_at(entries.drop_last(), p)
    }
}

/// Filing is faithful: in the tree built from a list of filed fragments,
/// the node at any path holds exactly the fragments filed under that path,
/// in filing order — so fragments filed under distinct paths never share a
/// block, and fragments filed under the empty path stand at the root.
pub proof fn lemma_scope_filing(entries: Seq<EntryM>, p: Seq<Seq<char>>)
    ensures
        tree_lookup(tree_of(entries), p) == filed_at(entries, p),
    decreases entries.len(),
{
    if entries.len() == 0 {
        lemma_lookup_empty(p);
    } else {
        lemma_scope_filing(entries.drop_last(), p);
        let pre = tree_of(entries.drop_last());
        if entries.last().path == p {
            lemma_insert_same(pre, p, entries.last().text);
        } else {
            lemma_insert_other(pre, entries.last().path, p, entries.last().text);
        }
    }
}

} // verus!
