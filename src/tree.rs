//! The recursive project model and its flattening into filesystem instructions.

use vstd::prelude::*;

verus! {

broadcast use {
    vstd::seq::axiom_seq_index_decreases,
    vstd::seq::axiom_seq_subrange_decreases,
    vstd::std_specs::vec::axiom_vec_decreases_to_view,
    vstd::std_specs::vec::axiom_vec_index_decreases,
};

/// Mathematical model of a node of a project tree.
pub enum NodeModel {
    File { name: Seq<char>, content: Seq<char> },
    Dir { name: Seq<char>, children: Seq<NodeModel> },
}

/// Mathematical model of one filesystem instruction.
pub enum ItemModel {
    CreateDir { path: Seq<char> },
    WriteFile { path: Seq<char>, content: Seq<char> },
}

/// A node of a project tree: a file with its full content, or a directory
/// with its ordered children.
pub enum Template {
    File { name: String, content: String },
    Dir { name: String, children: Vec<Template> },
}

/// One filesystem instruction produced by flattening a tree.
#[derive(Debug, PartialEq, Eq)]
pub enum TemplateItem {
    File { content: String, path: String },
    Dir { path: String },
}

/// The path of an entry called `name` inside the directory at `base`.
pub open spec fn join_path(base: Seq<char>, name: Seq<char>) -> Seq<char> {
    base + "/"@ + name
}

pub open spec fn template_model(t: Template) -> NodeModel
    decreases t,
{
    match t {
        Template::File { name, content } => NodeModel::File { name: name@, content: content@ },
        Template::Dir { name, children } => NodeModel::Dir {
            name: name@,
            children: templates_model(children@),
        },
    }
}

pub open spec fn templates_model(ts: Seq<Template>) -> Seq<NodeModel>
    decreases ts,
{
    if ts.len() == 0 {
        Seq::empty()
    } else {
        templates_model(ts.take(ts.len() - 1)).push(template_model(ts.last()))
    }
}

impl View for Template {
    type V = NodeModel;

    open spec fn view(&self) -> NodeModel {
        template_model(*self)
    }
}

impl View for TemplateItem {
    type V = ItemModel;

    open spec fn view(&self) -> ItemModel {
        match self {
            TemplateItem::File { content, path } => ItemModel::WriteFile {
                path: path@,
                content: content@,
            },
            TemplateItem::Dir { path } => ItemModel::CreateDir { path: path@ },
        }
    }
}

pub open spec fn items_model(items: Seq<TemplateItem>) -> Seq<ItemModel> {
    items.map_values(|i: TemplateItem| i@)
}

/// The instructions for a node inside the directory at `base`, in pre-order.
pub open spec fn flatten_node(n: NodeModel, base: Seq<char>) -> Seq<ItemModel>
    decreases n,
{
    match n {
        NodeModel::File { name, content } => seq![
            ItemModel::WriteFile { path: join_path(base, name), content },
        ],
        NodeModel::Dir { name, children } => seq![
            ItemModel::CreateDir { path: join_path(base, name) },
        ] + flatten_nodes(children, join_path(base, name)),
    }
}

/// The instructions for a sequence of sibling nodes, one after the other.
pub open spec fn flatten_nodes(ns: Seq<NodeModel>, base: Seq<char>) -> Seq<ItemModel>
    decreases ns,
{
    if ns.len() == 0 {
        Seq::empty()
    } else {
        flatten_nodes(ns.take(ns.len() - 1), base) + flatten_node(ns.last(), base)
    }
}

pub(crate) proof fn lemma_templates_model(ts: Seq<Template>)
    ensures
        templates_model(ts).len() == ts.len(),
        forall|i: int| 0 <= i < ts.len() ==> #[trigger] templates_model(ts)[i] == template_model(ts[i]),
    decreases ts.len(),
{
    if ts.len() > 0 {
        lemma_templates_model(ts.take(ts.len() - 1));
    }
}

fn join(base: &str, name: &str) -> (r: String)
    ensures
        r@ == join_path(base@, name@),
{
    let mut p = String::from_str(base);
    p.append("/");
    p.append(name);
    p
}

fn traverse(node: &Template, path: &str, stack: &mut Vec<TemplateItem>)
    ensures
        items_model(final(stack)@) == items_model(old(stack)@) + flatten_node(node@, path@),
    decreases node,
{
    match node {
        Template::File { name, content } => {
            let p = join(path, name.as_str());
            stack.push(TemplateItem::File { content: content.clone(), path: p });
            proof {
                assert(items_model(final(stack)@) =~= items_model(old(stack)@) + flatten_node(node@, path@));
            }
        },
        Template::Dir { name, children } => {
            let p = join(path, name.as_str());
            let dir_path = p.clone();
            stack.push(TemplateItem::Dir { path: p });
            let ghost start = items_model(old(stack)@) + seq![ItemModel::CreateDir { path: join_path(path@, name@) }];
            let ghost cm = templates_model(children@);
            proof {
                lemma_templates_model(children@);
                assert(items_model(stack@) =~= start);
                assert(cm.take(0) =~= Seq::<NodeModel>::empty());
                assert(start + flatten_nodes(cm.take(0), dir_path@) =~= start);
            }
            let mut i: usize = 0;
            while i < children.len()
                invariant
                    0 <= i <= children.len(),
                    *node == (Template::Dir { name: *name, children: *children }),
                    cm == templates_model(children@),
                    cm.len() == children@.len(),
                    forall|j: int| 0 <= j < children@.len() ==> #[trigger] cm[j] == template_model(children@[j]),
                    dir_path@ == join_path(path@, name@),
                    items_model(stack@) == start + flatten_nodes(cm.take(i as int), dir_path@),
                decreases children.len() - i,
            {
                proof {
                    assert(decreases_to!(*node => node->Dir_children));
                    assert(decreases_to!(node->Dir_children => children[i as int]));
                    assert(decreases_to!(*node => children[i as int]));
                }
                traverse(&children[i], dir_path.as_str(), stack);
                proof {
                    assert(cm.take(i + 1).take(i as int) =~= cm.take(i as int));
                    assert(cm.take(i + 1).last() == cm[i as int]);
                }
                i = i + 1;
            }
            proof {
                assert(cm.take(i as int) =~= cm);
                assert(items_model(stack@) =~= items_model(old(stack)@) + flatten_node(node@, path@));
            }
        },
    }
}

impl Template {
    /// Flattens the tree into filesystem instructions: each directory becomes
    /// a creation, each file a write, in pre-order, paths joined onto `root_path`.
    pub fn flatten(&self, root_path: &str) -> (r: Vec<TemplateItem>)
        ensures
            items_model(r@) == flatten_node(self@, root_path@),
    {
        let mut stack: Vec<TemplateItem> = Vec::new();
        proof {
            assert(items_model(stack@) =~= Seq::<ItemModel>::empty());
        }
        traverse(self, root_path, &mut stack);
        proof {
            assert(Seq::<ItemModel>::empty() + flatten_node(self@, root_path@) =~= flatten_node(self@, root_path@));
        }
        stack
    }
}

/// The number of nodes in a tree.
pub open spec fn node_count(n: NodeModel) -> nat
    decreases n,
{
    match n {
        NodeModel::File { .. } => 1,
        NodeModel::Dir { children, .. } => 1 + nodes_count(children),
    }
}

/// The number of nodes in a sequence of sibling trees.
pub open spec fn nodes_count(ns: Seq<NodeModel>) -> nat
    decreases ns,
{
    if ns.len() == 0 {
        0
    } else {
        nodes_count(ns.take(ns.len() - 1)) + node_count(ns.last())
    }
}

/// An address names a node of a tree by the child indices that lead to it
/// from the root; the empty address names the root.
pub open spec fn valid_address(n: NodeModel, a: Seq<int>) -> bool
    decreases a.len(),
{
    if a.len() == 0 {
        true
    } else {
        match n {
            NodeModel::File { .. } => false,
            NodeModel::Dir { children, .. } => 0 <= a[0] < children.len() && valid_address(
                children[a[0]],
                a.drop_first(),
            ),
        }
    }
}

/// The instruction that the node at address `a` stands for, when the tree
/// is placed inside the directory at `base`.
pub open spec fn item_at(n: NodeModel, a: Seq<int>, base: Seq<char>) -> ItemModel
    decreases a.len(),
{
    match n {
        NodeModel::File { name, content } => ItemModel::WriteFile {
            path: join_path(base, name),
            content,
        },
        NodeModel::Dir { name, children } => if a.len() == 0 || !(0 <= a[0] < children.len()) {
            ItemModel::CreateDir { path: join_path(base, name) }
        } else {
            item_at(children[a[0]], a.drop_first(), join_path(base, name))
        },
    }
}

/// The position of the node at address `a` in pre-order.
pub open spec fn preorder_index(n: NodeModel, a: Seq<int>) -> int
    decreases a.len(),
{
    if a.len() == 0 {
        0
    } else {
        match n {
            NodeModel::File { .. } => 0,
            NodeModel::Dir { children, .. } => if 0 <= a[0] < children.len() {
                1 + nodes_count(children.take(a[0])) + preorder_index(children[a[0]], a.drop_first())
            } else {
                0
            },
        }
    }
}

proof fn lemma_flatten_len(n: NodeModel, base: Seq<char>)
    ensures
        flatten_node(n, base).len() == node_count(n),
    decreases n,
{
    match n {
        NodeModel::File { .. } => {},
        NodeModel::Dir { name, children } => {
            lemma_flatten_nodes_len(children, join_path(base, name));
        },
    }
}

proof fn lemma_flatten_nodes_len(ns: Seq<NodeModel>, base: Seq<char>)
    ensures
        flatten_nodes(ns, base).len() == nodes_count(ns),
    decreases ns,
{
    if ns.len() > 0 {
        lemma_flatten_nodes_len(ns.take(ns.len() - 1), base);
        lemma_flatten_len(ns.last(), base);
    }
}

proof fn lemma_count_prefix_step(ns: Seq<NodeModel>, i: int)
    requires
        0 <= i < ns.len(),
    ensures
        nodes_count(ns.take(i + 1)) == nodes_count(ns.take(i)) + node_count(ns[i]),
{
    assert(ns.take(i + 1).take(i) =~= ns.take(i));
}

proof fn lemma_count_prefix_mono(ns: Seq<NodeModel>, i: int, j: int)
    requires
        0 <= i <= j <= ns.len(),
    ensures
        nodes_count(ns.take(i)) <= nodes_count(ns.take(j)),
    decreases j - i,
{
    if i < j {
        lemma_count_prefix_step(ns, j - 1);
        lemma_count_prefix_mono(ns, i, j - 1);
    }
}

proof fn lemma_flatten_nodes_index(ns: Seq<NodeModel>, base: Seq<char>, i: int, k: int)
    requires
        0 <= i < ns.len(),
        0 <= k < node_count(ns[i]),
    ensures
        nodes_count(ns.take(i)) + k < nodes_count(ns),
        flatten_nodes(ns, base)[nodes_count(ns.take(i)) + k] == flatten_node(ns[i], base)[k],
    decreases ns.len(),
{
    let init = ns.take(ns.len() - 1);
    lemma_flatten_nodes_len(init, base);
    lemma_flatten_len(ns.last(), base);
    if i == ns.len() - 1 {
        assert(ns.take(i) =~= init);
    } else {
        assert(init.take(i) =~= ns.take(i));
        assert(init[i] == ns[i]);
        lemma_flatten_nodes_index(init, base, i, k);
    }
}

proof fn lemma_index_in_tree(n: NodeModel, a: Seq<int>, base: Seq<char>)
    requires
        valid_address(n, a),
    ensures
        0 <= preorder_index(n, a) < node_count(n),
        flatten_node(n, base)[preorder_index(n, a)] == item_at(n, a, base),
    decreases a.len(),
{
    lemma_flatten_len(n, base);
    if a.len() > 0 {
        match n {
            NodeModel::File { .. } => {},
            NodeModel::Dir { name, children } => {
                let i = a[0];
                let dir = join_path(base, name);
                lemma_index_in_tree(children[i], a.drop_first(), dir);
                lemma_flatten_nodes_index(children, dir, i, preorder_index(children[i], a.drop_first()));
            },
        }
    }
}

proof fn lemma_index_descendant(n: NodeModel, a: Seq<int>, c: Seq<int>)
    requires
        valid_address(n, a + c),
        c.len() > 0,
    ensures
        valid_address(n, a),
        preorder_index(n, a) < preorder_index(n, a + c),
    decreases a.len(),
{
    if a.len() == 0 {
        assert(a + c =~= c);
        match n {
            NodeModel::File { .. } => {},
            NodeModel::Dir { children, .. } => {
                lemma_index_in_tree(children[c[0]], c.drop_first(), Seq::empty());
            },
        }
    } else {
        assert((a + c)[0] == a[0]);
        assert((a + c).drop_first() =~= a.drop_first() + c);
        match n {
            NodeModel::File { .. } => {},
            NodeModel::Dir { children, .. } => {
                lemma_index_descendant(children[a[0]], a.drop_first(), c);
            },
        }
    }
}

proof fn lemma_index_injective(n: NodeModel, a: Seq<int>, b: Seq<int>)
    requires
        valid_address(n, a),
        valid_address(n, b),
        preorder_index(n, a) == preorder_index(n, b),
    ensures
        a == b,
    decreases a.len(),
{
    match n {
        NodeModel::File { .. } => {
            assert(a =~= b);
        },
        NodeModel::Dir { children, .. } => {
            if a.len() == 0 && b.len() == 0 {
                assert(a =~= b);
            } else if a.len() == 0 {
                lemma_index_in_tree(children[b[0]], b.drop_first(), Seq::empty());
            } else if b.len() == 0 {
                lemma_index_in_tree(children[a[0]], a.drop_first(), Seq::empty());
            } else if a[0] == b[0] {
                lemma_index_injective(children[a[0]], a.drop_first(), b.drop_first());
                assert(a =~= seq![a[0]] + a.drop_first());
                assert(b =~= seq![b[0]] + b.drop_first());
            } else {
                let (lo, hi) = if a[0] < b[0] {
                    (a, b)
                } else {
                    (b, a)
                };
                lemma_index_in_tree(children[lo[0]], lo.drop_first(), Seq::empty());
                lemma_index_in_tree(children[hi[0]], hi.drop_first(), Seq::empty());
                lemma_count_prefix_step(children, lo[0]);
                lemma_count_prefix_mono(children, lo[0] + 1, hi[0]);
            }
        },
    }
}

/// Flattening visits every node exactly once and in pre-order: the
/// instruction list has one entry per node; the node at each address has its
/// own instruction at its pre-order position; distinct nodes have distinct
/// positions; and a directory's instruction comes before that of each of its
/// descendants.
pub proof fn lemma_flatten_preorder(n: NodeModel, base: Seq<char>)
    ensures
        flatten_node(n, base).len() == node_count(n),
        forall|a: Seq<int>|
            #![trigger preorder_index(n, a)]
            valid_address(n, a) ==> 0 <= preorder_index(n, a) < node_count(n)
                && flatten_node(n, base)[preorder_index(n, a)] == item_at(n, a, base),
        forall|a: Seq<int>, b: Seq<int>|
            #![trigger preorder_index(n, a), preorder_index(n, b)]
            valid_address(n, a) && valid_address(n, b) && preorder_index(n, a) == preorder_index(
                n,
                b,
            ) ==> a == b,
        forall|a: Seq<int>, c: Seq<int>|
            #![trigger preorder_index(n, a + c)]
            valid_address(n, a + c) && c.len() > 0 ==> preorder_index(n, a) < preorder_index(
                n,
                a + c,
            ),
{
    lemma_flatten_len(n, base);
    assert forall|a: Seq<int>| #[trigger] valid_address(n, a) implies 0 <= preorder_index(n, a)
        < node_count(n) && flatten_node(n, base)[preorder_index(n, a)] == item_at(n, a, base) by {
        lemma_index_in_tree(n, a, base);
    }
    assert forall|a: Seq<int>, b: Seq<int>|
        valid_address(n, a) && valid_address(n, b) && #[trigger] preorder_index(n, a)
            == #[trigger] preorder_index(n, b) implies a == b by {
        lemma_index_injective(n, a, b);
    }
    assert forall|a: Seq<int>, c: Seq<int>|
        valid_address(n, #[trigger] (a + c)) && c.len() > 0 implies preorder_index(n, a)
            < preorder_index(n, a + c) by {
        lemma_index_descendant(n, a, c);
    }
}

/// The number of files called `name` in a tree.
pub open spec fn files_named(n: NodeModel, name: Seq<char>) -> nat
    decreases n,
{
    match n {
        NodeModel::File { name: f, .. } => if f == name {
            1
        } else {
            0
        },
        NodeModel::Dir { children, .. } => files_named_in(children, name),
    }
}

/// The number of files called `name` in a sequence of sibling trees.
pub open spec fn files_named_in(ns: Seq<NodeModel>, name: Seq<char>) -> nat
    decreases ns,
{
    if ns.len() == 0 {
        0
    } else {
        files_named_in(ns.take(ns.len() - 1), name) + files_named(ns.last(), name)
    }
}

pub proof fn lemma_files_named_push(ns: Seq<NodeModel>, n: NodeModel, name: Seq<char>)
    ensures
        files_named_in(ns.push(n), name) == files_named_in(ns, name) + files_named(n, name),
{
    assert(ns.push(n).take(ns.len() as int) =~= ns);
}

} // verus!
