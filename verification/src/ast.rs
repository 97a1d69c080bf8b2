//! The tree that a successful parse produces, and functions to work with it.

use vstd::prelude::*;

pub mod flat;

verus! {

/// Context information about an error met while walking an AST:
/// a description and, optionally, a text telling which node caused it.
#[derive(Debug, PartialEq)]
pub struct Error(pub String, pub Option<String>);

/// The mathematical value of an [`Error`].
pub struct ErrorV {
    pub descr: Seq<char>,
    pub context: Option<Seq<char>>,
}

impl View for Error {
    type V = ErrorV;

    open spec fn view(&self) -> ErrorV {
        ErrorV {
            descr: self.0@,
            context: match self.1 {
                Some(c) => Some(c@),
                None => None,
            },
        }
    }
}

/// The error value with this description and no context.
pub open spec fn plain_error(descr: Seq<char>) -> ErrorV {
    ErrorV { descr, context: None }
}

/// Builds an [`Error`] from a description and an optional context.
pub fn error(desc: &str, ast_context: Option<&str>) -> (r: Error)
    ensures
        r@.descr == desc@,
        r@.context == (match ast_context {
            Some(c) => Some(c@),
            None => None::<Seq<char>>,
        }),
{
    let context = match ast_context {
        Some(a) => Some(a.to_owned()),
        None => None,
    };
    Error(desc.to_owned(), context)
}

/// A node of the tree.
#[derive(Debug, PartialEq)]
pub enum Node {
    /// A terminal (atom) with its text
    Val(String),
    /// A rule with its name and the nodes it produced
    Rule((String, Vec<Node>)),
    /// End of input reached
    EOF,
}

/// The mathematical value of a [`Node`].
pub enum NodeV {
    Val(Seq<char>),
    Rule(Seq<char>, Seq<NodeV>),
    EOF,
}

/// The value of one node.
pub open spec fn node_v(n: Node) -> NodeV
    decreases n,
{
    match n {
        Node::Val(s) => NodeV::Val(s@),
        Node::Rule((name, vn)) => NodeV::Rule(name@, nodes_v(vn@)),
        Node::EOF => NodeV::EOF,
    }
}

/// The values of a sequence of nodes.
pub open spec fn nodes_v(ns: Seq<Node>) -> Seq<NodeV>
    decreases ns,
{
    if ns.len() == 0 {
        Seq::empty()
    } else {
        nodes_v(ns.drop_last()).push(node_v(ns.last()))
    }
}

impl View for Node {
    type V = NodeV;

    open spec fn view(&self) -> NodeV {
        node_v(*self)
    }
}

} // verus!

verus! {

/// The values of a sequence of nodes, element by element.
pub proof fn lemma_nodes_v_index(ns: Seq<Node>)
    ensures
        nodes_v(ns).len() == ns.len(),
        forall|i: int| 0 <= i < ns.len() ==> #[trigger] nodes_v(ns)[i] == node_v(ns[i]),
    decreases ns.len(),
{
    if ns.len() > 0 {
        lemma_nodes_v_index(ns.drop_last());
    }
}

/// The values of a sequence grown by one node.
pub proof fn lemma_nodes_v_push(ns: Seq<Node>, n: Node)
    ensures
        nodes_v(ns.push(n)) == nodes_v(ns).push(node_v(n)),
{
    assert(ns.push(n).drop_last() =~= ns);
}

/// The values of two concatenated sequences of nodes.
pub proof fn lemma_nodes_v_add(a: Seq<Node>, b: Seq<Node>)
    ensures
        nodes_v(a + b) == nodes_v(a) + nodes_v(b),
    decreases b.len(),
{
    if b.len() == 0 {
        assert(a + b =~= a);
        assert(nodes_v(a) + nodes_v(b) =~= nodes_v(a));
    } else {
        lemma_nodes_v_add(a, b.drop_last());
        assert((a + b).drop_last() =~= a + b.drop_last());
        assert((a + b).last() == b.last());
        assert(nodes_v(a) + nodes_v(b) =~= (nodes_v(a) + nodes_v(b.drop_last())).push(node_v(b.last())));
    }
}

} // verus!

verus! {

/// The chars of each string slice in a sequence.
pub open spec fn strs_v(ss: Seq<&str>) -> Seq<Seq<char>> {
    ss.map_values(|s: &str| s@)
}

/// The node is a rule whose name is in `names`.
pub open spec fn to_prune(n: NodeV, names: Seq<Seq<char>>) -> bool {
    n matches NodeV::Rule(nm, _) && names.contains(nm)
}

/// The node with every rule named in `names` removed from the nodes below it.
pub open spec fn prune_v(n: NodeV, names: Seq<Seq<char>>) -> NodeV
    decreases n,
{
    match n {
        NodeV::Val(v) => NodeV::Val(v),
        NodeV::EOF => NodeV::EOF,
        NodeV::Rule(nm, ns) => NodeV::Rule(nm, prune_seq(ns, names)),
    }
}

/// The nodes without the rules named in `names`, each of the others pruned.
pub open spec fn prune_seq(ns: Seq<NodeV>, names: Seq<Seq<char>>) -> Seq<NodeV>
    decreases ns,
{
    if ns.len() == 0 {
        Seq::empty()
    } else {
        let rest = prune_seq(ns.drop_last(), names);
        if to_prune(ns.last(), names) {
            rest
        } else {
            rest.push(prune_v(ns.last(), names))
        }
    }
}

/// Adds one node to a list of nodes, joining two consecutive values.
pub open spec fn concat_node(acc: Seq<NodeV>, n: NodeV) -> Seq<NodeV>
    decreases n, 1nat,
{
    match n {
        NodeV::EOF => acc.push(NodeV::EOF),
        NodeV::Val(v) => if acc.len() > 0 && acc.last() is Val {
            acc.drop_last().push(NodeV::Val(acc.last()->Val_0 + v))
        } else {
            acc.push(NodeV::Val(v))
        },
        NodeV::Rule(nm, vn) => acc.push(NodeV::Rule(nm, compact_seq(vn))),
    }
}

/// The nodes with consecutive values joined, at every level.
pub open spec fn compact_seq(ns: Seq<NodeV>) -> Seq<NodeV>
    decreases ns, 0nat,
{
    if ns.len() == 0 {
        Seq::empty()
    } else {
        concat_node(compact_seq(ns.drop_last()), ns.last())
    }
}

/// The node with consecutive values joined below it, at every level.
pub open spec fn compact_v(n: NodeV) -> NodeV {
    match n {
        NodeV::EOF => NodeV::EOF,
        NodeV::Val(v) => NodeV::Val(v),
        NodeV::Rule(nm, vn) => NodeV::Rule(nm, compact_seq(vn)),
    }
}

/// Whether `name` is one of `names`.
fn name_in(names: &[&str], name: &str) -> (r: bool)
    ensures
        r == strs_v(names@).contains(name@),
{
    let mut i: usize = 0;
    while i < names.len()
        invariant
            i <= names@.len(),
            forall|j: int| 0 <= j < i ==> names@[j]@ != name@,
        decreases names@.len() - i,
    {
        if crate::text::str_eq(names[i], name) {
            proof {
                assert(strs_v(names@)[i as int] == name@);
            }
            return true;
        }
        i = i + 1;
    }
    proof {
        if strs_v(names@).contains(name@) {
            let j = choose|j: int| 0 <= j < strs_v(names@).len() && strs_v(names@)[j] == name@;
            assert(names@[j]@ == name@);
        }
    }
    false
}

impl Node {
    /// The node with every rule named in `nodes2prune` removed from the
    /// nodes below it.
    pub fn prune(&self, nodes2prune: &[&str]) -> (r: Self)
        ensures
            r@ == prune_v(self@, strs_v(nodes2prune@)),
        decreases self,
    {
        match self {
            Node::EOF => Node::EOF,
            Node::Val(v) => Node::Val(v.clone()),
            Node::Rule((n, vn)) => {
                let ghost names = strs_v(nodes2prune@);
                let mut acc: Vec<Node> = Vec::new();
                let mut i: usize = 0;
                proof {
                    lemma_nodes_v_index(vn@);
                    assert(vn@.take(0) =~= Seq::<Node>::empty());
                    assert(nodes_v(acc@) =~= Seq::<NodeV>::empty());
                }
                while i < vn.len()
                    invariant
                        i <= vn@.len(),
                        *self is Rule,
                        self->Rule_0.1 == *vn,
                        names == strs_v(nodes2prune@),
                        nodes_v(acc@) == prune_seq(nodes_v(vn@.take(i as int)), names),
                    decreases vn@.len() - i,
                {
                    proof {
                        assert(decreases_to!(*self => self->Rule_0));
                        assert(decreases_to!(self->Rule_0 => self->Rule_0.1));
                        assert(decreases_to!(vn => vn@));
                        assert(decreases_to!(vn@ => vn@[i as int]));
                        assert(vn@.take(i + 1) =~= vn@.take(i as int).push(vn@[i as int]));
                        lemma_nodes_v_push(vn@.take(i as int), vn@[i as int]);
                        assert(nodes_v(vn@.take(i + 1)).drop_last() =~= nodes_v(vn@.take(i as int)));
                    }
                    let child = &vn[i];
                    let prune_it = match child {
                        Node::Rule((cn, _)) => name_in(nodes2prune, cn.as_str()),
                        _ => false,
                    };
                    if !prune_it {
                        let p = child.prune(nodes2prune);
                        let ghost before = acc@;
                        acc.push(p);
                        proof {
                            lemma_nodes_v_push(before, p);
                        }
                    }
                    i = i + 1;
                }
                proof {
                    assert(vn@.take(vn@.len() as int) =~= vn@);
                }
                Node::Rule((n.clone(), acc))
            },
        }
    }
}

} // verus!

verus! {

/// Adds one node to a list of nodes, joining two consecutive values.
fn concat_nodes(nodes: Vec<Node>, n: &Node) -> (r: Vec<Node>)
    ensures
        nodes_v(r@) == concat_node(nodes_v(nodes@), n@),
    decreases n, 1nat,
{
    let mut nodes = nodes;
    let ghost before = nodes@;
    match n {
        Node::EOF => {
            nodes.push(Node::EOF);
            proof {
                lemma_nodes_v_push(before, Node::EOF);
            }
        },
        Node::Val(v) => {
            match nodes.pop() {
                Some(Node::Val(pv)) => {
                    let ghost rest = nodes@;
                    proof {
                        assert(before =~= rest.push(Node::Val(pv)));
                        lemma_nodes_v_push(rest, Node::Val(pv));
                    }
                    let joined = Node::Val(crate::text::concat(pv.as_str(), v.as_str()));
                    nodes.push(joined);
                    proof {
                        lemma_nodes_v_push(rest, joined);
                    }
                },
                Some(other) => {
                    let ghost rest = nodes@;
                    proof {
                        assert(before =~= rest.push(other));
                        lemma_nodes_v_push(rest, other);
                    }
                    nodes.push(other);
                    let ghost mid = nodes@;
                    let nv = Node::Val(v.clone());
                    nodes.push(nv);
                    proof {
                        lemma_nodes_v_push(mid, nv);
                        assert(mid =~= before);
                    }
                },
                None => {
                    let nv = Node::Val(v.clone());
                    nodes.push(nv);
                    proof {
                        lemma_nodes_v_push(before, nv);
                    }
                },
            }
        },
        Node::Rule((nm, vn)) => {
            proof {
                assert(decreases_to!(*n => n->Rule_0));
                assert(decreases_to!(n->Rule_0 => n->Rule_0.1));
            }
            let c = Node::Rule((nm.clone(), compact_nodes(vn)));
            nodes.push(c);
            proof {
                lemma_nodes_v_push(before, c);
            }
        },
    }
    nodes
}

/// The nodes with consecutive values joined, at every level.
fn compact_nodes(nodes: &Vec<Node>) -> (r: Vec<Node>)
    ensures
        nodes_v(r@) == compact_seq(nodes_v(nodes@)),
    decreases nodes, 0nat,
{
    let mut acc: Vec<Node> = Vec::new();
    let mut i: usize = 0;
    proof {
        lemma_nodes_v_index(nodes@);
        assert(nodes@.take(0) =~= Seq::<Node>::empty());
        assert(nodes_v(acc@) =~= Seq::<NodeV>::empty());
    }
    while i < nodes.len()
        invariant
            i <= nodes@.len(),
            nodes_v(acc@) == compact_seq(nodes_v(nodes@.take(i as int))),
        decreases nodes@.len() - i,
    {
        proof {
            assert(decreases_to!(nodes => nodes@));
            assert(decreases_to!(nodes@ => nodes@[i as int]));
            assert(nodes@.take(i + 1) =~= nodes@.take(i as int).push(nodes@[i as int]));
            lemma_nodes_v_push(nodes@.take(i as int), nodes@[i as int]);
            assert(nodes_v(nodes@.take(i + 1)).drop_last() =~= nodes_v(nodes@.take(i as int)));
        }
        acc = concat_nodes(acc, &nodes[i]);
        i = i + 1;
    }
    proof {
        assert(nodes@.take(nodes@.len() as int) =~= nodes@);
    }
    acc
}

impl Node {
    /// The node with consecutive `Val` nodes joined into one, at every
    /// level below it.
    pub fn compact(&self) -> (r: Self)
        ensures
            r@ == compact_v(self@),
    {
        match self {
            Node::EOF => Node::EOF,
            Node::Val(v) => Node::Val(v.clone()),
            Node::Rule((n, vn)) => Node::Rule((n.clone(), compact_nodes(vn))),
        }
    }
}

} // verus!

verus! {

/// The name of a rule node and the nodes it holds.
pub fn get_nodename_and_nodes(node: &Node) -> (r: Result<(&str, &[Node]), Error>)
    ensures
        match node@ {
            NodeV::Rule(nm, ns) => r matches Ok((a, b)) && a@ == nm && nodes_v(b@) == ns,
            _ => r matches Err(e) && e@ == plain_error("expected node::Rule"@),
        },
{
    match node {
        Node::Rule((nname, nodes)) => Ok((nname.as_str(), nodes.as_slice())),
        _ => Err(error("expected node::Rule", None)),
    }
}

/// The value of a `Val` node.
pub fn get_node_val(node: &Node) -> (r: Result<&str, Error>)
    ensures
        match node@ {
            NodeV::Val(v) => r matches Ok(a) && a@ == v,
            _ => r matches Err(e) && e@ == plain_error("expected node::Val"@),
        },
{
    match node {
        Node::Val(v) => Ok(v.as_str()),
        _ => Err(error("expected node::Val", None)),
    }
}

/// The value of the only node of `nodes`, when there is exactly one node
/// and it is a `Val`.
pub fn get_nodes_unique_val(nodes: &[Node]) -> (r: Result<&str, Error>)
    ensures
        nodes@.len() == 1 && nodes_v(nodes@)[0] is Val ==> (r matches Ok(a) && a@ == nodes_v(nodes@)[0]->Val_0),
        nodes@.len() == 1 && !(nodes_v(nodes@)[0] is Val) ==> (r matches Err(e) && e@ == plain_error("expected node::Val"@)),
        nodes@.len() != 1 ==> (r matches Err(e) && e@ == plain_error("expected only one value in nodes"@)),
{
    proof {
        lemma_nodes_v_index(nodes@);
    }
    if nodes.len() == 1 {
        get_node_val(&nodes[0])
    } else {
        Err(error("expected only one value in nodes", None))
    }
}

} // verus!

verus! {

/// No node below `n`, at any depth, is a rule named in `names`.
pub open spec fn none_pruned_below(n: NodeV, names: Seq<Seq<char>>) -> bool
    decreases n,
{
    match n {
        NodeV::Rule(_, ns) => none_pruned_in(ns, names),
        _ => true,
    }
}

/// No node of `ns`, nor any node below them, is a rule named in `names`.
pub open spec fn none_pruned_in(ns: Seq<NodeV>, names: Seq<Seq<char>>) -> bool
    decreases ns,
{
    if ns.len() == 0 {
        true
    } else {
        none_pruned_in(ns.drop_last(), names) && !to_prune(ns.last(), names) && none_pruned_below(ns.last(), names)
    }
}

proof fn lemma_prune_seq_clean(ns: Seq<NodeV>, names: Seq<Seq<char>>)
    ensures
        none_pruned_in(prune_seq(ns, names), names),
    decreases ns,
{
    if ns.len() > 0 {
        lemma_prune_seq_clean(ns.drop_last(), names);
        if !to_prune(ns.last(), names) {
            lemma_prune_clean(ns.last(), names);
            let rest = prune_seq(ns.drop_last(), names);
            assert(rest.push(prune_v(ns.last(), names)).drop_last() =~= rest);
        }
    }
}

proof fn lemma_prune_clean(n: NodeV, names: Seq<Seq<char>>)
    ensures
        none_pruned_below(prune_v(n, names), names),
    decreases n,
{
    if let NodeV::Rule(_, ns) = n {
        lemma_prune_seq_clean(ns, names);
    }
}

/// Pruning removes, at every depth below the node, every rule whose name
/// is in the list.
pub proof fn law_prune_removes_named_rules(n: NodeV, names: Seq<Seq<char>>)
    ensures
        none_pruned_below(prune_v(n, names), names),
{
    lemma_prune_clean(n, names);
}

proof fn lemma_prune_seq_idem(ns: Seq<NodeV>, names: Seq<Seq<char>>)
    requires
        none_pruned_in(ns, names),
    ensures
        prune_seq(ns, names) == ns,
    decreases ns,
{
    if ns.len() > 0 {
        lemma_prune_seq_idem(ns.drop_last(), names);
        lemma_prune_idem(ns.last(), names);
        assert(ns.drop_last().push(ns.last()) =~= ns);
    }
}

proof fn lemma_prune_idem(n: NodeV, names: Seq<Seq<char>>)
    requires
        none_pruned_below(n, names),
    ensures
        prune_v(n, names) == n,
    decreases n,
{
    if let NodeV::Rule(_, ns) = n {
        lemma_prune_seq_idem(ns, names);
    }
}

/// Pruning twice with the same names prunes nothing more.
pub proof fn law_prune_idempotent(n: NodeV, names: Seq<Seq<char>>)
    ensures
        prune_v(prune_v(n, names), names) == prune_v(n, names),
{
    lemma_prune_clean(n, names);
    lemma_prune_idem(prune_v(n, names), names);
}

/// Pruning with an empty list of names leaves the node as it is.
pub proof fn law_prune_nothing(n: NodeV)
    ensures
        prune_v(n, Seq::empty()) == n,
{
    assert(none_pruned_below(n, Seq::empty())) by {
        lemma_nothing_pruned(n);
    }
    lemma_prune_idem(n, Seq::empty());
}

proof fn lemma_nothing_pruned(n: NodeV)
    ensures
        none_pruned_below(n, Seq::empty()),
    decreases n,
{
    if let NodeV::Rule(_, ns) = n {
        lemma_nothing_pruned_in(ns);
    }
}

proof fn lemma_nothing_pruned_in(ns: Seq<NodeV>)
    ensures
        none_pruned_in(ns, Seq::empty()),
    decreases ns,
{
    if ns.len() > 0 {
        lemma_nothing_pruned_in(ns.drop_last());
        lemma_nothing_pruned(ns.last());
    }
}

} // verus!

verus! {

/// No two consecutive `Val` nodes anywhere below `n`.
pub open spec fn compacted(n: NodeV) -> bool
    decreases n,
{
    match n {
        NodeV::Rule(_, ns) => compacted_seq(ns),
        _ => true,
    }
}

/// No two consecutive `Val` nodes in `ns`, nor anywhere below its nodes.
pub open spec fn compacted_seq(ns: Seq<NodeV>) -> bool
    decreases ns,
{
    if ns.len() == 0 {
        true
    } else {
        &&& compacted_seq(ns.drop_last())
        &&& compacted(ns.last())
        &&& !(ns.len() >= 2 && ns[ns.len() - 2] is Val && ns.last() is Val)
    }
}

/// The text of the values below a node, in order.
pub open spec fn text_of(n: NodeV) -> Seq<char>
    decreases n,
{
    match n {
        NodeV::Val(v) => v,
        NodeV::EOF => Seq::empty(),
        NodeV::Rule(_, ns) => text_of_seq(ns),
    }
}

/// The text of the values of a sequence of nodes, in order.
pub open spec fn text_of_seq(ns: Seq<NodeV>) -> Seq<char>
    decreases ns,
{
    if ns.len() == 0 {
        Seq::empty()
    } else {
        text_of_seq(ns.drop_last()) + text_of(ns.last())
    }
}

proof fn lemma_concat_node_ok(acc: Seq<NodeV>, n: NodeV)
    requires
        compacted_seq(acc),
    ensures
        compacted_seq(concat_node(acc, n)),
        text_of_seq(concat_node(acc, n)) == text_of_seq(acc) + text_of(n),
    decreases n, 1nat,
{
    match n {
        NodeV::EOF => {
            let r = acc.push(n);
            assert(concat_node(acc, n) == r);
            assert(r.drop_last() =~= acc);
            assert(r.last() == n);
            assert(compacted(n));
            assert(!(r.last() is Val));
            assert(compacted_seq(r));
            assert(text_of_seq(acc) + Seq::<char>::empty() =~= text_of_seq(acc));
        },
        NodeV::Val(v) => {
            if acc.len() > 0 && acc.last() is Val {
                let d = acc.drop_last();
                let j = NodeV::Val(acc.last()->Val_0 + v);
                assert(d.push(j).drop_last() =~= d);
                if d.len() >= 1 {
                    assert(d.push(j)[d.len() - 1] == acc[acc.len() - 2]);
                }
                let pv = acc.last()->Val_0;
                assert(text_of(acc.last()) == pv);
                assert(text_of_seq(acc) == text_of_seq(d) + pv);
                assert(text_of(j) == pv + v);
                assert(d.push(j).last() == j);
                assert(text_of_seq(d.push(j)) == text_of_seq(d) + (pv + v));
                assert(text_of_seq(d.push(j)) =~= text_of_seq(acc) + v);
                assert(concat_node(acc, n) == d.push(j));
                assert(compacted(j));
                assert(compacted_seq(d.push(j)));
            } else {
                let r = acc.push(n);
                assert(r.drop_last() =~= acc);
                assert(concat_node(acc, n) == r);
                assert(r.last() == n);
                if acc.len() > 0 {
                    assert(r[r.len() - 2] == acc.last());
                }
                assert(compacted(n));
                assert(compacted_seq(r));
            }
        },
        NodeV::Rule(nm, vn) => {
            lemma_compact_seq_ok(vn);
            let c = NodeV::Rule(nm, compact_seq(vn));
            let r = acc.push(c);
            assert(r.drop_last() =~= acc);
            assert(concat_node(acc, n) == r);
            assert(r.last() == c);
            assert(compacted(c));
            assert(compacted_seq(r));
            assert(text_of(c) == text_of(n));
        },
    }
}

proof fn lemma_compact_seq_ok(ns: Seq<NodeV>)
    ensures
        compacted_seq(compact_seq(ns)),
        text_of_seq(compact_seq(ns)) == text_of_seq(ns),
    decreases ns, 0nat,
{
    if ns.len() > 0 {
        lemma_compact_seq_ok(ns.drop_last());
        lemma_concat_node_ok(compact_seq(ns.drop_last()), ns.last());
    }
}

/// After compacting, no two `Val` nodes are next to each other, at any
/// level below the node.
pub proof fn law_compact_joins_values(n: NodeV)
    ensures
        compacted(compact_v(n)),
{
    if let NodeV::Rule(_, vn) = n {
        lemma_compact_seq_ok(vn);
    }
}

/// Compacting keeps the text of the values, in order.
pub proof fn law_compact_keeps_text(n: NodeV)
    ensures
        text_of(compact_v(n)) == text_of(n),
{
    if let NodeV::Rule(_, vn) = n {
        lemma_compact_seq_ok(vn);
    }
}

proof fn lemma_compact_seq_fixed(ns: Seq<NodeV>)
    requires
        compacted_seq(ns),
    ensures
        compact_seq(ns) == ns,
    decreases ns, 0nat,
{
    if ns.len() > 0 {
        lemma_compact_seq_fixed(ns.drop_last());
        let d = ns.drop_last();
        match ns.last() {
            NodeV::Rule(nm, vn) => {
                assert(compacted(ns.last()));
                assert(compacted_seq(vn));
                lemma_compact_seq_fixed(vn);
            },
            NodeV::Val(v) => {
                if d.len() > 0 {
                    assert(d.last() == ns[ns.len() - 2]);
                }
            },
            NodeV::EOF => {},
        }
        assert(compact_seq(ns) == concat_node(compact_seq(d), ns.last()));
        assert(d.push(ns.last()) =~= ns);
        match ns.last() {
            NodeV::Rule(nm, vn) => {
                assert(concat_node(d, ns.last()) == d.push(NodeV::Rule(nm, compact_seq(vn))));
            },
            NodeV::Val(v) => {
                assert(concat_node(d, ns.last()) == d.push(ns.last()));
            },
            NodeV::EOF => {
                assert(concat_node(d, ns.last()) == d.push(ns.last()));
            },
        }
    }
}

/// Compacting a compacted node changes nothing.
pub proof fn law_compact_idempotent(n: NodeV)
    ensures
        compact_v(compact_v(n)) == compact_v(n),
{
    if let NodeV::Rule(_, vn) = n {
        lemma_compact_seq_ok(vn);
        lemma_compact_seq_fixed(compact_seq(vn));
    }
}

} // verus!
