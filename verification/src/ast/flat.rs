//! The tree flattened into a sequence of nodes, where a rule becomes a
//! `BeginRule` node, the nodes it held, and an `EndRule` node. Visiting
//! the nodes in order is then a walk along a slice.

use vstd::prelude::*;

use crate::ast::{self, error, lemma_nodes_v_index, nodes_v, plain_error, Error, ErrorV, NodeV};

verus! {

/// A node of a flattened tree.
#[derive(Debug, PartialEq)]
pub enum Node {
    /// A terminal with its text
    Val(String),
    /// Start of a rule
    BeginRule(String),
    /// End of a rule
    EndRule(String),
    /// End of input reached
    EOF,
}

/// The mathematical value of a flat [`Node`].
pub enum FlatV {
    Val(Seq<char>),
    BeginRule(Seq<char>),
    EndRule(Seq<char>),
    EOF,
}

impl View for Node {
    type V = FlatV;

    open spec fn view(&self) -> FlatV {
        match self {
            Node::Val(s) => FlatV::Val(s@),
            Node::BeginRule(s) => FlatV::BeginRule(s@),
            Node::EndRule(s) => FlatV::EndRule(s@),
            Node::EOF => FlatV::EOF,
        }
    }
}

/// The values of a sequence of flat nodes.
pub open spec fn flats_v(ns: Seq<Node>) -> Seq<FlatV> {
    ns.map_values(|n: Node| n@)
}

/// The flattening of a tree node.
pub open spec fn flatten_v(n: NodeV) -> Seq<FlatV>
    decreases n,
{
    match n {
        NodeV::EOF => Seq::empty(),
        NodeV::Val(v) => seq![FlatV::Val(v)],
        NodeV::Rule(nm, vn) => seq![FlatV::BeginRule(nm)] + flatten_seq(vn) + seq![FlatV::EndRule(nm)],
    }
}

/// The flattenings of a sequence of tree nodes, one after the other.
pub open spec fn flatten_seq(ns: Seq<NodeV>) -> Seq<FlatV>
    decreases ns,
{
    if ns.len() == 0 {
        Seq::empty()
    } else {
        flatten_seq(ns.drop_last()) + flatten_v(ns.last())
    }
}

fn flatten_acc(acc: Vec<Node>, next: &ast::Node) -> (r: Vec<Node>)
    ensures
        flats_v(r@) == flats_v(acc@) + flatten_v(next@),
    decreases next,
{
    let mut acc = acc;
    let ghost before = acc@;
    match next {
        ast::Node::EOF => {
            assert(flats_v(acc@) + Seq::<FlatV>::empty() =~= flats_v(acc@));
            acc
        },
        ast::Node::Val(v) => {
            acc.push(Node::Val(v.clone()));
            assert(flats_v(acc@) =~= flats_v(before) + seq![FlatV::Val(v@)]);
            acc
        },
        ast::Node::Rule((n, vn)) => {
            acc.push(Node::BeginRule(n.clone()));
            let ghost start = acc@;
            proof {
                lemma_nodes_v_index(vn@);
                assert(vn@.take(0) =~= Seq::<ast::Node>::empty());
                assert(flatten_seq(nodes_v(vn@.take(0))) =~= Seq::<FlatV>::empty());
                assert(flats_v(acc@) =~= flats_v(before) + seq![FlatV::BeginRule(n@)]);
            }
            let mut i: usize = 0;
            while i < vn.len()
                invariant
                    i <= vn@.len(),
                    *next is Rule,
                    next->Rule_0.1 == *vn,
                    flats_v(acc@) == flats_v(before) + seq![FlatV::BeginRule(n@)] + flatten_seq(nodes_v(vn@.take(i as int))),
                decreases vn@.len() - i,
            {
                proof {
                    assert(decreases_to!(*next => next->Rule_0));
                    assert(decreases_to!(next->Rule_0 => next->Rule_0.1));
                    assert(decreases_to!(vn => vn@));
                    assert(decreases_to!(vn@ => vn@[i as int]));
                    assert(vn@.take(i + 1) =~= vn@.take(i as int).push(vn@[i as int]));
                    ast::lemma_nodes_v_push(vn@.take(i as int), vn@[i as int]);
                    assert(nodes_v(vn@.take(i + 1)).drop_last() =~= nodes_v(vn@.take(i as int)));
                }
                acc = flatten_acc(acc, &vn[i]);
                proof {
                    assert(flats_v(acc@) =~= flats_v(before) + seq![FlatV::BeginRule(n@)] + flatten_seq(nodes_v(vn@.take(i + 1))));
                }
                i = i + 1;
            }
            let ghost mid = acc@;
            acc.push(Node::EndRule(n.clone()));
            proof {
                assert(vn@.take(vn@.len() as int) =~= vn@);
                assert(flats_v(acc@) =~= flats_v(mid) + seq![FlatV::EndRule(n@)]);
                assert(flats_v(acc@) =~= flats_v(before) + (seq![FlatV::BeginRule(n@)] + flatten_seq(nodes_v(vn@)) + seq![FlatV::EndRule(n@)]));
            }
            acc
        },
    }
}

impl ast::Node {
    /// The tree flattened: each rule becomes a `BeginRule` node, the
    /// flattening of its nodes, and an `EndRule` node.
    pub fn flatten(&self) -> (r: Vec<Node>)
        ensures
            flats_v(r@) == flatten_v(self@),
    {
        let r = flatten_acc(Vec::new(), self);
        assert(flats_v(Seq::<Node>::empty()) + flatten_v(self@) =~= flatten_v(self@));
        r
    }
}

} // verus!

verus! {

/// The error for taking a node from an empty slice.
pub open spec fn empty_slice_error() -> ErrorV {
    plain_error("trying get first element from nodes on empty slice"@)
}

/// The error for a rule node with another name than the expected one.
pub open spec fn other_name_error(expected: Seq<char>, received: Seq<char>) -> ErrorV {
    plain_error("expected "@ + expected + " node, received "@ + received)
}

/// The first node and the rest.
pub open spec fn spec_split_first(nodes: Seq<FlatV>) -> Result<(FlatV, Seq<FlatV>), ErrorV> {
    if nodes.len() == 0 {
        Err(empty_slice_error())
    } else {
        Ok((nodes[0], nodes.drop_first()))
    }
}

/// Consuming a `BeginRule` node named `name`.
pub open spec fn spec_start_rule(name: Seq<char>, nodes: Seq<FlatV>) -> Result<Seq<FlatV>, ErrorV> {
    match spec_split_first(nodes) {
        Err(e) => Err(e),
        Ok((n, rest)) => match n {
            FlatV::BeginRule(nm) => if nm == name {
                Ok(rest)
            } else {
                Err(other_name_error(name, nm))
            },
            _ => Err(plain_error("expected begin rule for "@ + name)),
        },
    }
}

/// Consuming an `EndRule` node named `name`.
pub open spec fn spec_end_rule(name: Seq<char>, nodes: Seq<FlatV>) -> Result<Seq<FlatV>, ErrorV> {
    match spec_split_first(nodes) {
        Err(e) => Err(e),
        Ok((n, rest)) => match n {
            FlatV::EndRule(nm) => if nm == name {
                Ok(rest)
            } else {
                Err(other_name_error(name, nm))
            },
            _ => Err(plain_error("expected end rule for "@ + name)),
        },
    }
}

/// The first node.
pub open spec fn spec_peek(nodes: Seq<FlatV>) -> Result<FlatV, ErrorV> {
    if nodes.len() == 0 {
        Err(plain_error("exptected node on peek_first_node"@))
    } else {
        Ok(nodes[0])
    }
}

/// The value of a `Val` node.
pub open spec fn spec_node_val(n: FlatV) -> Result<Seq<char>, ErrorV> {
    match n {
        FlatV::Val(v) => Ok(v),
        _ => Err(plain_error("expected node::Val"@)),
    }
}

/// Consuming a `Val` node holding `v`.
pub open spec fn spec_this_value(v: Seq<char>, nodes: Seq<FlatV>) -> Result<Seq<FlatV>, ErrorV> {
    match spec_split_first(nodes) {
        Err(e) => Err(e),
        Ok((n, rest)) => match spec_node_val(n) {
            Err(e) => Err(e),
            Ok(x) => if x == v {
                Ok(rest)
            } else {
                Err(empty_slice_error())
            },
        },
    }
}

/// The name of a rule node.
pub open spec fn spec_nodename(n: FlatV) -> Result<Seq<char>, ErrorV> {
    match n {
        FlatV::BeginRule(nm) => Ok(nm),
        FlatV::EndRule(nm) => Ok(nm),
        _ => Err(plain_error("expected node::Rule"@)),
    }
}

/// Consuming a `Val` node: its value and the rest.
pub open spec fn spec_consume_val(nodes: Seq<FlatV>) -> Result<(Seq<char>, Seq<FlatV>), ErrorV> {
    match spec_split_first(nodes) {
        Err(e) => Err(e),
        Ok((n, rest)) => match n {
            FlatV::Val(v) => Ok((v, rest)),
            _ => Err(plain_error("expected Val node"@)),
        },
    }
}

/// The values of a slice of flat nodes drop their first element with it.
pub proof fn lemma_flats_v_drop_first(ns: Seq<Node>)
    requires
        ns.len() > 0,
    ensures
        flats_v(ns.drop_first()) == flats_v(ns).drop_first(),
        flats_v(ns)[0] == ns[0]@,
{
    assert(flats_v(ns.drop_first()) =~= flats_v(ns).drop_first());
}

/// A rest of nodes, as values.
pub open spec fn rest_v(r: Result<&[Node], Error>) -> Result<Seq<FlatV>, ErrorV> {
    match r {
        Ok(rest) => Ok(flats_v(rest@)),
        Err(e) => Err(e@),
    }
}

/// The first node and the rest.
pub fn split_first_nodes(nodes: &[Node]) -> (r: Result<(&Node, &[Node]), Error>)
    ensures
        match r {
            Ok((n, rest)) => spec_split_first(flats_v(nodes@)) == Ok::<(FlatV, Seq<FlatV>), ErrorV>((n@, flats_v(rest@))),
            Err(e) => spec_split_first(flats_v(nodes@)) == Err::<(FlatV, Seq<FlatV>), ErrorV>(e@),
        },
        r matches Ok((_, rest)) ==> rest@.len() < nodes@.len(),
{
    if nodes.len() == 0 {
        Err(error("trying get first element from nodes on empty slice", None))
    } else {
        let (first, rest) = nodes.split_at(1);
        assert(rest@ =~= nodes@.drop_first());
        proof {
            lemma_flats_v_drop_first(nodes@);
        }
        Ok((&first[0], rest))
    }
}

/// Consumes a `BeginRule` node named `name`; gives the rest.
pub fn consume_node_start_rule_name<'a>(name: &str, nodes: &'a [Node]) -> (r: Result<&'a [Node], Error>)
    ensures
        rest_v(r) == spec_start_rule(name@, flats_v(nodes@)),
        r matches Ok(rest) ==> rest@.len() < nodes@.len(),
{
    let (node, nodes) = split_first_nodes(nodes)?;
    match node {
        Node::BeginRule(n) => {
            if crate::text::str_eq(n.as_str(), name) {
                Ok(nodes)
            } else {
                let mut d = crate::text::concat("expected ", name);
                d.append(" node, received ");
                d.append(n.as_str());
                Err(error(d.as_str(), None))
            }
        },
        _ => {
            let d = crate::text::concat("expected begin rule for ", name);
            Err(error(d.as_str(), None))
        },
    }
}

/// Consumes an `EndRule` node named `name`; gives the rest.
pub fn consume_node_end_rule_name<'a>(name: &str, nodes: &'a [Node]) -> (r: Result<&'a [Node], Error>)
    ensures
        rest_v(r) == spec_end_rule(name@, flats_v(nodes@)),
        r matches Ok(rest) ==> rest@.len() < nodes@.len(),
{
    let (node, nodes) = split_first_nodes(nodes)?;
    match node {
        Node::EndRule(n) => {
            if crate::text::str_eq(n.as_str(), name) {
                Ok(nodes)
            } else {
                let mut d = crate::text::concat("expected ", name);
                d.append(" node, received ");
                d.append(n.as_str());
                Err(error(d.as_str(), None))
            }
        },
        _ => {
            let d = crate::text::concat("expected end rule for ", name);
            Err(error(d.as_str(), None))
        },
    }
}

/// The first node.
pub fn peek_first_node(nodes: &[Node]) -> (r: Result<&Node, Error>)
    ensures
        match r {
            Ok(n) => spec_peek(flats_v(nodes@)) == Ok::<FlatV, ErrorV>(n@),
            Err(e) => spec_peek(flats_v(nodes@)) == Err::<FlatV, ErrorV>(e@),
        },
{
    if nodes.len() == 0 {
        Err(error("exptected node on peek_first_node", None))
    } else {
        Ok(&nodes[0])
    }
}

/// The value of a `Val` node.
pub fn get_node_val(node: &Node) -> (r: Result<&str, Error>)
    ensures
        match r {
            Ok(s) => spec_node_val(node@) == Ok::<Seq<char>, ErrorV>(s@),
            Err(e) => spec_node_val(node@) == Err::<Seq<char>, ErrorV>(e@),
        },
{
    match node {
        Node::Val(v) => Ok(v.as_str()),
        _ => Err(error("expected node::Val", None)),
    }
}

/// Consumes a `Val` node holding `v`; gives the rest.
pub fn consume_this_value<'a>(v: &str, nodes: &'a [Node]) -> (r: Result<&'a [Node], Error>)
    ensures
        rest_v(r) == spec_this_value(v@, flats_v(nodes@)),
        r matches Ok(rest) ==> rest@.len() < nodes@.len(),
{
    let (node, nodes) = split_first_nodes(nodes)?;
    let nv = get_node_val(node)?;
    if crate::text::str_eq(nv, v) {
        Ok(nodes)
    } else {
        Err(error("trying get first element from nodes on empty slice", None))
    }
}

/// The name of a `BeginRule` or `EndRule` node.
pub fn get_nodename(node: &Node) -> (r: Result<&str, Error>)
    ensures
        match r {
            Ok(s) => spec_nodename(node@) == Ok::<Seq<char>, ErrorV>(s@),
            Err(e) => spec_nodename(node@) == Err::<Seq<char>, ErrorV>(e@),
        },
{
    match node {
        Node::BeginRule(nname) => Ok(nname.as_str()),
        Node::EndRule(nname) => Ok(nname.as_str()),
        _ => Err(error("expected node::Rule", None)),
    }
}

/// The value of the first node, when it is a `Val`, and the rest.
pub fn consume_val(nodes: &[Node]) -> (r: Result<(&str, &[Node]), Error>)
    ensures
        match r {
            Ok((s, rest)) => spec_consume_val(flats_v(nodes@)) == Ok::<(Seq<char>, Seq<FlatV>), ErrorV>((s@, flats_v(rest@))),
            Err(e) => spec_consume_val(flats_v(nodes@)) == Err::<(Seq<char>, Seq<FlatV>), ErrorV>(e@),
        },
        r matches Ok((_, rest)) ==> rest@.len() < nodes@.len(),
{
    let (node, nodes) = split_first_nodes(nodes)?;
    match node {
        Node::Val(v) => Ok((v.as_str(), nodes)),
        _ => Err(error("expected Val node", None)),
    }
}

} // verus!

verus! {

/// Number of `BeginRule` nodes minus number of `EndRule` nodes.
pub open spec fn balance(s: Seq<FlatV>) -> int
    decreases s.len(),
{
    if s.len() == 0 {
        0
    } else {
        balance(s.drop_last()) + match s.last() {
            FlatV::BeginRule(_) => 1int,
            FlatV::EndRule(_) => -1int,
            _ => 0int,
        }
    }
}

/// The text of the `Val` nodes, in order.
pub open spec fn flat_text(s: Seq<FlatV>) -> Seq<char>
    decreases s.len(),
{
    if s.len() == 0 {
        Seq::empty()
    } else {
        flat_text(s.drop_last()) + match s.last() {
            FlatV::Val(v) => v,
            _ => Seq::empty(),
        }
    }
}

proof fn lemma_flat_add(a: Seq<FlatV>, b: Seq<FlatV>)
    ensures
        balance(a + b) == balance(a) + balance(b),
        flat_text(a + b) == flat_text(a) + flat_text(b),
    decreases b.len(),
{
    if b.len() == 0 {
        assert(a + b =~= a);
        assert(flat_text(a) + flat_text(b) =~= flat_text(a));
    } else {
        lemma_flat_add(a, b.drop_last());
        assert((a + b).drop_last() =~= a + b.drop_last());
        assert((a + b).last() == b.last());
        let t = match b.last() {
            FlatV::Val(v) => v,
            _ => Seq::<char>::empty(),
        };
        assert(flat_text(a) + flat_text(b.drop_last()) + t =~= flat_text(a) + (flat_text(b.drop_last()) + t));
    }
}

proof fn lemma_flatten_seq_props(ns: Seq<NodeV>)
    ensures
        balance(flatten_seq(ns)) == 0,
        flat_text(flatten_seq(ns)) == ast::text_of_seq(ns),
    decreases ns,
{
    if ns.len() > 0 {
        lemma_flatten_seq_props(ns.drop_last());
        lemma_flatten_props(ns.last());
        lemma_flat_add(flatten_seq(ns.drop_last()), flatten_v(ns.last()));
    }
}

proof fn lemma_flatten_props(n: NodeV)
    ensures
        balance(flatten_v(n)) == 0,
        flat_text(flatten_v(n)) == ast::text_of(n),
    decreases n,
{
    match n {
        NodeV::EOF => {},
        NodeV::Val(v) => {
            let s = seq![FlatV::Val(v)];
            assert(s.drop_last() =~= Seq::<FlatV>::empty());
            assert(s.drop_last().len() == 0);
            assert(flat_text(s.drop_last()) == Seq::<char>::empty());
            assert(s.last() == FlatV::Val(v));
            assert(flat_text(s) =~= v);
            assert(balance(s.drop_last()) == 0);
        },
        NodeV::Rule(nm, vn) => {
            lemma_flatten_seq_props(vn);
            let b = seq![FlatV::BeginRule(nm)];
            let e = seq![FlatV::EndRule(nm)];
            assert(b.drop_last() =~= Seq::<FlatV>::empty());
            assert(e.drop_last() =~= Seq::<FlatV>::empty());
            assert(b.drop_last().len() == 0);
            assert(e.drop_last().len() == 0);
            assert(flat_text(b.drop_last()) == Seq::<char>::empty());
            assert(flat_text(e.drop_last()) == Seq::<char>::empty());
            assert(flat_text(b) =~= Seq::<char>::empty());
            assert(flat_text(e) =~= Seq::<char>::empty());
            assert(balance(b.drop_last()) == 0);
            assert(balance(e.drop_last()) == 0);
            assert(balance(b) == 1);
            assert(balance(e) == -1);
            lemma_flat_add(b, flatten_seq(vn));
            lemma_flat_add(b + flatten_seq(vn), e);
            assert(flat_text(b + flatten_seq(vn) + e) =~= flat_text(flatten_seq(vn)));
        },
    }
}

/// A flattened tree has as many `EndRule` nodes as `BeginRule` nodes.
pub proof fn law_flatten_balanced(n: NodeV)
    ensures
        balance(flatten_v(n)) == 0,
{
    lemma_flatten_props(n);
}

/// Flattening keeps the text of the values, in order.
pub proof fn law_flatten_keeps_text(n: NodeV)
    ensures
        flat_text(flatten_v(n)) == ast::text_of(n),
{
    lemma_flatten_props(n);
}

/// The number of `Rule` nodes of a tree, the root included.
pub open spec fn rule_count(n: NodeV) -> nat
    decreases n,
{
    match n {
        NodeV::Rule(_, ns) => 1 + rule_count_seq(ns),
        _ => 0,
    }
}

/// The number of `Rule` nodes of a sequence of trees.
pub open spec fn rule_count_seq(ns: Seq<NodeV>) -> nat
    decreases ns,
{
    if ns.len() == 0 {
        0
    } else {
        rule_count_seq(ns.drop_last()) + rule_count(ns.last())
    }
}

/// The number of `Val` nodes of a tree.
pub open spec fn val_count(n: NodeV) -> nat
    decreases n,
{
    match n {
        NodeV::Val(_) => 1,
        NodeV::Rule(_, ns) => val_count_seq(ns),
        NodeV::EOF => 0,
    }
}

/// The number of `Val` nodes of a sequence of trees.
pub open spec fn val_count_seq(ns: Seq<NodeV>) -> nat
    decreases ns,
{
    if ns.len() == 0 {
        0
    } else {
        val_count_seq(ns.drop_last()) + val_count(ns.last())
    }
}

proof fn lemma_flatten_len(n: NodeV)
    ensures
        flatten_v(n).len() == 2 * rule_count(n) + val_count(n),
    decreases n,
{
    if let NodeV::Rule(_, ns) = n {
        lemma_flatten_seq_len(ns);
    }
}

proof fn lemma_flatten_seq_len(ns: Seq<NodeV>)
    ensures
        flatten_seq(ns).len() == 2 * rule_count_seq(ns) + val_count_seq(ns),
    decreases ns,
{
    if ns.len() > 0 {
        lemma_flatten_seq_len(ns.drop_last());
        lemma_flatten_len(ns.last());
    }
}

/// A flattened tree holds two nodes for each rule (its begin and its end)
/// and one for each value; `EOF` nodes leave nothing.
pub proof fn law_flatten_length(n: NodeV)
    ensures
        flatten_v(n).len() == 2 * rule_count(n) + val_count(n),
{
    lemma_flatten_len(n);
}

} // verus!
