//! Flattening the declaration tree of a trace into fully-qualified names.
//!
//! The declaration tree is a forest of scope nodes. A depth-first, pre-order
//! walk joins the names of the enclosing module scopes and the variable's own
//! reference name with `.` into one flat dotted name; scopes of any other
//! kind are walked through without contributing a name segment.

use crate::varmap::VariableMap;
use vstd::prelude::*;

verus! {

broadcast use vstd::seq::axiom_seq_index_decreases, vstd::seq::axiom_seq_subrange_decreases, vstd::std_specs::vec::axiom_vec_decreases_to_view;

/// A node of the declaration tree handed over by the tokenizer.
#[derive(Debug)]
pub enum ScopeNode {
    /// A declared variable: its reference name and the opaque identifier
    /// that links it to its value changes.
    Variable { name: String, identifier: String },
    /// A comment in the declaration section; contributes no binding.
    Comment(String),
    /// A named child scope. Only module scopes contribute a segment to the
    /// dotted name path.
    Scope { is_module: bool, name: String, children: Vec<ScopeNode> },
    /// A declaration item of a kind this library does not read.
    Other,
}

/// The views of the names on a scope-name stack.
pub open spec fn path_view(stack: Seq<String>) -> Seq<Seq<char>> {
    stack.map_values(|s: String| s@)
}

/// The parts joined with a `.` separator between neighbours.
pub open spec fn dotted(parts: Seq<Seq<char>>) -> Seq<char>
    decreases parts.len(),
{
    if parts.len() == 0 {
        Seq::empty()
    } else if parts.len() == 1 {
        parts[0]
    } else {
        parts[0] + seq!['.'] + dotted(parts.drop_first())
    }
}

/// Every part followed by a `.`, concatenated.
pub open spec fn dot_prefix(parts: Seq<Seq<char>>) -> Seq<char>
    decreases parts.len(),
{
    if parts.len() == 0 {
        Seq::empty()
    } else {
        parts[0] + seq!['.'] + dot_prefix(parts.drop_first())
    }
}

/// The fully-qualified name of a variable: the module path followed by the
/// variable's own name, dot-joined.
pub open spec fn full_name_spec(prefix: Seq<Seq<char>>, name: Seq<char>) -> Seq<char> {
    dotted(prefix.push(name))
}

/// Joining with a trailing part equals the dot-terminated prefix followed by
/// that part.
pub proof fn lemma_dotted_push(parts: Seq<Seq<char>>, last: Seq<char>)
    ensures
        dotted(parts.push(last)) == dot_prefix(parts) + last,
    decreases parts.len(),
{
    if parts.len() == 0 {
        assert(parts.push(last)[0] == last);
        assert(Seq::<char>::empty() + last =~= last);
    } else {
        assert(parts.push(last).drop_first() =~= parts.drop_first().push(last));
        lemma_dotted_push(parts.drop_first(), last);
        assert(parts.push(last)[0] == parts[0]);
        assert(parts[0] + seq!['.'] + (dot_prefix(parts.drop_first()) + last) =~= (parts[0]
            + seq!['.'] + dot_prefix(parts.drop_first())) + last);
    }
}

/// Extending the path appends the new part and a `.` to the dot-terminated
/// prefix.
pub proof fn lemma_dot_prefix_push(parts: Seq<Seq<char>>, last: Seq<char>)
    ensures
        dot_prefix(parts.push(last)) == dot_prefix(parts) + last + seq!['.'],
    decreases parts.len(),
{
    if parts.len() == 0 {
        assert(parts.push(last)[0] == last);
        assert(parts.push(last).drop_first() =~= Seq::<Seq<char>>::empty());
        assert(last + seq!['.'] + dot_prefix(Seq::<Seq<char>>::empty()) =~= Seq::<
            char,
        >::empty() + last + seq!['.']);
    } else {
        assert(parts.push(last).drop_first() =~= parts.drop_first().push(last));
        lemma_dot_prefix_push(parts.drop_first(), last);
        assert(parts.push(last)[0] == parts[0]);
        assert(parts[0] + seq!['.'] + (dot_prefix(parts.drop_first()) + last + seq!['.']) =~= (
        parts[0] + seq!['.'] + dot_prefix(parts.drop_first())) + last + seq!['.']);
    }
}

/// Builds the fully-qualified dotted name of a variable from the current
/// module-scope stack and the variable's own name.
pub fn full_name(stack: &Vec<String>, name: &String) -> (r: String)
    ensures
        r@ == full_name_spec(path_view(stack@), name@),
{
    let n = stack.len();
    let mut out = String::new();
    let mut i: usize = 0;
    proof {
        assert(path_view(stack@).subrange(0, 0) =~= Seq::<Seq<char>>::empty());
    }
    while i < n
        invariant
            i <= n,
            n == stack@.len(),
            out@ == dot_prefix(path_view(stack@).subrange(0, i as int)),
        decreases n - i,
    {
        out.append(stack[i].as_str());
        out.append(".");
        proof {
            reveal_strlit(".");
            assert("."@ =~= seq!['.']);
            let pv = path_view(stack@);
            assert(pv.subrange(0, (i + 1) as int) =~= pv.subrange(0, i as int).push(pv[i as int]));
            lemma_dot_prefix_push(pv.subrange(0, i as int), pv[i as int]);
        }
        i += 1;
    }
    out.append(name.as_str());
    proof {
        let pv = path_view(stack@);
        assert(pv.subrange(0, n as int) =~= pv);
        lemma_dotted_push(pv, name@);
    }
    out
}

/// The variable bindings of one declaration node, merged into `acc`: a
/// variable binds its fully-qualified name to its identifier; a module scope
/// extends the name path around its children; any other scope is walked
/// through unchanged; comments and unrecognized items bind nothing.
pub open spec fn flatten_node(
    prefix: Seq<Seq<char>>,
    node: ScopeNode,
    acc: Map<Seq<char>, Seq<char>>,
) -> Map<Seq<char>, Seq<char>>
    decreases node,
{
    match node {
        ScopeNode::Variable { name, identifier } => acc.insert(
            full_name_spec(prefix, name@),
            identifier@,
        ),
        ScopeNode::Scope { is_module, name, children } => {
            let child_prefix = if is_module {
                prefix.push(name@)
            } else {
                prefix
            };
            flatten_list(child_prefix, children@, acc)
        },
        ScopeNode::Comment(_) => acc,
        ScopeNode::Other => acc,
    }
}

/// The variable bindings of a declaration forest, in order, merged into
/// `acc`: later bindings of a name overwrite earlier ones.
pub open spec fn flatten_list(
    prefix: Seq<Seq<char>>,
    nodes: Seq<ScopeNode>,
    acc: Map<Seq<char>, Seq<char>>,
) -> Map<Seq<char>, Seq<char>>
    decreases nodes,
{
    if nodes.len() == 0 {
        acc
    } else {
        flatten_list(prefix, nodes.subrange(1, nodes.len() as int), flatten_node(prefix, nodes[0], acc))
    }
}

/// Flattening one node more flattens that node into the result so far.
pub proof fn lemma_flatten_list_push(
    prefix: Seq<Seq<char>>,
    nodes: Seq<ScopeNode>,
    node: ScopeNode,
    acc: Map<Seq<char>, Seq<char>>,
)
    ensures
        flatten_list(prefix, nodes.push(node), acc) == flatten_node(
            prefix,
            node,
            flatten_list(prefix, nodes, acc),
        ),
    decreases nodes.len(),
{
    let whole = nodes.push(node);
    assert(whole[0] == if nodes.len() == 0 { node } else { nodes[0] });
    if nodes.len() == 0 {
        assert(whole.subrange(1, whole.len() as int) =~= Seq::<ScopeNode>::empty());
        assert(flatten_list(prefix, whole, acc) == flatten_list(
            prefix,
            whole.subrange(1, whole.len() as int),
            flatten_node(prefix, node, acc),
        ));
        assert(flatten_list(prefix, Seq::<ScopeNode>::empty(), flatten_node(prefix, node, acc))
            == flatten_node(prefix, node, acc));
        assert(flatten_list(prefix, nodes, acc) == acc);
    } else {
        let rest = nodes.subrange(1, nodes.len() as int);
        assert(whole.subrange(1, whole.len() as int) =~= rest.push(node));
        lemma_flatten_list_push(prefix, rest, node, flatten_node(prefix, nodes[0], acc));
        assert(flatten_list(prefix, whole, acc) == flatten_list(
            prefix,
            rest.push(node),
            flatten_node(prefix, nodes[0], acc),
        ));
        assert(flatten_list(prefix, nodes, acc) == flatten_list(
            prefix,
            rest,
            flatten_node(prefix, nodes[0], acc),
        ));
    }
}

fn flatten_node_into(stack: &mut Vec<String>, node: &ScopeNode, acc: &mut VariableMap)
    requires
        old(acc).wf(),
    ensures
        final(acc).wf(),
        final(acc)@ == flatten_node(path_view(old(stack)@), *node, old(acc)@),
        final(stack)@ == old(stack)@,
    decreases *node,
{
    match node {
        ScopeNode::Variable { name, identifier } => {
            let full = full_name(stack, name);
            acc.insert(full, identifier.clone());
        },
        ScopeNode::Comment(_) => {},
        ScopeNode::Scope { is_module, name, children } => {
            if *is_module {
                stack.push(name.clone());
                proof {
                    assert(path_view(stack@) =~= path_view(old(stack)@).push(name@));
                }
                flatten_list_into(stack, children, acc);
                let popped = stack.pop();
                proof {
                    assert(stack@ =~= old(stack)@);
                }
            } else {
                flatten_list_into(stack, children, acc);
            }
        },
        ScopeNode::Other => {},
    }
}

fn flatten_list_into(stack: &mut Vec<String>, nodes: &Vec<ScopeNode>, acc: &mut VariableMap)
    requires
        old(acc).wf(),
    ensures
        final(acc).wf(),
        final(acc)@ == flatten_list(path_view(old(stack)@), nodes@, old(acc)@),
        final(stack)@ == old(stack)@,
    decreases nodes@,
{
    let n = nodes.len();
    let mut i: usize = 0;
    proof {
        assert(nodes@.subrange(0, 0) =~= Seq::<ScopeNode>::empty());
    }
    while i < n
        invariant
            i <= n,
            n == nodes@.len(),
            acc.wf(),
            stack@ == old(stack)@,
            acc@ == flatten_list(path_view(old(stack)@), nodes@.subrange(0, i as int), old(acc)@),
        decreases n - i,
    {
        proof {
            assert(nodes@.subrange(0, (i + 1) as int) =~= nodes@.subrange(0, i as int).push(
                nodes@[i as int],
            ));
            lemma_flatten_list_push(
                path_view(old(stack)@),
                nodes@.subrange(0, i as int),
                nodes@[i as int],
                old(acc)@,
            );
        }
        flatten_node_into(stack, &nodes[i], acc);
        i += 1;
    }
    proof {
        assert(nodes@.subrange(0, n as int) =~= nodes@);
    }
}

/// Walks the declaration forest depth-first in pre-order and returns the
/// mapping from fully-qualified dotted name to signal identifier. The
/// scope-name stack gives the module path already open around `scope_items`
/// and is returned as it came.
pub fn variable_map_from_scope_item_list(
    scope_stack: &mut Vec<String>,
    scope_items: &Vec<ScopeNode>,
) -> (r: VariableMap)
    ensures
        r.wf(),
        r@ == flatten_list(path_view(old(scope_stack)@), scope_items@, Map::empty()),
        final(scope_stack)@ == old(scope_stack)@,
{
    let mut map = VariableMap::new();
    flatten_list_into(scope_stack, scope_items, &mut map);
    map
}

/// Declaring a variable again overwrites the earlier binding of its
/// fully-qualified name: the later declaration wins.
pub proof fn lemma_flatten_last_wins(
    prefix: Seq<Seq<char>>,
    nodes: Seq<ScopeNode>,
    name: String,
    identifier: String,
    acc: Map<Seq<char>, Seq<char>>,
)
    ensures
        flatten_list(prefix, nodes.push(ScopeNode::Variable { name, identifier }), acc)
            == flatten_list(prefix, nodes, acc).insert(full_name_spec(prefix, name@), identifier@),
{
    lemma_flatten_list_push(prefix, nodes, ScopeNode::Variable { name, identifier }, acc);
}

/// A scope that is not a module contributes no name segment: flattening it
/// is flattening its children under the unchanged path.
pub proof fn lemma_non_module_scope_transparent(
    prefix: Seq<Seq<char>>,
    name: String,
    children: Vec<ScopeNode>,
    acc: Map<Seq<char>, Seq<char>>,
)
    ensures
        flatten_node(prefix, ScopeNode::Scope { is_module: false, name, children }, acc)
            == flatten_list(prefix, children@, acc),
{
}

/// A module scope prefixes every name inside it with its own name.
pub proof fn lemma_module_scope_prefixes(
    prefix: Seq<Seq<char>>,
    name: String,
    children: Vec<ScopeNode>,
    acc: Map<Seq<char>, Seq<char>>,
)
    ensures
        flatten_node(prefix, ScopeNode::Scope { is_module: true, name, children }, acc)
            == flatten_list(prefix.push(name@), children@, acc),
{
}


/// The bindings one declaration node contributes, in depth-first pre-order:
/// pairs of fully-qualified name and identifier.
pub open spec fn node_entries(prefix: Seq<Seq<char>>, node: ScopeNode) -> Seq<
    (Seq<char>, Seq<char>),
>
    decreases node,
{
    match node {
        ScopeNode::Variable { name, identifier } => seq![
            (full_name_spec(prefix, name@), identifier@),
        ],
        ScopeNode::Scope { is_module, name, children } => {
            let child_prefix = if is_module {
                prefix.push(name@)
            } else {
                prefix
            };
            list_entries(child_prefix, children@)
        },
        ScopeNode::Comment(_) => Seq::empty(),
        ScopeNode::Other => Seq::empty(),
    }
}

/// The bindings a declaration forest contributes, in depth-first pre-order.
pub open spec fn list_entries(prefix: Seq<Seq<char>>, nodes: Seq<ScopeNode>) -> Seq<
    (Seq<char>, Seq<char>),
>
    decreases nodes,
{
    if nodes.len() == 0 {
        Seq::empty()
    } else {
        node_entries(prefix, nodes[0]) + list_entries(
            prefix,
            nodes.subrange(1, nodes.len() as int),
        )
    }
}

/// Folding a binding list into a map, first entry first: a later entry for
/// a name overwrites an earlier one.
pub open spec fn entries_fold(
    acc: Map<Seq<char>, Seq<char>>,
    entries: Seq<(Seq<char>, Seq<char>)>,
) -> Map<Seq<char>, Seq<char>>
    decreases entries.len(),
{
    if entries.len() == 0 {
        acc
    } else {
        entries_fold(acc.insert(entries[0].0, entries[0].1), entries.drop_first())
    }
}

/// Folding a concatenation folds its parts in order.
pub proof fn lemma_entries_fold_append(
    acc: Map<Seq<char>, Seq<char>>,
    a: Seq<(Seq<char>, Seq<char>)>,
    b: Seq<(Seq<char>, Seq<char>)>,
)
    ensures
        entries_fold(acc, a + b) == entries_fold(entries_fold(acc, a), b),
    decreases a.len(),
{
    if a.len() == 0 {
        assert(a + b =~= b);
    } else {
        assert((a + b)[0] == a[0]);
        assert((a + b).drop_first() =~= a.drop_first() + b);
        lemma_entries_fold_append(acc.insert(a[0].0, a[0].1), a.drop_first(), b);
    }
}

/// Flattening one node is folding the bindings it contributes.
pub proof fn lemma_flatten_node_is_entry_fold(
    prefix: Seq<Seq<char>>,
    node: ScopeNode,
    acc: Map<Seq<char>, Seq<char>>,
)
    ensures
        flatten_node(prefix, node, acc) == entries_fold(acc, node_entries(prefix, node)),
    decreases node,
{
    match node {
        ScopeNode::Variable { name, identifier } => {
            let e = (full_name_spec(prefix, name@), identifier@);
            assert(seq![e].drop_first() =~= Seq::<(Seq<char>, Seq<char>)>::empty());
            assert(entries_fold(acc, seq![e]) == entries_fold(
                acc.insert(e.0, e.1),
                seq![e].drop_first(),
            ));
        },
        ScopeNode::Scope { is_module, name, children } => {
            let child_prefix = if is_module {
                prefix.push(name@)
            } else {
                prefix
            };
            lemma_flatten_list_is_entry_fold(child_prefix, children@, acc);
        },
        ScopeNode::Comment(_) => {},
        ScopeNode::Other => {},
    }
}

/// Flattening a forest is folding the bindings it contributes, in
/// depth-first pre-order.
pub proof fn lemma_flatten_list_is_entry_fold(
    prefix: Seq<Seq<char>>,
    nodes: Seq<ScopeNode>,
    acc: Map<Seq<char>, Seq<char>>,
)
    ensures
        flatten_list(prefix, nodes, acc) == entries_fold(acc, list_entries(prefix, nodes)),
    decreases nodes,
{
    if nodes.len() > 0 {
        let rest = nodes.subrange(1, nodes.len() as int);
        lemma_flatten_node_is_entry_fold(prefix, nodes[0], acc);
        lemma_flatten_list_is_entry_fold(prefix, rest, flatten_node(prefix, nodes[0], acc));
        lemma_entries_fold_append(acc, node_entries(prefix, nodes[0]), list_entries(prefix, rest));
    }
}

/// Folding entries that never bind a name leaves that name's binding as it
/// was.
pub proof fn lemma_fold_preserves_other_name(
    acc: Map<Seq<char>, Seq<char>>,
    entries: Seq<(Seq<char>, Seq<char>)>,
    name: Seq<char>,
)
    requires
        forall|j: int| 0 <= j < entries.len() ==> entries[j].0 != name,
    ensures
        entries_fold(acc, entries).contains_key(name) == acc.contains_key(name),
        acc.contains_key(name) ==> entries_fold(acc, entries)[name] == acc[name],
    decreases entries.len(),
{
    if entries.len() > 0 {
        assert(forall|j: int|
            0 <= j < entries.drop_first().len() ==> entries.drop_first()[j] == entries[j + 1]);
        lemma_fold_preserves_other_name(
            acc.insert(entries[0].0, entries[0].1),
            entries.drop_first(),
            name,
        );
    }
}

/// An entry whose name no later entry repeats gives that name's binding in
/// the fold.
pub proof fn lemma_fold_last_binding(
    acc: Map<Seq<char>, Seq<char>>,
    entries: Seq<(Seq<char>, Seq<char>)>,
    i: int,
)
    requires
        0 <= i < entries.len(),
        forall|j: int| i < j < entries.len() ==> entries[j].0 != entries[i].0,
    ensures
        entries_fold(acc, entries).contains_key(entries[i].0),
        entries_fold(acc, entries)[entries[i].0] == entries[i].1,
    decreases entries.len(),
{
    assert(forall|j: int|
        0 <= j < entries.drop_first().len() ==> entries.drop_first()[j] == entries[j + 1]);
    if i == 0 {
        lemma_fold_preserves_other_name(
            acc.insert(entries[0].0, entries[0].1),
            entries.drop_first(),
            entries[0].0,
        );
    } else {
        lemma_fold_last_binding(acc.insert(entries[0].0, entries[0].1), entries.drop_first(), i - 1);
    }
}

/// Where declarations flatten to the same fully-qualified name, the one
/// visited last in the depth-first pre-order walk binds it, wherever and
/// however deeply each is nested: the binding at position `i` of the
/// walk's binding list stands in the flattened map whenever no later
/// binding carries the same name.
pub proof fn lemma_flatten_later_declaration_wins(
    prefix: Seq<Seq<char>>,
    nodes: Seq<ScopeNode>,
    i: int,
)
    requires
        0 <= i < list_entries(prefix, nodes).len(),
        forall|j: int|
            i < j < list_entries(prefix, nodes).len() ==> list_entries(prefix, nodes)[j].0
                != list_entries(prefix, nodes)[i].0,
    ensures
        flatten_list(prefix, nodes, Map::empty()).contains_key(list_entries(prefix, nodes)[i].0),
        flatten_list(prefix, nodes, Map::empty())[list_entries(prefix, nodes)[i].0]
            == list_entries(prefix, nodes)[i].1,
{
    lemma_flatten_list_is_entry_fold(prefix, nodes, Map::empty());
    lemma_fold_last_binding(Map::empty(), list_entries(prefix, nodes), i);
}

} // verus!
