use vstd::prelude::*;

use crate::git::{string_views, Ref};
use crate::text::{
    chars_of, lemma_seq_lt_irreflexive, lemma_seq_lt_total, lemma_seq_lt_transitive, lex_lt, seq_lt, split_at_char,
    split_chars, str_eq, string_from_chars,
};

verus! {

/// A node of the refs tree: the path that identifies it, the text shown,
/// and the nodes under it.
#[derive(Debug)]
pub struct RefTreeNode {
    pub identifier: String,
    pub name: String,
    pub children: Vec<RefTreeNode>,
}

/// A refs tree node as plain text.
pub struct TreeModel {
    pub identifier: Seq<char>,
    pub name: Seq<char>,
    pub children: Seq<TreeModel>,
}

pub open spec fn node_view(n: RefTreeNode) -> TreeModel
    decreases n,
{
    TreeModel { identifier: n.identifier@, name: n.name@, children: nodes_view(n.children@) }
}

pub open spec fn nodes_view(ns: Seq<RefTreeNode>) -> Seq<TreeModel>
    decreases ns,
{
    if ns.len() == 0 {
        Seq::empty()
    } else {
        nodes_view(ns.subrange(0, ns.len() - 1)).push(node_view(ns[ns.len() - 1]))
    }
}

proof fn lemma_nodes_view(ns: Seq<RefTreeNode>)
    ensures
        nodes_view(ns).len() == ns.len(),
        forall|k: int| 0 <= k < ns.len() ==> #[trigger] nodes_view(ns)[k] == node_view(ns[k]),
    decreases ns.len(),
{
    if ns.len() > 0 {
        let d = ns.subrange(0, ns.len() - 1);
        lemma_nodes_view(d);
        assert forall|k: int| 0 <= k < ns.len() implies #[trigger] nodes_view(ns)[k] == node_view(ns[k]) by {
            if k < ns.len() - 1 {
                assert(d[k] == ns[k]);
            }
        }
    }
}

/// The index of the first node named `name`; -1 when there is none.
pub open spec fn first_named(ns: Seq<TreeModel>, name: Seq<char>) -> int
    decreases ns.len(),
{
    if ns.len() == 0 {
        -1
    } else {
        let k = first_named(ns.drop_last(), name);
        if k >= 0 {
            k
        } else if ns.last().name == name {
            ns.len() - 1
        } else {
            -1
        }
    }
}

proof fn lemma_first_named(ns: Seq<TreeModel>, name: Seq<char>, k: int)
    requires
        0 <= k <= ns.len(),
        forall|j: int| 0 <= j < k ==> (#[trigger] ns[j]).name != name,
        k == ns.len() || ns[k].name == name,
    ensures
        first_named(ns, name) == (if k < ns.len() { k } else { -1 }),
    decreases ns.len(),
{
    if ns.len() > 0 {
        let d = ns.drop_last();
        if k < ns.len() - 1 {
            lemma_first_named(d, name, k);
        } else {
            lemma_first_named(d, name, d.len() as int);
        }
    }
}

/// The identifier of the node named `part` under the node identified by
/// `parent` (a root when `parent` is empty).
pub open spec fn child_identifier(parent: Seq<char>, part: Seq<char>) -> Seq<char> {
    if parent.len() == 0 {
        part
    } else {
        parent + seq!['/'] + part
    }
}

/// `ns` with the path `parts` added under the node identified by `parent`:
/// each part goes into the first node of that name, or into a new last node
/// when there is none.
pub open spec fn insert_path(ns: Seq<TreeModel>, parts: Seq<Seq<char>>, parent: Seq<char>) -> Seq<TreeModel>
    decreases parts.len(),
{
    if parts.len() == 0 {
        ns
    } else {
        let part = parts[0];
        let k = first_named(ns, part);
        if k >= 0 {
            let n = ns[k];
            ns.update(
                k,
                TreeModel {
                    identifier: n.identifier,
                    name: n.name,
                    children: insert_path(n.children, parts.skip(1), n.identifier),
                },
            )
        } else {
            let id = child_identifier(parent, part);
            ns.push(TreeModel { identifier: id, name: part, children: insert_path(Seq::empty(), parts.skip(1), id) })
        }
    }
}

/// The tree of the ref names, each read as a path of `/`-separated parts,
/// in the order the names come.
pub open spec fn ref_tree(names: Seq<Seq<char>>) -> Seq<TreeModel>
    decreases names.len(),
{
    if names.len() == 0 {
        Seq::empty()
    } else {
        insert_path(ref_tree(names.drop_last()), split_chars(names.last(), '/'), Seq::empty())
    }
}

fn insert_parts(nodes: &mut Vec<RefTreeNode>, parts: &Vec<String>, idx: usize, parent: &str)
    requires
        idx <= parts@.len(),
    ensures
        nodes_view(final(nodes)@) == insert_path(nodes_view(old(nodes)@), string_views(parts@).skip(idx as int), parent@),
    decreases parts@.len() - idx,
{
    if idx == parts.len() {
        proof {
            assert(string_views(parts@).skip(idx as int).len() == 0);
        }
        return;
    }
    let ghost old_nodes = nodes@;
    proof {
        lemma_nodes_view(old_nodes);
        assert(string_views(parts@).skip(idx as int)[0] == parts@[idx as int]@);
        assert(string_views(parts@).skip(idx as int).skip(1) == string_views(parts@).skip(idx + 1));
    }
    let part = parts[idx].as_str();
    let mut k: usize = 0;
    while k < nodes.len() && !str_eq(nodes[k].name.as_str(), part)
        invariant
            k <= nodes@.len(),
            nodes@ == old_nodes,
            forall|j: int| 0 <= j < k ==> (#[trigger] nodes@[j]).name@ != part@,
        decreases nodes@.len() - k,
    {
        k += 1;
    }
    proof {
        assert forall|j: int| 0 <= j < k implies (#[trigger] nodes_view(old_nodes)[j]).name != part@ by {
            assert(nodes_view(old_nodes)[j] == node_view(old_nodes[j]));
        }
        if k < nodes@.len() {
            assert(nodes_view(old_nodes)[k as int] == node_view(old_nodes[k as int]));
        }
        lemma_first_named(nodes_view(old_nodes), part@, k as int);
    }
    if k < nodes.len() {
        let mut node = nodes.remove(k);
        let ghost old_node = node;
        let id = node.identifier.clone();
        insert_parts(&mut node.children, parts, idx + 1, id.as_str());
        nodes.insert(k, node);
        proof {
            assert(nodes@ == old_nodes.update(k as int, node));
            lemma_nodes_view(nodes@);
            assert(nodes_view(nodes@) =~= insert_path(
                nodes_view(old_nodes),
                string_views(parts@).skip(idx as int),
                parent@,
            ));
        }
    } else {
        let mut id = String::new();
        if parent.unicode_len() > 0 {
            id.append(parent);
            id.append("/");
        }
        id.append(part);
        let mut node = RefTreeNode { identifier: id.clone(), name: part.to_owned(), children: Vec::new() };
        proof {
            reveal_strlit("/");
            assert(nodes_view(node.children@) =~= Seq::<TreeModel>::empty());
            assert(node.identifier@ =~= child_identifier(parent@, part@));
        }
        insert_parts(&mut node.children, parts, idx + 1, id.as_str());
        nodes.push(node);
        proof {
            lemma_nodes_view(nodes@);
            assert(nodes_view(nodes@) =~= insert_path(
                nodes_view(old_nodes),
                string_views(parts@).skip(idx as int),
                parent@,
            ));
        }
    }
}

/// Builds the tree of the ref names, each split at `/`.
pub fn refs_to_ref_tree_nodes(ref_names: Vec<String>) -> (r: Vec<RefTreeNode>)
    ensures
        nodes_view(r@) == ref_tree(string_views(ref_names@)),
{
    let mut nodes: Vec<RefTreeNode> = Vec::new();
    let mut i: usize = 0;
    proof {
        assert(nodes_view(nodes@) =~= ref_tree(string_views(ref_names@.take(0))));
    }
    while i < ref_names.len()
        invariant
            i <= ref_names@.len(),
            nodes_view(nodes@) == ref_tree(string_views(ref_names@.take(i as int))),
        decreases ref_names@.len() - i,
    {
        let cs = chars_of(ref_names[i].as_str());
        let pieces = split_at_char(&cs, '/');
        let mut parts: Vec<String> = Vec::new();
        let mut j: usize = 0;
        while j < pieces.len()
            invariant
                j <= pieces@.len(),
                pieces@.len() == split_chars(cs@, '/').len(),
                forall|t: int| 0 <= t < pieces@.len() ==> #[trigger] pieces@[t]@ == split_chars(cs@, '/')[t],
                parts@.len() == j,
                forall|t: int| 0 <= t < j ==> #[trigger] parts@[t]@ == split_chars(cs@, '/')[t],
            decreases pieces@.len() - j,
        {
            parts.push(string_from_chars(&pieces[j]));
            j += 1;
        }
        let ghost before = nodes@;
        insert_parts(&mut nodes, &parts, 0, "");
        proof {
            assert(string_views(parts@) =~= split_chars(cs@, '/'));
            assert(string_views(parts@).skip(0) == string_views(parts@));
            assert(string_views(ref_names@.take(i + 1)).drop_last() == string_views(ref_names@.take(i as int)));
            assert(string_views(ref_names@.take(i + 1)).last() == ref_names@[i as int]@);
            assert(""@ == Seq::<char>::empty()) by {
                reveal_strlit("");
            }
        }
        i += 1;
    }
    proof {
        assert(ref_names@.take(i as int) == ref_names@);
    }
    nodes
}

/// Whether `semver::Version::parse` accepts `s`.
pub uninterp spec fn semver_valid(s: Seq<char>) -> bool;

/// How the order of `semver::Version` places the versions read from `a`
/// and `b`: -1 before, 0 equal, 1 after.
pub uninterp spec fn semver_order(a: Seq<char>, b: Seq<char>) -> int;

/// Calls `semver::Version::parse` and tells whether it succeeded; which
/// texts are versions is the crate's grammar and is only named here.
#[verifier::external_body]
fn is_semver(s: &str) -> (r: bool)
    ensures
        r == semver_valid(s@),
{
    semver::Version::parse(s).is_ok()
}

/// Compares the versions `semver::Version::parse` reads from `a` and `b`
/// with the crate's order; the order is only named here.
#[verifier::external_body]
fn semver_compare(a: &str, b: &str) -> (r: i8)
    requires
        semver_valid(a@),
        semver_valid(b@),
    ensures
        r == semver_order(a@, b@),
        -1 <= r <= 1,
{
    match semver::Version::parse(a).unwrap().cmp(&semver::Version::parse(b).unwrap()) {
        std::cmp::Ordering::Less => -1,
        std::cmp::Ordering::Equal => 0,
        std::cmp::Ordering::Greater => 1,
    }
}

/// `s` without the `v`s it starts with.
pub open spec fn trim_vs(s: Seq<char>) -> Seq<char>
    decreases s.len(),
{
    if s.len() > 0 && s[0] == 'v' {
        trim_vs(s.skip(1))
    } else {
        s
    }
}

fn trim_leading_vs(s: &str) -> (r: String)
    ensures
        r@ == trim_vs(s@),
{
    let cs = chars_of(s);
    let mut k: usize = 0;
    proof {
        assert(cs@.skip(0) == cs@);
    }
    while k < cs.len() && cs[k] == 'v'
        invariant
            k <= cs@.len(),
            trim_vs(cs@) == trim_vs(cs@.skip(k as int)),
        decreases cs@.len() - k,
    {
        proof {
            assert(cs@.skip(k as int).skip(1) == cs@.skip(k + 1));
        }
        k += 1;
    }
    proof {
        assert(cs@.subrange(k as int, cs@.len() as int) == cs@.skip(k as int));
    }
    string_from_chars(&crate::text::slice_chars(&cs, k, cs.len()))
}

/// The orders the refs tree lists its nodes in.
#[derive(Debug, Clone, Copy, PartialEq, Eq, Structural)]
pub enum NodeOrder {
    /// Nodes with more children first, then by name.
    Branch,
    /// Semantic versions first, newest first; then the other names in text
    /// order.
    Tag,
    /// By identifier.
    Stash,
}

/// `a` is listed after `b`.
pub open spec fn node_after(o: NodeOrder, a: TreeModel, b: TreeModel) -> bool {
    match o {
        NodeOrder::Branch => a.children.len() < b.children.len() || (a.children.len() == b.children.len() && seq_lt(
            b.name,
            a.name,
        )),
        NodeOrder::Tag => {
            let (va, vb) = (semver_valid(trim_vs(a.name)), semver_valid(trim_vs(b.name)));
            if !va && !vb {
                seq_lt(b.name, a.name)
            } else if va && vb {
                semver_order(trim_vs(b.name), trim_vs(a.name)) == 1
            } else {
                !va
            }
        },
        NodeOrder::Stash => seq_lt(b.identifier, a.identifier),
    }
}

fn listed_after(o: NodeOrder, a: &RefTreeNode, b: &RefTreeNode) -> (r: bool)
    ensures
        r == node_after(o, node_view(*a), node_view(*b)),
{
    proof {
        lemma_nodes_view(a.children@);
        lemma_nodes_view(b.children@);
    }
    match o {
        NodeOrder::Branch => a.children.len() < b.children.len() || (a.children.len() == b.children.len() && lex_lt(
            b.name.as_str(),
            a.name.as_str(),
        )),
        NodeOrder::Tag => {
            let ta = trim_leading_vs(a.name.as_str());
            let tb = trim_leading_vs(b.name.as_str());
            let va = is_semver(ta.as_str());
            let vb = is_semver(tb.as_str());
            if !va && !vb {
                lex_lt(b.name.as_str(), a.name.as_str())
            } else if va && vb {
                semver_compare(tb.as_str(), ta.as_str()) == 1
            } else {
                !va
            }
        },
        NodeOrder::Stash => lex_lt(b.identifier.as_str(), a.identifier.as_str()),
    }
}

/// `x` placed into `s` after every node not listed after it.
pub open spec fn insert_node(s: Seq<TreeModel>, x: TreeModel, o: NodeOrder) -> Seq<TreeModel>
    decreases s.len(),
{
    if s.len() > 0 && node_after(o, s.last(), x) {
        insert_node(s.drop_last(), x, o).push(s.last())
    } else {
        s.push(x)
    }
}

/// `s` sorted stably in the order `o`.
pub open spec fn sorted_nodes(s: Seq<TreeModel>, o: NodeOrder) -> Seq<TreeModel>
    decreases s.len(),
{
    if s.len() == 0 {
        s
    } else {
        insert_node(sorted_nodes(s.drop_last(), o), s.last(), o)
    }
}

proof fn lemma_insert_node_at(s: Seq<TreeModel>, x: TreeModel, o: NodeOrder, p: int)
    requires
        0 <= p <= s.len(),
        forall|q: int| p <= q < s.len() ==> node_after(o, #[trigger] s[q], x),
        p == 0 || !node_after(o, s[p - 1], x),
    ensures
        insert_node(s, x, o) == s.insert(p, x),
    decreases s.len(),
{
    if p < s.len() {
        lemma_insert_node_at(s.drop_last(), x, o, p);
        assert(s.insert(p, x) =~= s.drop_last().insert(p, x).push(s.last()));
    } else {
        assert(s.insert(p, x) =~= s.push(x));
    }
}

/// Sorts the nodes stably in the order `o` (their children are left as
/// they are).
pub fn sort_nodes(nodes: Vec<RefTreeNode>, o: NodeOrder) -> (r: Vec<RefTreeNode>)
    ensures
        nodes_view(r@) == sorted_nodes(nodes_view(nodes@), o),
{
    let ghost all = nodes@;
    let n = nodes.len();
    let mut rest = nodes;
    let mut out: Vec<RefTreeNode> = Vec::new();
    let mut i: usize = 0;
    proof {
        lemma_nodes_view(all);
        assert(nodes_view(out@) =~= sorted_nodes(nodes_view(all).take(0), o));
    }
    while rest.len() > 0
        invariant
            i + rest@.len() == all.len(),
            n == all.len(),
            rest@ == all.skip(i as int),
            nodes_view(all).len() == all.len(),
            forall|k: int| 0 <= k < all.len() ==> #[trigger] nodes_view(all)[k] == node_view(all[k]),
            nodes_view(out@) == sorted_nodes(nodes_view(all).take(i as int), o),
        decreases rest@.len(),
    {
        let x = rest.remove(0);
        proof {
            assert(x == all[i as int]);
            assert(nodes_view(all).take(i + 1).drop_last() == nodes_view(all).take(i as int));
            assert(nodes_view(all).take(i + 1).last() == node_view(x));
            assert(rest@ == all.skip(i + 1));
            lemma_nodes_view(out@);
        }
        let mut p = out.len();
        while p > 0 && listed_after(o, &out[p - 1], &x)
            invariant
                p <= out@.len(),
                nodes_view(out@).len() == out@.len(),
                forall|k: int| 0 <= k < out@.len() ==> #[trigger] nodes_view(out@)[k] == node_view(out@[k]),
                forall|q: int| p <= q < out@.len() ==> node_after(o, #[trigger] nodes_view(out@)[q], node_view(x)),
            decreases p,
        {
            p -= 1;
        }
        let ghost before = out@;
        proof {
            lemma_insert_node_at(nodes_view(before), node_view(x), o, p as int);
        }
        out.insert(p, x);
        proof {
            lemma_nodes_view(out@);
            assert(nodes_view(out@) =~= nodes_view(before).insert(p as int, node_view(x)));
        }
        i += 1;
    }
    proof {
        assert(nodes_view(all).take(i as int) == nodes_view(all));
    }
    out
}

/// Branch nodes sorted at every level: nodes with more children first, then
/// by name.
pub open spec fn branch_sorted(ns: Seq<TreeModel>) -> Seq<TreeModel>
    decreases ns, 1int,
{
    sorted_nodes(children_sorted(ns), NodeOrder::Branch)
}

/// The nodes in their order, each with its children sorted.
pub open spec fn children_sorted(ns: Seq<TreeModel>) -> Seq<TreeModel>
    decreases ns, 0int,
{
    if ns.len() == 0 {
        ns
    } else {
        let n = ns[ns.len() - 1];
        children_sorted(ns.subrange(0, ns.len() - 1)).push(
            TreeModel { identifier: n.identifier, name: n.name, children: branch_sorted(n.children) },
        )
    }
}

fn children_sorted_exec(mut nodes: Vec<RefTreeNode>) -> (r: Vec<RefTreeNode>)
    ensures
        nodes_view(r@) == children_sorted(nodes_view(nodes@)),
    decreases nodes@, 0int,
{
    let ghost all = nodes@;
    if nodes.len() == 0 {
        proof {
            assert(nodes_view(nodes@) =~= Seq::<TreeModel>::empty());
        }
        return nodes;
    }
    let last = nodes.pop().unwrap();
    proof {
        lemma_nodes_view(all);
        assert(nodes@ == all.subrange(0, all.len() - 1));
        assert(last == all[all.len() - 1]);
        assert(decreases_to!(all => nodes@));
    }
    let mut front = children_sorted_exec(nodes);
    let RefTreeNode { identifier, name, children } = last;
    proof {
        assert(decreases_to!(all => all[all.len() - 1]));
        assert(decreases_to!(all[all.len() - 1] => all[all.len() - 1].children));
        assert(decreases_to!(all[all.len() - 1].children => all[all.len() - 1].children@));
        assert(decreases_to!(all => children@));
    }
    let sorted = sort_branch_tree_nodes(children);
    let ghost before = front@;
    front.push(RefTreeNode { identifier, name, children: sorted });
    proof {
        lemma_nodes_view(before);
        lemma_nodes_view(front@);
        assert(nodes_view(front@) =~= nodes_view(before).push(node_view(front@.last())));
        let v = nodes_view(all);
        assert(v.subrange(0, v.len() - 1) =~= nodes_view(all.subrange(0, all.len() - 1))) by {
            lemma_nodes_view(all.subrange(0, all.len() - 1));
        }
    }
    front
}

/// Sorts branch nodes at every level of the tree.
pub fn sort_branch_tree_nodes(nodes: Vec<RefTreeNode>) -> (r: Vec<RefTreeNode>)
    ensures
        nodes_view(r@) == branch_sorted(nodes_view(nodes@)),
    decreases nodes@, 1int,
{
    sort_nodes(children_sorted_exec(nodes), NodeOrder::Branch)
}

/// One node per stash: identified by its name, showing its message.
pub open spec fn stash_nodes(pairs: Seq<(String, String)>) -> Seq<TreeModel>
    decreases pairs.len(),
{
    if pairs.len() == 0 {
        Seq::empty()
    } else {
        stash_nodes(pairs.drop_last()).push(
            TreeModel { identifier: pairs.last().0@, name: pairs.last().1@, children: Seq::empty() },
        )
    }
}

/// One node per stash, showing its message.
pub fn refs_to_stash_ref_tree_nodes(ref_name_messages: Vec<(String, String)>) -> (r: Vec<RefTreeNode>)
    ensures
        nodes_view(r@) == stash_nodes(ref_name_messages@),
{
    let mut nodes: Vec<RefTreeNode> = Vec::new();
    let mut i: usize = 0;
    proof {
        assert(nodes_view(nodes@) =~= stash_nodes(ref_name_messages@.take(0)));
    }
    while i < ref_name_messages.len()
        invariant
            i <= ref_name_messages@.len(),
            nodes_view(nodes@) == stash_nodes(ref_name_messages@.take(i as int)),
        decreases ref_name_messages@.len() - i,
    {
        let node = RefTreeNode {
            identifier: ref_name_messages[i].0.clone(),
            name: ref_name_messages[i].1.clone(),
            children: Vec::new(),
        };
        let ghost before = nodes@;
        nodes.push(node);
        proof {
            lemma_nodes_view(before);
            lemma_nodes_view(nodes@);
            assert(nodes_view(nodes@[nodes@.len() - 1].children@) =~= Seq::<TreeModel>::empty());
            assert(nodes_view(nodes@) =~= nodes_view(before).push(node_view(nodes@.last())));
            assert(ref_name_messages@.take(i + 1).drop_last() == ref_name_messages@.take(i as int));
        }
        i += 1;
    }
    proof {
        assert(ref_name_messages@.take(i as int) == ref_name_messages@);
    }
    nodes
}

/// The names of the refs of one kind (0 branches, 1 remote branches, 2
/// tags), in their order.
pub open spec fn names_of_kind(refs: Seq<Ref>, kind: int) -> Seq<Seq<char>>
    decreases refs.len(),
{
    if refs.len() == 0 {
        Seq::empty()
    } else {
        let prev = names_of_kind(refs.drop_last(), kind);
        match refs.last() {
            Ref::Branch { name, .. } => if kind == 0 { prev.push(name@) } else { prev },
            Ref::RemoteBranch { name, .. } => if kind == 1 { prev.push(name@) } else { prev },
            Ref::Tag { name, .. } => if kind == 2 { prev.push(name@) } else { prev },
            Ref::Stash { .. } => prev,
        }
    }
}

/// The names and messages of the stashes, in their order.
pub open spec fn stash_pairs(refs: Seq<Ref>) -> Seq<(String, String)>
    decreases refs.len(),
{
    if refs.len() == 0 {
        Seq::empty()
    } else {
        let prev = stash_pairs(refs.drop_last());
        match refs.last() {
            Ref::Stash { name, message, .. } => prev.push((name, message)),
            _ => prev,
        }
    }
}

/// The four roots of the refs tree: branches, remote branches (both trees
/// sorted at every level), tags (versions first, newest first) and stashes
/// (by name).
pub open spec fn ref_tree_roots(refs: Seq<Ref>) -> Seq<TreeModel> {
    seq![
        TreeModel {
            identifier: "__branches__"@,
            name: "Branches"@,
            children: branch_sorted(ref_tree(names_of_kind(refs, 0))),
        },
        TreeModel {
            identifier: "__remotes__"@,
            name: "Remotes"@,
            children: branch_sorted(ref_tree(names_of_kind(refs, 1))),
        },
        TreeModel {
            identifier: "__tags__"@,
            name: "Tags"@,
            children: sorted_nodes(ref_tree(names_of_kind(refs, 2)), NodeOrder::Tag),
        },
        TreeModel {
            identifier: "__stashes__"@,
            name: "Stashes"@,
            children: sorted_nodes(stash_nodes(stash_pairs(refs)), NodeOrder::Stash),
        },
    ]
}

/// Builds the refs tree shown in the refs view.
pub fn build_ref_tree_nodes(refs: &Vec<Ref>) -> (r: Vec<RefTreeNode>)
    ensures
        nodes_view(r@) == ref_tree_roots(refs@),
{
    let mut branch_refs: Vec<String> = Vec::new();
    let mut remote_refs: Vec<String> = Vec::new();
    let mut tag_refs: Vec<String> = Vec::new();
    let mut stash_refs: Vec<(String, String)> = Vec::new();
    let mut i: usize = 0;
    proof {
        assert(string_views(branch_refs@) =~= names_of_kind(refs@.take(0), 0));
        assert(string_views(remote_refs@) =~= names_of_kind(refs@.take(0), 1));
        assert(string_views(tag_refs@) =~= names_of_kind(refs@.take(0), 2));
        assert(stash_refs@ =~= stash_pairs(refs@.take(0)));
    }
    while i < refs.len()
        invariant
            i <= refs@.len(),
            string_views(branch_refs@) == names_of_kind(refs@.take(i as int), 0),
            string_views(remote_refs@) == names_of_kind(refs@.take(i as int), 1),
            string_views(tag_refs@) == names_of_kind(refs@.take(i as int), 2),
            stash_refs@ == stash_pairs(refs@.take(i as int)),
        decreases refs@.len() - i,
    {
        proof {
            assert(refs@.take(i + 1).drop_last() == refs@.take(i as int));
            assert(refs@.take(i + 1).last() == refs@[i as int]);
        }
        let ghost (b0, r0, t0) = (branch_refs@, remote_refs@, tag_refs@);
        match &refs[i] {
            Ref::Tag { name, .. } => {
                tag_refs.push(name.clone());
                proof {
                    assert(string_views(tag_refs@) =~= string_views(t0).push(name@));
                }
            },
            Ref::Branch { name, .. } => {
                branch_refs.push(name.clone());
                proof {
                    assert(string_views(branch_refs@) =~= string_views(b0).push(name@));
                }
            },
            Ref::RemoteBranch { name, .. } => {
                remote_refs.push(name.clone());
                proof {
                    assert(string_views(remote_refs@) =~= string_views(r0).push(name@));
                }
            },
            Ref::Stash { name, message, .. } => {
                stash_refs.push((name.clone(), message.clone()));
            },
        }
        i += 1;
    }
    proof {
        assert(refs@.take(i as int) == refs@);
    }
    let branch_nodes = sort_branch_tree_nodes(refs_to_ref_tree_nodes(branch_refs));
    let remote_nodes = sort_branch_tree_nodes(refs_to_ref_tree_nodes(remote_refs));
    let tag_nodes = sort_nodes(refs_to_ref_tree_nodes(tag_refs), NodeOrder::Tag);
    let stash_nodes = sort_nodes(refs_to_stash_ref_tree_nodes(stash_refs), NodeOrder::Stash);
    let mut roots: Vec<RefTreeNode> = Vec::new();
    roots.push(RefTreeNode { identifier: "__branches__".to_owned(), name: "Branches".to_owned(), children: branch_nodes });
    roots.push(RefTreeNode { identifier: "__remotes__".to_owned(), name: "Remotes".to_owned(), children: remote_nodes });
    roots.push(RefTreeNode { identifier: "__tags__".to_owned(), name: "Tags".to_owned(), children: tag_nodes });
    roots.push(RefTreeNode { identifier: "__stashes__".to_owned(), name: "Stashes".to_owned(), children: stash_nodes });
    proof {
        lemma_nodes_view(roots@);
        assert(nodes_view(roots@) =~= ref_tree_roots(refs@));
    }
    roots
}

/// The name of the selected node: the last part of the selected path.
pub fn selected_ref_name(selected: &Vec<String>) -> (r: Option<String>)
    ensures
        match r {
            Some(n) => selected@.len() > 0 && n@ == selected@.last()@,
            None => selected@.len() == 0,
        },
{
    if selected.len() == 0 {
        None
    } else {
        Some(selected[selected.len() - 1].clone())
    }
}

/// The selected branch or remote branch: a node below the branches or the
/// remotes root.
pub fn selected_branch(selected: &Vec<String>) -> (r: Option<String>)
    ensures
        match r {
            Some(n) => selected@.len() > 1 && (selected@[0]@ == "__branches__"@ || selected@[0]@ == "__remotes__"@)
                && n@ == selected@.last()@,
            None => !(selected@.len() > 1 && (selected@[0]@ == "__branches__"@ || selected@[0]@ == "__remotes__"@)),
        },
{
    if selected.len() > 1 && (str_eq(selected[0].as_str(), "__branches__") || str_eq(selected[0].as_str(), "__remotes__")) {
        Some(selected[selected.len() - 1].clone())
    } else {
        None
    }
}

/// The selected tag: a node below the tags root.
pub fn selected_tag(selected: &Vec<String>) -> (r: Option<String>)
    ensures
        match r {
            Some(n) => selected@.len() > 1 && selected@[0]@ == "__tags__"@ && n@ == selected@.last()@,
            None => !(selected@.len() > 1 && selected@[0]@ == "__tags__"@),
        },
{
    if selected.len() > 1 && str_eq(selected[0].as_str(), "__tags__") {
        Some(selected[selected.len() - 1].clone())
    } else {
        None
    }
}

/// The nodes are in the order `o`: none is listed after one that follows it.
pub open spec fn nodes_in_order(s: Seq<TreeModel>, o: NodeOrder) -> bool {
    forall|i: int, j: int| 0 <= i < j < s.len() ==> !node_after(o, #[trigger] s[i], #[trigger] s[j])
}

/// The branch and stash orders are total preorders: a node listed after
/// another is not listed before it, and being listed no later is
/// transitive.
pub proof fn lemma_node_order_preorder(o: NodeOrder, a: TreeModel, b: TreeModel, c: TreeModel)
    requires
        o != NodeOrder::Tag,
    ensures
        node_after(o, a, b) ==> !node_after(o, b, a),
        !node_after(o, a, b) && !node_after(o, b, c) ==> !node_after(o, a, c),
{
    lemma_seq_lt_irreflexive(a.name);
    lemma_seq_lt_irreflexive(a.identifier);
    lemma_seq_lt_total(a.name, b.name);
    lemma_seq_lt_total(b.name, c.name);
    lemma_seq_lt_total(a.name, c.name);
    lemma_seq_lt_total(a.identifier, b.identifier);
    lemma_seq_lt_total(b.identifier, c.identifier);
    lemma_seq_lt_total(a.identifier, c.identifier);
    if seq_lt(a.name, b.name) && seq_lt(b.name, a.name) {
        lemma_seq_lt_transitive(a.name, b.name, a.name);
    }
    if seq_lt(a.identifier, b.identifier) && seq_lt(b.identifier, a.identifier) {
        lemma_seq_lt_transitive(a.identifier, b.identifier, a.identifier);
    }
    if seq_lt(c.name, b.name) && seq_lt(b.name, a.name) {
        lemma_seq_lt_transitive(c.name, b.name, a.name);
    }
    if seq_lt(c.identifier, b.identifier) && seq_lt(b.identifier, a.identifier) {
        lemma_seq_lt_transitive(c.identifier, b.identifier, a.identifier);
    }
    if seq_lt(c.name, a.name) && seq_lt(a.name, b.name) {
        lemma_seq_lt_transitive(c.name, a.name, b.name);
    }
    if seq_lt(b.name, c.name) && seq_lt(c.name, a.name) {
        lemma_seq_lt_transitive(b.name, c.name, a.name);
    }
    if seq_lt(c.identifier, a.identifier) && seq_lt(a.identifier, b.identifier) {
        lemma_seq_lt_transitive(c.identifier, a.identifier, b.identifier);
    }
    if seq_lt(b.identifier, c.identifier) && seq_lt(c.identifier, a.identifier) {
        lemma_seq_lt_transitive(b.identifier, c.identifier, a.identifier);
    }
}

proof fn lemma_insert_node_elements(s: Seq<TreeModel>, x: TreeModel, o: NodeOrder)
    ensures
        insert_node(s, x, o).to_multiset() == s.to_multiset().insert(x),
        forall|e: TreeModel| #[trigger] insert_node(s, x, o).contains(e) ==> e == x || s.contains(e),
    decreases s.len(),
{
    broadcast use vstd::seq_lib::group_to_multiset_ensures;

    if s.len() > 0 && node_after(o, s.last(), x) {
        lemma_insert_node_elements(s.drop_last(), x, o);
        let r = insert_node(s.drop_last(), x, o);
        assert forall|e: TreeModel| #[trigger] insert_node(s, x, o).contains(e) implies e == x || s.contains(e) by {
            if e != s.last() {
                assert(r.contains(e));
                if e != x {
                    let k = choose|k: int| 0 <= k < s.drop_last().len() && s.drop_last()[k] == e;
                    assert(s[k] == e);
                }
            } else {
                assert(s[s.len() - 1] == e);
            }
        }
        assert(s.drop_last().push(s.last()) == s);
        assert(insert_node(s, x, o).to_multiset() =~= s.to_multiset().insert(x));
    } else {
        assert forall|e: TreeModel| #[trigger] insert_node(s, x, o).contains(e) implies e == x || s.contains(e) by {
            let k = choose|k: int| 0 <= k < s.push(x).len() && s.push(x)[k] == e;
            if k < s.len() {
                assert(s[k] == e);
            }
        }
    }
}

proof fn lemma_insert_node_in_order(s: Seq<TreeModel>, x: TreeModel, o: NodeOrder)
    requires
        o != NodeOrder::Tag,
        nodes_in_order(s, o),
    ensures
        nodes_in_order(insert_node(s, x, o), o),
    decreases s.len(),
{
    lemma_insert_node_elements(s, x, o);
    if s.len() > 0 && node_after(o, s.last(), x) {
        let d = s.drop_last();
        assert(nodes_in_order(d, o));
        lemma_insert_node_in_order(d, x, o);
        lemma_insert_node_elements(d, x, o);
        let r = insert_node(d, x, o);
        lemma_node_order_preorder(o, s.last(), x, x);
        assert forall|i: int, j: int| 0 <= i < j < r.len() + 1 implies !node_after(
            o,
            #[trigger] r.push(s.last())[i],
            #[trigger] r.push(s.last())[j],
        ) by {
            if j == r.len() {
                let e = r[i];
                assert(r.contains(e));
                if e != x {
                    let k = choose|k: int| 0 <= k < d.len() && d[k] == e;
                    assert(s[k] == e);
                    assert(s[s.len() - 1] == s.last());
                }
            }
        }
    } else {
        assert forall|i: int, j: int| 0 <= i < j < s.len() + 1 implies !node_after(
            o,
            #[trigger] s.push(x)[i],
            #[trigger] s.push(x)[j],
        ) by {
            if j == s.len() && s.len() > 0 && i < s.len() - 1 {
                assert(!node_after(o, s[i], s[s.len() - 1]));
                lemma_node_order_preorder(o, s[i], s[s.len() - 1], x);
            }
        }
    }
}

/// Sorting keeps the nodes, and, in the branch and stash orders, puts
/// them in order.
pub proof fn lemma_sorted_nodes(s: Seq<TreeModel>, o: NodeOrder)
    ensures
        sorted_nodes(s, o).to_multiset() == s.to_multiset(),
        o != NodeOrder::Tag ==> nodes_in_order(sorted_nodes(s, o), o),
    decreases s.len(),
{
    broadcast use vstd::seq_lib::group_to_multiset_ensures;

    if s.len() > 0 {
        lemma_sorted_nodes(s.drop_last(), o);
        lemma_insert_node_elements(sorted_nodes(s.drop_last(), o), s.last(), o);
        if o != NodeOrder::Tag {
            lemma_insert_node_in_order(sorted_nodes(s.drop_last(), o), s.last(), o);
        }
        assert(s.drop_last().push(s.last()) == s);
    }
}

} // verus!
