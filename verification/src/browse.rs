//! Browsing another user's shared files as a collapsible tree.
//!
//! A peer's listing is flat: each folder carries its whole backslash path,
//! and only folders that hold files directly are present. This builds the
//! intermediate folders into a nested tree, and flattens it again into the
//! rows a reader sees, descending only into expanded folders.

use crate::rank::{is_ranked, ranked, Ranked};
use crate::social::{full_path, spec_full_path};
use crate::text::{
    contains_text, lemma_seq_less_order, lowercase, owned, seq_less, split_char, split_on,
    str_eq, str_less, to_lowercase, views,
};
use crate::types::SharedDirectory;
use vstd::prelude::*;

verus! {

broadcast use vstd::std_specs::vec::axiom_vec_index_decreases;

/// A node of the browse tree: a folder with children, or a file.
#[derive(Debug)]
pub enum BrowseNode {
    Folder {
        /// Last path segment (display name).
        name: String,
        /// Whole backslash path: the expansion key.
        path: String,
        children: Vec<BrowseNode>,
    },
    File {
        /// File name.
        name: String,
        /// Whole backslash path: exactly what a download asks for.
        path: String,
        size: u64,
    },
}

/// The files under a node, each as its path and size, in tree order.
pub open spec fn leaves(n: BrowseNode) -> Seq<(Seq<char>, u64)>
    decreases n, 0int,
{
    match n {
        BrowseNode::File { path, size, .. } => seq![(path@, size)],
        BrowseNode::Folder { children, .. } => leaves_in(children@, children@.len() as int),
    }
}

/// The files under the first `k` of `v`, in tree order.
pub open spec fn leaves_in(v: Seq<BrowseNode>, k: int) -> Seq<(Seq<char>, u64)>
    decreases v, k,
{
    if k <= 0 || k > v.len() {
        Seq::empty()
    } else {
        leaves_in(v, k - 1) + leaves(v[k - 1])
    }
}

/// The folders under a node, the node itself included.
pub open spec fn folders(n: BrowseNode) -> nat
    decreases n, 0int,
{
    match n {
        BrowseNode::File { .. } => 0,
        BrowseNode::Folder { children, .. } => 1 + folders_in(children@, children@.len() as int),
    }
}

/// The folders under the first `k` of `v`, those nodes included.
pub open spec fn folders_in(v: Seq<BrowseNode>, k: int) -> nat
    decreases v, k,
{
    if k <= 0 || k > v.len() {
        0
    } else {
        folders_in(v, k - 1) + folders(v[k - 1])
    }
}

fn collect_files(node: &BrowseNode, out: &mut Vec<(String, u64)>)
    ensures
        files_view(final(out)@) == files_view(old(out)@) + leaves(*node),
    decreases *node, 0int,
{
    match node {
        BrowseNode::File { path, size, .. } => {
            let ghost before = out@;
            out.push((path.clone(), *size));
            assert(files_view(out@) =~= files_view(before) + leaves(*node));
        },
        BrowseNode::Folder { children, .. } => {
            collect_files_in(children, out);
        },
    }
}

fn collect_files_in(children: &Vec<BrowseNode>, out: &mut Vec<(String, u64)>)
    ensures
        files_view(final(out)@) == files_view(old(out)@) + leaves_in(children@, children@.len() as int),
    decreases *children, children.len() as int,
{
    let n = children.len();
    let mut i: usize = 0;
    let ghost start = files_view(out@);
    assert(start + leaves_in(children@, 0) =~= start);
    while i < n
        invariant
            n == children.len(),
            i <= n,
            files_view(out@) == start + leaves_in(children@, i as int),
        decreases n - i,
    {
        proof {
            assert(decreases_to!(*children => children[i as int]));
        }
        collect_files(&children[i], out);
        assert(start + leaves_in(children@, i + 1) =~= start + leaves_in(children@, i as int)
            + leaves(children@[i as int]));
        i = i + 1;
    }
}

/// Path and size pairs as values.
pub open spec fn files_view(v: Seq<(String, u64)>) -> Seq<(Seq<char>, u64)> {
    v.map_values(|f: (String, u64)| (f.0@, f.1))
}

/// Every file under `node` as its path and size, found by walking the tree
/// (never by matching path prefixes).
pub fn files_under(node: &BrowseNode) -> (r: Vec<(String, u64)>)
    ensures
        files_view(r@) == leaves(*node),
{
    let mut out: Vec<(String, u64)> = Vec::new();
    assert(files_view(out@) =~= Seq::<(Seq<char>, u64)>::empty());
    collect_files(node, &mut out);
    assert(files_view(out@) =~= leaves(*node));
    out
}

/// The first node, in tree order, among `n` and what lies under it, whose
/// path is `path`.
pub open spec fn find_at(n: BrowseNode, path: Seq<char>) -> Option<BrowseNode>
    decreases n, 0int,
{
    match n {
        BrowseNode::Folder { path: p, children, .. } => if p@ == path {
            Some(n)
        } else {
            find_in(children, children.len() as int, path)
        },
        BrowseNode::File { path: p, .. } => if p@ == path {
            Some(n)
        } else {
            None
        },
    }
}

/// The first node, in tree order, among the first `k` of `v` and what lies
/// under them, whose path is `path`.
pub open spec fn find_in(v: Vec<BrowseNode>, k: int, path: Seq<char>) -> Option<BrowseNode>
    decreases v, k,
{
    if k <= 0 || k > v.len() {
        None
    } else {
        match find_in(v, k - 1, path) {
            Some(x) => Some(x),
            None => find_at(v[k - 1], path),
        }
    }
}

fn find_at_node<'a>(node: &'a BrowseNode, path: &str) -> (r: Option<&'a BrowseNode>)
    ensures
        match find_at(*node, path@) {
            Some(x) => r == Some(&x),
            None => r is None,
        },
    decreases *node, 0int,
{
    match node {
        BrowseNode::Folder { path: p, children, .. } => {
            if str_eq(p.as_str(), path) {
                return Some(node);
            }
            find_node(children, path)
        },
        BrowseNode::File { path: p, .. } => {
            if str_eq(p.as_str(), path) {
                Some(node)
            } else {
                None
            }
        },
    }
}

/// Finds a node by its whole path, searching folders before what they
/// hold.
pub fn find_node<'a>(nodes: &'a Vec<BrowseNode>, path: &str) -> (r: Option<&'a BrowseNode>)
    ensures
        match find_in(*nodes, nodes.len() as int, path@) {
            Some(x) => r == Some(&x),
            None => r is None,
        },
    decreases *nodes, nodes.len() as int,
{
    let n = nodes.len();
    let mut i: usize = 0;
    while i < n
        invariant
            n == nodes.len(),
            i <= n,
            find_in(*nodes, i as int, path@) is None,
        decreases n - i,
    {
        proof {
            assert(decreases_to!(*nodes => nodes[i as int]));
        }
        match find_at_node(&nodes[i], path) {
            Some(found) => {
                proof {
                    lemma_find_in_stable(*nodes, i + 1, path@);
                }
                return Some(found);
            },
            None => {},
        }
        i = i + 1;
    }
    None
}

proof fn lemma_find_in_stable(v: Vec<BrowseNode>, k: int, path: Seq<char>)
    requires
        0 <= k <= v.len(),
        find_in(v, k, path) is Some,
    ensures
        find_in(v, v.len() as int, path) == find_in(v, k, path),
    decreases v.len() - k,
{
    if k < v.len() {
        lemma_find_in_stable(v, k + 1, path);
    }
}

/// One visible row of the flattened tree.
#[derive(Debug, Clone, PartialEq, Eq)]
pub struct BrowseRow {
    pub depth: usize,
    pub is_folder: bool,
    pub expanded: bool,
    pub name: String,
    pub path: String,
    pub size: Option<u64>,
}

/// A row as values: depth, folder or not, expanded or not, name, path and
/// size.
pub open spec fn row_view(r: BrowseRow) -> (int, bool, bool, Seq<char>, Seq<char>, Option<u64>) {
    (r.depth as int, r.is_folder, r.expanded, r.name@, r.path@, r.size)
}

/// One level deeper, stopping at the largest depth a row can hold.
pub open spec fn deeper(depth: usize) -> usize {
    if depth < usize::MAX {
        (depth + 1) as usize
    } else {
        depth
    }
}

/// The rows of `n` at `depth`: its own, then, for an expanded folder, those
/// of its children one level deeper.
pub open spec fn rows_at(n: BrowseNode, depth: usize, expanded: Seq<Seq<char>>) -> Seq<
    (int, bool, bool, Seq<char>, Seq<char>, Option<u64>),
>
    decreases n, 0int,
{
    match n {
        BrowseNode::Folder { name, path, children } => {
            let open = expanded.contains(path@);
            seq![(depth as int, true, open, name@, path@, None::<u64>)] + if open {
                rows_in(children, children.len() as int, deeper(depth), expanded)
            } else {
                Seq::empty()
            }
        },
        BrowseNode::File { name, path, size } => seq![
            (depth as int, false, false, name@, path@, Some(size)),
        ],
    }
}

/// The rows of the first `k` of `v` at `depth`.
pub open spec fn rows_in(v: Vec<BrowseNode>, k: int, depth: usize, expanded: Seq<Seq<char>>) -> Seq<
    (int, bool, bool, Seq<char>, Seq<char>, Option<u64>),
>
    decreases v, k,
{
    if k <= 0 || k > v.len() {
        Seq::empty()
    } else {
        rows_in(v, k - 1, depth, expanded) + rows_at(v[k - 1], depth, expanded)
    }
}

/// Rows as values.
pub open spec fn rows_view(v: Seq<BrowseRow>) -> Seq<
    (int, bool, bool, Seq<char>, Seq<char>, Option<u64>),
> {
    v.map_values(|r: BrowseRow| row_view(r))
}

fn flatten_node(
    node: &BrowseNode,
    depth: usize,
    expanded: &Vec<String>,
    rows: &mut Vec<BrowseRow>,
)
    ensures
        rows_view(final(rows)@) == rows_view(old(rows)@) + rows_at(*node, depth, views(expanded@)),
    decreases *node, 0int,
{
    match node {
        BrowseNode::Folder { name, path, children } => {
            let open = contains_text(expanded, path.as_str());
            let ghost before = rows@;
            rows.push(
                BrowseRow {
                    depth,
                    is_folder: true,
                    expanded: open,
                    name: name.clone(),
                    path: path.clone(),
                    size: None,
                },
            );
            assert(rows_view(rows@) =~= rows_view(before) + seq![
                (depth as int, true, open, name@, path@, None::<u64>),
            ]);
            if open {
                let next = if depth < usize::MAX {
                    depth + 1
                } else {
                    depth
                };
                flatten_in(children, next, expanded, rows);
            }
            assert(rows_view(rows@) =~= rows_view(before) + rows_at(
                *node,
                depth,
                views(expanded@),
            ));
        },
        BrowseNode::File { name, path, size } => {
            let ghost before = rows@;
            rows.push(
                BrowseRow {
                    depth,
                    is_folder: false,
                    expanded: false,
                    name: name.clone(),
                    path: path.clone(),
                    size: Some(*size),
                },
            );
            assert(rows_view(rows@) =~= rows_view(before) + rows_at(
                *node,
                depth,
                views(expanded@),
            ));
        },
    }
}

fn flatten_in(
    nodes: &Vec<BrowseNode>,
    depth: usize,
    expanded: &Vec<String>,
    rows: &mut Vec<BrowseRow>,
)
    ensures
        rows_view(final(rows)@) == rows_view(old(rows)@) + rows_in(
            *nodes,
            nodes.len() as int,
            depth,
            views(expanded@),
        ),
    decreases *nodes, nodes.len() as int,
{
    let n = nodes.len();
    let mut i: usize = 0;
    let ghost start = rows_view(rows@);
    assert(start + rows_in(*nodes, 0, depth, views(expanded@)) =~= start);
    while i < n
        invariant
            n == nodes.len(),
            i <= n,
            rows_view(rows@) == start + rows_in(*nodes, i as int, depth, views(expanded@)),
        decreases n - i,
    {
        proof {
            assert(decreases_to!(*nodes => nodes[i as int]));
        }
        flatten_node(&nodes[i], depth, expanded, rows);
        assert(start + rows_in(*nodes, i + 1, depth, views(expanded@)) =~= start + rows_in(
            *nodes,
            i as int,
            depth,
            views(expanded@),
        ) + rows_at(nodes[i as int], depth, views(expanded@)));
        i = i + 1;
    }
}

/// The visible rows of the tree: every top-level node, and the contents of
/// expanded folders (those whose paths are in `expanded`), depth first.
pub fn flatten_browse(nodes: &Vec<BrowseNode>, expanded: &Vec<String>) -> (r: Vec<BrowseRow>)
    ensures
        rows_view(r@) == rows_in(*nodes, nodes.len() as int, 0, views(expanded@)),
{
    let mut rows: Vec<BrowseRow> = Vec::new();
    assert(rows_view(rows@) =~= Seq::empty());
    flatten_in(nodes, 0, expanded, &mut rows);
    assert(rows_view(rows@) =~= rows_in(*nodes, nodes.len() as int, 0, views(expanded@)));
    rows
}

/// A node's display name.
pub open spec fn node_name(n: BrowseNode) -> Seq<char> {
    match n {
        BrowseNode::Folder { name, .. } => name@,
        BrowseNode::File { name, .. } => name@,
    }
}

/// What a level is ordered by: the name, ignoring case.
pub open spec fn sort_key(n: BrowseNode) -> Seq<char> {
    lowercase(node_name(n))
}

impl Ranked<()> for BrowseNode {
    /// By name, ignoring case.
    open spec fn before(self, other: Self, by: ()) -> bool {
        seq_less(sort_key(self), sort_key(other))
    }

    proof fn lemma_before_asymmetric(a: Self, b: Self, by: ()) {
        lemma_seq_less_order(sort_key(a), sort_key(b), sort_key(b));
    }

    proof fn lemma_before_transitive(a: Self, b: Self, c: Self, by: ()) {
        lemma_seq_less_order(sort_key(a), sort_key(b), sort_key(c));
    }

    fn precedes(&self, other: &Self, by: &()) -> (r: bool) {
        let a = match self {
            BrowseNode::Folder { name, .. } => to_lowercase(name.as_str()),
            BrowseNode::File { name, .. } => to_lowercase(name.as_str()),
        };
        let b = match other {
            BrowseNode::Folder { name, .. } => to_lowercase(name.as_str()),
            BrowseNode::File { name, .. } => to_lowercase(name.as_str()),
        };
        str_less(a.as_str(), b.as_str())
    }
}

/// A file placed in the tree: the names of the folders above it, its name,
/// its whole path and its size.
pub type Placed = (Seq<Seq<char>>, Seq<char>, Seq<char>, u64);

/// The files under `n`, each with the folder names leading to it from the
/// level where `above` leads to `n`.
pub open spec fn placed(n: BrowseNode, above: Seq<Seq<char>>) -> Seq<Placed>
    decreases n, 0int,
{
    match n {
        BrowseNode::File { name, path, size } => seq![(above, name@, path@, size)],
        BrowseNode::Folder { name, children, .. } => placed_in(
            children@,
            children@.len() as int,
            above.push(name@),
        ),
    }
}

/// The placed files under the first `k` of `v`, in tree order.
pub open spec fn placed_in(v: Seq<BrowseNode>, k: int, above: Seq<Seq<char>>) -> Seq<Placed>
    decreases v, k,
{
    if k <= 0 || k > v.len() {
        Seq::empty()
    } else {
        placed_in(v, k - 1, above) + placed(v[k - 1], above)
    }
}

/// The placed files under every node of `v`.
pub open spec fn all_placed(v: Seq<BrowseNode>, above: Seq<Seq<char>>) -> Seq<Placed> {
    placed_in(v, v.len() as int, above)
}

/// Whether `chain` names a folder at or under `n`: the folder names from the
/// level where `above` leads to `n` down to it.
pub open spec fn has_chain(n: BrowseNode, above: Seq<Seq<char>>, chain: Seq<Seq<char>>) -> bool
    decreases n, 0int,
{
    match n {
        BrowseNode::File { .. } => false,
        BrowseNode::Folder { name, children, .. } => chain == above.push(name@) || has_chain_in(
            children@,
            children@.len() as int,
            above.push(name@),
            chain,
        ),
    }
}

/// Whether `chain` names a folder at or under one of the first `k` of `v`.
pub open spec fn has_chain_in(
    v: Seq<BrowseNode>,
    k: int,
    above: Seq<Seq<char>>,
    chain: Seq<Seq<char>>,
) -> bool
    decreases v, k,
{
    if k <= 0 || k > v.len() {
        false
    } else {
        has_chain_in(v, k - 1, above, chain) || has_chain(v[k - 1], above, chain)
    }
}

/// The path of a folder named `name` inside the folder at `parent`.
pub open spec fn child_path(parent: Seq<char>, name: Seq<char>) -> Seq<char> {
    if parent.len() == 0 {
        name
    } else {
        parent + seq!['\\'] + name
    }
}

/// The rules of one level: folders come before files, each kind is in
/// order of its names ignoring case, and no two folders share a name.
pub open spec fn level_ok(v: Seq<BrowseNode>) -> bool {
    &&& forall|i: int, j: int|
        0 <= i < j < v.len() && #[trigger] v[j] is Folder ==> #[trigger] v[i] is Folder
    &&& forall|i: int, j: int|
        0 <= i < j < v.len() && (v[i] is Folder <==> v[j] is Folder) ==> !seq_less(
            sort_key(#[trigger] v[j]),
            sort_key(#[trigger] v[i]),
        )
    &&& forall|i: int, j: int|
        0 <= i < v.len() && 0 <= j < v.len() && i != j && v[i] is Folder && v[j] is Folder
            ==> node_name(#[trigger] v[i]) != node_name(#[trigger] v[j])
}

/// Whether `n`, inside the folder at `parent`, and everything under it keep
/// the rules: each folder's path extends its parent's by its name, and each
/// level keeps `level_ok`.
pub open spec fn tree_ok(n: BrowseNode, parent: Seq<char>) -> bool
    decreases n, 0int,
{
    match n {
        BrowseNode::File { .. } => true,
        BrowseNode::Folder { name, path, children } => {
            &&& path@ == child_path(parent, name@)
            &&& level_ok(children@)
            &&& trees_ok(children@, children@.len() as int, path@)
        },
    }
}

/// Whether the first `k` of `v` keep the rules inside the folder at
/// `parent`.
pub open spec fn trees_ok(v: Seq<BrowseNode>, k: int, parent: Seq<char>) -> bool
    decreases v, k,
{
    if k <= 0 || k > v.len() {
        true
    } else {
        trees_ok(v, k - 1, parent) && tree_ok(v[k - 1], parent)
    }
}

proof fn lemma_placed_prefix(s: Seq<BrowseNode>, t: Seq<BrowseNode>, k: int, above: Seq<Seq<char>>)
    requires
        0 <= k <= s.len(),
        k <= t.len(),
        forall|i: int| 0 <= i < k ==> s[i] == t[i],
    ensures
        placed_in(s, k, above) == placed_in(t, k, above),
    decreases k,
{
    if k > 0 {
        lemma_placed_prefix(s, t, k - 1, above);
    }
}

proof fn lemma_all_placed_push(s: Seq<BrowseNode>, x: BrowseNode, above: Seq<Seq<char>>)
    ensures
        all_placed(s.push(x), above) == all_placed(s, above) + placed(x, above),
{
    lemma_placed_prefix(s, s.push(x), s.len() as int, above);
}

proof fn lemma_all_placed_concat(a: Seq<BrowseNode>, b: Seq<BrowseNode>, above: Seq<Seq<char>>)
    ensures
        all_placed(a + b, above) == all_placed(a, above) + all_placed(b, above),
    decreases b.len(),
{
    if b.len() == 0 {
        assert(a + b =~= a);
        assert(all_placed(b, above) =~= Seq::<Placed>::empty());
    } else {
        let b0 = b.drop_last();
        lemma_all_placed_concat(a, b0, above);
        assert(a + b =~= (a + b0).push(b.last()));
        lemma_all_placed_push(a + b0, b.last(), above);
        assert(b =~= b0.push(b.last()));
        lemma_all_placed_push(b0, b.last(), above);
    }
}

proof fn lemma_all_placed_remove(s: Seq<BrowseNode>, j: int, above: Seq<Seq<char>>)
    requires
        0 <= j < s.len(),
    ensures
        all_placed(s, above).to_multiset() == all_placed(s.remove(j), above).to_multiset().add(
            placed(s[j], above).to_multiset(),
        ),
{
    let a = s.take(j);
    let b = s.skip(j + 1);
    assert(s =~= a.push(s[j]) + b);
    assert(s.remove(j) =~= a + b);
    lemma_all_placed_concat(a.push(s[j]), b, above);
    lemma_all_placed_push(a, s[j], above);
    lemma_all_placed_concat(a, b, above);
    vstd::seq_lib::lemma_multiset_commutative(
        all_placed(a, above) + placed(s[j], above),
        all_placed(b, above),
    );
    vstd::seq_lib::lemma_multiset_commutative(all_placed(a, above), placed(s[j], above));
    vstd::seq_lib::lemma_multiset_commutative(all_placed(a, above), all_placed(b, above));
}

/// The same nodes in any order hold the same placed files.
proof fn lemma_all_placed_permutation(a: Seq<BrowseNode>, b: Seq<BrowseNode>, above: Seq<Seq<char>>)
    requires
        a.to_multiset() == b.to_multiset(),
    ensures
        all_placed(a, above).to_multiset() == all_placed(b, above).to_multiset(),
    decreases a.len(),
{
    a.to_multiset_ensures();
    b.to_multiset_ensures();
    if a.len() == 0 {
        assert(b.len() == 0);
        assert(a =~= b);
    } else {
        let x = a.last();
        let a0 = a.drop_last();
        assert(a =~= a0.push(x));
        assert(a.to_multiset().count(x) > 0);
        assert(b.to_multiset().count(x) > 0);
        assert(b.contains(x));
        let j = choose|j: int| 0 <= j < b.len() && b[j] == x;
        let b0 = b.remove(j);
        vstd::seq_lib::to_multiset_remove(b, j);
        vstd::seq_lib::to_multiset_remove(a, a.len() - 1);
        assert(a.remove(a.len() - 1) =~= a0);
        lemma_all_placed_permutation(a0, b0, above);
        lemma_all_placed_push(a0, x, above);
        lemma_all_placed_remove(b, j, above);
        vstd::seq_lib::lemma_multiset_commutative(all_placed(a0, above), placed(x, above));
    }
}

proof fn lemma_has_chain_in(v: Seq<BrowseNode>, k: int, above: Seq<Seq<char>>, c: Seq<Seq<char>>)
    requires
        0 <= k <= v.len(),
    ensures
        has_chain_in(v, k, above, c) <==> exists|i: int| 0 <= i < k && has_chain(#[trigger] v[i], above, c),
    decreases k,
{
    if k > 0 {
        lemma_has_chain_in(v, k - 1, above, c);
        if has_chain(v[k - 1], above, c) {
            assert(0 <= k - 1 < k && has_chain(v[k - 1], above, c));
        }
    }
}

proof fn lemma_trees_ok(v: Seq<BrowseNode>, k: int, parent: Seq<char>)
    requires
        0 <= k <= v.len(),
    ensures
        trees_ok(v, k, parent) <==> forall|i: int| 0 <= i < k ==> tree_ok(#[trigger] v[i], parent),
    decreases k,
{
    if k > 0 {
        lemma_trees_ok(v, k - 1, parent);
    }
}

/// Every item of `b` is one of `a` when the two hold the same items.
proof fn lemma_same_items<T>(a: Seq<T>, b: Seq<T>)
    requires
        a.to_multiset() == b.to_multiset(),
    ensures
        forall|i: int| 0 <= i < b.len() ==> a.contains(#[trigger] b[i]),
        forall|i: int| 0 <= i < a.len() ==> b.contains(#[trigger] a[i]),
{
    a.to_multiset_ensures();
    b.to_multiset_ensures();
    assert forall|i: int| 0 <= i < b.len() implies a.contains(#[trigger] b[i]) by {
        assert(b.contains(b[i]));
        assert(b.to_multiset().count(b[i]) > 0);
        assert(a.to_multiset().count(b[i]) > 0);
    }
    assert forall|i: int| 0 <= i < a.len() implies b.contains(#[trigger] a[i]) by {
        assert(a.contains(a[i]));
        assert(a.to_multiset().count(a[i]) > 0);
        assert(b.to_multiset().count(a[i]) > 0);
    }
}

/// Folders with different names, rearranged, still have different names.
proof fn lemma_distinct_names_kept(a: Seq<BrowseNode>, b: Seq<BrowseNode>)
    requires
        a.to_multiset() == b.to_multiset(),
        forall|i: int, j: int|
            0 <= i < a.len() && 0 <= j < a.len() && i != j ==> node_name(#[trigger] a[i]) != node_name(
                #[trigger] a[j],
            ),
    ensures
        forall|i: int, j: int|
            0 <= i < b.len() && 0 <= j < b.len() && i != j ==> node_name(#[trigger] b[i]) != node_name(
                #[trigger] b[j],
            ),
{
    assert(a.no_duplicates());
    a.lemma_multiset_has_no_duplicates();
    b.lemma_multiset_has_no_duplicates_conv();
    lemma_same_items(a, b);
    assert forall|i: int, j: int|
        0 <= i < b.len() && 0 <= j < b.len() && i != j implies node_name(#[trigger] b[i])
        != node_name(#[trigger] b[j]) by {
        assert(a.contains(b[i]));
        assert(a.contains(b[j]));
        let p = choose|p: int| 0 <= p < a.len() && a[p] == b[i];
        let q = choose|q: int| 0 <= q < a.len() && a[q] == b[j];
        assert(b[i] != b[j]);
        assert(p != q);
    }
}

/// A listed folder on its way into the tree: all the segments of its path,
/// and its files as name, size and whole path.
struct Pending {
    segs: Vec<String>,
    files: Vec<(String, u64, String)>,
}

/// The files of a pending folder, placed under the folders its segments
/// name.
spec fn pending_leaves(p: Pending) -> Seq<Placed> {
    file_entries(p.segs@, p.files@)
}

/// Files given as name, size and whole path, placed under the folders
/// `segs` name.
spec fn file_entries(segs: Seq<String>, files: Seq<(String, u64, String)>) -> Seq<Placed> {
    files.map_values(|f: (String, u64, String)| (views(segs), f.0@, f.2@, f.1))
}

/// The files of the first `k` pending folders, in order.
spec fn pending_in(ps: Seq<Pending>, k: int) -> Seq<Placed>
    decreases k,
{
    if k <= 0 || k > ps.len() {
        Seq::empty()
    } else {
        pending_in(ps, k - 1) + pending_leaves(ps[k - 1])
    }
}

/// The files of every pending folder.
spec fn all_pending(ps: Seq<Pending>) -> Seq<Placed> {
    pending_in(ps, ps.len() as int)
}

/// Whether `chain` is one of the folders that `p` leads through below its
/// first `depth` segments.
spec fn pending_chain(p: Pending, depth: int, chain: Seq<Seq<char>>) -> bool {
    exists|k: int| depth < k <= p.segs@.len() && chain == #[trigger] views(p.segs@).take(k)
}

/// Whether one of `ps` leads through `chain` below the first `depth`
/// segments.
spec fn pendings_chain(ps: Seq<Pending>, depth: int, chain: Seq<Seq<char>>) -> bool {
    exists|i: int| 0 <= i < ps.len() && pending_chain(#[trigger] ps[i], depth, chain)
}

/// Whether `p` belongs at the level that `above` leads to, with at most
/// `fuel` segments left to walk.
spec fn fits(p: Pending, above: Seq<Seq<char>>, fuel: int) -> bool {
    &&& above.len() <= p.segs@.len() <= above.len() + fuel
    &&& p.segs@.len() <= usize::MAX
    &&& views(p.segs@).take(above.len() as int) == above
}

proof fn lemma_pending_prefix(s: Seq<Pending>, t: Seq<Pending>, k: int)
    requires
        0 <= k <= s.len(),
        k <= t.len(),
        forall|i: int| 0 <= i < k ==> s[i] == t[i],
    ensures
        pending_in(s, k) == pending_in(t, k),
    decreases k,
{
    if k > 0 {
        lemma_pending_prefix(s, t, k - 1);
    }
}

proof fn lemma_all_pending_push(s: Seq<Pending>, x: Pending)
    ensures
        all_pending(s.push(x)) == all_pending(s) + pending_leaves(x),
{
    lemma_pending_prefix(s, s.push(x), s.len() as int);
}

proof fn lemma_pendings_chain_push(s: Seq<Pending>, x: Pending, depth: int)
    ensures
        forall|c: Seq<Seq<char>>|
            pendings_chain(s.push(x), depth, c) <==> (pendings_chain(s, depth, c) || pending_chain(
                x,
                depth,
                c,
            )),
{
    assert forall|c: Seq<Seq<char>>|
        pendings_chain(s.push(x), depth, c) <==> (pendings_chain(s, depth, c) || pending_chain(
            x,
            depth,
            c,
        )) by {
        if pendings_chain(s, depth, c) {
            let i = choose|i: int| 0 <= i < s.len() && pending_chain(#[trigger] s[i], depth, c);
            assert(s.push(x)[i] == s[i]);
        }
        if pending_chain(x, depth, c) {
            assert(s.push(x)[s.len() as int] == x);
        }
        if pendings_chain(s.push(x), depth, c) {
            let i = choose|i: int|
                0 <= i < s.push(x).len() && pending_chain(#[trigger] s.push(x)[i], depth, c);
            if i < s.len() {
                assert(s.push(x)[i] == s[i]);
            }
        }
    }
}

/// One level further down, `p` leads through the folder its next segment
/// names, then through what lies below.
proof fn lemma_pending_chain_step(p: Pending, above: Seq<Seq<char>>, fuel: int)
    requires
        fits(p, above, fuel),
        above.len() < p.segs@.len(),
    ensures
        views(p.segs@).take(above.len() + 1int) == above.push(p.segs@[above.len() as int]@),
        forall|c: Seq<Seq<char>>|
            pending_chain(p, above.len() as int, c) <==> (c == above.push(
                p.segs@[above.len() as int]@,
            ) || pending_chain(p, above.len() + 1int, c)),
{
    let d = above.len() as int;
    let v = views(p.segs@);
    assert(v.take(d + 1) =~= v.take(d).push(v[d]));
    assert forall|c: Seq<Seq<char>>|
        pending_chain(p, d, c) <==> (c == above.push(p.segs@[d]@) || pending_chain(p, d + 1, c)) by {
        if pending_chain(p, d, c) {
            let k = choose|k: int| d < k <= p.segs@.len() && c == #[trigger] v.take(k);
            if k > d + 1 {
                assert(pending_chain(p, d + 1, c));
            }
        }
        if c == above.push(p.segs@[d]@) {
            assert(c == v.take(d + 1));
        }
    }
}

/// Pending folders gathered under one name.
struct Group {
    name: String,
    members: Vec<Pending>,
}

/// The files of the first `k` groups, in order.
spec fn groups_in(gs: Seq<Group>, k: int) -> Seq<Placed>
    decreases k,
{
    if k <= 0 || k > gs.len() {
        Seq::empty()
    } else {
        groups_in(gs, k - 1) + all_pending(gs[k - 1].members@)
    }
}

/// The files of every group.
spec fn all_groups(gs: Seq<Group>) -> Seq<Placed> {
    groups_in(gs, gs.len() as int)
}

/// Whether `g` gathers folders that lead through its name one level below
/// `above`, each with at most `fuel - 1` segments left after it.
spec fn group_fits(g: Group, above: Seq<Seq<char>>, fuel: int) -> bool {
    &&& g.members@.len() > 0
    &&& fuel >= 1
    &&& forall|i: int|
        0 <= i < g.members@.len() ==> fits(#[trigger] g.members@[i], above.push(g.name@), fuel - 1)
}

/// Whether `chain` is the folder of one of `gs`, or one its members lead
/// through below it.
spec fn groups_chain(gs: Seq<Group>, above: Seq<Seq<char>>, chain: Seq<Seq<char>>) -> bool {
    exists|i: int|
        0 <= i < gs.len() && (chain == above.push((#[trigger] gs[i]).name@) || pendings_chain(
            gs[i].members@,
            above.len() + 1int,
            chain,
        ))
}

proof fn lemma_groups_prefix(s: Seq<Group>, t: Seq<Group>, k: int)
    requires
        0 <= k <= s.len(),
        k <= t.len(),
        forall|i: int| 0 <= i < k ==> all_pending(s[i].members@) == all_pending(t[i].members@),
    ensures
        groups_in(s, k) == groups_in(t, k),
    decreases k,
{
    if k > 0 {
        lemma_groups_prefix(s, t, k - 1);
    }
}

proof fn lemma_all_groups_concat(a: Seq<Group>, b: Seq<Group>)
    ensures
        all_groups(a + b) == all_groups(a) + all_groups(b),
    decreases b.len(),
{
    if b.len() == 0 {
        assert(a + b =~= a);
        assert(all_groups(b) =~= Seq::<Placed>::empty());
    } else {
        let b0 = b.drop_last();
        lemma_all_groups_concat(a, b0);
        assert(a + b =~= (a + b0).push(b.last()));
        lemma_groups_prefix(a + b0, (a + b0).push(b.last()), (a + b0).len() as int);
        assert(b =~= b0.push(b.last()));
        lemma_groups_prefix(b0, b, b0.len() as int);
    }
}

/// Changing one group's members changes the files of all groups by exactly
/// that group's change.
proof fn lemma_all_groups_update(gs: Seq<Group>, j: int, g: Group)
    requires
        0 <= j < gs.len(),
    ensures
        all_groups(gs.update(j, g)).to_multiset().add(all_pending(gs[j].members@).to_multiset())
            == all_groups(gs).to_multiset().add(all_pending(g.members@).to_multiset()),
{
    let a = gs.take(j);
    let b = gs.skip(j + 1);
    assert(gs =~= a.push(gs[j]) + b);
    assert(gs.update(j, g) =~= a.push(g) + b);
    lemma_all_groups_concat(a.push(gs[j]), b);
    lemma_all_groups_concat(a.push(g), b);
    lemma_groups_prefix(a, a.push(gs[j]), a.len() as int);
    lemma_groups_prefix(a, a.push(g), a.len() as int);
    vstd::seq_lib::lemma_multiset_commutative(all_groups(a.push(gs[j])), all_groups(b));
    vstd::seq_lib::lemma_multiset_commutative(all_groups(a.push(g)), all_groups(b));
    vstd::seq_lib::lemma_multiset_commutative(all_groups(a), all_pending(gs[j].members@));
    vstd::seq_lib::lemma_multiset_commutative(all_groups(a), all_pending(g.members@));
}

/// Adds the files of `p`, which sits at the level that `above` leads to,
/// as file nodes.
fn place_files(files: &mut Vec<BrowseNode>, p: &Pending, Ghost(above): Ghost<Seq<Seq<char>>>)
    requires
        views(p.segs@) == above,
        forall|i: int| 0 <= i < old(files)@.len() ==> (#[trigger] old(files)@[i]) is File,
    ensures
        all_placed(final(files)@, above) == all_placed(old(files)@, above) + pending_leaves(*p),
        forall|i: int| 0 <= i < final(files)@.len() ==> (#[trigger] final(files)@[i]) is File,
{
    let n = p.files.len();
    let mut k: usize = 0;
    let ghost start = files@;
    assert(pending_leaves(*p).take(0) =~= Seq::<Placed>::empty());
    assert(all_placed(start, above) + pending_leaves(*p).take(0) =~= all_placed(start, above));
    while k < n
        invariant
            n == p.files@.len(),
            k <= n,
            views(p.segs@) == above,
            all_placed(files@, above) == all_placed(start, above) + pending_leaves(*p).take(k as int),
            forall|i: int| 0 <= i < files@.len() ==> (#[trigger] files@[i]) is File,
        decreases n - k,
    {
        let f = &p.files[k];
        let node = BrowseNode::File { name: f.0.clone(), path: f.2.clone(), size: f.1 };
        let ghost before = files@;
        files.push(node);
        proof {
            lemma_all_placed_push(before, node, above);
            assert(pending_leaves(*p).take(k + 1) =~= pending_leaves(*p).take(k as int).push(
                pending_leaves(*p)[k as int],
            ));
            assert(all_placed(files@, above) =~= all_placed(start, above) + pending_leaves(
                *p,
            ).take(k + 1));
        }
        k = k + 1;
    }
    assert(pending_leaves(*p).take(n as int) =~= pending_leaves(*p));
}

proof fn lemma_nothing_placed()
    ensures
        Seq::<Placed>::empty().to_multiset() =~= vstd::multiset::Multiset::<Placed>::empty(),
{
    broadcast use vstd::multiset::group_multiset_axioms;

    let s = Seq::<Placed>::empty();
    s.to_multiset_ensures();
    assert forall|x: Placed| s.to_multiset().count(x) == 0 by {
        assert(!s.contains(x));
    }
}

/// Where the group named `name` stands, if there is one.
fn find_group(groups: &Vec<Group>, name: &str) -> (r: Option<usize>)
    ensures
        match r {
            Some(j) => j < groups@.len() && groups@[j as int].name@ == name@,
            None => forall|k: int| 0 <= k < groups@.len() ==> (#[trigger] groups@[k]).name@ != name@,
        },
{
    let n = groups.len();
    let mut j: usize = 0;
    while j < n
        invariant
            n == groups@.len(),
            j <= n,
            forall|k: int| 0 <= k < j ==> (#[trigger] groups@[k]).name@ != name@,
        decreases n - j,
    {
        if str_eq(groups[j].name.as_str(), name) {
            return Some(j);
        }
        j = j + 1;
    }
    None
}

/// Files `p` with the group named by its next segment, making that group
/// if there is none.
fn file_group(
    groups: &mut Vec<Group>,
    p: Pending,
    depth: usize,
    Ghost(above): Ghost<Seq<Seq<char>>>,
    fuel: usize,
)
    requires
        above.len() == depth,
        depth < p.segs@.len(),
        fits(p, above, fuel as int),
        forall|i: int|
            0 <= i < old(groups)@.len() ==> group_fits(#[trigger] old(groups)@[i], above, fuel as int),
        forall|i: int, j: int|
            0 <= i < j < old(groups)@.len() ==> old(groups)@[i].name@ != old(groups)@[j].name@,
    ensures
        forall|i: int|
            0 <= i < final(groups)@.len() ==> group_fits(
                #[trigger] final(groups)@[i],
                above,
                fuel as int,
            ),
        forall|i: int, j: int|
            0 <= i < j < final(groups)@.len() ==> final(groups)@[i].name@ != final(groups)@[j].name@,
        all_groups(final(groups)@).to_multiset() == all_groups(old(groups)@).to_multiset().add(
            pending_leaves(p).to_multiset(),
        ),
        forall|c: Seq<Seq<char>>|
            groups_chain(final(groups)@, above, c) <==> (groups_chain(old(groups)@, above, c)
                || pending_chain(p, depth as int, c)),
{
    let name = p.segs[depth].clone();
    proof {
        lemma_pending_chain_step(p, above, fuel as int);
        assert(views(p.segs@).take(depth + 1int) =~= above.push(name@));
        assert(fits(p, above.push(name@), fuel - 1));
    }
    let ghost old_groups = groups@;
    match find_group(groups, name.as_str()) {
        Some(j) => {
            let mut g = groups.remove(j);
            let ghost old_g = g;
            g.members.push(p);
            groups.insert(j, g);
            proof {
                assert(groups@ =~= old_groups.update(j as int, g));
                lemma_all_groups_update(old_groups, j as int, g);
                lemma_all_pending_push(old_g.members@, p);
                vstd::seq_lib::lemma_multiset_commutative(
                    all_pending(old_g.members@),
                    pending_leaves(p),
                );
                assert(old_groups[j as int] == old_g);
                let ga = all_groups(groups@).to_multiset();
                let gb = all_groups(old_groups).to_multiset();
                let mo = all_pending(old_g.members@).to_multiset();
                let lp = pending_leaves(p).to_multiset();
                assert(all_pending(g.members@).to_multiset() == mo.add(lp));
                assert(ga.add(mo) == gb.add(mo.add(lp)));
                assert forall|x: Placed| #[trigger] ga.count(x) == gb.add(lp).count(x) by {
                    assert(ga.add(mo).count(x) == gb.add(mo.add(lp)).count(x));
                }
                assert(ga =~= gb.add(lp));
                assert forall|i: int| 0 <= i < groups@.len() implies group_fits(
                    #[trigger] groups@[i],
                    above,
                    fuel as int,
                ) by {
                    if i == j {
                        assert forall|m: int| 0 <= m < g.members@.len() implies fits(
                            #[trigger] g.members@[m],
                            above.push(g.name@),
                            fuel - 1,
                        ) by {
                            if m < old_g.members@.len() {
                                assert(g.members@[m] == old_g.members@[m]);
                            }
                        }
                    }
                }
                lemma_pendings_chain_push(old_g.members@, p, depth + 1int);
                assert forall|c: Seq<Seq<char>>|
                    groups_chain(groups@, above, c) <==> (groups_chain(old_groups, above, c)
                        || pending_chain(p, depth as int, c)) by {
                    if groups_chain(groups@, above, c) {
                        let i = choose|i: int|
                            0 <= i < groups@.len() && (c == above.push(
                                (#[trigger] groups@[i]).name@,
                            ) || pendings_chain(groups@[i].members@, above.len() + 1int, c));
                        if i != j {
                            assert(groups@[i] == old_groups[i]);
                        } else if c == above.push(g.name@) {
                            assert(c == above.push(old_groups[i].name@));
                        } else if pendings_chain(old_g.members@, depth + 1int, c) {
                            assert(groups_chain(old_groups, above, c));
                        }
                    }
                    if groups_chain(old_groups, above, c) {
                        let i = choose|i: int|
                            0 <= i < old_groups.len() && (c == above.push(
                                (#[trigger] old_groups[i]).name@,
                            ) || pendings_chain(old_groups[i].members@, above.len() + 1int, c));
                        assert(groups@[i].name@ == old_groups[i].name@);
                        if i != j {
                            assert(groups@[i] == old_groups[i]);
                        }
                    }
                    if pending_chain(p, depth as int, c) {
                        assert(groups@[j as int].name@ == name@);
                        assert(c == above.push(name@) || pendings_chain(
                            groups@[j as int].members@,
                            depth + 1int,
                            c,
                        ));
                    }
                }
            }
        },
        None => {
            let mut members: Vec<Pending> = Vec::new();
            members.push(p);
            let g = Group { name, members };
            groups.push(g);
            proof {
                lemma_groups_prefix(old_groups, groups@, old_groups.len() as int);
                lemma_pending_prefix(seq![], members@, 0);
                assert(all_pending(members@) =~= pending_leaves(p));
                assert(all_groups(groups@) == all_groups(old_groups) + pending_leaves(p));
                vstd::seq_lib::lemma_multiset_commutative(
                    all_groups(old_groups),
                    pending_leaves(p),
                );
                assert forall|i: int| 0 <= i < groups@.len() implies group_fits(
                    #[trigger] groups@[i],
                    above,
                    fuel as int,
                ) by {
                    if i < old_groups.len() {
                        assert(groups@[i] == old_groups[i]);
                    } else {
                        assert(groups@[i] == g);
                        assert(g.members@[0] == p);
                    }
                }
                assert forall|i: int, k: int| 0 <= i < k < groups@.len() implies groups@[i].name@
                    != groups@[k].name@ by {
                    if k == old_groups.len() {
                        assert(groups@[i] == old_groups[i]);
                    }
                }
                lemma_pendings_chain_push(seq![], p, depth + 1int);
                assert(seq![].push(p) =~= members@);
                assert forall|c: Seq<Seq<char>>|
                    groups_chain(groups@, above, c) <==> (groups_chain(old_groups, above, c)
                        || pending_chain(p, depth as int, c)) by {
                    if groups_chain(groups@, above, c) {
                        let i = choose|i: int|
                            0 <= i < groups@.len() && (c == above.push(
                                (#[trigger] groups@[i]).name@,
                            ) || pendings_chain(groups@[i].members@, above.len() + 1int, c));
                        if i < old_groups.len() {
                            assert(groups@[i] == old_groups[i]);
                        } else if !(c == above.push(name@)) {
                            assert(pendings_chain(members@, depth + 1int, c));
                            assert(!pendings_chain(seq![], depth + 1int, c));
                        }
                    }
                    if groups_chain(old_groups, above, c) {
                        let i = choose|i: int|
                            0 <= i < old_groups.len() && (c == above.push(
                                (#[trigger] old_groups[i]).name@,
                            ) || pendings_chain(old_groups[i].members@, above.len() + 1int, c));
                        assert(groups@[i] == old_groups[i]);
                    }
                    if pending_chain(p, depth as int, c) {
                        let last = old_groups.len() as int;
                        assert(groups@[last] == g);
                        assert(c == above.push(name@) || pendings_chain(
                            groups@[last].members@,
                            depth + 1int,
                            c,
                        ));
                    }
                }
            }
        },
    }
}

proof fn lemma_groups_chain_push(gs: Seq<Group>, g: Group, above: Seq<Seq<char>>)
    ensures
        forall|c: Seq<Seq<char>>|
            groups_chain(gs.push(g), above, c) <==> (groups_chain(gs, above, c) || c == above.push(
                g.name@,
            ) || pendings_chain(g.members@, above.len() + 1int, c)),
{
    let t = gs.push(g);
    assert forall|c: Seq<Seq<char>>|
        groups_chain(t, above, c) <==> (groups_chain(gs, above, c) || c == above.push(g.name@)
            || pendings_chain(g.members@, above.len() + 1int, c)) by {
        if groups_chain(t, above, c) {
            let i = choose|i: int|
                0 <= i < t.len() && (c == above.push((#[trigger] t[i]).name@) || pendings_chain(
                    t[i].members@,
                    above.len() + 1int,
                    c,
                ));
            if i < gs.len() {
                assert(t[i] == gs[i]);
            }
        }
        if groups_chain(gs, above, c) {
            let i = choose|i: int|
                0 <= i < gs.len() && (c == above.push((#[trigger] gs[i]).name@) || pendings_chain(
                    gs[i].members@,
                    above.len() + 1int,
                    c,
                ));
            assert(t[i] == gs[i]);
        }
        if c == above.push(g.name@) || pendings_chain(g.members@, above.len() + 1int, c) {
            assert(t[gs.len() as int] == g);
        }
    }
}

/// Ranked folders followed by ranked files make a level that keeps the
/// rules, with the files and folders of the parts.
proof fn lemma_assembled(
    folders: Seq<BrowseNode>,
    files: Seq<BrowseNode>,
    sf: Seq<BrowseNode>,
    sfi: Seq<BrowseNode>,
    above: Seq<Seq<char>>,
    parent: Seq<char>,
)
    requires
        sf.to_multiset() == folders.to_multiset(),
        sfi.to_multiset() == files.to_multiset(),
        is_ranked(sf, ()),
        is_ranked(sfi, ()),
        forall|i: int|
            0 <= i < folders.len() ==> (#[trigger] folders[i]) is Folder && tree_ok(
                folders[i],
                parent,
            ),
        forall|i: int, j: int|
            0 <= i < folders.len() && 0 <= j < folders.len() && i != j ==> node_name(
                #[trigger] folders[i],
            ) != node_name(#[trigger] folders[j]),
        forall|i: int| 0 <= i < files.len() ==> (#[trigger] files[i]) is File,
    ensures
        level_ok(sf + sfi),
        trees_ok(sf + sfi, (sf + sfi).len() as int, parent),
        all_placed(sf + sfi, above).to_multiset() == all_placed(folders, above).to_multiset().add(
            all_placed(files, above).to_multiset(),
        ),
        forall|c: Seq<Seq<char>>|
            has_chain_in(sf + sfi, (sf + sfi).len() as int, above, c) <==> has_chain_in(
                folders,
                folders.len() as int,
                above,
                c,
            ),
{
    lemma_same_items(folders, sf);
    lemma_same_items(files, sfi);
    lemma_distinct_names_kept(folders, sf);
    let r = sf + sfi;
    let n = sf.len() as int;
    assert forall|i: int| 0 <= i < sf.len() implies (#[trigger] sf[i]) is Folder && tree_ok(
        sf[i],
        parent,
    ) by {
        assert(folders.contains(sf[i]));
        let q = choose|q: int| 0 <= q < folders.len() && folders[q] == sf[i];
        assert(folders[q] is Folder);
    }
    assert forall|i: int| 0 <= i < sfi.len() implies (#[trigger] sfi[i]) is File by {
        assert(files.contains(sfi[i]));
        let q = choose|q: int| 0 <= q < files.len() && files[q] == sfi[i];
        assert(files[q] is File);
    }
    assert forall|i: int| 0 <= i < r.len() implies (#[trigger] r[i] is Folder) == (i < n) by {
        if i < n {
            assert(r[i] == sf[i]);
        } else {
            assert(r[i] == sfi[i - n]);
        }
    }
    assert forall|i: int, j: int|
        0 <= i < j < r.len() && (r[i] is Folder <==> r[j] is Folder) implies !seq_less(
        sort_key(#[trigger] r[j]),
        sort_key(#[trigger] r[i]),
    ) by {
        assert(r[i] is Folder == (i < n));
        assert(r[j] is Folder == (j < n));
        if j < n {
            assert(r[i] == sf[i] && r[j] == sf[j]);
            assert(!sf[j].before(sf[i], ()));
        } else {
            assert(r[i] == sfi[i - n] && r[j] == sfi[j - n]);
            assert(!sfi[j - n].before(sfi[i - n], ()));
        }
    }
    assert forall|i: int, j: int|
        0 <= i < r.len() && 0 <= j < r.len() && i != j && r[i] is Folder && r[j] is Folder implies node_name(
        #[trigger] r[i],
    ) != node_name(#[trigger] r[j]) by {
        assert(r[i] is Folder == (i < n));
        assert(r[j] is Folder == (j < n));
        assert(r[i] == sf[i] && r[j] == sf[j]);
    }
    assert forall|i: int, j: int|
        0 <= i < j < r.len() && #[trigger] r[j] is Folder implies #[trigger] r[i] is Folder by {
        assert(r[i] is Folder == (i < n));
        assert(r[j] is Folder == (j < n));
    }
    lemma_trees_ok(r, r.len() as int, parent);
    assert forall|i: int| 0 <= i < r.len() implies tree_ok(#[trigger] r[i], parent) by {
        if i < n {
            assert(r[i] == sf[i]);
        } else {
            assert(r[i] == sfi[i - n]);
        }
    }
    lemma_all_placed_concat(sf, sfi, above);
    lemma_all_placed_permutation(sf, folders, above);
    lemma_all_placed_permutation(sfi, files, above);
    vstd::seq_lib::lemma_multiset_commutative(all_placed(sf, above), all_placed(sfi, above));
    assert forall|c: Seq<Seq<char>>|
        has_chain_in(r, r.len() as int, above, c) <==> has_chain_in(
            folders,
            folders.len() as int,
            above,
            c,
        ) by {
        lemma_has_chain_in(r, r.len() as int, above, c);
        lemma_has_chain_in(folders, folders.len() as int, above, c);
        if has_chain_in(r, r.len() as int, above, c) {
            let i = choose|i: int| 0 <= i < r.len() && has_chain(#[trigger] r[i], above, c);
            if i >= n {
                assert(r[i] == sfi[i - n]);
            } else {
                assert(r[i] == sf[i]);
                assert(folders.contains(sf[i]));
                let q = choose|q: int| 0 <= q < folders.len() && folders[q] == sf[i];
                assert(has_chain(folders[q], above, c));
            }
        }
        if has_chain_in(folders, folders.len() as int, above, c) {
            let q = choose|q: int| 0 <= q < folders.len() && has_chain(#[trigger] folders[q], above, c);
            assert(sf.contains(folders[q]));
            let i = choose|i: int| 0 <= i < sf.len() && sf[i] == folders[q];
            assert(r[i] == sf[i]);
        }
    }
}

/// The path of a folder named `name` inside the folder at `parent`.
fn join_child(parent: &str, name: &str) -> (r: String)
    ensures
        r@ == child_path(parent@, name@),
{
    if parent.unicode_len() == 0 {
        return owned(name);
    }
    let mut r = owned(parent);
    crate::text::push_char(&mut r, '\\');
    r.append(name);
    r
}

/// Builds the level that `above` leads to (whose folder is at `prefix`)
/// from the folders listed at or below it: their files here, and one
/// folder for each next segment, holding everything listed under it.
fn build_level(
    entries: Vec<Pending>,
    Ghost(above): Ghost<Seq<Seq<char>>>,
    prefix: &str,
    depth: usize,
    fuel: usize,
) -> (r: Vec<BrowseNode>)
    requires
        above.len() == depth,
        forall|i: int| 0 <= i < entries@.len() ==> fits(#[trigger] entries@[i], above, fuel as int),
    ensures
        all_placed(r@, above).to_multiset() == all_pending(entries@).to_multiset(),
        level_ok(r@),
        trees_ok(r@, r@.len() as int, prefix@),
        forall|c: Seq<Seq<char>>|
            has_chain_in(r@, r@.len() as int, above, c) <==> pendings_chain(
                entries@,
                depth as int,
                c,
            ),
    decreases fuel,
{
    let ghost all = entries@;
    let mut rest = entries;
    let mut groups: Vec<Group> = Vec::new();
    let mut files: Vec<BrowseNode> = Vec::new();
    proof {
        lemma_nothing_placed();
        assert(all_placed(files@, above) =~= Seq::<Placed>::empty());
        assert(all_groups(groups@) =~= Seq::<Placed>::empty());
        assert(all_pending(rest@).to_multiset().add(all_placed(files@, above).to_multiset()).add(
            all_groups(groups@).to_multiset(),
        ) =~= all_pending(all).to_multiset());
    }
    while rest.len() > 0
        invariant
            above.len() == depth,
            forall|i: int| 0 <= i < rest@.len() ==> fits(#[trigger] rest@[i], above, fuel as int),
            forall|i: int|
                0 <= i < groups@.len() ==> group_fits(#[trigger] groups@[i], above, fuel as int),
            forall|i: int, j: int|
                0 <= i < j < groups@.len() ==> groups@[i].name@ != groups@[j].name@,
            forall|i: int| 0 <= i < files@.len() ==> (#[trigger] files@[i]) is File,
            all_pending(rest@).to_multiset().add(all_placed(files@, above).to_multiset()).add(
                all_groups(groups@).to_multiset(),
            ) == all_pending(all).to_multiset(),
            forall|c: Seq<Seq<char>>|
                pendings_chain(all, depth as int, c) <==> (pendings_chain(rest@, depth as int, c)
                    || groups_chain(groups@, above, c)),
        decreases rest.len(),
    {
        let ghost before = rest@;
        let ghost files0 = files@;
        let ghost groups0 = groups@;
        let p = rest.pop().unwrap();
        proof {
            assert(before =~= rest@.push(p));
            assert(fits(p, above, fuel as int));
            lemma_all_pending_push(rest@, p);
            lemma_pendings_chain_push(rest@, p, depth as int);
            vstd::seq_lib::lemma_multiset_commutative(all_pending(rest@), pending_leaves(p));
        }
        if p.segs.len() == depth {
            proof {
                assert(views(p.segs@) =~= views(p.segs@).take(depth as int));
            }
            place_files(&mut files, &p, Ghost(above));
            proof {
                vstd::seq_lib::lemma_multiset_commutative(
                    all_placed(files0, above),
                    pending_leaves(p),
                );
                let a = all_pending(rest@).to_multiset();
                let l = pending_leaves(p).to_multiset();
                let f0 = all_placed(files0, above).to_multiset();
                let g = all_groups(groups@).to_multiset();
                assert(a.add(l).add(f0).add(g) =~= a.add(f0.add(l)).add(g));
                assert forall|c: Seq<Seq<char>>| !pending_chain(p, depth as int, c) by {}
            }
        } else {
            file_group(&mut groups, p, depth, Ghost(above), fuel);
            proof {
                let a = all_pending(rest@).to_multiset();
                let l = pending_leaves(p).to_multiset();
                let f = all_placed(files@, above).to_multiset();
                let g0 = all_groups(groups0).to_multiset();
                assert(a.add(l).add(f).add(g0) =~= a.add(f).add(g0.add(l)));
            }
        }
    }
    let ghost gs = groups@;
    let mut folders: Vec<BrowseNode> = Vec::new();
    proof {
        lemma_nothing_placed();
        assert(rest@.len() == 0);
        assert(all_pending(rest@) =~= Seq::<Placed>::empty());
        assert(all_placed(folders@, above) =~= Seq::<Placed>::empty());
        assert(groups@ =~= gs.take(groups@.len() as int));
        assert(all_placed(folders@, above).to_multiset().add(all_groups(groups@).to_multiset())
            =~= all_groups(gs).to_multiset());
    }
    while groups.len() > 0
        invariant
            above.len() == depth,
            groups@ == gs.take(groups@.len() as int),
            groups@.len() + folders@.len() == gs.len(),
            forall|i: int| 0 <= i < gs.len() ==> group_fits(#[trigger] gs[i], above, fuel as int),
            forall|i: int, j: int| 0 <= i < j < gs.len() ==> gs[i].name@ != gs[j].name@,
            forall|i: int|
                0 <= i < folders@.len() ==> (#[trigger] folders@[i]) is Folder && node_name(
                    folders@[i],
                ) == gs[gs.len() - 1 - i].name@ && tree_ok(folders@[i], prefix@),
            all_placed(folders@, above).to_multiset().add(all_groups(groups@).to_multiset())
                == all_groups(gs).to_multiset(),
            forall|c: Seq<Seq<char>>|
                groups_chain(gs, above, c) <==> (groups_chain(groups@, above, c) || has_chain_in(
                    folders@,
                    folders@.len() as int,
                    above,
                    c,
                )),
        decreases groups.len(),
    {
        let ghost before = groups@;
        let ghost folders0 = folders@;
        let g = groups.pop().unwrap();
        let ghost gi = groups@.len() as int;
        proof {
            assert(before =~= groups@.push(g));
            assert(g == gs[gi]);
            assert(group_fits(g, above, fuel as int));
            assert(fits(g.members@[0], above.push(g.name@), fuel - 1));
            assert(groups@ =~= gs.take(groups@.len() as int));
            lemma_groups_prefix(groups@, before, gi);
            lemma_groups_chain_push(groups@, g, above);
        }
        let Group { name, members } = g;
        let path = join_child(prefix, name.as_str());
        let ghost down = above.push(name@);
        let children = build_level(members, Ghost(down), path.as_str(), depth + 1, fuel - 1);
        let node = BrowseNode::Folder { name, path, children };
        folders.push(node);
        proof {
            lemma_all_placed_push(folders0, node, above);
            assert(placed(node, above) == all_placed(children@, down));
            vstd::seq_lib::lemma_multiset_commutative(all_placed(folders0, above), placed(node, above));
            let f0 = all_placed(folders0, above).to_multiset();
            let pm = all_pending(members@).to_multiset();
            let g1 = all_groups(groups@).to_multiset();
            assert(all_groups(before) == all_groups(groups@) + all_pending(members@));
            vstd::seq_lib::lemma_multiset_commutative(all_groups(groups@), all_pending(members@));
            assert(f0.add(pm).add(g1) =~= f0.add(g1.add(pm)));
            assert forall|i: int| 0 <= i < folders@.len() implies (#[trigger] folders@[i]) is Folder
                && node_name(folders@[i]) == gs[gs.len() - 1 - i].name@ && tree_ok(
                folders@[i],
                prefix@,
            ) by {
                if i < folders0.len() {
                    assert(folders@[i] == folders0[i]);
                } else {
                    assert(folders@[i] == node);
                    assert(gs.len() - 1 - i == gi);
                }
            }
            assert forall|c: Seq<Seq<char>>|
                groups_chain(gs, above, c) <==> (groups_chain(groups@, above, c) || has_chain_in(
                    folders@,
                    folders@.len() as int,
                    above,
                    c,
                )) by {
                lemma_has_chain_in(folders@, folders@.len() as int, above, c);
                lemma_has_chain_in(folders0, folders0.len() as int, above, c);
                if has_chain_in(folders@, folders@.len() as int, above, c) {
                    let i = choose|i: int|
                        0 <= i < folders@.len() && has_chain(#[trigger] folders@[i], above, c);
                    if i < folders0.len() {
                        assert(folders@[i] == folders0[i]);
                    } else {
                        assert(folders@[i] == node);
                    }
                }
                if has_chain_in(folders0, folders0.len() as int, above, c) {
                    let i = choose|i: int|
                        0 <= i < folders0.len() && has_chain(#[trigger] folders0[i], above, c);
                    assert(folders@[i] == folders0[i]);
                }
                if has_chain(node, above, c) {
                    assert(folders@[folders0.len() as int] == node);
                }
            }
        }
    }
    proof {
        lemma_nothing_placed();
        assert(all_groups(groups@) =~= Seq::<Placed>::empty());
        assert(all_placed(folders@, above).to_multiset() =~= all_groups(gs).to_multiset());
        assert forall|i: int, j: int|
            0 <= i < folders@.len() && 0 <= j < folders@.len() && i != j implies node_name(
            #[trigger] folders@[i],
        ) != node_name(#[trigger] folders@[j]) by {
            let a = gs.len() - 1 - i;
            let b = gs.len() - 1 - j;
            if a < b {
                assert(gs[a].name@ != gs[b].name@);
            } else {
                assert(gs[b].name@ != gs[a].name@);
            }
        }
    }
    let ghost fs = folders@;
    let ghost fis = files@;
    let ranked_folders = ranked(folders, &());
    let mut ranked_files = ranked(files, &());
    let ghost sf = ranked_folders@;
    let ghost sfi = ranked_files@;
    let mut out = ranked_folders;
    out.append(&mut ranked_files);
    proof {
        assert(out@ == sf + sfi);
        lemma_assembled(fs, fis, sf, sfi, above, prefix@);
        let fm = all_placed(fis, above).to_multiset();
        let gm = all_groups(gs).to_multiset();
        assert(fm.add(gm) =~= gm.add(fm));
    }
    out
}

/// The non-empty pieces of `v`, in order.
pub open spec fn nonempty_pieces(v: Seq<Seq<char>>) -> Seq<Seq<char>>
    decreases v.len(),
{
    if v.len() == 0 {
        Seq::empty()
    } else {
        let r = nonempty_pieces(v.drop_last());
        if v.last().len() > 0 {
            r.push(v.last())
        } else {
            r
        }
    }
}

/// The folder names a listed folder's path leads through: its pieces
/// between backslashes, empty ones dropped (so leading, trailing and doubled
/// backslashes do not matter).
pub open spec fn segments(name: Seq<char>) -> Seq<Seq<char>> {
    nonempty_pieces(split_on(name, '\\'))
}

fn segments_of(name: &str) -> (r: Vec<String>)
    ensures
        views(r@) == segments(name@),
{
    let pieces = split_char(name, '\\');
    let n = pieces.len();
    let mut out: Vec<String> = Vec::new();
    let mut i: usize = 0;
    assert(views(pieces@).take(0) =~= Seq::<Seq<char>>::empty());
    assert(views(out@) =~= Seq::<Seq<char>>::empty());
    while i < n
        invariant
            n == pieces@.len(),
            i <= n,
            views(out@) == nonempty_pieces(views(pieces@).take(i as int)),
        decreases n - i,
    {
        let ghost before = out@;
        assert(views(pieces@).take(i + 1).drop_last() =~= views(pieces@).take(i as int));
        assert(views(pieces@).take(i + 1).last() == pieces@[i as int]@);
        if pieces[i].as_str().unicode_len() > 0 {
            let piece = pieces[i].clone();
            out.push(piece);
            assert(views(out@) =~= views(before).push(piece@));
        }
        i = i + 1;
    }
    assert(views(pieces@).take(n as int) =~= views(pieces@));
    out
}

/// The files of one listed folder, placed under the folders its path names,
/// each with its whole path.
pub open spec fn dir_placed(d: SharedDirectory) -> Seq<Placed> {
    d.files@.map_values(
        |f: (String, u64)| (segments(d.name@), f.0@, spec_full_path(d.name@, f.0@), f.1),
    )
}

/// The files of a listing, placed, folder after folder.
pub open spec fn listing_placed(dirs: Seq<SharedDirectory>) -> Seq<Placed>
    decreases dirs.len(),
{
    if dirs.len() == 0 {
        Seq::empty()
    } else {
        listing_placed(dirs.drop_last()) + dir_placed(dirs.last())
    }
}

/// Whether `chain` names a folder that the listing implies: one or more of
/// the leading segments of some listed folder's path.
pub open spec fn listing_has_chain(dirs: Seq<SharedDirectory>, chain: Seq<Seq<char>>) -> bool {
    exists|i: int, k: int|
        0 <= i < dirs.len() && 0 < k <= segments(dirs[i].name@).len() && chain
            == #[trigger] segments(dirs[i].name@).take(k)
}

/// `n`, or the largest `usize` where `n` does not fit.
pub open spec fn capped(n: int) -> usize {
    if n < usize::MAX {
        n as usize
    } else {
        usize::MAX
    }
}

fn count_node(node: &BrowseNode) -> (r: (usize, usize))
    ensures
        r.0 == capped(leaves(*node).len() as int),
        r.1 == capped(folders(*node) as int),
    decreases *node, 0int,
{
    match node {
        BrowseNode::File { .. } => (1, 0),
        BrowseNode::Folder { children, .. } => {
            let (f, d) = count_in(children);
            (f, d.saturating_add(1))
        },
    }
}

fn count_in(nodes: &Vec<BrowseNode>) -> (r: (usize, usize))
    ensures
        r.0 == capped(leaves_in(nodes@, nodes@.len() as int).len() as int),
        r.1 == capped(folders_in(nodes@, nodes@.len() as int) as int),
    decreases *nodes, nodes@.len() as int,
{
    let n = nodes.len();
    let mut files: usize = 0;
    let mut dirs: usize = 0;
    let mut i: usize = 0;
    while i < n
        invariant
            n == nodes@.len(),
            i <= n,
            files == capped(leaves_in(nodes@, i as int).len() as int),
            dirs == capped(folders_in(nodes@, i as int) as int),
        decreases n - i,
    {
        proof {
            assert(decreases_to!(*nodes => nodes[i as int]));
        }
        let (f, d) = count_node(&nodes[i]);
        files = files.saturating_add(f);
        dirs = dirs.saturating_add(d);
        i = i + 1;
    }
    (files, dirs)
}

/// Whether `nodes` is a tree built from the listing `dirs`: every listed
/// file placed under the folders its folder's path names, every leading part
/// of a listed path a folder, and every level in order.
pub open spec fn built_from(nodes: Seq<BrowseNode>, dirs: Seq<SharedDirectory>) -> bool {
    &&& all_placed(nodes, Seq::empty()).to_multiset() == listing_placed(dirs).to_multiset()
    &&& level_ok(nodes)
    &&& trees_ok(nodes, nodes.len() as int, Seq::empty())
    &&& forall|c: Seq<Seq<char>>|
        has_chain_in(nodes, nodes.len() as int, Seq::empty(), c) <==> listing_has_chain(dirs, c)
}

/// The built tree, with how many files and folders it holds.
#[derive(Debug)]
pub struct BuiltTree {
    pub nodes: Vec<BrowseNode>,
    pub file_count: usize,
    pub folder_count: usize,
}

/// Builds a nested tree from a peer's flat listing, making the folders in
/// between. Every listed file sits under the folders its folder's path names
/// (empty pieces dropped), with the whole path built from the listed name as
/// it stands, so a download asks for exactly what the peer has; every
/// leading part of a listed path is one folder, each named once at its
/// level; each level holds its folders first, then its files, each kind in
/// order of name ignoring case; and each folder's path is its parent's, a
/// backslash and its name.
pub fn build_browse_tree(directories: &Vec<SharedDirectory>) -> (r: BuiltTree)
    ensures
        built_from(r.nodes@, directories@),
        r.file_count == capped(leaves_in(r.nodes@, r.nodes@.len() as int).len() as int),
        r.folder_count == capped(folders_in(r.nodes@, r.nodes@.len() as int) as int),
{
    let count = directories.len();
    let mut entries: Vec<Pending> = Vec::new();
    let mut fuel: usize = 0;
    let mut i: usize = 0;
    assert(directories@.take(0) =~= Seq::<SharedDirectory>::empty());
    while i < count
        invariant
            count == directories@.len(),
            i <= count,
            entries@.len() == i,
            forall|j: int|
                0 <= j < i ==> views((#[trigger] entries@[j]).segs@) == segments(
                    directories@[j].name@,
                ),
            forall|j: int|
                0 <= j < i ==> fits(#[trigger] entries@[j], Seq::<Seq<char>>::empty(), fuel as int),
            all_pending(entries@) == listing_placed(directories@.take(i as int)),
        decreases count - i,
    {
        let d = &directories[i];
        let segs = segments_of(d.name.as_str());
        let nf = d.files.len();
        let mut files: Vec<(String, u64, String)> = Vec::new();
        let mut k: usize = 0;
        let ghost want = dir_placed(*d);
        while k < nf
            invariant
                nf == d.files@.len(),
                k <= nf,
                views(segs@) == segments(d.name@),
                want == dir_placed(*d),
                file_entries(segs@, files@) == want.take(k as int),
            decreases nf - k,
        {
            let ghost before = files@;
            let f = &d.files[k];
            let path = full_path(d.name.as_str(), f.0.as_str());
            let name = f.0.clone();
            let item = (name, f.1, path);
            files.push(item);
            assert(want[k as int] == (views(segs@), name@, path@, f.1));
            assert(files@ == before.push(item));
            assert(file_entries(segs@, files@) =~= file_entries(segs@, before).push(
                want[k as int],
            ));
            assert(want.take(k + 1) =~= want.take(k as int).push(want[k as int]));
            k = k + 1;
        }
        assert(want.take(nf as int) =~= want);
        let len = segs.len();
        if len > fuel {
            fuel = len;
        }
        let p = Pending { segs, files };
        let ghost before = entries@;
        entries.push(p);
        proof {
            lemma_all_pending_push(before, p);
            assert(directories@.take(i + 1).drop_last() =~= directories@.take(i as int));
            assert(pending_leaves(p) == dir_placed(directories@[i as int]));
            assert(views(p.segs@).take(0) =~= Seq::<Seq<char>>::empty());
            assert forall|j: int| 0 <= j < i + 1 implies fits(
                #[trigger] entries@[j],
                Seq::<Seq<char>>::empty(),
                fuel as int,
            ) by {
                if j < i {
                    assert(entries@[j] == before[j]);
                }
            }
            assert forall|j: int| 0 <= j < i + 1 implies views((#[trigger] entries@[j]).segs@)
                == segments(directories@[j].name@) by {
                if j < i {
                    assert(entries@[j] == before[j]);
                }
            }
        }
        i = i + 1;
    }
    assert(directories@.take(count as int) =~= directories@);
    let ghost all = entries@;
    let root = "";
    proof {
        reveal_strlit("");
        assert(root@ =~= Seq::<char>::empty());
    }
    let nodes = build_level(entries, Ghost(Seq::empty()), root, 0, fuel);
    proof {
        assert forall|c: Seq<Seq<char>>|
            pendings_chain(all, 0, c) <==> listing_has_chain(directories@, c) by {
            if pendings_chain(all, 0, c) {
                let j = choose|j: int| 0 <= j < all.len() && pending_chain(#[trigger] all[j], 0, c);
                let k = choose|k: int|
                    0 < k <= all[j].segs@.len() && c == #[trigger] views(all[j].segs@).take(k);
                assert(segments(directories@[j].name@).take(k) == c);
            }
            if listing_has_chain(directories@, c) {
                let (j, k) = choose|j: int, k: int|
                    0 <= j < directories@.len() && 0 < k <= segments(directories@[j].name@).len()
                        && c == #[trigger] segments(directories@[j].name@).take(k);
                assert(views(all[j].segs@).take(k) == c);
                assert(pending_chain(all[j], 0, c));
            }
        }
    }
    let (file_count, folder_count) = count_in(&nodes);
    BuiltTree { nodes, file_count, folder_count }
}

/// The paths of the folders among `v`, in order.
pub open spec fn folder_paths(v: Seq<BrowseNode>) -> Seq<Seq<char>>
    decreases v.len(),
{
    if v.len() == 0 {
        Seq::empty()
    } else {
        let r = folder_paths(v.drop_last());
        match v.last() {
            BrowseNode::Folder { path, .. } => r.push(path@),
            BrowseNode::File { .. } => r,
        }
    }
}

/// No path occurs twice.
pub open spec fn distinct_paths(s: Seq<Seq<char>>) -> bool {
    forall|i: int, j: int| 0 <= i < j < s.len() ==> s[i] != s[j]
}

/// Whether `x` is the name of a folder among the first `k` of `v`.
pub open spec fn names_folder_in(v: Seq<BrowseNode>, k: int, x: Seq<char>) -> bool {
    exists|i: int| 0 <= i < k && (#[trigger] v[i]) is Folder && x == node_name(v[i])
}

/// Each of the folder paths among the first `k` of `v` names a folder
/// among them, and none occurs twice, when they are top-level folders with
/// distinct names.
proof fn lemma_top_folder_paths(v: Seq<BrowseNode>, k: int)
    requires
        0 <= k <= v.len(),
        level_ok(v),
        forall|i: int| 0 <= i < v.len() ==> tree_ok(#[trigger] v[i], Seq::empty()),
    ensures
        forall|m: int|
            0 <= m < folder_paths(v.take(k)).len() ==> names_folder_in(
                v,
                k,
                #[trigger] folder_paths(v.take(k))[m],
            ),
        distinct_paths(folder_paths(v.take(k))),
    decreases k,
{
    if k > 0 {
        lemma_top_folder_paths(v, k - 1);
        let t = v.take(k);
        assert(t.drop_last() =~= v.take(k - 1));
        assert(t.last() == v[k - 1]);
        let prev = folder_paths(v.take(k - 1));
        match v[k - 1] {
            BrowseNode::Folder { name, path, children } => {
                assert(tree_ok(v[k - 1], Seq::empty()));
                assert(path@ == name@);
                assert(folder_paths(t) == prev.push(path@));
                assert forall|m: int| 0 <= m < prev.len() implies prev[m] != path@ by {
                    assert(names_folder_in(v, k - 1, prev[m]));
                    let i = choose|i: int|
                        0 <= i < k - 1 && (#[trigger] v[i]) is Folder && prev[m] == node_name(v[i]);
                    assert(node_name(v[i]) != node_name(v[k - 1]));
                }
                assert forall|m: int| 0 <= m < folder_paths(t).len() implies names_folder_in(
                    v,
                    k,
                    #[trigger] folder_paths(t)[m],
                ) by {
                    if m < prev.len() {
                        assert(names_folder_in(v, k - 1, prev[m]));
                        let i = choose|i: int|
                            0 <= i < k - 1 && (#[trigger] v[i]) is Folder && prev[m] == node_name(
                                v[i],
                            );
                        assert(folder_paths(t)[m] == prev[m]);
                        assert(v[i] is Folder);
                    } else {
                        assert(folder_paths(t)[m] == node_name(v[k - 1]));
                        assert(v[k - 1] is Folder);
                    }
                }
            },
            BrowseNode::File { .. } => {
                assert(folder_paths(t) == prev);
                assert forall|m: int| 0 <= m < folder_paths(t).len() implies names_folder_in(
                    v,
                    k,
                    #[trigger] folder_paths(t)[m],
                ) by {
                    assert(names_folder_in(v, k - 1, prev[m]));
                }
            },
        }
    } else {
        assert(v.take(0) =~= Seq::<BrowseNode>::empty());
    }
}

/// Where a browse stands.
#[derive(Debug, Clone, Copy, PartialEq, Eq, Structural)]
pub enum BrowseStatus {
    Loading,
    Loaded,
    Empty,
    TimedOut,
}

/// What a reader sees of one user's shared files.
pub struct BrowseState {
    pub username: String,
    pub status: BrowseStatus,
    pub tree: Vec<BrowseNode>,
    /// Paths of the folders shown open.
    pub expanded: Vec<String>,
    pub selected_row: usize,
    pub file_count: usize,
    pub folder_count: usize,
}

impl BrowseState {
    /// A browse of `username` that waits for the listing.
    pub fn loading(username: String) -> (r: Self)
        ensures
            r.username == username,
            r.status == BrowseStatus::Loading,
            r.tree@.len() == 0,
            r.expanded@.len() == 0,
            r.selected_row == 0,
            r.file_count == 0,
            r.folder_count == 0,
    {
        BrowseState {
            username,
            status: BrowseStatus::Loading,
            tree: Vec::new(),
            expanded: Vec::new(),
            selected_row: 0,
            file_count: 0,
            folder_count: 0,
        }
    }

    /// Takes in a received listing: builds the tree, opens its top-level
    /// folders so the structure shows, and is `Loaded`, or `Empty` when the
    /// tree has nothing in it.
    pub fn load(&mut self, directories: &Vec<SharedDirectory>)
        ensures
            final(self).username == old(self).username,
            built_from(final(self).tree@, directories@),
            views(final(self).expanded@) == folder_paths(final(self).tree@),
            distinct_paths(views(final(self).expanded@)),
            final(self).status == (if final(self).tree@.len() == 0 {
                BrowseStatus::Empty
            } else {
                BrowseStatus::Loaded
            }),
            final(self).file_count == capped(
                leaves_in(final(self).tree@, final(self).tree@.len() as int).len() as int,
            ),
            final(self).folder_count == capped(
                folders_in(final(self).tree@, final(self).tree@.len() as int) as int,
            ),
            final(self).selected_row == 0,
    {
        let built = build_browse_tree(directories);
        let n = built.nodes.len();
        let mut open: Vec<String> = Vec::new();
        let mut i: usize = 0;
        assert(built.nodes@.take(0) =~= Seq::<BrowseNode>::empty());
        while i < n
            invariant
                n == built.nodes@.len(),
                i <= n,
                views(open@) == folder_paths(built.nodes@.take(i as int)),
            decreases n - i,
        {
            let ghost before = open@;
            assert(built.nodes@.take(i + 1).drop_last() =~= built.nodes@.take(i as int));
            match &built.nodes[i] {
                BrowseNode::Folder { path, .. } => {
                    let p = path.clone();
                    open.push(p);
                    assert(views(open@) =~= views(before).push(p@));
                },
                BrowseNode::File { .. } => {},
            }
            i = i + 1;
        }
        assert(built.nodes@.take(n as int) =~= built.nodes@);
        proof {
            lemma_trees_ok(built.nodes@, n as int, Seq::empty());
            lemma_top_folder_paths(built.nodes@, n as int);
        }
        self.status = if n == 0 {
            BrowseStatus::Empty
        } else {
            BrowseStatus::Loaded
        };
        self.expanded = open;
        self.tree = built.nodes;
        self.file_count = built.file_count;
        self.folder_count = built.folder_count;
        self.selected_row = 0;
    }

    /// The visible rows for the folders now open.
    pub fn rows(&self) -> (r: Vec<BrowseRow>)
        ensures
            rows_view(r@) == rows_in(self.tree, self.tree@.len() as int, 0, views(self.expanded@)),
    {
        flatten_browse(&self.tree, &self.expanded)
    }
}

} // verus!
