//! Materialized paths of the org tree: a node's path is its parent's path
//! (slash-terminated) followed by its id and a slash, roots taking
//! `/id/`. Moving a node re-derives the paths of its whole subtree, level
//! by level; a move under one's own descendant is refused.

use vstd::prelude::*;
use crate::errors::{status_error, StatusError};
use crate::text::{lemma_marks_bound, lemma_marks_set, lemma_marks_zero, marks};
use crate::text::{chars_of, contains, dec, decimal, is_prefix, occurs_at, push_chars, string_of};

verus! {

/// The marker `/id/` that every path in the subtree of `id` carries.
pub open spec fn node_marker(id: u32) -> Seq<char> {
    seq!['/'] + dec(id as nat) + seq!['/']
}

/// The parent path with a trailing slash (empty stays empty).
pub open spec fn slash_terminated(parent: Seq<char>) -> Seq<char> {
    if parent.len() == 0 || parent.last() == '/' {
        parent
    } else {
        parent.push('/')
    }
}

/// The path of node `id` under a parent with path `parent`.
pub open spec fn tree_path(parent: Seq<char>, id: u32) -> Seq<char> {
    if parent.len() == 0 {
        node_marker(id)
    } else {
        slash_terminated(parent) + dec(id as nat) + seq!['/']
    }
}

/// The path of node `node_id` under a parent whose path is `parent_path`:
/// `/id/` for a root, else the parent path (slash appended when missing)
/// followed by `id/`.
pub fn compute_tree_path(parent_path: &str, node_id: u32) -> (r: String)
    ensures
        r@ == tree_path(parent_path@, node_id),
{
    let parent = chars_of(parent_path);
    let mut out: Vec<char> = Vec::new();
    if parent.len() == 0 {
        out.push('/');
    } else {
        push_chars(&mut out, parent.as_slice());
        if parent[parent.len() - 1] != '/' {
            out.push('/');
        }
    }
    let digits = decimal(node_id as u64);
    push_chars(&mut out, digits.as_slice());
    out.push('/');
    string_of(out.as_slice())
}

/// Whether placing node `id` under a parent with path `parent_path` would
/// put it under its own descendant (the parent path carries `/id/`).
pub fn moves_under_descendant(parent_path: &str, id: u32) -> (r: bool)
    ensures
        r == contains(parent_path@, node_marker(id)),
{
    let mut marker: Vec<char> = Vec::new();
    marker.push('/');
    let digits = decimal(id as u64);
    push_chars(&mut marker, digits.as_slice());
    marker.push('/');
    let p = chars_of(parent_path);
    assert(marker@ =~= node_marker(id));
    crate::text::contains_chars(p.as_slice(), marker.as_slice())
}

/// The move check of an update, before anything is written: placing node
/// `id` under a parent whose path is `parent_path` is refused with
/// `BAD_REQUEST` when that path carries `/id/` (the parent is the node
/// or one of its descendants); otherwise the move may proceed.
pub fn check_reparent(parent_path: &str, id: u32) -> (r: Result<(), StatusError>)
    ensures
        contains(parent_path@, node_marker(id)) ==> (r matches Err(e) && e.reason@ == "BAD_REQUEST"@
            && e.message@ == "cannot move org unit under its own descendant"@),
        !contains(parent_path@, node_marker(id)) ==> r is Ok,
{
    if moves_under_descendant(parent_path, id) {
        Err(status_error("BAD_REQUEST", "cannot move org unit under its own descendant"))
    } else {
        Ok(())
    }
}

/// The parent a patch names: 0 stands for none (a root).
pub fn patched_parent(v: u32) -> (r: Option<u32>)
    ensures
        r == (if v == 0 {
            None
        } else {
            Some(v)
        }),
{
    if v == 0 {
        None
    } else {
        Some(v)
    }
}

/// A node's path extends its parent's path.
pub proof fn lemma_tree_path_extends(parent: Seq<char>, id: u32)
    ensures
        is_prefix(parent, tree_path(parent, id)),
{
    let t = tree_path(parent, id);
    if parent.len() > 0 {
        assert(t.subrange(0, parent.len() as int) =~= parent);
    }
}

/// A node's path carries its own marker `/id/`.
pub proof fn lemma_tree_path_has_marker(parent: Seq<char>, id: u32)
    ensures
        contains(tree_path(parent, id), node_marker(id)),
{
    let t = tree_path(parent, id);
    let mk = node_marker(id);
    if parent.len() == 0 {
        assert(t.subrange(0, mk.len() as int) =~= mk);
        assert(occurs_at(t, mk, 0));
    } else {
        let s = slash_terminated(parent);
        let at = s.len() - 1;
        assert(s[at] == '/');
        assert(t =~= s + dec(id as nat) + seq!['/']);
        assert(t.subrange(at, at + mk.len()) =~= mk);
        assert(occurs_at(t, mk, at));
    }
}

/// Descending from a node whose path carries a marker keeps the marker:
/// every path derived from it by `tree_path` carries it too.
pub proof fn lemma_marker_inherited(parent: Seq<char>, marker: Seq<char>, id: u32)
    requires
        contains(parent, marker),
    ensures
        contains(tree_path(parent, id), marker),
{
    lemma_tree_path_extends(parent, id);
    let t = tree_path(parent, id);
    let k = choose|k: int| occurs_at(parent, marker, k);
    assert(t.subrange(k, k + marker.len()) =~= parent.subrange(k, k + marker.len()));
    assert(occurs_at(t, marker, k));
}

/// The paths of a chain of descendants: `chain[0]` under the node with
/// path `p`, each next one under the previous.
pub open spec fn chain_path(p: Seq<char>, chain: Seq<u32>) -> Seq<char>
    decreases chain.len(),
{
    if chain.len() == 0 {
        p
    } else {
        tree_path(chain_path(p, chain.drop_last()), chain.last())
    }
}

/// Every path in the subtree of node `id` carries `/id/`: the path of any
/// chain of descendants below it holds the marker. This is why a parent
/// path holding `/id/` means a move under one's own descendant.
pub proof fn lemma_subtree_paths_carry_marker(parent: Seq<char>, id: u32, chain: Seq<u32>)
    ensures
        contains(chain_path(tree_path(parent, id), chain), node_marker(id)),
    decreases chain.len(),
{
    if chain.len() == 0 {
        lemma_tree_path_has_marker(parent, id);
    } else {
        lemma_subtree_paths_carry_marker(parent, id, chain.drop_last());
        lemma_marker_inherited(
            chain_path(tree_path(parent, id), chain.drop_last()),
            node_marker(id),
            chain.last(),
        );
    }
}

/// The breadth-first walk that re-derives the paths of a moved subtree:
/// queued nodes with the (new) path of their parent, and how many have
/// been taken.
pub struct Relocation {
    queue: Vec<(u32, String)>,
    head: usize,
    /// For each queued entry, the index of the taken entry whose children
    /// push queued it (-1 for the moved node itself).
    parents: Ghost<Seq<int>>,
}

impl Relocation {
    /// The queued nodes with their parents' paths, in queue order.
    pub closed spec fn queued(&self) -> Seq<(u32, Seq<char>)> {
        self.queue@.map_values(|e: (u32, String)| (e.0, e.1@))
    }

    /// How many queued nodes have been taken.
    pub closed spec fn taken(&self) -> nat {
        self.head as nat
    }

    pub closed spec fn wf(&self) -> bool {
        &&& self.head <= self.queue@.len()
        &&& self.parents@.len() == self.queue@.len()
    }

    /// The index of the taken entry whose children push queued entry `k`.
    pub closed spec fn pushed_by(&self, k: int) -> int {
        self.parents@[k]
    }

    /// Every queued entry after the first was queued by an earlier entry,
    /// with the new path that entry was given.
    pub closed spec fn consistent(&self) -> bool {
        forall|k: int|
            1 <= k < self.queue@.len() ==> {
                let p = #[trigger] self.parents@[k];
                &&& 0 <= p < k
                &&& self.queue@[k].1@ == tree_path(self.queue@[p].1@, self.queue@[p].0)
            }
    }

    /// The whole-walk law: in a walk driven the way a move drives it
    /// (each taken node's children queued with the new path it was
    /// given), every node queued after the moved one was queued by an
    /// earlier node `p`, and is queued under `p`'s new path
    /// `tree_path(parent path of p, p)`; so `next` gives it its own id
    /// under its parent's new path.
    pub proof fn lemma_walk_paths(&self)
        requires
            self.wf(),
            self.consistent(),
        ensures
            forall|k: int|
                1 <= k < self.queued().len() ==> {
                    let p = #[trigger] self.pushed_by(k);
                    &&& 0 <= p < k
                    &&& self.queued()[k].1 == tree_path(self.queued()[p].1, self.queued()[p].0)
                },
    {
        assert forall|k: int| 1 <= k < self.queued().len() implies {
            let p = #[trigger] self.pushed_by(k);
            &&& 0 <= p < k
            &&& self.queued()[k].1 == tree_path(self.queued()[p].1, self.queued()[p].0)
        } by {
            let p = self.parents@[k];
            assert(0 <= p < k);
        }
    }

    /// The walk from the moved node, under a parent with path
    /// `parent_path`.
    pub fn start(id: u32, parent_path: String) -> (r: Self)
        ensures
            r.wf(),
            r.consistent(),
            r.queued() == seq![(id, parent_path@)],
            r.taken() == 0,
    {
        let mut queue: Vec<(u32, String)> = Vec::new();
        queue.push((id, parent_path));
        let parents: Ghost<Seq<int>> = Ghost(Seq::<int>::empty().push(-1));
        let r = Relocation { queue, head: 0, parents };
        assert(r.queued() =~= seq![(id, parent_path@)]);
        r
    }

    /// Takes the next queued node and gives it with its new path; `None`
    /// once the queue is exhausted.
    pub fn next(&mut self) -> (r: Option<(u32, String)>)
        requires
            old(self).wf(),
        ensures
            final(self).wf(),
            old(self).consistent() ==> final(self).consistent(),
            final(self).queued() == old(self).queued(),
            forall|k: int| 0 <= k < old(self).queued().len() ==> #[trigger] final(self).pushed_by(k)
                == old(self).pushed_by(k),
            old(self).taken() < old(self).queued().len() ==> {
                let e = old(self).queued()[old(self).taken() as int];
                &&& final(self).taken() == old(self).taken() + 1
                &&& r is Some
                &&& r matches Some((id, path)) && id == e.0 && path@ == tree_path(e.1, e.0)
            },
            old(self).taken() >= old(self).queued().len() ==> r is None && final(self).taken()
                == old(self).taken(),
    {
        if self.head >= self.queue.len() {
            return None;
        }
        let id = self.queue[self.head].0;
        let path = compute_tree_path(self.queue[self.head].1.as_str(), id);
        self.head = self.head + 1;
        Some((id, path))
    }

    /// Queues the children of a node whose new path is `path`. Queued
    /// after taking a node, with the path it was given, they keep the walk
    /// consistent.
    pub fn push_children(&mut self, children: &Vec<u32>, path: &str)
        requires
            old(self).wf(),
        ensures
            final(self).wf(),
            ({
                let t = old(self).taken() - 1;
                old(self).consistent() && old(self).taken() > 0 && path@ == tree_path(
                    old(self).queued()[t].1,
                    old(self).queued()[t].0,
                ) ==> final(self).consistent()
            }),
            final(self).taken() == old(self).taken(),
            forall|k: int| 0 <= k < old(self).queued().len() ==> #[trigger] final(self).pushed_by(k)
                == old(self).pushed_by(k),
            forall|k: int|
                old(self).queued().len() <= k < final(self).queued().len()
                    ==> #[trigger] final(self).pushed_by(k) == old(self).taken() - 1,
            final(self).queued() == old(self).queued() + children@.map_values(
                |c: u32| (c, path@),
            ),
    {
        let ghost before = self.queued();
        let ghost t = old(self).taken() - 1;
        let ghost ok = old(self).consistent() && old(self).taken() > 0 && path@ == tree_path(
            old(self).queued()[t].1,
            old(self).queued()[t].0,
        );
        let mut i: usize = 0;
        while i < children.len()
            invariant
                i <= children.len(),
                self.wf(),
                self.taken() == old(self).taken(),
                t == old(self).taken() - 1,
                0 <= t ==> t < before.len(),
                ok ==> t >= 0 && t < before.len() && path@ == tree_path(before[t].1, before[t].0),
                ok ==> self.consistent(),
                before == old(self).queued(),
                self.parents@.len() == self.queue@.len(),
                forall|k: int| 0 <= k < before.len() ==> #[trigger] self.parents@[k] == old(self).parents@[k],
                forall|k: int| before.len() <= k < self.parents@.len() ==> #[trigger] self.parents@[k] == t,
                self.queued() =~= before + children@.take(i as int).map_values(
                    |c: u32| (c, path@),
                ),
            decreases children.len() - i,
        {
            let owned = string_of(chars_of(path).as_slice());
            let ghost prev = self.queued();
            let ghost prevq = self.queue@;
            let ghost prevp = self.parents@;
            proof {
                self.parents@ = self.parents@.push(t);
            }
            self.queue.push((children[i], owned));
            proof {
                if ok {
                    assert(prev[t] == before[t]);
                    assert forall|k: int| 1 <= k < self.queue@.len() implies {
                        let p = #[trigger] self.parents@[k];
                        &&& 0 <= p < k
                        &&& self.queue@[k].1@ == tree_path(self.queue@[p].1@, self.queue@[p].0)
                    } by {
                        if k < prevq.len() {
                            assert(self.queue@[k] == prevq[k]);
                            assert(self.parents@[k] == prevp[k]);
                            let p = prevp[k];
                            assert(0 <= p < k);
                            assert(self.queue@[p] == prevq[p]);
                        } else {
                            assert(self.parents@[k] == t);
                            assert(self.queue@[t] == prevq[t]);
                            assert(prev[t] == (prevq[t].0, prevq[t].1@));
                        }
                    }
                }
            }
            assert(self.queued() =~= prev.push((children@[i as int], path@)));
            assert(children@.take(i + 1) =~= children@.take(i as int).push(children@[i as int]));
            i += 1;
        }
        assert(children@.take(children.len() as int) =~= children@);
    }
}

/// The entries of a walk's output as values.
pub open spec fn entries_view(r: Seq<(u32, String)>) -> Seq<(u32, Seq<char>)> {
    r.map_values(|e: (u32, String)| (e.0, e.1@))
}

/// Output entry `k`, which is `e`, sits under the earlier entry `j`
/// through stored row `i` (whose parent is entry `j`'s node), and its new
/// path is its id under entry `j`'s new path.
pub open spec fn placed_under(
    rows: Seq<(u32, Option<u32>)>,
    o: Seq<(u32, Seq<char>)>,
    k: int,
    e: (u32, Seq<char>),
    j: int,
    i: int,
) -> bool {
    &&& 0 <= j < k
    &&& 0 <= i < rows.len()
    &&& rows[i].0 == e.0
    &&& rows[i].1 == Some(o[j].0)
    &&& e.1 == tree_path(o[j].1, e.0)
}

/// Every entry after the first sits under an earlier one through a
/// stored row.
pub open spec fn all_placed(rows: Seq<(u32, Option<u32>)>, o: Seq<(u32, Seq<char>)>) -> bool {
    forall|k: int| 1 <= k < o.len() ==> #[trigger] placed_at(rows, o, k)
}

/// Output entry `k` sits under some earlier entry through some stored
/// row.
pub open spec fn placed_at(rows: Seq<(u32, Option<u32>)>, o: Seq<(u32, Seq<char>)>, k: int) -> bool {
    exists|j: int, i: int| #[trigger] placed_under(rows, o, k, o[k], j, i)
}

proof fn lemma_all_placed(
    rows: Seq<(u32, Option<u32>)>,
    o: Seq<(u32, Seq<char>)>,
    fj: spec_fn(int) -> int,
    fi: spec_fn(int) -> int,
)
    requires
        forall|k: int| 1 <= k < o.len() ==> placed_under(rows, o, k, o[k], #[trigger] fj(k), fi(k)),
    ensures
        all_placed(rows, o),
{
    assert forall|k: int| 1 <= k < o.len() implies #[trigger] placed_at(rows, o, k) by {
        assert(placed_under(rows, o, k, o[k], fj(k), fi(k)));
    }
}

/// Every stored row whose parent has an entry has an entry itself.
pub open spec fn closed_under_children(rows: Seq<(u32, Option<u32>)>, o: Seq<(u32, Seq<char>)>) -> bool {
    forall|i: int|
        0 <= i < rows.len() && (rows[i].1 matches Some(p) && listed(o, p)) ==> #[trigger] moved(
            o,
            rows[i].0,
        )
}

/// Node `d` has an entry after the first: it was moved along.
pub open spec fn moved(o: Seq<(u32, Seq<char>)>, d: u32) -> bool {
    exists|k: int| 1 <= k < o.len() && #[trigger] o[k].0 == d
}

/// Node `d` has an entry in the output.
pub open spec fn listed(o: Seq<(u32, Seq<char>)>, d: u32) -> bool {
    exists|k: int| 0 <= k < o.len() && o[k].0 == d
}

/// The reparenting walk over a snapshot of the stored (id, parent) rows:
/// the moved node first, with its id under the new parent's path; then,
/// breadth first, the stored rows whose parent has an entry, each with
/// its id under that parent's new path. Every entry after the first sits
/// under an earlier one through a stored row, and every row whose parent
/// has an entry has one itself: the whole subtree is re-pathed.
pub fn relocate_subtree(id: u32, parent_path: &str, rows: &Vec<(u32, Option<u32>)>) -> (r: Vec<
    (u32, String),
>)
    ensures
        entries_view(r@).len() >= 1,
        entries_view(r@)[0] == (id, tree_path(parent_path@, id)),
        all_placed(rows@, entries_view(r@)),
        closed_under_children(rows@, entries_view(r@)),
{
    let n = rows.len();
    let mut used: Vec<bool> = Vec::new();
    let mut z: usize = 0;
    while z < n
        invariant
            z <= n,
            used@.len() == z,
            forall|j: int| 0 <= j < z ==> !used@[j],
        decreases n - z,
    {
        used.push(false);
        z += 1;
    }
    let mut walk = Relocation::start(id, string_of(chars_of(parent_path).as_slice()));
    let mut out: Vec<(u32, String)> = Vec::new();
    let ghost mut src: Seq<int> = seq![-1int];
    proof {
        lemma_marks_zero(used@);
    }
    loop
        invariant
            n == rows.len(),
            used@.len() == n,
            walk.wf(),
            walk.consistent(),
            walk.queued().len() == 1 + marks(used@),
            walk.queued()[0] == (id, parent_path@),
            walk.taken() <= walk.queued().len(),
            entries_view(out@).len() == walk.taken(),
            forall|k: int|
                0 <= k < walk.taken() ==> #[trigger] entries_view(out@)[k] == (
                    walk.queued()[k].0,
                    tree_path(walk.queued()[k].1, walk.queued()[k].0),
                ),
            src.len() == walk.queued().len(),
            forall|k: int|
                1 <= k < walk.queued().len() ==> {
                    &&& 0 <= #[trigger] src[k] < n
                    &&& rows@[src[k]].0 == walk.queued()[k].0
                    &&& rows@[src[k]].1 == Some(walk.queued()[walk.pushed_by(k)].0)
                    &&& walk.pushed_by(k) < walk.taken()
                },
            forall|k: int, i: int|
                0 <= k < walk.taken() && 0 <= i < n && rows@[i].1 == Some(
                    #[trigger] walk.queued()[k].0,
                ) ==> #[trigger] used@[i],
            forall|i: int|
                0 <= i < n && #[trigger] used@[i] ==> exists|k: int|
                    1 <= k < walk.queued().len() && src[k] == i,
        ensures
            walk.wf(),
            walk.consistent(),
            walk.taken() == walk.queued().len(),
            walk.queued()[0] == (id, parent_path@),
            entries_view(out@).len() == walk.taken(),
            forall|k: int|
                0 <= k < walk.taken() ==> #[trigger] entries_view(out@)[k] == (
                    walk.queued()[k].0,
                    tree_path(walk.queued()[k].1, walk.queued()[k].0),
                ),
            src.len() == walk.queued().len(),
            forall|k: int|
                1 <= k < walk.queued().len() ==> {
                    &&& 0 <= #[trigger] src[k] < n
                    &&& rows@[src[k]].0 == walk.queued()[k].0
                    &&& rows@[src[k]].1 == Some(walk.queued()[walk.pushed_by(k)].0)
                },
            forall|k: int, i: int|
                0 <= k < walk.taken() && 0 <= i < n && rows@[i].1 == Some(
                    #[trigger] walk.queued()[k].0,
                ) ==> #[trigger] used@[i],
            forall|i: int|
                0 <= i < n && #[trigger] used@[i] ==> exists|k: int|
                    1 <= k < walk.queued().len() && src[k] == i,
        decreases n + 1 - walk.taken(),
    {
        proof {
            lemma_marks_bound(used@);
        }
        let ghost q0 = walk.queued();
        let ghost t0 = walk.taken();
        let ghost w0 = walk;
        match walk.next() {
            None => {
                break;
            },
            Some((x, path)) => {
                assert(walk.taken() == t0 + 1);
                let ghost used0 = used@;
                let mut children: Vec<u32> = Vec::new();
                let ghost mut csrc: Seq<int> = Seq::empty();
                let mut i: usize = 0;
                while i < n
                    invariant
                        n == rows.len(),
                        i <= n,
                        used@.len() == n,
                        used0.len() == n,
                        children@.len() == csrc.len(),
                        marks(used@) == marks(used0) + children@.len(),
                        forall|c: int|
                            0 <= c < csrc.len() ==> {
                                &&& 0 <= #[trigger] csrc[c] < n
                                &&& rows@[csrc[c]].0 == children@[c]
                                &&& rows@[csrc[c]].1 == Some(x)
                                &&& used@[csrc[c]]
                                &&& !used0[csrc[c]]
                            },
                        forall|j: int| 0 <= j < n && #[trigger] used0[j] ==> used@[j],
                        forall|j: int|
                            0 <= j < n && #[trigger] used@[j] ==> used0[j] || exists|c: int|
                                0 <= c < csrc.len() && csrc[c] == j,
                        forall|j: int| 0 <= j < i && rows@[j].1 == Some(x) ==> #[trigger] used@[j],
                    decreases n - i,
                {
                    if !used[i] && rows[i].1 == Some(x) {
                        proof {
                            lemma_marks_set(used@, i as int);
                        }
                        let ghost used_b = used@;
                        let ghost csrc_b = csrc;
                        used.set(i, true);
                        children.push(rows[i].0);
                        proof {
                            csrc = csrc.push(i as int);
                            assert(csrc[csrc.len() - 1] == i);
                            assert forall|j: int|
                                0 <= j < n && #[trigger] used@[j] implies used0[j] || exists|c: int|
                                    0 <= c < csrc.len() && csrc[c] == j by {
                                if j != i && !used0[j] {
                                    assert(used_b[j]);
                                    let c = choose|c: int| 0 <= c < csrc_b.len() && csrc_b[c] == j;
                                    assert(csrc[c] == j);
                                }
                            }
                        }
                    }
                    i += 1;
                }
                let ghost w1 = walk;
                let ghost out0 = out@;
                out.push((x, path.clone()));
                assert(entries_view(out@) =~= entries_view(out0).push((x, path@)));
                walk.push_children(&children, path.as_str());
                proof {
                    let ql = q0.len();
                    let qn = walk.queued();
                    assert(qn.len() == ql + children@.len());
                    assert forall|k: int| 0 <= k < ql implies #[trigger] qn[k] == q0[k] by {}
                    assert forall|k: int|
                        ql <= k < qn.len() implies #[trigger] qn[k] == (children@[k - ql], path@) by {}
                    let srcn = src + csrc;
                    assert forall|k: int| 1 <= k < qn.len() implies {
                        &&& 0 <= #[trigger] srcn[k] < n
                        &&& rows@[srcn[k]].0 == qn[k].0
                        &&& rows@[srcn[k]].1 == Some(qn[walk.pushed_by(k)].0)
                        &&& walk.pushed_by(k) < walk.taken()
                    } by {
                        if k < ql {
                            assert(srcn[k] == src[k]);
                            assert(walk.pushed_by(k) == w1.pushed_by(k));
                            assert(w1.pushed_by(k) == w0.pushed_by(k));
                        } else {
                            assert(srcn[k] == csrc[k - ql]);
                            assert(walk.pushed_by(k) == t0);
                            assert(qn[t0 as int] == q0[t0 as int]);
                        }
                    }
                    assert forall|k: int, j: int|
                        0 <= k < walk.taken() && 0 <= j < n && rows@[j].1 == Some(
                            #[trigger] walk.queued()[k].0,
                        ) implies #[trigger] used@[j] by {
                        if k < t0 {
                            assert(walk.queued()[k] == q0[k]);
                            assert(used0[j]);
                        } else {
                            assert(walk.queued()[k] == q0[t0 as int]);
                        }
                    }
                    assert forall|j: int| 0 <= j < n && #[trigger] used@[j] implies exists|k: int|
                        1 <= k < qn.len() && srcn[k] == j by {
                        if used0[j] {
                            let k = choose|k: int| 1 <= k < q0.len() && src[k] == j;
                            assert(srcn[k] == j);
                        } else {
                            let c = choose|c: int| 0 <= c < csrc.len() && csrc[c] == j;
                            assert(srcn[ql + c] == j);
                        }
                    }
                    assert forall|k: int| 0 <= k < walk.taken() implies #[trigger] entries_view(out@)[k] == (
                        walk.queued()[k].0,
                        tree_path(walk.queued()[k].1, walk.queued()[k].0),
                    ) by {
                        assert(walk.queued()[k] == q0[k]);
                        if k < t0 {
                            assert(entries_view(out@)[k] == entries_view(out0)[k]);
                        }
                    }
                    src = srcn;
                }
            },
        }
    }
    proof {
        walk.lemma_walk_paths();
        let q = walk.queued();
        let fj = |k: int| walk.pushed_by(k);
        let fi = |k: int| src[k];
        assert forall|k: int| 1 <= k < entries_view(out@).len() implies placed_under(
            rows@,
            entries_view(out@),
            k,
            entries_view(out@)[k],
            #[trigger] fj(k),
            fi(k),
        ) by {
            let j = walk.pushed_by(k);
            assert(entries_view(out@)[k] == (q[k].0, tree_path(q[k].1, q[k].0)));
            assert(entries_view(out@)[j] == (q[j].0, tree_path(q[j].1, q[j].0)));
        }
        lemma_all_placed(rows@, entries_view(out@), fj, fi);
        assert forall|i: int|
            0 <= i < rows@.len() && (rows@[i].1 matches Some(p) && listed(entries_view(out@), p))
                implies #[trigger] moved(entries_view(out@), rows@[i].0) by {
            let p = rows@[i].1->0;
            let k0 = choose|k: int| 0 <= k < entries_view(out@).len() && entries_view(out@)[k].0 == p;
            assert(entries_view(out@)[k0] == (q[k0].0, tree_path(q[k0].1, q[k0].0)));
            assert(used@[i]);
            let k = choose|k: int| 1 <= k < q.len() && src[k] == i;
            assert(entries_view(out@)[k] == (q[k].0, tree_path(q[k].1, q[k].0)));
            assert(rows@[src[k]].0 == q[k].0);
            assert(entries_view(out@)[k].0 == rows@[i].0);
        }
        assert(closed_under_children(rows@, entries_view(out@)));
    }
    out
}

} // verus!
