//! Workspace metadata pre-computation.
//!
//! A single pass over the window snapshot yields, per workspace, the extreme
//! window in each of the four directions and the cyclic predecessor and
//! successor workspace id, for O(1) lookups while navigating.

use vstd::prelude::*;

use crate::types::{Direction, Window};

verus! {

/// Pre-computed metadata of one workspace.
///
/// Holds the addresses of the extreme windows (leftmost, rightmost, topmost,
/// bottommost) and the adjacent workspace ids under the sorted, wrap-around
/// ordering of all workspaces present in the snapshot.
#[derive(Clone, Copy, Debug)]
pub struct WorkspaceInfo {
    /// Address of the leftmost window in this workspace.
    pub leftmost: Option<u64>,
    /// Address of the rightmost window in this workspace.
    pub rightmost: Option<u64>,
    /// Address of the topmost window in this workspace.
    pub topmost: Option<u64>,
    /// Address of the bottommost window in this workspace.
    pub bottommost: Option<u64>,
    /// Previous workspace id (wraps around).
    pub prev_ws: i32,
    /// Next workspace id (wraps around).
    pub next_ws: i32,
}

/// A window counts toward workspace metadata when it is tiled (not floating)
/// and belongs to an ordinary, positively numbered workspace.
pub open spec fn eligible(w: Window) -> bool {
    w.workspace > 0 && !w.floating && !w.special
}

/// Window `i` of the snapshot is an eligible window of workspace `id`.
pub open spec fn elig_at(s: Seq<Window>, id: i32, i: int) -> bool {
    0 <= i < s.len() && eligible(s[i]) && s[i].workspace == id
}

/// Workspace `id` has an eligible window among the first `n` of the snapshot.
pub open spec fn present_upto(s: Seq<Window>, n: int, id: i32) -> bool {
    exists|i: int| i < n && elig_at(s, id, i)
}

/// Workspace `id` has an eligible window in the snapshot.
pub open spec fn ws_present(s: Seq<Window>, id: i32) -> bool {
    present_upto(s, s.len() as int, id)
}

/// The coordinate a window competes with in direction `d`: its left edge,
/// right edge, top edge, or bottom edge.
pub open spec fn win_key(w: Window, d: Direction) -> int {
    match d {
        Direction::Left => w.x as int,
        Direction::Right => w.x as int + w.w as int,
        Direction::Up => w.y as int,
        Direction::Down => w.y as int + w.h as int,
    }
}

/// Key `a` is strictly more extreme than key `b` in direction `d`:
/// strictly smaller toward the left or top, strictly larger toward the
/// right or bottom.
pub open spec fn more_extreme(a: int, b: int, d: Direction) -> bool {
    match d {
        Direction::Left | Direction::Up => a < b,
        Direction::Right | Direction::Down => a > b,
    }
}

/// Among the first `n` windows, `j` is the first eligible window of
/// workspace `id` that attains the extreme key in direction `d`: no window
/// beats it, and it strictly beats every earlier one (ties keep the first
/// holder found).
pub open spec fn first_extreme_upto(s: Seq<Window>, n: int, id: i32, d: Direction, j: int) -> bool {
    &&& j < n
    &&& elig_at(s, id, j)
    &&& forall|i: int| i < n && #[trigger] elig_at(s, id, i) ==> !more_extreme(
        win_key(s[i], d),
        win_key(s[j], d),
        d,
    )
    &&& forall|i: int| i < j && #[trigger] elig_at(s, id, i) ==> more_extreme(
        win_key(s[j], d),
        win_key(s[i], d),
        d,
    )
}

/// `addr` and `key` are the address and key of the first extreme window of
/// workspace `id` in direction `d`, among the first `n` windows.
pub open spec fn holds_extreme_upto(s: Seq<Window>, n: int, id: i32, d: Direction, key: int, addr: u64) -> bool {
    exists|j: int|
        #[trigger] first_extreme_upto(s, n, id, d, j) && addr == s[j].address && key == win_key(
            s[j],
            d,
        )
}

/// The recorded holder `a` for direction `d` is the address of the first
/// extreme eligible window of workspace `id` in the snapshot.
pub open spec fn holder_ok(s: Seq<Window>, id: i32, d: Direction, a: Option<u64>) -> bool {
    exists|j: int| #[trigger] first_extreme_upto(s, s.len() as int, id, d, j) && a == Some(s[j].address)
}

/// All four recorded extreme holders of `info` are correct for workspace `id`.
pub open spec fn info_extremes_ok(info: WorkspaceInfo, s: Seq<Window>, id: i32) -> bool {
    &&& holder_ok(s, id, Direction::Left, info.leftmost)
    &&& holder_ok(s, id, Direction::Right, info.rightmost)
    &&& holder_ok(s, id, Direction::Up, info.topmost)
    &&& holder_ok(s, id, Direction::Down, info.bottommost)
}

/// Index of the cyclic predecessor of position `k` among `n` positions.
pub open spec fn prev_index(n: int, k: int) -> int {
    if k == 0 {
        n - 1
    } else {
        k - 1
    }
}

/// Index of the cyclic successor of position `k` among `n` positions.
pub open spec fn next_index(n: int, k: int) -> int {
    if k == n - 1 {
        0
    } else {
        k + 1
    }
}

/// The whole statement of the workspace metadata builder: the entry list `m`
/// models snapshot `s`.
///
/// - entries are sorted by strictly ascending workspace id;
/// - an id has an entry exactly when the snapshot holds an eligible window
///   of that workspace;
/// - each entry's four extreme holders are the first extreme eligible
///   windows of its workspace;
/// - each entry's `prev_ws`/`next_ws` are the ids of its cyclic neighbours
///   in the sorted order.
pub open spec fn ws_map_models(m: Seq<(i32, WorkspaceInfo)>, s: Seq<Window>) -> bool {
    &&& forall|p: int, q: int| 0 <= p < q < m.len() ==> (#[trigger] m[p].0) < (#[trigger] m[q].0)
    &&& forall|k: int| 0 <= k < m.len() ==> ws_present(s, (#[trigger] m[k]).0)
    &&& forall|id: i32| #[trigger] ws_present(s, id) ==> exists|k: int| 0 <= k < m.len() && (#[trigger] m[k]).0 == id
    &&& forall|k: int| 0 <= k < m.len() ==> info_extremes_ok((#[trigger] m[k]).1, s, m[k].0)
    &&& forall|k: int| 0 <= k < m.len() ==> (#[trigger] m[k]).1.prev_ws == m[prev_index(m.len() as int, k)].0
        && m[k].1.next_ws == m[next_index(m.len() as int, k)].0
}

/// The workspace metadata map: entries sorted by workspace id.
pub struct WorkspaceMap {
    /// The `(workspace id, metadata)` entries, sorted by ascending id.
    pub entries: Vec<(i32, WorkspaceInfo)>,
}

impl View for WorkspaceMap {
    type V = Seq<(i32, WorkspaceInfo)>;

    open spec fn view(&self) -> Seq<(i32, WorkspaceInfo)> {
        self.entries@
    }
}

/// Lookup in an entry list: the metadata of the first entry whose id
/// matches, if any.
pub open spec fn map_get(m: Seq<(i32, WorkspaceInfo)>, id: i32) -> Option<WorkspaceInfo>
    decreases m.len(),
{
    if m.len() == 0 {
        None
    } else if m[0].0 == id {
        Some(m[0].1)
    } else {
        map_get(m.subrange(1, m.len() as int), id)
    }
}

/// With pairwise distinct ids, `map_get` answers `None` exactly when no
/// entry has the id, and the entry's metadata whenever one has.
pub proof fn lemma_map_get_characterizes(m: Seq<(i32, WorkspaceInfo)>, id: i32)
    requires
        forall|p: int, q: int| 0 <= p < q < m.len() ==> (#[trigger] m[p]).0 != (#[trigger] m[q]).0,
    ensures
        (map_get(m, id) is None) <==> (forall|k: int| 0 <= k < m.len() ==> (#[trigger] m[k]).0 != id),
        forall|k: int| 0 <= k < m.len() && (#[trigger] m[k]).0 == id ==> map_get(m, id) == Some(m[k].1),
    decreases m.len(),
{
    if m.len() > 0 && m[0].0 != id {
        let tail = m.subrange(1, m.len() as int);
        lemma_map_get_characterizes(tail, id);
        assert forall|k: int| 0 <= k < m.len() && (#[trigger] m[k]).0 == id implies map_get(m, id)
            == Some(m[k].1) by {
            assert(tail[k - 1] == m[k]);
        }
        if map_get(m, id) is None {
            assert forall|k: int| 0 <= k < m.len() implies (#[trigger] m[k]).0 != id by {
                if k > 0 {
                    assert(tail[k - 1] == m[k]);
                }
            }
        }
    }
}

impl WorkspaceMap {
    /// Look the metadata of workspace `id` up.
    pub fn get(&self, id: i32) -> (r: Option<WorkspaceInfo>)
        ensures
            r == map_get(self@, id),
    {
        let n = self.entries.len();
        proof {
            assert(self@.subrange(0, n as int) =~= self@);
        }
        for i in 0..n
            invariant
                n == self.entries.len(),
                map_get(self@, id) == map_get(self@.subrange(i as int, n as int), id),
        {
            let ghost pre = self@.subrange(i as int, n as int);
            if self.entries[i].0 == id {
                proof {
                    assert(pre[0] == self@[i as int]);
                }
                return Some(self.entries[i].1);
            }
            proof {
                assert(pre[0] == self@[i as int]);
                assert(pre.subrange(1, pre.len() as int) =~= self@.subrange(
                    i as int + 1,
                    n as int,
                ));
            }
        }
        proof {
            assert(self@.subrange(n as int, n as int).len() == 0);
        }
        None
    }
}

/// The ids with a metadata entry are exactly the workspace ids of the
/// snapshot's eligible (non-floating, non-special, positively numbered)
/// windows.
pub proof fn lemma_metadata_ids(m: Seq<(i32, WorkspaceInfo)>, s: Seq<Window>)
    requires
        ws_map_models(m, s),
    ensures
        forall|id: i32| (exists|k: int| 0 <= k < m.len() && (#[trigger] m[k]).0 == id) <==> #[trigger] ws_present(s, id),
{
    assert forall|id: i32| (exists|k: int| 0 <= k < m.len() && (#[trigger] m[k]).0 == id) <==> #[trigger] ws_present(
        s,
        id,
    ) by {
        if exists|k: int| 0 <= k < m.len() && (#[trigger] m[k]).0 == id {
            let k = choose|k: int| 0 <= k < m.len() && (#[trigger] m[k]).0 == id;
            assert(ws_present(s, m[k].0));
        }
    }
}

/// Wrap-around of the sorted workspace order: the last workspace's
/// `next_ws` is the first workspace, the first one's `prev_ws` is the last;
/// with a single workspace both point at itself.
pub proof fn lemma_wrap_around(m: Seq<(i32, WorkspaceInfo)>, s: Seq<Window>)
    requires
        ws_map_models(m, s),
        m.len() >= 1,
    ensures
        m[m.len() - 1].1.next_ws == m[0].0,
        m[0].1.prev_ws == m[m.len() - 1].0,
        m.len() == 1 ==> m[0].1.prev_ws == m[0].0 && m[0].1.next_ws == m[0].0,
{
    assert(next_index(m.len() as int, m.len() - 1) == 0);
    assert(prev_index(m.len() as int, 0) == m.len() - 1);
}

/// Scratch record of the builder: one workspace with the running extreme
/// key and its holder's address per direction.
#[derive(Clone, Copy)]
struct BuildEntry {
    id: i32,
    left_key: i32,
    left_addr: u64,
    right_key: i64,
    right_addr: u64,
    top_key: i32,
    top_addr: u64,
    bottom_key: i64,
    bottom_addr: u64,
}

spec fn build_entry_ok(e: BuildEntry, s: Seq<Window>, n: int) -> bool {
    &&& holds_extreme_upto(s, n, e.id, Direction::Left, e.left_key as int, e.left_addr)
    &&& holds_extreme_upto(s, n, e.id, Direction::Right, e.right_key as int, e.right_addr)
    &&& holds_extreme_upto(s, n, e.id, Direction::Up, e.top_key as int, e.top_addr)
    &&& holds_extreme_upto(s, n, e.id, Direction::Down, e.bottom_key as int, e.bottom_addr)
}

spec fn build_ok(b: Seq<BuildEntry>, s: Seq<Window>, n: int) -> bool {
    &&& forall|p: int, q: int| 0 <= p < q < b.len() ==> (#[trigger] b[p].id) < (#[trigger] b[q].id)
    &&& forall|k: int| 0 <= k < b.len() ==> present_upto(s, n, (#[trigger] b[k]).id)
    &&& forall|id: i32| present_upto(s, n, id) ==> exists|k: int| 0 <= k < b.len() && (#[trigger] b[k]).id == id
    &&& forall|k: int| 0 <= k < b.len() ==> build_entry_ok(#[trigger] b[k], s, n)
}

/// Taking one more window into view does not change presence or extremes of
/// workspace `id` when that window is no eligible window of `id`.
proof fn lemma_extend_skip(s: Seq<Window>, k: int, id: i32)
    requires
        0 <= k < s.len(),
        !elig_at(s, id, k),
    ensures
        present_upto(s, k + 1, id) <==> present_upto(s, k, id),
        forall|d: Direction, key: int, addr: u64| #[trigger] holds_extreme_upto(s, k + 1, id, d, key, addr)
            <==> holds_extreme_upto(s, k, id, d, key, addr),
{
    if present_upto(s, k + 1, id) {
        let i = choose|i: int| i < k + 1 && elig_at(s, id, i);
        assert(i < k && elig_at(s, id, i));
        assert(present_upto(s, k, id));
    }
    if present_upto(s, k, id) {
        let i = choose|i: int| i < k && elig_at(s, id, i);
        assert(i < k + 1 && elig_at(s, id, i));
    }
    assert forall|d: Direction, key: int, addr: u64| #[trigger] holds_extreme_upto(s, k + 1, id, d, key, addr)
        <==> holds_extreme_upto(s, k, id, d, key, addr) by {
        if holds_extreme_upto(s, k + 1, id, d, key, addr) {
            let j = choose|j: int|
                #[trigger] first_extreme_upto(s, k + 1, id, d, j) && addr == s[j].address && key
                    == win_key(s[j], d);
            assert(j != k);
            assert(first_extreme_upto(s, k, id, d, j));
            assert(holds_extreme_upto(s, k, id, d, key, addr));
        }
        if holds_extreme_upto(s, k, id, d, key, addr) {
            let j = choose|j: int|
                #[trigger] first_extreme_upto(s, k, id, d, j) && addr == s[j].address && key
                    == win_key(s[j], d);
            assert forall|i: int| i < k + 1 && #[trigger] elig_at(s, id, i) implies !more_extreme(
                win_key(s[i], d),
                win_key(s[j], d),
                d,
            ) by {
                assert(i != k);
            }
            assert(first_extreme_upto(s, k + 1, id, d, j));
            assert(holds_extreme_upto(s, k + 1, id, d, key, addr));
        }
    }
}

/// Taking one more eligible window of workspace `id` into view: when its key
/// strictly beats the recorded extreme, it becomes the new first holder;
/// otherwise the recorded holder stands.
proof fn lemma_extend_hit(s: Seq<Window>, k: int, id: i32, d: Direction, key: int, addr: u64)
    requires
        0 <= k < s.len(),
        elig_at(s, id, k),
        holds_extreme_upto(s, k, id, d, key, addr),
    ensures
        more_extreme(win_key(s[k], d), key, d) ==> holds_extreme_upto(
            s,
            k + 1,
            id,
            d,
            win_key(s[k], d),
            s[k].address,
        ),
        !more_extreme(win_key(s[k], d), key, d) ==> holds_extreme_upto(s, k + 1, id, d, key, addr),
{
    let j = choose|j: int|
        #[trigger] first_extreme_upto(s, k, id, d, j) && addr == s[j].address && key == win_key(
            s[j],
            d,
        );
    if more_extreme(win_key(s[k], d), key, d) {
        assert forall|i: int| i < k + 1 && #[trigger] elig_at(s, id, i) implies !more_extreme(
            win_key(s[i], d),
            win_key(s[k], d),
            d,
        ) by {}
        assert forall|i: int| i < k && #[trigger] elig_at(s, id, i) implies more_extreme(
            win_key(s[k], d),
            win_key(s[i], d),
            d,
        ) by {}
        assert(first_extreme_upto(s, k + 1, id, d, k));
        assert(holds_extreme_upto(s, k + 1, id, d, win_key(s[k], d), s[k].address));
    } else {
        assert forall|i: int| i < k + 1 && #[trigger] elig_at(s, id, i) implies !more_extreme(
            win_key(s[i], d),
            win_key(s[j], d),
            d,
        ) by {}
        assert(first_extreme_upto(s, k + 1, id, d, j));
        assert(holds_extreme_upto(s, k + 1, id, d, key, addr));
    }
}

/// Taking the first eligible window of workspace `id` into view: it is the
/// first holder of all four extremes.
proof fn lemma_extend_new(s: Seq<Window>, k: int, id: i32)
    requires
        0 <= k < s.len(),
        elig_at(s, id, k),
        !present_upto(s, k, id),
    ensures
        forall|d: Direction| #[trigger] holds_extreme_upto(s, k + 1, id, d, win_key(s[k], d), s[k].address),
        present_upto(s, k + 1, id),
{
    assert(k < k + 1 && elig_at(s, id, k));
    assert forall|d: Direction| #[trigger] holds_extreme_upto(s, k + 1, id, d, win_key(s[k], d), s[k].address) by {
        assert forall|i: int| i < k + 1 && #[trigger] elig_at(s, id, i) implies i == k by {
            if i < k {
                assert(present_upto(s, k, id));
            }
        }
        assert(first_extreme_upto(s, k + 1, id, d, k));
    }
}

/// From the builder's final record to the public holder statement.
proof fn lemma_holds_to_holder(s: Seq<Window>, id: i32, d: Direction, key: int, addr: u64)
    requires
        holds_extreme_upto(s, s.len() as int, id, d, key, addr),
    ensures
        holder_ok(s, id, d, Some(addr)),
{
    let j = choose|j: int|
        #[trigger] first_extreme_upto(s, s.len() as int, id, d, j) && addr == s[j].address && key
            == win_key(s[j], d);
    assert(first_extreme_upto(s, s.len() as int, id, d, j) && Some(addr) == Some(s[j].address));
}

/// Compute workspace metadata for all active workspaces.
///
/// A single pass over the window snapshot determines, per workspace, the
/// extreme windows in the four directions (ties keep the first holder found
/// in scan order) and then, over the ascending order of the workspace ids
/// found, the cyclic `prev_ws`/`next_ws` relationships.  Floating windows,
/// special workspaces and non-positive workspace ids are excluded; a
/// workspace with no surviving window is absent from the result.
pub fn compute_workspace_info(clients: &Vec<Window>) -> (r: WorkspaceMap)
    ensures
        ws_map_models(r@, clients@),
{
    let ghost s = clients@;
    let mut build: Vec<BuildEntry> = Vec::new();
    let n_clients = clients.len();
    for k in 0..n_clients
        invariant
            n_clients == clients.len(),
            s == clients@,
            build_ok(build@, s, k as int),
    {
        let c = clients[k];
        proof {
            assert(s[k as int] == c);
        }
        if c.workspace <= 0 || c.floating || c.special {
            proof {
                assert(!eligible(c));
                assert forall|i: int| 0 <= i < build@.len() implies present_upto(
                    s,
                    k as int + 1,
                    (#[trigger] build@[i]).id,
                ) && build_entry_ok(build@[i], s, k as int + 1) by {
                    lemma_extend_skip(s, k as int, build@[i].id);
                }
                assert forall|id: i32| #[trigger] present_upto(s, k as int + 1, id) implies exists|i: int|
                    0 <= i < build@.len() && (#[trigger] build@[i]).id == id by {
                    lemma_extend_skip(s, k as int, id);
                }
            }
        } else {
            let id = c.workspace;
            let rk: i64 = c.x as i64 + c.w as i64;
            let bk: i64 = c.y as i64 + c.h as i64;
            let mut pos: usize = 0;
            while pos < build.len() && build[pos].id < id
                invariant
                    pos <= build.len(),
                    forall|i: int| 0 <= i < pos ==> (#[trigger] build@[i]).id < id,
                decreases build.len() - pos,
            {
                pos += 1;
            }
            let ghost b0 = build@;
            if pos < build.len() && build[pos].id == id {
                let e = build[pos];
                let ne = BuildEntry {
                    id: e.id,
                    left_key: if c.x < e.left_key {
                        c.x
                    } else {
                        e.left_key
                    },
                    left_addr: if c.x < e.left_key {
                        c.address
                    } else {
                        e.left_addr
                    },
                    right_key: if rk > e.right_key {
                        rk
                    } else {
                        e.right_key
                    },
                    right_addr: if rk > e.right_key {
                        c.address
                    } else {
                        e.right_addr
                    },
                    top_key: if c.y < e.top_key {
                        c.y
                    } else {
                        e.top_key
                    },
                    top_addr: if c.y < e.top_key {
                        c.address
                    } else {
                        e.top_addr
                    },
                    bottom_key: if bk > e.bottom_key {
                        bk
                    } else {
                        e.bottom_key
                    },
                    bottom_addr: if bk > e.bottom_key {
                        c.address
                    } else {
                        e.bottom_addr
                    },
                };
                build[pos] = ne;
                proof {
                    assert(elig_at(s, id, k as int));
                    lemma_extend_hit(s, k as int, id, Direction::Left, e.left_key as int, e.left_addr);
                    lemma_extend_hit(s, k as int, id, Direction::Right, e.right_key as int, e.right_addr);
                    lemma_extend_hit(s, k as int, id, Direction::Up, e.top_key as int, e.top_addr);
                    lemma_extend_hit(s, k as int, id, Direction::Down, e.bottom_key as int, e.bottom_addr);
                    assert(win_key(s[k as int], Direction::Left) == c.x as int);
                    assert(win_key(s[k as int], Direction::Right) == rk as int);
                    assert(win_key(s[k as int], Direction::Up) == c.y as int);
                    assert(win_key(s[k as int], Direction::Down) == bk as int);
                    assert(build_entry_ok(ne, s, k as int + 1));
                    assert forall|i: int| 0 <= i < build@.len() implies present_upto(
                        s,
                        k as int + 1,
                        (#[trigger] build@[i]).id,
                    ) && build_entry_ok(build@[i], s, k as int + 1) by {
                        if i != pos as int {
                            assert(build@[i] == b0[i]);
                            assert(b0[i].id != id);
                            lemma_extend_skip(s, k as int, b0[i].id);
                        }
                    }
                    assert forall|id2: i32| #[trigger] present_upto(s, k as int + 1, id2) implies exists|i: int|
                        0 <= i < build@.len() && (#[trigger] build@[i]).id == id2 by {
                        let w = choose|w: int| w < k as int + 1 && elig_at(s, id2, w);
                        if w < k as int {
                            assert(present_upto(s, k as int, id2));
                            let i0 = choose|i0: int| 0 <= i0 < b0.len() && (#[trigger] b0[i0]).id == id2;
                            assert(0 <= i0 < build@.len() && build@[i0].id == id2);
                        } else {
                            assert(id2 == id);
                            assert(build@[pos as int].id == id2);
                        }
                    }
                }
            } else {
                let ne = BuildEntry {
                    id,
                    left_key: c.x,
                    left_addr: c.address,
                    right_key: rk,
                    right_addr: c.address,
                    top_key: c.y,
                    top_addr: c.address,
                    bottom_key: bk,
                    bottom_addr: c.address,
                };
                build.insert(pos, ne);
                proof {
                    b0.insert_ensures(pos as int, ne);
                    assert(elig_at(s, id, k as int));
                    // `id` had no entry, so it was absent from view so far.
                    assert(!present_upto(s, k as int, id)) by {
                        if present_upto(s, k as int, id) {
                            let i0 = choose|i0: int| 0 <= i0 < b0.len() && (#[trigger] b0[i0]).id == id;
                            // an entry before the insert position has a
                            // smaller id, one at or after it a larger one
                            assert(i0 < pos as int || i0 >= pos as int);
                        }
                    }
                    lemma_extend_new(s, k as int, id);
                    assert(win_key(s[k as int], Direction::Left) == c.x as int);
                    assert(win_key(s[k as int], Direction::Right) == rk as int);
                    assert(win_key(s[k as int], Direction::Up) == c.y as int);
                    assert(win_key(s[k as int], Direction::Down) == bk as int);
                    assert(s[k as int].address == c.address);
                    assert(holds_extreme_upto(s, k as int + 1, id, Direction::Left, c.x as int, c.address));
                    assert(holds_extreme_upto(s, k as int + 1, id, Direction::Right, rk as int, c.address));
                    assert(holds_extreme_upto(s, k as int + 1, id, Direction::Up, c.y as int, c.address));
                    assert(holds_extreme_upto(s, k as int + 1, id, Direction::Down, bk as int, c.address));
                    assert(build_entry_ok(ne, s, k as int + 1));
                    assert forall|p: int, q: int| 0 <= p < q < build@.len() implies (
                    #[trigger] build@[p].id) < (#[trigger] build@[q].id) by {
                        if q < pos as int {
                            assert(build@[p] == b0[p] && build@[q] == b0[q]);
                        } else if q == pos as int {
                            assert(build@[p] == b0[p]);
                        } else if p == pos as int {
                            assert(build@[q] == b0[q - 1]);
                            assert(b0[q - 1].id >= b0[pos as int].id);
                        } else if p < pos as int {
                            assert(build@[p] == b0[p] && build@[q] == b0[q - 1]);
                            assert(q - 1 >= pos as int);
                        } else {
                            assert(build@[p] == b0[p - 1] && build@[q] == b0[q - 1]);
                        }
                    }
                    assert forall|i: int| 0 <= i < build@.len() implies present_upto(
                        s,
                        k as int + 1,
                        (#[trigger] build@[i]).id,
                    ) && build_entry_ok(build@[i], s, k as int + 1) by {
                        if i == pos as int {
                            assert(build@[i] == ne);
                        } else {
                            let i_old: int = if i < pos as int {
                                i
                            } else {
                                i - 1
                            };
                            assert(build@[i] == b0[i_old]);
                            assert(b0[i_old].id != id);
                            lemma_extend_skip(s, k as int, b0[i_old].id);
                        }
                    }
                    assert forall|id2: i32| #[trigger] present_upto(s, k as int + 1, id2) implies exists|i: int|
                        0 <= i < build@.len() && (#[trigger] build@[i]).id == id2 by {
                        let w = choose|w: int| w < k as int + 1 && elig_at(s, id2, w);
                        if w < k as int {
                            assert(present_upto(s, k as int, id2));
                            let i0 = choose|i0: int| 0 <= i0 < b0.len() && (#[trigger] b0[i0]).id == id2;
                            let i1: int = if i0 < pos as int {
                                i0
                            } else {
                                i0 + 1
                            };
                            assert(0 <= i1 < build@.len() && build@[i1].id == id2);
                        } else {
                            assert(id2 == id);
                            assert(build@[pos as int].id == id2);
                        }
                    }
                }
            }
        }
    }
    proof {
        assert(build_ok(build@, s, s.len() as int));
    }
    let nb = build.len();
    let mut entries: Vec<(i32, WorkspaceInfo)> = Vec::new();
    let ghost bf = build@;
    for idx in 0..nb
        invariant
            nb == build.len(),
            s == clients@,
            bf == build@,
            build_ok(bf, s, s.len() as int),
            entries@.len() == idx,
            forall|k: int| 0 <= k < idx ==> (#[trigger] entries@[k]).0 == bf[k].id,
            forall|k: int| 0 <= k < idx ==> (#[trigger] entries@[k]).1.leftmost == Some(bf[k].left_addr)
                && entries@[k].1.rightmost == Some(bf[k].right_addr)
                && entries@[k].1.topmost == Some(bf[k].top_addr)
                && entries@[k].1.bottommost == Some(bf[k].bottom_addr),
            forall|k: int| 0 <= k < idx ==> (#[trigger] entries@[k]).1.prev_ws == bf[prev_index(
                nb as int,
                k,
            )].id && entries@[k].1.next_ws == bf[next_index(nb as int, k)].id,
    {
        let prev = if idx == 0 {
            build[nb - 1].id
        } else {
            build[idx - 1].id
        };
        let next = if idx == nb - 1 {
            build[0].id
        } else {
            build[idx + 1].id
        };
        let e = build[idx];
        entries.push(
            (
                e.id,
                WorkspaceInfo {
                    leftmost: Some(e.left_addr),
                    rightmost: Some(e.right_addr),
                    topmost: Some(e.top_addr),
                    bottommost: Some(e.bottom_addr),
                    prev_ws: prev,
                    next_ws: next,
                },
            ),
        );
    }
    let r = WorkspaceMap { entries };
    proof {
        assert forall|k: int| 0 <= k < r@.len() implies info_extremes_ok((#[trigger] r@[k]).1, s, r@[k].0) by {
            lemma_holds_to_holder(s, bf[k].id, Direction::Left, bf[k].left_key as int, bf[k].left_addr);
            lemma_holds_to_holder(s, bf[k].id, Direction::Right, bf[k].right_key as int, bf[k].right_addr);
            lemma_holds_to_holder(s, bf[k].id, Direction::Up, bf[k].top_key as int, bf[k].top_addr);
            lemma_holds_to_holder(s, bf[k].id, Direction::Down, bf[k].bottom_key as int, bf[k].bottom_addr);
        }
        assert forall|id: i32| #[trigger] ws_present(s, id) implies exists|k: int|
            0 <= k < r@.len() && (#[trigger] r@[k]).0 == id by {
            let i0 = choose|i0: int| 0 <= i0 < bf.len() && (#[trigger] bf[i0]).id == id;
            assert(0 <= i0 < r@.len() && r@[i0].0 == id);
        }
        assert(ws_map_models(r@, clients@));
    }
    r
}

} // verus!
