//! Exposé: which windows are spread over the screen grid and in which order,
//! which windows an app exposé keeps and which it minimizes, and the size of
//! the grid.
use vstd::prelude::*;

use crate::stable_sort::{insertion_sorted, key_order, key_views, stable_sort_by_key, SortKey};
use crate::text::{chars_less, chars_lt, chars_of, lowercase, to_lowercase};

verus! {

/// An on-screen window as Exposé sees it.
pub struct ExposeWindow {
    /// Name of the owning application.
    pub owner_name: String,
    /// Process id of the owning application.
    pub owner_pid: i32,
    pub window_id: u32,
}

/// The applications of the windows, in order of first appearance, each with
/// the name of its first window.
pub open spec fn app_groups(ws: Seq<ExposeWindow>) -> Seq<(i32, Seq<char>)>
    decreases ws.len(),
{
    if ws.len() == 0 {
        Seq::empty()
    } else {
        let g = app_groups(ws.drop_last());
        let w = ws.last();
        if exists|k: int| 0 <= k < g.len() && (#[trigger] g[k]).0 == w.owner_pid {
            g
        } else {
            g.push((w.owner_pid, w.owner_name@))
        }
    }
}

/// The ids of one application's windows, in order.
pub open spec fn ids_of_pid(ws: Seq<ExposeWindow>, pid: i32) -> Seq<u32>
    decreases ws.len(),
{
    if ws.len() == 0 {
        Seq::empty()
    } else {
        let p = ids_of_pid(ws.drop_last(), pid);
        if ws.last().owner_pid == pid {
            p.push(ws.last().window_id)
        } else {
            p
        }
    }
}

/// The windows of the applications in the given order, application by
/// application.
pub open spec fn flatten_apps(ws: Seq<ExposeWindow>, pids: Seq<i32>) -> Seq<u32>
    decreases pids.len(),
{
    if pids.len() == 0 {
        Seq::empty()
    } else {
        flatten_apps(ws, pids.drop_last()) + ids_of_pid(ws, pids.last())
    }
}

/// Sort key of an application group: its lowercase name.
pub struct GroupKey {
    pub name: Vec<char>,
}

impl SortKey for GroupKey {
    type KeyView = Seq<char>;

    open spec fn key_view(&self) -> Seq<char> {
        self.name@
    }

    open spec fn view_lt(a: Seq<char>, b: Seq<char>) -> bool {
        chars_lt(a, b)
    }

    fn lt(&self, other: &Self) -> (r: bool) {
        chars_less(self.name.as_slice(), other.name.as_slice())
    }
}

/// The order of the applications: first appearance ("recent"), or by
/// lowercase name with ties kept in first-appearance order ("alphabetical").
pub open spec fn app_order(ws: Seq<ExposeWindow>, alphabetical: bool) -> Seq<i32> {
    let g = app_groups(ws);
    if alphabetical {
        insertion_sorted(
            g.map_values(|p: (i32, Seq<char>)| (lowercase(p.1), p.0)),
            key_order::<GroupKey>(),
        ).map_values(|q: (Seq<char>, i32)| q.1)
    } else {
        g.map_values(|p: (i32, Seq<char>)| p.0)
    }
}

/// The windows Exposé spreads: grouped by application in the chosen order,
/// at most `max_windows` of them.
pub open spec fn expose_order_of(ws: Seq<ExposeWindow>, alphabetical: bool, max_windows: usize) -> Seq<u32> {
    let all = flatten_apps(ws, app_order(ws, alphabetical));
    if max_windows < all.len() {
        all.subrange(0, max_windows as int)
    } else {
        all
    }
}

fn groups_of(ws: &[ExposeWindow]) -> (res: Vec<(i32, String)>)
    ensures
        res@.map_values(|p: (i32, String)| (p.0, p.1@)) == app_groups(ws@),
{
    let mut out: Vec<(i32, String)> = Vec::new();
    let mut i: usize = 0;
    assert(ws@.subrange(0, 0) =~= Seq::<ExposeWindow>::empty());
    while i < ws.len()
        invariant
            i <= ws@.len(),
            out@.map_values(|p: (i32, String)| (p.0, p.1@)) == app_groups(ws@.subrange(0, i as int)),
        decreases ws.len() - i,
    {
        let ghost g = out@.map_values(|p: (i32, String)| (p.0, p.1@));
        proof {
            assert(ws@.subrange(0, i + 1).drop_last() =~= ws@.subrange(0, i as int));
            assert(ws@.subrange(0, i + 1).last() == ws@[i as int]);
        }
        let pid = ws[i].owner_pid;
        let mut k: usize = 0;
        let mut seen = false;
        while k < out.len()
            invariant_except_break
                !seen,
            invariant
                k <= out@.len(),
                g == out@.map_values(|p: (i32, String)| (p.0, p.1@)),
                forall|j: int| 0 <= j < k ==> (#[trigger] g[j]).0 != pid,
            ensures
                k <= out@.len(),
                seen ==> k < out@.len() && g[k as int].0 == pid,
                !seen ==> forall|j: int| 0 <= j < k ==> (#[trigger] g[j]).0 != pid,
                !seen ==> k == out@.len(),
            decreases out.len() - k,
        {
            if out[k].0 == pid {
                seen = true;
                break;
            }
            k = k + 1;
        }
        if !seen {
            out.push((pid, ws[i].owner_name.clone()));
            proof {
                assert(!exists|j: int| 0 <= j < g.len() && (#[trigger] g[j]).0 == pid);
                assert(out@.map_values(|p: (i32, String)| (p.0, p.1@)) =~= g.push(
                    (pid, ws@[i as int].owner_name@),
                ));
            }
        }
        i = i + 1;
    }
    assert(ws@.subrange(0, i as int) =~= ws@);
    out
}

fn push_ids_of(ws: &[ExposeWindow], pid: i32, out: &mut Vec<u32>)
    ensures
        final(out)@ == old(out)@ + ids_of_pid(ws@, pid),
{
    let ghost base = out@;
    let mut i: usize = 0;
    assert(ws@.subrange(0, 0) =~= Seq::<ExposeWindow>::empty());
    assert(base + ids_of_pid(ws@.subrange(0, 0), pid) =~= base);
    while i < ws.len()
        invariant
            i <= ws@.len(),
            out@ == base + ids_of_pid(ws@.subrange(0, i as int), pid),
        decreases ws.len() - i,
    {
        proof {
            assert(ws@.subrange(0, i + 1).drop_last() =~= ws@.subrange(0, i as int));
            assert(ws@.subrange(0, i + 1).last() == ws@[i as int]);
        }
        if ws[i].owner_pid == pid {
            let ghost before = out@;
            out.push(ws[i].window_id);
            assert(out@ =~= before.push(ws@[i as int].window_id));
            assert(base + ids_of_pid(ws@.subrange(0, i + 1), pid) =~= (base + ids_of_pid(
                ws@.subrange(0, i as int),
                pid,
            )).push(ws@[i as int].window_id));
        }
        i = i + 1;
    }
    assert(ws@.subrange(0, i as int) =~= ws@);
}

/// The windows Exposé spreads over the grid, in grid order: grouped by
/// application (applications in first-appearance order, or by lowercase name
/// when `alphabetical`), at most `max_windows` of them.
pub fn expose_order(ws: &[ExposeWindow], alphabetical: bool, max_windows: usize) -> (res: Vec<u32>)
    ensures
        res@ == expose_order_of(ws@, alphabetical, max_windows),
{
    let groups = groups_of(ws);
    let ghost gv = groups@.map_values(|p: (i32, String)| (p.0, p.1@));
    let mut pids: Vec<i32> = Vec::new();
    if alphabetical {
        let mut keyed: Vec<(GroupKey, i32)> = Vec::new();
        let mut i: usize = 0;
        while i < groups.len()
            invariant
                i <= groups@.len(),
                gv == groups@.map_values(|p: (i32, String)| (p.0, p.1@)),
                key_views(keyed@) == gv.subrange(0, i as int).map_values(
                    |p: (i32, Seq<char>)| (lowercase(p.1), p.0),
                ),
            decreases groups.len() - i,
        {
            let low = to_lowercase(groups[i].1.as_str());
            let ghost before = key_views(keyed@);
            keyed.push((GroupKey { name: chars_of(low.as_str()) }, groups[i].0));
            proof {
                assert(key_views(keyed@) =~= before.push((lowercase(gv[i as int].1), gv[i as int].0)));
                assert(gv.subrange(0, i + 1) =~= gv.subrange(0, i as int).push(gv[i as int]));
                assert(gv.subrange(0, i + 1).map_values(|p: (i32, Seq<char>)| (lowercase(p.1), p.0))
                    =~= gv.subrange(0, i as int).map_values(
                    |p: (i32, Seq<char>)| (lowercase(p.1), p.0),
                ).push((lowercase(gv[i as int].1), gv[i as int].0)));
            }
            i = i + 1;
        }
        assert(gv.subrange(0, i as int) =~= gv);
        let sorted = stable_sort_by_key(keyed);
        let ghost sv = key_views(sorted@);
        let mut j: usize = 0;
        while j < sorted.len()
            invariant
                j <= sorted@.len(),
                sv == key_views(sorted@),
                pids@ == sv.subrange(0, j as int).map_values(|q: (Seq<char>, i32)| q.1),
            decreases sorted.len() - j,
        {
            pids.push(sorted[j].1);
            proof {
                assert(sv[j as int].1 == sorted@[j as int].1);
                assert(sv.subrange(0, j + 1) =~= sv.subrange(0, j as int).push(sv[j as int]));
            }
            assert(pids@ =~= sv.subrange(0, j + 1).map_values(|q: (Seq<char>, i32)| q.1));
            j = j + 1;
        }
        assert(sv.subrange(0, j as int) =~= sv);
    } else {
        let mut i: usize = 0;
        while i < groups.len()
            invariant
                i <= groups@.len(),
                gv == groups@.map_values(|p: (i32, String)| (p.0, p.1@)),
                pids@ == gv.subrange(0, i as int).map_values(|p: (i32, Seq<char>)| p.0),
            decreases groups.len() - i,
        {
            pids.push(groups[i].0);
            proof {
                assert(gv.subrange(0, i + 1) =~= gv.subrange(0, i as int).push(gv[i as int]));
            }
            assert(pids@ =~= gv.subrange(0, i + 1).map_values(|p: (i32, Seq<char>)| p.0));
            i = i + 1;
        }
        assert(gv.subrange(0, i as int) =~= gv);
    }
    assert(pids@ == app_order(ws@, alphabetical));
    let mut all: Vec<u32> = Vec::new();
    let mut k: usize = 0;
    assert(pids@.subrange(0, 0) =~= Seq::<i32>::empty());
    while k < pids.len()
        invariant
            k <= pids@.len(),
            all@ == flatten_apps(ws@, pids@.subrange(0, k as int)),
        decreases pids.len() - k,
    {
        push_ids_of(ws, pids[k], &mut all);
        proof {
            assert(pids@.subrange(0, k + 1).drop_last() =~= pids@.subrange(0, k as int));
            assert(pids@.subrange(0, k + 1).last() == pids@[k as int]);
        }
        k = k + 1;
    }
    assert(pids@.subrange(0, k as int) =~= pids@);
    if max_windows < all.len() {
        let mut out: Vec<u32> = Vec::new();
        let mut t: usize = 0;
        while t < max_windows
            invariant
                t <= max_windows,
                max_windows < all@.len(),
                out@ == all@.subrange(0, t as int),
            decreases max_windows - t,
        {
            out.push(all[t]);
            t = t + 1;
            assert(out@ =~= all@.subrange(0, t as int));
        }
        out
    } else {
        all
    }
}

/// The windows an app exposé keeps on screen: the frontmost window's
/// application's windows (at most `max_windows`), and the other windows
/// (pid, id) it minimizes; nothing without windows.
pub open spec fn app_expose_split_of(ws: Seq<ExposeWindow>, max_windows: usize) -> (Seq<u32>, Seq<(i32, u32)>) {
    if ws.len() == 0 {
        (Seq::empty(), Seq::empty())
    } else {
        let target = ws[0].owner_pid;
        let mine = ids_of_pid(ws, target);
        (
            if max_windows < mine.len() {
                mine.subrange(0, max_windows as int)
            } else {
                mine
            },
            others_of(ws, target),
        )
    }
}

/// The windows (pid, id) not owned by `pid`, in order.
pub open spec fn others_of(ws: Seq<ExposeWindow>, pid: i32) -> Seq<(i32, u32)>
    decreases ws.len(),
{
    if ws.len() == 0 {
        Seq::empty()
    } else {
        let p = others_of(ws.drop_last(), pid);
        if ws.last().owner_pid != pid {
            p.push((ws.last().owner_pid, ws.last().window_id))
        } else {
            p
        }
    }
}

/// Splits the windows for an app exposé.
pub fn app_expose_split(ws: &[ExposeWindow], max_windows: usize) -> (res: (Vec<u32>, Vec<(i32, u32)>))
    ensures
        (res.0@, res.1@) == app_expose_split_of(ws@, max_windows),
{
    if ws.len() == 0 {
        return (Vec::new(), Vec::new());
    }
    let target = ws[0].owner_pid;
    let mut mine: Vec<u32> = Vec::new();
    push_ids_of(ws, target, &mut mine);
    assert(mine@ =~= ids_of_pid(ws@, target));
    let kept = if max_windows < mine.len() {
        let mut out: Vec<u32> = Vec::new();
        let mut t: usize = 0;
        while t < max_windows
            invariant
                t <= max_windows,
                max_windows < mine@.len(),
                out@ == mine@.subrange(0, t as int),
            decreases max_windows - t,
        {
            out.push(mine[t]);
            t = t + 1;
            assert(out@ =~= mine@.subrange(0, t as int));
        }
        out
    } else {
        mine
    };
    let mut others: Vec<(i32, u32)> = Vec::new();
    let mut i: usize = 0;
    assert(ws@.subrange(0, 0) =~= Seq::<ExposeWindow>::empty());
    while i < ws.len()
        invariant
            i <= ws@.len(),
            others@ == others_of(ws@.subrange(0, i as int), target),
        decreases ws.len() - i,
    {
        proof {
            assert(ws@.subrange(0, i + 1).drop_last() =~= ws@.subrange(0, i as int));
            assert(ws@.subrange(0, i + 1).last() == ws@[i as int]);
        }
        if ws[i].owner_pid != target {
            others.push((ws[i].owner_pid, ws[i].window_id));
        }
        i = i + 1;
    }
    assert(ws@.subrange(0, i as int) =~= ws@);
    (kept, others)
}

/// `cols` is the ceiling of the square root of `n`.
pub open spec fn is_ceil_sqrt(n: int, cols: int) -> bool {
    cols >= 1 && cols * cols >= n && (cols - 1) * (cols - 1) < n
}

/// The grid Exposé spreads `n` windows over: the least number of columns
/// whose square holds them all, and as many rows as that needs.
pub fn expose_grid(n: usize) -> (res: (usize, usize))
    requires
        1 <= n,
    ensures
        is_ceil_sqrt(n as int, res.0 as int),
        res.1 == (n + res.0 - 1) / (res.0 as int),
{
    let mut c: u128 = 1;
    let mut sq: u128 = 1;
    let nn = n as u128;
    assert(nn <= 0xffff_ffff_ffff_ffff) by {
        assert(usize::MAX <= 0xffff_ffff_ffff_ffff);
    }
    while sq < nn
        invariant
            1 <= c <= 0x1_0000_0000,
            sq == c * c,
            1 <= nn <= 0xffff_ffff_ffff_ffff,
            (c - 1) * (c - 1) < nn,
            c <= nn,
        decreases nn - c,
    {
        assert(c < 0x1_0000_0000) by (nonlinear_arith)
            requires
                c * c < nn,
                nn <= 0xffff_ffff_ffff_ffff,
                c >= 1,
        ;
        assert(c < nn) by (nonlinear_arith)
            requires
                c * c < nn,
                c >= 1,
        ;
        assert((c + 1) * (c + 1) == c * c + 2 * c + 1) by (nonlinear_arith);
        sq = sq + 2 * c + 1;
        c = c + 1;
    }
    let rows = (nn + c - 1) / c;
    assert(rows <= nn) by (nonlinear_arith)
        requires
            rows == (nn + c - 1) / (c as int),
            c >= 1,
            nn >= 1,
    ;
    (c as usize, rows as usize)
}

} // verus!
