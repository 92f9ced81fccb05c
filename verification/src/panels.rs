//! Nanoleaf light panels: their ordering across the visualizer's colour bands,
//! and the frames of the external-control UDP protocol that colour them.
use vstd::prelude::*;
use crate::config::{Axis, Sort, axis_or_default, sort_or_default};
use crate::utils::split_into_bytes;

verus! {

/// A light panel: its id and its position in the layout.
#[derive(Clone, Copy, Debug, PartialEq, Eq, Structural)]
pub struct Panel {
    pub id: u16,
    pub x: i16,
    pub y: i16,
}

/// A coordinate taken in the given direction.
pub open spec fn signed(s: Sort, v: int) -> int {
    match s {
        Sort::Asc => v,
        Sort::Desc => -v,
    }
}

/// The pair by which a panel at position `c` is ordered: the primary axis first,
/// each coordinate in its direction.
pub open spec fn order_key(c: (i32, i32), axis: Axis, primary: Sort, secondary: Sort) -> (int, int) {
    match axis {
        Axis::X => (signed(primary, c.0 as int), signed(secondary, c.1 as int)),
        Axis::Y => (signed(primary, c.1 as int), signed(secondary, c.0 as int)),
    }
}

/// Lexicographic `<` on pairs.
pub open spec fn key_less(a: (int, int), b: (int, int)) -> bool {
    a.0 < b.0 || (a.0 == b.0 && a.1 < b.1)
}

/// In a stable sort by `keys`, the element at `i` comes before the one at `j`.
pub open spec fn stably_before(keys: Seq<(int, int)>, i: int, j: int) -> bool {
    key_less(keys[i], keys[j]) || (keys[i] == keys[j] && i < j)
}

/// `order` lists each of `0..n` exactly once.
pub open spec fn is_permutation(order: Seq<int>, n: int) -> bool {
    &&& order.len() == n
    &&& forall|k: int| 0 <= k < n ==> 0 <= #[trigger] order[k] < n
    &&& forall|a: int, b: int| 0 <= a < b < n ==> #[trigger] order[a] != #[trigger] order[b]
}

/// `order` is the order in which a stable sort by `keys` places the elements.
pub open spec fn is_stable_order(order: Seq<int>, keys: Seq<(int, int)>) -> bool {
    &&& is_permutation(order, keys.len() as int)
    &&& forall|a: int, b: int|
        0 <= a < b < keys.len() ==> stably_before(keys, #[trigger] order[a], #[trigger] order[b])
}

/// The ordering keys of panels at the given positions.
pub open spec fn panel_keys(coords: Seq<(i32, i32)>, axis: Axis, primary: Sort, secondary: Sort) -> Seq<
    (int, int),
> {
    coords.map_values(|c: (i32, i32)| order_key(c, axis, primary, secondary))
}

/// The positions of the panels as the layout gives them, without rotation.
pub fn unrotated_coords(panels: &[Panel]) -> (r: Vec<(i32, i32)>)
    ensures
        r@.len() == panels@.len(),
        forall|i: int|
            0 <= i < panels@.len() ==> #[trigger] r@[i] == (panels@[i].x as i32, panels@[i].y as i32),
{
    let mut r: Vec<(i32, i32)> = Vec::new();
    let mut i: usize = 0;
    while i < panels.len()
        invariant
            i <= panels.len(),
            r@.len() == i,
            forall|k: int|
                0 <= k < i ==> #[trigger] r@[k] == (panels@[k].x as i32, panels@[k].y as i32),
        decreases panels.len() - i,
    {
        r.push((panels[i].x as i32, panels[i].y as i32));
        i = i + 1;
    }
    r
}

fn signed_exec(s: Sort, v: i32) -> (r: i64)
    ensures
        r as int == signed(s, v as int),
{
    match s {
        Sort::Asc => v as i64,
        Sort::Desc => -(v as i64),
    }
}

fn key_of(c: (i32, i32), axis: Axis, primary: Sort, secondary: Sort) -> (r: (i64, i64))
    ensures
        (r.0 as int, r.1 as int) == order_key(c, axis, primary, secondary),
{
    match axis {
        Axis::X => (signed_exec(primary, c.0), signed_exec(secondary, c.1)),
        Axis::Y => (signed_exec(primary, c.1), signed_exec(secondary, c.0)),
    }
}

fn less_exec(a: (i64, i64), b: (i64, i64)) -> (r: bool)
    ensures
        r == key_less((a.0 as int, a.1 as int), (b.0 as int, b.1 as int)),
{
    a.0 < b.0 || (a.0 == b.0 && a.1 < b.1)
}

/// The order in which a stable sort by `keys` places `0..keys.len()`.
pub(crate) fn stable_order(keys: &Vec<(i64, i64)>, ks: Ghost<Seq<(int, int)>>) -> (order: Vec<usize>)
    requires
        ks@.len() == keys@.len(),
        forall|i: int| 0 <= i < keys@.len() ==> #[trigger] ks@[i] == (keys@[i].0 as int, keys@[i].1 as int),
    ensures
        is_stable_order(order@.map_values(|v: usize| v as int), ks@),
{
    let n = keys.len();
    let mut order: Vec<usize> = Vec::new();
    let mut i: usize = 0;
    while i < n
        invariant
            n == keys@.len(),
            ks@.len() == n,
            forall|j: int| 0 <= j < n ==> #[trigger] ks@[j] == (keys@[j].0 as int, keys@[j].1 as int),
            i <= n,
            order@.len() == i,
            forall|k: int| 0 <= k < i ==> #[trigger] order@[k] < i,
            forall|a: int, b: int| 0 <= a < b < i ==> #[trigger] order@[a] != #[trigger] order@[b],
            forall|a: int, b: int|
                0 <= a < b < i ==> stably_before(
                    ks@,
                    #[trigger] order@[a] as int,
                    #[trigger] order@[b] as int,
                ),
        decreases n - i,
    {
        let mut pos: usize = i;
        while pos > 0 && less_exec(keys[i], keys[order[pos - 1]])
            invariant
                n == keys@.len(),
                ks@.len() == n,
                forall|j: int|
                    0 <= j < n ==> #[trigger] ks@[j] == (keys@[j].0 as int, keys@[j].1 as int),
                i < n,
                order@.len() == i,
                forall|k: int| 0 <= k < i ==> #[trigger] order@[k] < i,
                pos <= i,
                forall|k: int| pos <= k < i ==> key_less(ks@[i as int], ks@[#[trigger] order@[k] as int]),
            decreases pos,
        {
            pos = pos - 1;
        }
        let ghost old_order = order@;
        proof {
            if pos > 0 {
                assert(!key_less(ks@[i as int], ks@[old_order[pos - 1] as int]));
            }
        }
        order.insert(pos, i);
        proof {
            let o = order@;
            assert(o.len() == i + 1);
            assert forall|k: int| 0 <= k < i + 1 implies #[trigger] o[k] < i + 1 by {
                if k < pos {
                    assert(o[k] == old_order[k]);
                } else if k > pos {
                    assert(o[k] == old_order[k - 1]);
                }
            }
            assert forall|a: int, b: int| 0 <= a < b < i + 1 implies #[trigger] o[a] != #[trigger] o[b] by {
                if a < pos {
                    assert(o[a] == old_order[a]);
                } else if a > pos {
                    assert(o[a] == old_order[a - 1]);
                }
                if b < pos {
                    assert(o[b] == old_order[b]);
                } else if b > pos {
                    assert(o[b] == old_order[b - 1]);
                }
            }
            assert forall|a: int, b: int| 0 <= a < b < i + 1 implies stably_before(
                ks@,
                #[trigger] o[a] as int,
                #[trigger] o[b] as int,
            ) by {
                if b < pos {
                    assert(o[a] == old_order[a] && o[b] == old_order[b]);
                } else if b == pos {
                    assert(o[a] == old_order[a]);
                    let last = old_order[pos - 1] as int;
                    if a < pos - 1 {
                        assert(stably_before(ks@, old_order[a] as int, last));
                    }
                } else if a > pos {
                    assert(o[a] == old_order[a - 1] && o[b] == old_order[b - 1]);
                } else if a == pos {
                    assert(o[b] == old_order[b - 1]);
                } else {
                    assert(o[a] == old_order[a] && o[b] == old_order[b - 1]);
                }
            }
        }
        i = i + 1;
    }
    proof {
        let m = order@.map_values(|v: usize| v as int);
        assert forall|k: int| 0 <= k < n implies 0 <= #[trigger] m[k] < n by {
            assert(order@[k] < n);
        }
        assert forall|a: int, b: int| 0 <= a < b < n implies #[trigger] m[a] != #[trigger] m[b] by {
            assert(order@[a] != order@[b]);
        }
        assert forall|a: int, b: int| 0 <= a < b < n implies stably_before(
            ks@,
            #[trigger] m[a],
            #[trigger] m[b],
        ) by {
            assert(stably_before(ks@, order@[a] as int, order@[b] as int));
        }
    }
    order
}

/// Orders panels for the visualizer's colour bands, as `sort_by` with the
/// orientation-aware comparator orders them: by the primary axis, then the other one,
/// each in its direction, and ties kept in their current order. `coords[i]` is the
/// position of `panels[i]` (rotated by the layout's global orientation, where the
/// device reports one). Unset settings stand for `Y`, `Asc`, `Asc`.
pub fn sort_panels_with_orientation(
    panels: &mut Vec<Panel>,
    coords: &[(i32, i32)],
    primary_axis: Option<Axis>,
    primary_sort: Option<Sort>,
    secondary_sort: Option<Sort>,
)
    requires
        old(panels)@.len() == coords@.len(),
    ensures
        final(panels)@.len() == old(panels)@.len(),
        exists|order: Seq<int>|
            {
                &&& is_stable_order(
                    order,
                    panel_keys(
                        coords@,
                        axis_or_default(primary_axis),
                        sort_or_default(primary_sort),
                        sort_or_default(secondary_sort),
                    ),
                )
                &&& forall|k: int|
                    0 <= k < order.len() ==> #[trigger] final(panels)@[k] == old(panels)@[order[k]]
            },
{
    let axis = match primary_axis {
        Some(a) => a,
        None => Axis::Y,
    };
    let p = match primary_sort {
        Some(s) => s,
        None => Sort::Asc,
    };
    let q = match secondary_sort {
        Some(s) => s,
        None => Sort::Asc,
    };
    let ghost ks = panel_keys(coords@, axis, p, q);
    let mut keys: Vec<(i64, i64)> = Vec::new();
    let mut i: usize = 0;
    while i < coords.len()
        invariant
            i <= coords.len(),
            ks == panel_keys(coords@, axis, p, q),
            keys@.len() == i,
            forall|j: int| 0 <= j < i ==> #[trigger] ks[j] == (keys@[j].0 as int, keys@[j].1 as int),
        decreases coords.len() - i,
    {
        let k = key_of(coords[i], axis, p, q);
        keys.push(k);
        i = i + 1;
    }
    let order = stable_order(&keys, Ghost(ks));
    proof {
        let m = order@.map_values(|v: usize| v as int);
        assert forall|j: int| 0 <= j < order@.len() implies #[trigger] order@[j] < panels@.len() by {
            assert(m[j] == order@[j] as int);
            assert(0 <= m[j] < ks.len());
        }
    }
    let mut sorted: Vec<Panel> = Vec::new();
    let mut k: usize = 0;
    while k < order.len()
        invariant
            order@.len() == panels@.len(),
            forall|j: int| 0 <= j < order@.len() ==> #[trigger] order@[j] < panels@.len(),
            k <= order@.len(),
            sorted@.len() == k,
            forall|j: int| 0 <= j < k ==> #[trigger] sorted@[j] == panels@[order@[j] as int],
        decreases order.len() - k,
    {
        proof {
            let m = order@.map_values(|v: usize| v as int);
            assert(m[k as int] == order@[k as int]);
        }
        sorted.push(panels[order[k]]);
        k = k + 1;
    }
    let ghost before = panels@;
    *panels = sorted;
    proof {
        let m = order@.map_values(|v: usize| v as int);
        assert forall|j: int| 0 <= j < m.len() implies #[trigger] panels@[j] == before[m[j]] by {
            assert(m[j] == order@[j] as int);
        }
    }
}

/// Byte `j` of the eight that describe panel `i` in a frame: its id, the colour, a
/// zero, and the transition time, 16-bit values high byte first. Panels past the end
/// of `colors` are left zero.
pub open spec fn frame_byte(panels: Seq<Panel>, colors: Seq<[u8; 3]>, trans_time: u16, i: int, j: int) -> u8 {
    if i < colors.len() {
        if j == 0 {
            (panels[i].id / 256) as u8
        } else if j == 1 {
            (panels[i].id % 256) as u8
        } else if j == 2 {
            colors[i][0]
        } else if j == 3 {
            colors[i][1]
        } else if j == 4 {
            colors[i][2]
        } else if j == 5 {
            0
        } else if j == 6 {
            (trans_time / 256) as u8
        } else {
            (trans_time % 256) as u8
        }
    } else {
        0
    }
}

proof fn lemma_slot(i: int, j: int)
    requires
        0 <= i,
        0 <= j < 8,
    ensures
        (8 * i + j) / 8 == i,
        (8 * i + j) % 8 == j,
{
    vstd::arithmetic::div_mod::lemma_fundamental_div_mod_converse(8 * i + j, 8, i, j);
}

/// The external-control frame that sets panel `i` to `colors[i]`: the panel count
/// (taken modulo 2^16) high byte first, then eight bytes per panel (see `frame_byte`).
pub fn panel_frame(panels: &[Panel], colors: &[[u8; 3]], trans_time: u16) -> (r: Vec<u8>)
    requires
        colors@.len() <= panels@.len(),
        8 * panels@.len() + 2 <= usize::MAX,
    ensures
        r@.len() == 8 * panels@.len() + 2,
        r@[0] == ((panels@.len() % 65536) / 256) as u8,
        r@[1] == ((panels@.len() % 65536) % 256) as u8,
        forall|p: int|
            2 <= p < r@.len() ==> #[trigger] r@[p] == frame_byte(
                panels@,
                colors@,
                trans_time,
                (p - 2) / 8,
                (p - 2) % 8,
            ),
{
    let n = panels.len();
    let count = (n % 65536) as u16;
    let (hi, lo) = split_into_bytes(count);
    let (t_hi, t_lo) = split_into_bytes(trans_time);
    let mut r: Vec<u8> = Vec::new();
    r.push(hi);
    r.push(lo);
    let mut i: usize = 0;
    while i < n
        invariant
            n == panels@.len(),
            colors@.len() <= n,
            8 * n + 2 <= usize::MAX,
            i <= n,
            r@.len() == 8 * i + 2,
            r@[0] == ((n % 65536) / 256) as u8,
            r@[1] == ((n % 65536) % 256) as u8,
            t_hi == trans_time / 256,
            t_lo == trans_time % 256,
            forall|p: int|
                2 <= p < r@.len() ==> #[trigger] r@[p] == frame_byte(
                    panels@,
                    colors@,
                    trans_time,
                    (p - 2) / 8,
                    (p - 2) % 8,
                ),
        decreases n - i,
    {
        let ghost before = r@;
        if i < colors.len() {
            let (id_hi, id_lo) = split_into_bytes(panels[i].id);
            let c = colors[i];
            r.push(id_hi);
            r.push(id_lo);
            r.push(c[0]);
            r.push(c[1]);
            r.push(c[2]);
            r.push(0);
            r.push(t_hi);
            r.push(t_lo);
        } else {
            r.push(0);
            r.push(0);
            r.push(0);
            r.push(0);
            r.push(0);
            r.push(0);
            r.push(0);
            r.push(0);
        }
        proof {
            assert forall|p: int| 2 <= p < r@.len() implies #[trigger] r@[p] == frame_byte(
                panels@,
                colors@,
                trans_time,
                (p - 2) / 8,
                (p - 2) % 8,
            ) by {
                if p < 8 * i + 2 {
                    assert(r@[p] == before[p]);
                } else {
                    let j = p - 2 - 8 * i;
                    lemma_slot(i as int, j);
                    assert(p - 2 == 8 * i + j);
                }
            }
        }
        i = i + 1;
    }
    r
}

} // verus!
