//! A tree view: the nodes of expanded branches shown as rows, walked with the
//! arrow keys, expanded and collapsed with Enter, Space and the side arrows.

use vstd::prelude::*;
use vstd::arithmetic::div_mod::{lemma_add_mod_noop, lemma_mul_mod_noop_left};
use crate::event::{Event, EventResult, KeyCode, MouseButton, MouseEventKind, Widget};
use crate::handler::{handler_ready, Handler};
use crate::layout::{Constraints, ConstraintsView};
use crate::navigation::{
    answers, first_down, first_up, law_first_down, law_first_up, law_scan_backward_valid, law_scan_forward_valid,
    nav_target, next_start, page_down_result, page_up_result, page_up_target, previous_start, scan_backward,
    scan_forward, DisabledItems, NavAction, SelectableNavigation,
};
use crate::code_block::spaces;
use crate::style::{make_style, merged, styled, Style};
use crate::text::{owned, push_char};
use crate::select::{truncate_text, truncated};
use vstd::utf8::encode_utf8;
use crate::theme::Theme;
use crate::tree::{NodeShape, TreeExpandEvent, TreeNode, TreeSelectionEvent};
use crate::width::{str_width, text_width};

verus! {

/// A shown row: its depth, whether it is expanded, its path from the roots,
/// and what was read from its node (disabled, has children, label, icon).
pub struct RowView {
    pub depth: usize,
    pub expanded: bool,
    pub path: Seq<usize>,
    pub disabled: bool,
    pub has_children: bool,
    pub label: Seq<char>,
    pub icon: Option<Seq<char>>,
}

/// A shown row with the node it came from.
pub struct FlatNode<T> {
    node: T,
    depth: usize,
    expanded: bool,
    path: Vec<usize>,
    disabled: bool,
    has_children: bool,
    label: String,
    icon: Option<String>,
}

impl<T> FlatNode<T> {
    pub closed spec fn view(&self) -> RowView {
        RowView {
            depth: self.depth,
            expanded: self.expanded,
            path: self.path@,
            disabled: self.disabled,
            has_children: self.has_children,
            label: self.label@,
            icon: match self.icon {
                Some(i) => Some(i@),
                None => None,
            },
        }
    }

    pub closed spec fn item(&self) -> T {
        self.node
    }
}

/// The views of the rows.
pub open spec fn row_views<T>(rows: Seq<FlatNode<T>>) -> Seq<RowView> {
    rows.map_values(|r: FlatNode<T>| r.view())
}

/// The views of a list of paths.
pub open spec fn path_views(paths: Seq<Vec<usize>>) -> Seq<Seq<usize>> {
    paths.map_values(|p: Vec<usize>| p@)
}

/// A row is consistent with the expanded paths: one level per path step
/// beyond the first, expanded exactly when its path is.
pub open spec fn wf_row(r: RowView, expanded: Seq<Seq<usize>>) -> bool {
    &&& r.path.len() >= 1
    &&& r.depth + 1 == r.path.len()
    &&& r.expanded == expanded.contains(r.path)
}

/// Every row is consistent with the expanded paths.
pub open spec fn wf_rows(rows: Seq<RowView>, expanded: Seq<Seq<usize>>) -> bool {
    forall|i: int| 0 <= i < rows.len() ==> #[trigger] wf_row(rows[i], expanded)
}

/// The first row whose path is `p`.
pub open spec fn path_pos(rows: Seq<RowView>, p: Seq<usize>) -> Option<int>
    decreases rows.len(),
{
    if rows.len() == 0 {
        None
    } else {
        match path_pos(rows.drop_last(), p) {
            Some(i) => Some(i),
            None => if rows.last().path == p {
                Some(rows.len() - 1)
            } else {
                None
            },
        }
    }
}

/// The first enabled row.
pub open spec fn first_enabled(rows: Seq<RowView>) -> Option<usize> {
    match first_up(|i: int| rows[i].disabled, 0, rows.len() as int) {
        Some(i) => Some(i as usize),
        None => None,
    }
}

/// The first position of `p` in `paths` (or the length).
pub open spec fn first_index(paths: Seq<Seq<usize>>, p: Seq<usize>) -> int
    decreases paths.len(),
{
    if paths.len() == 0 {
        0
    } else if paths[0] == p {
        0
    } else {
        1 + first_index(paths.drop_first(), p)
    }
}

/// A position holding `p` after none does is the first position of `p`.
proof fn lemma_first_index(paths: Seq<Seq<usize>>, p: Seq<usize>, i: int)
    requires
        0 <= i < paths.len(),
        paths[i] == p,
        forall|j: int| 0 <= j < i ==> paths[j] != p,
    ensures
        first_index(paths, p) == i,
    decreases i,
{
    if i > 0 {
        lemma_first_index(paths.drop_first(), p, i - 1);
    }
}

/// The expanded paths with `p` added when absent, or removed when present.
pub open spec fn toggle_path(paths: Seq<Seq<usize>>, p: Seq<usize>) -> Seq<Seq<usize>> {
    if paths.contains(p) {
        paths.remove(first_index(paths, p))
    } else {
        paths.push(p)
    }
}

/// A copy of a path.
fn copy_path(p: &Vec<usize>) -> (r: Vec<usize>)
    ensures
        r@ == p@,
{
    let mut r: Vec<usize> = Vec::new();
    let mut i: usize = 0;
    while i < p.len()
        invariant
            i <= p@.len(),
            r@ == p@.take(i as int),
        decreases p@.len() - i,
    {
        r.push(p[i]);
        i = i + 1;
        proof {
            assert(r@ =~= p@.take(i as int));
        }
    }
    proof {
        assert(p@.take(p@.len() as int) =~= p@);
    }
    r
}

/// Whether two paths are the same.
fn same_path(a: &Vec<usize>, b: &Vec<usize>) -> (r: bool)
    ensures
        r == (a@ == b@),
{
    if a.len() != b.len() {
        return false;
    }
    let mut i: usize = 0;
    while i < a.len()
        invariant
            a@.len() == b@.len(),
            i <= a@.len(),
            forall|j: int| 0 <= j < i ==> a@[j] == b@[j],
        decreases a@.len() - i,
    {
        if a[i] != b[i] {
            return false;
        }
        i = i + 1;
    }
    proof {
        assert(a@ =~= b@);
    }
    true
}

/// The position of `p` among `paths`, if it is there.
fn find_path(paths: &Vec<Vec<usize>>, p: &Vec<usize>) -> (r: Option<usize>)
    ensures
        r.is_some() == path_views(paths@).contains(p@),
        r matches Some(i) ==> i < paths@.len() && i == first_index(path_views(paths@), p@),
{
    let ghost pv = path_views(paths@);
    let mut i: usize = 0;
    while i < paths.len()
        invariant
            pv == path_views(paths@),
            i <= paths@.len(),
            forall|j: int| 0 <= j < i ==> pv[j] != p@,
        decreases paths@.len() - i,
    {
        if same_path(&paths[i], p) {
            proof {
                assert(pv[i as int] == p@);
                assert(pv.contains(p@));
                lemma_first_index(pv, p@, i as int);
            }
            return Some(i);
        }
        i = i + 1;
    }
    proof {
        if pv.contains(p@) {
            let k = choose|k: int| 0 <= k < pv.len() && pv[k] == p@;
            assert(pv[k] != p@);
        }
    }
    None
}

/// The first row whose path is `p`.
fn find_row<T>(rows: &Vec<FlatNode<T>>, p: &Vec<usize>) -> (r: Option<usize>)
    ensures
        r == match path_pos(row_views(rows@), p@) {
            Some(i) => Some(i as usize),
            None => None::<usize>,
        },
        r matches Some(i) ==> i < rows@.len(),
{
    let ghost rv = row_views(rows@);
    let mut i: usize = 0;
    while i < rows.len()
        invariant
            rv == row_views(rows@),
            i <= rows@.len(),
            path_pos(rv.take(i as int), p@).is_none(),
        decreases rows@.len() - i,
    {
        proof {
            assert(rv.take(i as int + 1).drop_last() =~= rv.take(i as int));
        }
        if same_path(&rows[i].path, p) {
            proof {
                lemma_path_pos_prefix(rv, i as int + 1, p@);
                lemma_path_pos_bound(rv.take(i as int + 1), p@);
            }
            return Some(i);
        }
        i = i + 1;
    }
    proof {
        assert(rv.take(rows@.len() as int) =~= rv);
    }
    None
}

/// A path is found only among the rows.
proof fn lemma_path_pos_bound(rv: Seq<RowView>, p: Seq<usize>)
    ensures
        path_pos(rv, p) matches Some(i) ==> 0 <= i < rv.len(),
    decreases rv.len(),
{
    if rv.len() > 0 {
        lemma_path_pos_bound(rv.drop_last(), p);
    }
}

/// A path found among the rows is that row's path, and a path some row has is
/// found.
proof fn lemma_path_pos_finds(rv: Seq<RowView>, p: Seq<usize>)
    ensures
        path_pos(rv, p) matches Some(i) ==> 0 <= i < rv.len() && rv[i].path == p,
        (exists|k: int| 0 <= k < rv.len() && (#[trigger] rv[k]).path == p) ==> path_pos(rv, p) is Some,
    decreases rv.len(),
{
    if rv.len() > 0 {
        lemma_path_pos_finds(rv.drop_last(), p);
        if path_pos(rv.drop_last(), p) is Some {
            let i = path_pos(rv.drop_last(), p).unwrap();
            assert(rv.drop_last()[i] == rv[i]);
        }
        if exists|k: int| 0 <= k < rv.len() && (#[trigger] rv[k]).path == p {
            let k = choose|k: int| 0 <= k < rv.len() && (#[trigger] rv[k]).path == p;
            if k < rv.len() - 1 {
                assert(rv.drop_last()[k] == rv[k]);
            }
        }
    }
}

/// A move only asks about rows below the count (a page up aimed past the rows
/// aside).
proof fn lemma_move_local(
    action: NavAction,
    d1: spec_fn(int) -> bool,
    d2: spec_fn(int) -> bool,
    nav: SelectableNavigation,
    count: int,
)
    requires
        crate::navigation::agree_below(d1, d2, count),
        (action == NavAction::PageUp && count > 0) ==> page_up_target(nav.focused(), nav.viewport() as int) < count,
    ensures
        nav_target(action, d1, nav, count) == nav_target(action, d2, nav, count),
{
    if count > 0 {
        crate::navigation::law_scan_forward_local(d1, d2, next_start(nav.focused()), count, 0);
        crate::navigation::law_scan_backward_local(d1, d2, previous_start(nav.focused(), count), count, 0);
        crate::navigation::law_first_up_local(d1, d2, 0, count);
        crate::navigation::law_first_down_local(d1, d2, count - 1, count);
        let td = crate::navigation::page_down_target(nav.focused(), nav.viewport() as int, count);
        let tu = page_up_target(nav.focused(), nav.viewport() as int);
        if td >= 0 {
            crate::navigation::law_first_up_local(d1, d2, td, count);
        }
        if td < count {
            crate::navigation::law_first_down_local(d1, d2, td, count);
        }
        if tu >= 0 {
            crate::navigation::law_first_up_local(d1, d2, tu, count);
        }
        if tu < count {
            crate::navigation::law_first_down_local(d1, d2, tu, count);
        }
    }
}

/// The navigation after `action` over `rows`.
fn stepped<T>(nav: SelectableNavigation, action: NavAction, rows: &Vec<FlatNode<T>>) -> (r: SelectableNavigation)
    requires
        rows@.len() <= usize::MAX / 2,
        nav.viewport() <= 0xFFFF,
        nav.offset() <= usize::MAX / 2,
        nav.focused() matches Some(i) ==> i <= usize::MAX / 2,
        (action == NavAction::PageUp && rows@.len() > 0) ==> page_up_target(nav.focused(), nav.viewport() as int)
            < rows@.len(),
    ensures
        SelectableNavigation::moved_to(nav, r, nav_target(action, row_off(row_views(rows@)), nav, rows@.len() as int)),
        r.viewport() == nav.viewport(),
        r.offset() <= usize::MAX / 2,
        r.focused() matches Some(i) ==> i <= usize::MAX / 2,
{
    let n = rows.len();
    let mut m = nav;
    let flags = RowFlags { rows };
    let ghost d = |i: int| flags.off(i);
    proof {
        assert(crate::navigation::agree_below(d, row_off(row_views(rows@)), n as int));
        lemma_move_local(action, d, row_off(row_views(rows@)), nav, n as int);
        assert(answers(&flags, n as int));
        if n > 0 {
            law_scan_forward_valid(d, next_start(nav.focused()), n as int, 0);
            law_scan_backward_valid(d, previous_start(nav.focused(), n as int), n as int, 0);
            let td = crate::navigation::page_down_target(nav.focused(), nav.viewport() as int, n as int);
            let tu = page_up_target(nav.focused(), nav.viewport() as int);
            law_first_up(d, 0, n as int);
            law_first_down(d, n - 1);
            law_first_up(d, td, n as int);
            law_first_down(d, td);
            law_first_up(d, tu, n as int);
            law_first_down(d, tu);
        }
    }
    match action {
        NavAction::Next => m.focus_next(flags, n),
        NavAction::Previous => m.focus_previous(flags, n),
        NavAction::First => m.focus_first(flags, n),
        NavAction::Last => m.focus_last(flags, n),
        NavAction::PageDown => m.page_down(flags, n),
        NavAction::PageUp => m.page_up(flags, n),
    }
    m
}

/// Where `p` first appears in a prefix holding it is where it first appears.
proof fn lemma_path_pos_prefix(rv: Seq<RowView>, k: int, p: Seq<usize>)
    requires
        0 < k <= rv.len(),
        path_pos(rv.take(k), p) is Some,
    ensures
        path_pos(rv, p) == path_pos(rv.take(k), p),
    decreases rv.len() - k,
{
    if k < rv.len() {
        assert(rv.take(k + 1).drop_last() =~= rv.take(k));
        lemma_path_pos_prefix(rv, k + 1, p);
    } else {
        assert(rv.take(k) =~= rv);
    }
}

/// The `k`-th child's step in a path (kept at the largest value rather than
/// wrapping).
pub open spec fn cap_index(k: int) -> usize {
    if k < usize::MAX {
        k as usize
    } else {
        usize::MAX
    }
}

/// The row of a node of shape `sh` at `path`.
pub open spec fn node_row(sh: NodeShape, path: Seq<usize>, expanded: Seq<Seq<usize>>) -> RowView {
    RowView {
        depth: (path.len() - 1) as usize,
        expanded: expanded.contains(path),
        path,
        disabled: sh.disabled,
        has_children: sh.has_children,
        label: sh.label,
        icon: sh.icon,
    }
}

/// The rows of a node at `path` and, when it is expanded and has children, of
/// its children's subtrees in order, down to `fuel` levels.
pub open spec fn node_rows(sh: NodeShape, path: Seq<usize>, expanded: Seq<Seq<usize>>, fuel: nat) -> Seq<RowView>
    decreases fuel, 0int, 0int,
{
    if fuel == 0 {
        Seq::empty()
    } else {
        let row = node_row(sh, path, expanded);
        if row.expanded && sh.has_children {
            seq![row] + child_rows(sh.children, path, expanded, (fuel - 1) as nat, 0)
        } else {
            seq![row]
        }
    }
}

/// The rows of the children `kids[k..]` of the node at `path`.
pub open spec fn child_rows(kids: Seq<NodeShape>, path: Seq<usize>, expanded: Seq<Seq<usize>>, fuel: nat, k: int) -> Seq<RowView>
    decreases fuel, 1int, kids.len() - k,
{
    if k < 0 || k >= kids.len() {
        Seq::empty()
    } else {
        node_rows(kids[k], path.push(cap_index(k)), expanded, fuel) + child_rows(kids, path, expanded, fuel, k + 1)
    }
}

/// The shapes of some nodes.
pub open spec fn shapes<T: TreeNode>(nodes: Seq<T>) -> Seq<NodeShape> {
    nodes.map_values(|n: T| n.shape())
}

/// The rows of the roots `roots[k..]`, root `k` at path `[k]`.
pub open spec fn forest_rows(roots: Seq<NodeShape>, expanded: Seq<Seq<usize>>, k: int) -> Seq<RowView>
    decreases roots.len() - k,
{
    if k < 0 || k >= roots.len() {
        Seq::empty()
    } else {
        node_rows(roots[k], seq![k as usize], expanded, usize::MAX as nat) + forest_rows(roots, expanded, k + 1)
    }
}

/// Rows added at the end of a list: the views from `b` on are those up to the
/// old end followed by the new ones.
proof fn lemma_rows_grow<T>(before: Seq<FlatNode<T>>, after: Seq<FlatNode<T>>, b: int)
    requires
        0 <= b <= before.len() <= after.len(),
        after.take(before.len() as int) == before,
    ensures
        row_views(after.skip(b)) == row_views(before.skip(b)) + row_views(after.skip(before.len() as int)),
{
    let l = row_views(after.skip(b));
    let r = row_views(before.skip(b)) + row_views(after.skip(before.len() as int));
    assert forall|j: int| 0 <= j < l.len() implies l[j] == r[j] by {
        if b + j < before.len() {
            assert(after.take(before.len() as int)[b + j] == after[b + j]);
        }
    }
    assert(l =~= r);
}

/// Adds the rows of `node` at `path` (see `node_rows`); rows past any
/// machine's memory are cut short.
fn flatten_node<T: TreeNode + Clone>(
    out: &mut Vec<FlatNode<T>>,
    node: &T,
    path: Vec<usize>,
    expanded: &Vec<Vec<usize>>,
    fuel: usize,
)
    requires
        path@.len() >= 1,
        old(out)@.len() <= usize::MAX / 2,
    ensures
        final(out)@.len() <= usize::MAX / 2,
        final(out)@.len() >= old(out)@.len(),
        final(out)@.take(old(out)@.len() as int) == old(out)@,
        forall|i: int|
            old(out)@.len() <= i < final(out)@.len() ==> #[trigger] wf_row(final(out)@[i].view(), path_views(expanded@)),
        final(out)@.len() < usize::MAX / 2 ==> row_views(final(out)@.skip(old(out)@.len() as int)) == node_rows(
            node.shape(),
            path@,
            path_views(expanded@),
            fuel as nat,
        ),
    decreases fuel,
{
    if out.len() >= usize::MAX / 2 || fuel == 0 {
        proof {
            assert(out@.take(out@.len() as int) =~= out@);
            assert(row_views(out@.skip(out@.len() as int)) =~= Seq::<RowView>::empty());
        }
        return;
    }
    let ghost before = out@;
    let ghost e = path_views(expanded@);
    let ghost sh = node.shape();
    let has_children = node.has_children();
    let is_expanded = find_path(expanded, &path).is_some();
    let row = FlatNode {
        node: node.clone(),
        depth: path.len() - 1,
        expanded: is_expanded,
        path: copy_path(&path),
        disabled: node.is_disabled(),
        has_children,
        label: node.label(),
        icon: node.icon(),
    };
    out.push(row);
    proof {
        assert(wf_row(out@[before.len() as int].view(), e));
        assert(out@[before.len() as int].view() == node_row(sh, path@, e));
        assert(row_views(out@.skip(before.len() as int)) =~= seq![node_row(sh, path@, e)]);
    }
    if is_expanded && has_children {
        let mut children = node.children();
        let ghost kids = sh.children;
        let ghost mut k: int = 0;
        let mut i: usize = 0;
        proof {
            assert(node_rows(sh, path@, e, fuel as nat) == seq![node_row(sh, path@, e)] + child_rows(kids, path@, e, (fuel - 1) as nat, 0));
        }
        while children.len() > 0
            invariant
                path@.len() >= 1,
                fuel > 0,
                e == path_views(expanded@),
                kids == sh.children,
                0 <= k <= kids.len(),
                i == cap_index(k),
                children@.len() == kids.len() - k,
                forall|j: int| 0 <= j < children@.len() ==> (#[trigger] children@[j]).shape() == kids[k + j],
                out@.len() <= usize::MAX / 2,
                out@.len() > before.len(),
                out@.take(before.len() as int) == before,
                forall|j: int| before.len() <= j < out@.len() ==> #[trigger] wf_row(out@[j].view(), path_views(expanded@)),
                out@.len() < usize::MAX / 2 ==> row_views(out@.skip(before.len() as int)) + child_rows(
                    kids,
                    path@,
                    e,
                    (fuel - 1) as nat,
                    k,
                ) == node_rows(sh, path@, e, fuel as nat),
            decreases children@.len(),
        {
            let ghost old_children = children@;
            let child = children.remove(0);
            proof {
                assert(child.shape() == kids[k]);
                assert forall|j: int| 0 <= j < children@.len() implies (#[trigger] children@[j]).shape() == kids[k + 1 + j] by {
                    assert(children@[j] == old_children[j + 1]);
                }
            }
            let mut child_path = copy_path(&path);
            child_path.push(i);
            let ghost mid = out@;
            flatten_node(out, &child, child_path, expanded, fuel - 1);
            proof {
                assert forall|j: int| before.len() <= j < out@.len() implies #[trigger] wf_row(out@[j].view(), path_views(expanded@)) by {
                    if j < mid.len() {
                        assert(out@.take(mid.len() as int)[j] == out@[j]);
                        assert(mid[j] == out@[j]);
                    }
                }
                assert(out@.take(before.len() as int) =~= mid.take(before.len() as int));
                if out@.len() < usize::MAX / 2 {
                    lemma_rows_grow(mid, out@, before.len() as int);
                    assert(mid.skip(before.len() as int).len() >= 0);
                    let a = row_views(mid.skip(before.len() as int));
                    let c = node_rows(kids[k], path@.push(cap_index(k)), e, (fuel - 1) as nat);
                    let d = child_rows(kids, path@, e, (fuel - 1) as nat, k + 1);
                    assert(child_path@ == path@.push(cap_index(k)));
                    assert(child_rows(kids, path@, e, (fuel - 1) as nat, k) == c + d);
                    assert(a + (c + d) =~= (a + c) + d);
                }
                k = k + 1;
            }
            if i < usize::MAX {
                i = i + 1;
            }
        }
        proof {
            assert(child_rows(kids, path@, e, (fuel - 1) as nat, k) =~= Seq::<RowView>::empty());
            if out@.len() < usize::MAX / 2 {
                assert(row_views(out@.skip(before.len() as int)) + Seq::<RowView>::empty() =~= row_views(out@.skip(before.len() as int)));
            }
        }
    } else {
        proof {
            assert(node_rows(sh, path@, e, fuel as nat) == seq![node_row(sh, path@, e)]);
        }
    }
    proof {
        assert(out@.take(before.len() as int) == before);
    }
}

/// The rows of every root and of the descendants under expanded branches (see
/// `forest_rows`); rows past any machine's memory are cut short.
fn flatten_all<T: TreeNode + Clone>(roots: &Vec<T>, expanded: &Vec<Vec<usize>>) -> (rows: Vec<FlatNode<T>>)
    ensures
        rows@.len() <= usize::MAX / 2,
        wf_rows(row_views(rows@), path_views(expanded@)),
        roots@.len() == 0 ==> rows@.len() == 0,
        rows@.len() < usize::MAX / 2 ==> row_views(rows@) == forest_rows(shapes(roots@), path_views(expanded@), 0),
{
    let mut rows: Vec<FlatNode<T>> = Vec::new();
    let ghost sh = shapes(roots@);
    let ghost e = path_views(expanded@);
    let mut i: usize = 0;
    proof {
        assert(row_views(rows@) =~= Seq::<RowView>::empty());
        assert(Seq::<RowView>::empty() + forest_rows(sh, e, 0) =~= forest_rows(sh, e, 0));
    }
    while i < roots.len()
        invariant
            sh == shapes(roots@),
            e == path_views(expanded@),
            i <= roots@.len(),
            i == 0 ==> rows@.len() == 0,
            rows@.len() <= usize::MAX / 2,
            forall|j: int| 0 <= j < rows@.len() ==> #[trigger] wf_row(rows@[j].view(), path_views(expanded@)),
            rows@.len() < usize::MAX / 2 ==> row_views(rows@) + forest_rows(sh, e, i as int) == forest_rows(sh, e, 0),
        decreases roots@.len() - i,
    {
        let mut path: Vec<usize> = Vec::new();
        path.push(i);
        let ghost mid = rows@;
        flatten_node(&mut rows, &roots[i], path, expanded, usize::MAX);
        proof {
            assert forall|j: int| 0 <= j < rows@.len() implies #[trigger] wf_row(rows@[j].view(), path_views(expanded@)) by {
                if j < mid.len() {
                    assert(rows@.take(mid.len() as int)[j] == rows@[j]);
                    assert(mid[j] == rows@[j]);
                }
            }
            if rows@.len() < usize::MAX / 2 {
                lemma_rows_grow(mid, rows@, 0);
                assert(rows@.skip(0) =~= rows@);
                assert(mid.skip(0) =~= mid);
                assert(path@ =~= seq![i as usize]);
                assert(sh[i as int] == roots@[i as int].shape());
                let a = row_views(mid);
                let c = node_rows(sh[i as int], seq![i as usize], e, usize::MAX as nat);
                let d = forest_rows(sh, e, i + 1);
                assert(forest_rows(sh, e, i as int) == c + d);
                assert(a + (c + d) =~= (a + c) + d);
            }
        }
        i = i + 1;
    }
    proof {
        assert forall|j: int| 0 <= j < row_views(rows@).len() implies #[trigger] wf_row(row_views(rows@)[j], path_views(expanded@)) by {
            assert(row_views(rows@)[j] == rows@[j].view());
        }
        if rows@.len() < usize::MAX / 2 {
            assert(row_views(rows@) + Seq::<RowView>::empty() =~= row_views(rows@));
        }
    }
    rows
}

/// The rows of a tree answer which of them are disabled.
pub struct RowFlags<'a, T> {
    pub rows: &'a Vec<FlatNode<T>>,
}

impl<'a, T> DisabledItems for RowFlags<'a, T> {
    open spec fn off(&self, i: int) -> bool {
        self.rows@[i].view().disabled
    }

    open spec fn can_ask(&self, i: int) -> bool {
        0 <= i < self.rows@.len()
    }

    fn is_off(&self, i: usize) -> (b: bool) {
        self.rows[i].disabled
    }
}

/// Which rows are disabled.
pub open spec fn row_off(rows: Seq<RowView>) -> spec_fn(int) -> bool {
    |i: int| rows[i].disabled
}

/// The settings of a tree view.
pub struct TreeSetup {
    pub empty_message: Seq<char>,
    pub show_icons: bool,
    pub show_scrollbar: bool,
    pub custom_style: Option<Style>,
    pub custom_focus_style: Option<Style>,
    pub custom_selected_style: Option<Style>,
}

/// Copies of paths, in order.
fn copy_paths(paths: &Vec<Vec<usize>>) -> (r: Vec<Vec<usize>>)
    ensures
        path_views(r@) == path_views(paths@),
{
    let mut r: Vec<Vec<usize>> = Vec::new();
    let mut i: usize = 0;
    while i < paths.len()
        invariant
            i <= paths@.len(),
            path_views(r@) == path_views(paths@).take(i as int),
        decreases paths@.len() - i,
    {
        let p = copy_path(&paths[i]);
        proof {
            assert(path_views(r@.push(p)) =~= path_views(r@).push(p@));
        }
        r.push(p);
        i = i + 1;
        proof {
            assert(path_views(paths@).take(i as int) =~= path_views(paths@).take(i as int - 1).push(paths@[i as int - 1]@));
        }
    }
    proof {
        assert(path_views(paths@).take(paths@.len() as int) =~= path_views(paths@));
    }
    r
}

/// The paths without repeats, each kept where it first appears.
pub open spec fn dedup_paths(paths: Seq<Seq<usize>>) -> Seq<Seq<usize>>
    decreases paths.len(),
{
    if paths.len() == 0 {
        Seq::empty()
    } else {
        let rest = dedup_paths(paths.drop_last());
        if rest.contains(paths.last()) {
            rest
        } else {
            rest.push(paths.last())
        }
    }
}

/// A tree view of nodes `T`, reporting choices and expansions as `M`.
#[verifier::reject_recursive_types(T)]
#[verifier::reject_recursive_types(M)]
pub struct TreeView<T: TreeNode + Clone, M = ()> {
    roots: Vec<T>,
    flat_nodes: Vec<FlatNode<T>>,
    expanded_paths: Vec<Vec<usize>>,
    navigation: SelectableNavigation,
    empty_message: String,
    show_icons: bool,
    show_scrollbar: bool,
    focused: bool,
    custom_style: Option<Style>,
    custom_focus_style: Option<Style>,
    custom_selected_style: Option<Style>,
    on_select: Option<Box<dyn Handler<(TreeSelectionEvent<T>,), M>>>,
    on_expand: Option<Box<dyn Handler<(TreeExpandEvent<T>,), M>>>,
}

impl<T: TreeNode + Clone, M> TreeView<T, M> {
    #[verifier::type_invariant]
    spec fn inv(&self) -> bool {
        &&& handler_ready(self.on_select)
        &&& handler_ready(self.on_expand)
        &&& self.flat_nodes@.len() <= usize::MAX / 2
        &&& self.navigation.viewport() <= 0xFFFF
        &&& self.navigation.offset() <= usize::MAX / 2
        &&& (self.navigation.focused() matches Some(i) ==> i <= usize::MAX / 2)
    }

    pub closed spec fn roots(&self) -> Seq<T> {
        self.roots@
    }

    pub closed spec fn rows(&self) -> Seq<RowView> {
        row_views(self.flat_nodes@)
    }

    /// The node row `i` came from.
    pub closed spec fn node_at(&self, i: int) -> T {
        self.flat_nodes@[i].item()
    }

    pub closed spec fn expanded(&self) -> Seq<Seq<usize>> {
        path_views(self.expanded_paths@)
    }

    pub closed spec fn nav(&self) -> SelectableNavigation {
        self.navigation
    }

    /// The selected row: the navigation's focus.
    pub open spec fn selection(&self) -> Option<usize> {
        self.nav().focused()
    }

    pub closed spec fn has_focus(&self) -> bool {
        self.focused
    }

    pub closed spec fn setup(&self) -> TreeSetup {
        TreeSetup {
            empty_message: self.empty_message@,
            show_icons: self.show_icons,
            show_scrollbar: self.show_scrollbar,
            custom_style: self.custom_style,
            custom_focus_style: self.custom_focus_style,
            custom_selected_style: self.custom_selected_style,
        }
    }

    pub closed spec fn select_handler(&self) -> Option<Box<dyn Handler<(TreeSelectionEvent<T>,), M>>> {
        self.on_select
    }

    pub closed spec fn expand_handler(&self) -> Option<Box<dyn Handler<(TreeExpandEvent<T>,), M>>> {
        self.on_expand
    }

    /// The rows match the expanded paths, which hold no path twice.
    pub open spec fn consistent(&self) -> bool {
        &&& wf_rows(self.rows(), self.expanded())
        &&& self.expanded().no_duplicates()
    }

    /// Roots, settings and callbacks as in `other`.
    pub open spec fn same_setup(&self, other: &Self) -> bool {
        &&& self.roots() == other.roots()
        &&& self.setup() == other.setup()
        &&& self.select_handler() == other.select_handler()
        &&& self.expand_handler() == other.expand_handler()
    }

    /// Rows, expanded paths and nodes as in `other`.
    pub open spec fn same_rows(&self, other: &Self) -> bool {
        &&& self.rows() == other.rows()
        &&& self.expanded() == other.expanded()
        &&& forall|i: int| 0 <= i < self.rows().len() ==> #[trigger] self.node_at(i) == other.node_at(i)
    }

    /// The first enabled row, searched from the top.
    fn first_enabled_row(rows: &Vec<FlatNode<T>>) -> (r: Option<usize>)
        ensures
            r == first_enabled(row_views(rows@)),
            r matches Some(i) ==> i < rows@.len(),
    {
        let ghost dis = row_off(row_views(rows@));
        let n = rows.len();
        let mut i: usize = 0;
        while i < n
            invariant
                n == rows@.len(),
                i <= n,
                dis == row_off(row_views(rows@)),
                first_up(dis, i as int, n as int) == first_up(dis, 0, n as int),
            decreases n - i,
        {
            proof {
                assert(dis(i as int) == rows@[i as int].view().disabled);
            }
            if !rows[i].disabled {
                return Some(i);
            }
            i = i + 1;
        }
        None
    }

    /// A tree of `roots`, nothing expanded, the first enabled row selected, a
    /// viewport of ten rows, the message `No items`, icons and a scrollbar.
    pub fn new(roots: Vec<T>) -> (t: Self)
        ensures
            t.roots() == roots@,
            roots@.len() == 0 ==> t.rows().len() == 0,
            t.expanded().len() == 0,
            t.rows().len() < usize::MAX / 2 ==> t.rows() == forest_rows(shapes(roots@), Seq::empty(), 0),
            t.consistent(),
            t.selection() == first_enabled(t.rows()),
            t.nav().offset() == 0 && t.nav().viewport() == 10,
            !t.has_focus(),
            t.setup() == (TreeSetup {
                empty_message: seq!['N', 'o', ' ', 'i', 't', 'e', 'm', 's'],
                show_icons: true,
                show_scrollbar: true,
                custom_style: None,
                custom_focus_style: None,
                custom_selected_style: None,
            }),
            t.select_handler().is_none() && t.expand_handler().is_none(),
    {
        proof {
            reveal_strlit("No items");
            assert("No items"@ =~= seq!['N', 'o', ' ', 'i', 't', 'e', 'm', 's']);
        }
        let expanded: Vec<Vec<usize>> = Vec::new();
        let flat = flatten_all(&roots, &expanded);
        let selected = Self::first_enabled_row(&flat);
        let n = flat.len();
        let t = TreeView {
            roots,
            flat_nodes: flat,
            expanded_paths: expanded,
            navigation: SelectableNavigation::with_initial_focus(n, 10, selected),
            empty_message: owned("No items"),
            show_icons: true,
            show_scrollbar: true,
            focused: false,
            custom_style: None,
            custom_focus_style: None,
            custom_selected_style: None,
            on_select: None,
            on_expand: None,
        };
        proof {
            assert(t.expanded() =~= Seq::<Seq<usize>>::empty());
        }
        t
    }

    /// A tree without roots.
    pub fn empty() -> (t: Self)
        ensures
            t.roots().len() == 0 && t.rows().len() == 0,
            t.expanded().len() == 0,
            t.selection().is_none(),
            t.consistent(),
            t.nav().offset() == 0 && t.nav().viewport() == 10,
            !t.has_focus(),
            t.setup() == (TreeSetup {
                empty_message: seq!['N', 'o', ' ', 'i', 't', 'e', 'm', 's'],
                show_icons: true,
                show_scrollbar: true,
                custom_style: None,
                custom_focus_style: None,
                custom_selected_style: None,
            }),
            t.select_handler().is_none() && t.expand_handler().is_none(),
    {
        Self::new(Vec::new())
    }
}


/// A path seen once stays unique when only new paths are added.
proof fn lemma_dedup_unique(paths: Seq<Seq<usize>>)
    ensures
        dedup_paths(paths).no_duplicates(),
    decreases paths.len(),
{
    if paths.len() > 0 {
        lemma_dedup_unique(paths.drop_last());
        let rest = dedup_paths(paths.drop_last());
        if !rest.contains(paths.last()) {
            assert forall|i: int, j: int| 0 <= i < j < rest.push(paths.last()).len() implies rest.push(paths.last())[i]
                != rest.push(paths.last())[j] by {
                if j == rest.len() {
                    assert(rest[i] != paths.last());
                }
            }
        }
    }
}

/// `ps` with `p` added at the end unless it is there already.
pub open spec fn add_path(ps: Seq<Seq<usize>>, p: Seq<usize>) -> Seq<Seq<usize>> {
    if ps.contains(p) {
        ps
    } else {
        ps.push(p)
    }
}

/// `ps` with the paths added, in order, of the node at `path` when it has
/// children and of its descendants with children, down to `fuel` levels.
pub open spec fn gathered(ps: Seq<Seq<usize>>, sh: NodeShape, path: Seq<usize>, fuel: nat) -> Seq<Seq<usize>>
    decreases fuel, 0int, 0int,
{
    if fuel == 0 {
        ps
    } else if sh.has_children {
        gathered_kids(add_path(ps, path), sh.children, path, (fuel - 1) as nat, 0)
    } else {
        ps
    }
}

/// `ps` with the paths gathered from the children `kids[k..]` of the node at
/// `path`.
pub open spec fn gathered_kids(ps: Seq<Seq<usize>>, kids: Seq<NodeShape>, path: Seq<usize>, fuel: nat, k: int) -> Seq<Seq<usize>>
    decreases fuel, 1int, kids.len() - k,
{
    if k < 0 || k >= kids.len() {
        ps
    } else {
        gathered_kids(gathered(ps, kids[k], path.push(cap_index(k)), fuel), kids, path, fuel, k + 1)
    }
}

/// The paths gathered from the roots `roots[k..]`, root `k` at path `[k]`.
pub open spec fn gathered_forest(ps: Seq<Seq<usize>>, roots: Seq<NodeShape>, k: int) -> Seq<Seq<usize>>
    decreases roots.len() - k,
{
    if k < 0 || k >= roots.len() {
        ps
    } else {
        gathered_forest(gathered(ps, roots[k], seq![k as usize], usize::MAX as nat), roots, k + 1)
    }
}

/// Adds the paths gathered from `node` at `path` (see `gathered`).
fn collect_parent_paths<T: TreeNode + Clone>(node: &T, path: Vec<usize>, paths: &mut Vec<Vec<usize>>, fuel: usize)
    requires
        path_views(old(paths)@).no_duplicates(),
    ensures
        path_views(final(paths)@).no_duplicates(),
        path_views(final(paths)@) == gathered(path_views(old(paths)@), node.shape(), path@, fuel as nat),
    decreases fuel,
{
    if fuel == 0 {
        return;
    }
    let ghost start = path_views(paths@);
    let ghost sh = node.shape();
    if node.has_children() {
        if find_path(paths, &path).is_none() {
            let ghost before = path_views(paths@);
            let p = copy_path(&path);
            paths.push(p);
            proof {
                assert(path_views(paths@) =~= before.push(path@));
                assert forall|i: int, j: int| 0 <= i < j < path_views(paths@).len() implies path_views(paths@)[i]
                    != path_views(paths@)[j] by {
                    if j == before.len() {
                        assert(before[i] != path@);
                    }
                }
            }
        }
        let mut children = node.children();
        let ghost kids = sh.children;
        let ghost mut k: int = 0;
        let mut i: usize = 0;
        while children.len() > 0
            invariant
                fuel > 0,
                sh.has_children,
                kids == sh.children,
                0 <= k <= kids.len(),
                i == cap_index(k),
                children@.len() == kids.len() - k,
                forall|j: int| 0 <= j < children@.len() ==> (#[trigger] children@[j]).shape() == kids[k + j],
                path_views(paths@).no_duplicates(),
                gathered_kids(path_views(paths@), kids, path@, (fuel - 1) as nat, k) == gathered(start, sh, path@, fuel as nat),
            decreases children@.len(),
        {
            let ghost old_children = children@;
            let child = children.remove(0);
            proof {
                assert(child.shape() == kids[k]);
                assert forall|j: int| 0 <= j < children@.len() implies (#[trigger] children@[j]).shape() == kids[k + 1 + j] by {
                    assert(children@[j] == old_children[j + 1]);
                }
            }
            let mut child_path = copy_path(&path);
            child_path.push(i);
            proof {
                assert(child_path@ == path@.push(cap_index(k)));
            }
            collect_parent_paths(&child, child_path, paths, fuel - 1);
            proof {
                k = k + 1;
            }
            if i < usize::MAX {
                i = i + 1;
            }
        }
    }
}

impl<T: TreeNode + Clone, M> TreeView<T, M> {
    /// Flattens the roots again under the expanded paths; the focus is kept and
    /// the scroll offset reset.
    fn rebuild(&mut self)
        ensures
            wf_rows(final(self).rows(), final(self).expanded()),
            final(self).expanded() == old(self).expanded(),
            final(self).same_setup(old(self)),
            final(self).has_focus() == old(self).has_focus(),
            final(self).nav().focused() == old(self).nav().focused(),
            final(self).nav().viewport() == old(self).nav().viewport(),
            final(self).nav().offset() == 0,
            final(self).rows().len() < usize::MAX / 2 ==> final(self).rows() == forest_rows(
                shapes(final(self).roots()),
                final(self).expanded(),
                0,
            ),
    {
        proof { use_type_invariant(&*self); }
        let flat = flatten_all(&self.roots, &self.expanded_paths);
        let n = flat.len();
        let nav = SelectableNavigation::with_initial_focus(n, self.navigation.viewport_size(), self.navigation.focused_index());
        self.navigation = nav;
        self.flat_nodes = flat;
    }

    pub fn empty_message(self, message: &str) -> (t: Self)
        ensures
            t.setup() == (TreeSetup { empty_message: message@, ..self.setup() }),
            t.roots() == self.roots() && t.same_rows(&self) && t.nav() == self.nav() && t.has_focus() == self.has_focus(),
            t.select_handler() == self.select_handler() && t.expand_handler() == self.expand_handler(),
    {
        proof { use_type_invariant(&self); }
        TreeView { empty_message: owned(message), ..self }
    }

    pub fn show_icons(self, show: bool) -> (t: Self)
        ensures
            t.setup() == (TreeSetup { show_icons: show, ..self.setup() }),
            t.roots() == self.roots() && t.same_rows(&self) && t.nav() == self.nav() && t.has_focus() == self.has_focus(),
            t.select_handler() == self.select_handler() && t.expand_handler() == self.expand_handler(),
    {
        proof { use_type_invariant(&self); }
        TreeView { show_icons: show, ..self }
    }

    pub fn show_scrollbar(self, show: bool) -> (t: Self)
        ensures
            t.setup() == (TreeSetup { show_scrollbar: show, ..self.setup() }),
            t.roots() == self.roots() && t.same_rows(&self) && t.nav() == self.nav() && t.has_focus() == self.has_focus(),
            t.select_handler() == self.select_handler() && t.expand_handler() == self.expand_handler(),
    {
        proof { use_type_invariant(&self); }
        TreeView { show_scrollbar: show, ..self }
    }

    pub fn style(self, style: Style) -> (t: Self)
        ensures
            t.setup() == (TreeSetup { custom_style: Some(style), ..self.setup() }),
            t.roots() == self.roots() && t.same_rows(&self) && t.nav() == self.nav() && t.has_focus() == self.has_focus(),
            t.select_handler() == self.select_handler() && t.expand_handler() == self.expand_handler(),
    {
        proof { use_type_invariant(&self); }
        TreeView { custom_style: Some(style), ..self }
    }

    pub fn focus_style(self, style: Style) -> (t: Self)
        ensures
            t.setup() == (TreeSetup { custom_focus_style: Some(style), ..self.setup() }),
            t.roots() == self.roots() && t.same_rows(&self) && t.nav() == self.nav() && t.has_focus() == self.has_focus(),
            t.select_handler() == self.select_handler() && t.expand_handler() == self.expand_handler(),
    {
        proof { use_type_invariant(&self); }
        TreeView { custom_focus_style: Some(style), ..self }
    }

    pub fn selected_style(self, style: Style) -> (t: Self)
        ensures
            t.setup() == (TreeSetup { custom_selected_style: Some(style), ..self.setup() }),
            t.roots() == self.roots() && t.same_rows(&self) && t.nav() == self.nav() && t.has_focus() == self.has_focus(),
            t.select_handler() == self.select_handler() && t.expand_handler() == self.expand_handler(),
    {
        proof { use_type_invariant(&self); }
        TreeView { custom_selected_style: Some(style), ..self }
    }

    /// Sets how many rows are shown at once; with none, moving the selection
    /// below the offset leaves the offset where it is (see `visible_offset`).
    pub fn viewport_height(self, height: u16) -> (t: Self)
        ensures
            t.nav().viewport() == height,
            t.nav().focused() == self.nav().focused() && t.nav().offset() == self.nav().offset(),
            t.same_setup(&self) && t.same_rows(&self) && t.has_focus() == self.has_focus(),
    {
        proof { use_type_invariant(&self); }
        let mut nav = self.navigation;
        nav.set_viewport_size(height as usize);
        TreeView { navigation: nav, ..self }
    }

    /// Selects row `index` (kept as given, also past the rows; no list has rows
    /// past half the address space).
    pub fn selected_index(self, index: Option<usize>) -> (t: Self)
        requires
            index matches Some(i) ==> i <= usize::MAX / 2,
        ensures
            t.selection() == index,
            t.nav().offset() == self.nav().offset() && t.nav().viewport() == self.nav().viewport(),
            t.same_setup(&self) && t.same_rows(&self) && t.has_focus() == self.has_focus(),
    {
        proof { use_type_invariant(&self); }
        let mut nav = self.navigation;
        nav.set_focused_index(index);
        TreeView { navigation: nav, ..self }
    }

    /// Sets the expanded paths (each once) and flattens the tree again.
    pub fn expanded_paths(self, paths: Vec<Vec<usize>>) -> (t: Self)
        ensures
            t.expanded() == dedup_paths(path_views(paths@)),
            t.consistent(),
            t.same_setup(&self) && t.has_focus() == self.has_focus(),
            t.selection() == self.selection() && t.nav().offset() == 0 && t.nav().viewport() == self.nav().viewport(),
    {
        proof { use_type_invariant(&self); }
        let mut kept: Vec<Vec<usize>> = Vec::new();
        let mut i: usize = 0;
        while i < paths.len()
            invariant
                i <= paths@.len(),
                path_views(kept@) == dedup_paths(path_views(paths@).take(i as int)),
            decreases paths@.len() - i,
        {
            proof {
                assert(path_views(paths@).take(i as int + 1).drop_last() =~= path_views(paths@).take(i as int));
            }
            if find_path(&kept, &paths[i]).is_none() {
                let p = copy_path(&paths[i]);
                proof {
                    assert(path_views(kept@.push(p)) =~= path_views(kept@).push(p@));
                }
                kept.push(p);
            }
            i = i + 1;
        }
        proof {
            assert(path_views(paths@).take(paths@.len() as int) =~= path_views(paths@));
            lemma_dedup_unique(path_views(paths@));
        }
        let mut t = TreeView { expanded_paths: kept, ..self };
        t.rebuild();
        t
    }

    /// With `true`, expands every node that has children (each path once) and
    /// flattens the tree again; with `false`, changes nothing.
    pub fn default_expanded(self, expanded: bool) -> (t: Self)
        ensures
            !expanded ==> t.same_rows(&self) && t.nav() == self.nav(),
            expanded ==> t.expanded().no_duplicates() && wf_rows(t.rows(), t.expanded()) && t.nav().offset() == 0
                && t.selection() == self.selection() && t.nav().viewport() == self.nav().viewport(),
            expanded ==> t.expanded() == gathered_forest(Seq::empty(), shapes(self.roots()), 0),
            expanded && t.rows().len() < usize::MAX / 2 ==> t.rows() == forest_rows(shapes(t.roots()), t.expanded(), 0),
            t.same_setup(&self) && t.has_focus() == self.has_focus(),
    {
        proof { use_type_invariant(&self); }
        if !expanded {
            return self;
        }
        let mut paths: Vec<Vec<usize>> = Vec::new();
        proof {
            assert(path_views(paths@) =~= Seq::<Seq<usize>>::empty());
        }
        let ghost sh = shapes(self.roots@);
        let mut i: usize = 0;
        while i < self.roots.len()
            invariant
                sh == shapes(self.roots@),
                i <= self.roots@.len(),
                path_views(paths@).no_duplicates(),
                gathered_forest(path_views(paths@), sh, i as int) == gathered_forest(Seq::empty(), sh, 0),
            decreases self.roots@.len() - i,
        {
            let mut root_path: Vec<usize> = Vec::new();
            root_path.push(i);
            proof {
                assert(root_path@ =~= seq![i as usize]);
                assert(sh[i as int] == self.roots@[i as int].shape());
            }
            collect_parent_paths(&self.roots[i], root_path, &mut paths, usize::MAX);
            i = i + 1;
        }
        let mut t = TreeView { expanded_paths: paths, ..self };
        t.rebuild();
        t
    }

    /// Sets the callback called with each chosen node.
    pub fn on_select<F: Fn(TreeSelectionEvent<T>) -> M + 'static>(self, handler: F) -> (t: Self)
        requires
            forall|a: (TreeSelectionEvent<T>,)| call_requires(handler, a),
        ensures
            t.select_handler().is_some(),
            forall|a: (TreeSelectionEvent<T>,), m: M| t.select_handler().unwrap().gives(a, m) == call_ensures(handler, a, m),
            t.roots() == self.roots() && t.setup() == self.setup() && t.expand_handler() == self.expand_handler(),
            t.same_rows(&self) && t.nav() == self.nav() && t.has_focus() == self.has_focus(),
    {
        proof { use_type_invariant(&self); }
        let h: Box<dyn Handler<(TreeSelectionEvent<T>,), M>> = Box::new(handler);
        TreeView {
            roots: self.roots,
            flat_nodes: self.flat_nodes,
            expanded_paths: self.expanded_paths,
            navigation: self.navigation,
            empty_message: self.empty_message,
            show_icons: self.show_icons,
            show_scrollbar: self.show_scrollbar,
            focused: self.focused,
            custom_style: self.custom_style,
            custom_focus_style: self.custom_focus_style,
            custom_selected_style: self.custom_selected_style,
            on_select: Some(h),
            on_expand: self.on_expand,
        }
    }

    /// Sets the callback called with each expansion or collapse.
    pub fn on_expand<F: Fn(TreeExpandEvent<T>) -> M + 'static>(self, handler: F) -> (t: Self)
        requires
            forall|a: (TreeExpandEvent<T>,)| call_requires(handler, a),
        ensures
            t.expand_handler().is_some(),
            forall|a: (TreeExpandEvent<T>,), m: M| t.expand_handler().unwrap().gives(a, m) == call_ensures(handler, a, m),
            t.roots() == self.roots() && t.setup() == self.setup() && t.select_handler() == self.select_handler(),
            t.same_rows(&self) && t.nav() == self.nav() && t.has_focus() == self.has_focus(),
    {
        proof { use_type_invariant(&self); }
        let h: Box<dyn Handler<(TreeExpandEvent<T>,), M>> = Box::new(handler);
        TreeView {
            roots: self.roots,
            flat_nodes: self.flat_nodes,
            expanded_paths: self.expanded_paths,
            navigation: self.navigation,
            empty_message: self.empty_message,
            show_icons: self.show_icons,
            show_scrollbar: self.show_scrollbar,
            focused: self.focused,
            custom_style: self.custom_style,
            custom_focus_style: self.custom_focus_style,
            custom_selected_style: self.custom_selected_style,
            on_select: self.on_select,
            on_expand: Some(h),
        }
    }
}


/// Removing or adding a path keeps the paths free of repeats.
proof fn lemma_toggle_unique(paths: Seq<Seq<usize>>, p: Seq<usize>)
    requires
        paths.no_duplicates(),
    ensures
        toggle_path(paths, p).no_duplicates(),
{
    if paths.contains(p) {
        let k = first_index(paths, p);
        lemma_first_index_bound(paths, p);
        let r = paths.remove(k);
        assert forall|i: int, j: int| 0 <= i < j < r.len() implies r[i] != r[j] by {
            let a = if i < k { i } else { i + 1 };
            let b = if j < k { j } else { j + 1 };
            assert(r[i] == paths[a] && r[j] == paths[b]);
        }
    } else {
        let r = paths.push(p);
        assert forall|i: int, j: int| 0 <= i < j < r.len() implies r[i] != r[j] by {
            if j == paths.len() {
                assert(paths[i] != p);
            }
        }
    }
}

/// A path that is present is found at a position holding it.
proof fn lemma_first_index_bound(paths: Seq<Seq<usize>>, p: Seq<usize>)
    requires
        paths.contains(p),
    ensures
        0 <= first_index(paths, p) < paths.len(),
        paths[first_index(paths, p)] == p,
    decreases paths.len(),
{
    if paths[0] != p {
        let k = choose|k: int| 0 <= k < paths.len() && paths[k] == p;
        assert(paths.drop_first()[k - 1] == p);
        lemma_first_index_bound(paths.drop_first(), p);
    }
}

/// What a key or click does to a tree view.
pub enum TreeStep {
    Ignore,
    Move(NavAction),
    Expand,
    Collapse,
    Toggle,
    Choose,
}

/// Down, Up, Home, End, the page keys and the wheel move the selection; Right
/// expands (or steps into) and Left collapses (or steps out of) the selected
/// node; Enter and Space expand or collapse it and report it; a left click
/// reports it.
pub open spec fn tree_step(ev: Event) -> TreeStep {
    match ev {
        Event::Key(k) => match k.code {
            KeyCode::Down => TreeStep::Move(NavAction::Next),
            KeyCode::Up => TreeStep::Move(NavAction::Previous),
            KeyCode::Home => TreeStep::Move(NavAction::First),
            KeyCode::End => TreeStep::Move(NavAction::Last),
            KeyCode::PageDown => TreeStep::Move(NavAction::PageDown),
            KeyCode::PageUp => TreeStep::Move(NavAction::PageUp),
            KeyCode::Right => TreeStep::Expand,
            KeyCode::Left => TreeStep::Collapse,
            KeyCode::Enter => TreeStep::Toggle,
            KeyCode::Char(c) => if c == ' ' {
                TreeStep::Toggle
            } else {
                TreeStep::Ignore
            },
            _ => TreeStep::Ignore,
        },
        Event::Mouse(m) => match m.kind {
            MouseEventKind::Down(MouseButton::Left) => TreeStep::Choose,
            MouseEventKind::ScrollDown => TreeStep::Move(NavAction::Next),
            MouseEventKind::ScrollUp => TreeStep::Move(NavAction::Previous),
            _ => TreeStep::Ignore,
        },
        _ => TreeStep::Ignore,
    }
}

impl<T: TreeNode + Clone, M> TreeView<T, M> {
    /// The selected row exists and has children.
    pub open spec fn expand_applies(&self) -> bool {
        self.selection() matches Some(i) && (i as int) < self.rows().len() && self.rows()[i as int].has_children
    }

    /// `self` is `prev` after expanding or collapsing the selected row, `out`
    /// the message: the row's path toggled among the expanded paths, the rows
    /// flattened again, the row (found by its path) selected, else the same
    /// position or the last row, the scroll reset, and the expand callback told
    /// the node, its path, its new state, the expanded paths and the selection;
    /// nothing changes when the selected row has no children.
    pub open spec fn after_toggle(&self, prev: &Self, out: Seq<M>) -> bool {
        &&& self.same_setup(prev)
        &&& self.has_focus() == prev.has_focus()
        &&& if prev.expand_applies() {
            let i = prev.selection().unwrap() as int;
            let p = prev.rows()[i].path;
            let was = prev.expanded().contains(p);
            let n = self.rows().len() as int;
            &&& self.expanded() == toggle_path(prev.expanded(), p)
            &&& wf_rows(self.rows(), self.expanded())
            &&& self.rows().len() < usize::MAX / 2 ==> self.rows() == forest_rows(shapes(self.roots()), self.expanded(), 0)
            &&& (prev.expanded().no_duplicates() ==> self.expanded().no_duplicates())
            &&& self.selection() == match path_pos(self.rows(), p) {
                Some(j) => Some(j as usize),
                None => if n == 0 {
                    None
                } else {
                    Some((if i < n - 1 {
                        i
                    } else {
                        n - 1
                    }) as usize)
                },
            }
            &&& self.nav().offset() == 0
            &&& self.nav().viewport() == prev.nav().viewport()
            &&& match prev.expand_handler() {
                Some(h) => out.len() == 1 && exists|e: TreeExpandEvent<T>|
                    #[trigger] h.gives((e,), out[0]) && e.path@ == p && e.expanded == !was && path_views(
                        e.expanded_paths@,
                    ) == self.expanded() && e.selected_index == self.selection() && cloned(prev.node_at(i), e.node),
                None => out.len() == 0,
            }
        } else {
            &&& self.same_rows(prev)
            &&& self.nav() == prev.nav()
            &&& out.len() == 0
        }
    }

    /// What the select callback gives for the selected row: a message telling
    /// the node, its path, the expanded paths and the selection; none without
    /// a callback or a selected row.
    pub open spec fn selection_fired(&self, out: Seq<M>) -> bool {
        if self.select_handler().is_some() && (self.selection() matches Some(i) && (i as int) < self.rows().len()) {
            let i = self.selection().unwrap() as int;
            out.len() == 1 && exists|e: TreeSelectionEvent<T>|
                #[trigger] self.select_handler().unwrap().gives((e,), out[0]) && e.path@ == self.rows()[i].path
                    && path_views(e.expanded_paths@) == self.expanded() && e.selected_index == self.selection() && cloned(
                    self.node_at(i),
                    e.node,
                )
        } else {
            out.len() == 0
        }
    }

    /// The parent row of the selected row, when it is shown.
    pub open spec fn parent_target(&self) -> Option<int> {
        if self.selection() matches Some(i) && (i as int) < self.rows().len() && self.rows()[i as int].path.len() > 1 {
            let i = self.selection().unwrap() as int;
            path_pos(self.rows(), self.rows()[i].path.drop_last())
        } else {
            None
        }
    }

    /// The first child row of the selected row, when it is expanded with
    /// children and a row follows it.
    pub open spec fn child_target(&self) -> Option<int> {
        if self.selection() matches Some(i) && (i as int) + 1 < self.rows().len() && self.rows()[i as int].expanded
            && self.rows()[i as int].has_children {
            Some(self.selection().unwrap() + 1)
        } else {
            None
        }
    }

    /// `self` is `prev` with the selection moved to `target` (if any) and made
    /// visible.
    pub open spec fn moved_from(&self, prev: &Self, target: Option<int>) -> bool {
        &&& self.same_setup(prev)
        &&& self.same_rows(prev)
        &&& self.has_focus() == prev.has_focus()
        &&& SelectableNavigation::moved_to(prev.nav(), self.nav(), target)
    }

    /// Where a move goes: `nav_target` over the rows, except that a page up
    /// aimed past the rows goes nowhere.
    pub open spec fn move_target(&self, action: NavAction) -> Option<int> {
        let n = self.rows().len() as int;
        if action == NavAction::PageUp && n > 0 && page_up_target(self.nav().focused(), self.nav().viewport() as int) >= n {
            None
        } else {
            nav_target(action, row_off(self.rows()), self.nav(), n)
        }
    }

    /// Expands or collapses the selected row (see `after_toggle`).
    pub fn toggle_expand(&mut self) -> (out: Vec<M>)
        ensures
            final(self).after_toggle(old(self), out@),
    {
        proof { use_type_invariant(&*self); }
        let idx = match self.navigation.focused_index() {
            Some(i) => i,
            None => {
                return Vec::new();
            },
        };
        if idx >= self.flat_nodes.len() {
            return Vec::new();
        }
        if !self.flat_nodes[idx].has_children {
            return Vec::new();
        }
        let ghost prev_expanded = path_views(self.expanded_paths@);
        let path = copy_path(&self.flat_nodes[idx].path);
        let node = self.flat_nodes[idx].node.clone();
        let found = find_path(&self.expanded_paths, &path);
        let mut paths: Vec<Vec<usize>> = Vec::new();
        std::mem::swap(&mut paths, &mut self.expanded_paths);
        match found {
            Some(k) => {
                let ghost before = paths@;
                paths.remove(k);
                proof {
                    assert(path_views(paths@) =~= path_views(before).remove(k as int));
                }
            },
            None => {
                let p = copy_path(&path);
                let ghost before = paths@;
                paths.push(p);
                proof {
                    assert(path_views(paths@) =~= path_views(before).push(path@));
                }
            },
        }
        proof {
            assert(path_views(paths@) == toggle_path(prev_expanded, path@));
            if prev_expanded.no_duplicates() {
                lemma_toggle_unique(prev_expanded, path@);
            }
        }
        self.expanded_paths = paths;
        self.rebuild();
        proof { use_type_invariant(&*self); }
        let n = self.flat_nodes.len();
        let new_sel = match find_row(&self.flat_nodes, &path) {
            Some(j) => Some(j),
            None => if n == 0 {
                None
            } else {
                Some(if idx < n - 1 {
                    idx
                } else {
                    n - 1
                })
            },
        };
        let mut nav = self.navigation;
        nav.set_focused_index(new_sel);
        self.navigation = nav;
        match &self.on_expand {
            Some(h) => {
                let event = TreeExpandEvent {
                    node,
                    path,
                    expanded: found.is_none(),
                    expanded_paths: copy_paths(&self.expanded_paths),
                    selected_index: new_sel,
                };
                let ghost e = event;
                let m = h.call((event,));
                let mut out = Vec::new();
                out.push(m);
                proof {
                    assert(h.gives((e,), out@[0]));
                }
                out
            },
            None => Vec::new(),
        }
    }

    /// The select callback's message for the selected row (see
    /// `selection_fired`).
    pub fn emit_selection(&self) -> (out: Vec<M>)
        ensures
            self.selection_fired(out@),
    {
        proof { use_type_invariant(self); }
        match &self.on_select {
            Some(h) => match self.navigation.focused_index() {
                Some(idx) => {
                    if idx < self.flat_nodes.len() {
                        let event = TreeSelectionEvent {
                            node: self.flat_nodes[idx].node.clone(),
                            path: copy_path(&self.flat_nodes[idx].path),
                            expanded_paths: copy_paths(&self.expanded_paths),
                            selected_index: Some(idx),
                        };
                        let ghost e = event;
                        let m = h.call((event,));
                        let mut out = Vec::new();
                        out.push(m);
                        proof {
                            assert(h.gives((e,), out@[0]));
                        }
                        out
                    } else {
                        Vec::new()
                    }
                },
                None => Vec::new(),
            },
            None => Vec::new(),
        }
    }

    /// Focuses row `j` and makes it visible.
    fn focus_row(&mut self, j: usize)
        requires
            j < old(self).rows().len(),
        ensures
            final(self).moved_from(old(self), Some(j as int)),
    {
        proof { use_type_invariant(&*self); }
        let mut nav = self.navigation;
        nav.set_focused_index(Some(j));
        nav.ensure_visible(self.flat_nodes.len());
        self.navigation = nav;
    }

    /// Selects the parent row of the selected row, when it is shown.
    pub fn select_parent(&mut self)
        ensures
            final(self).moved_from(old(self), old(self).parent_target()),
    {
        proof { use_type_invariant(&*self); }
        let idx = match self.navigation.focused_index() {
            Some(i) => i,
            None => {
                return;
            },
        };
        if idx >= self.flat_nodes.len() || self.flat_nodes[idx].path.len() <= 1 {
            return;
        }
        let cur = &self.flat_nodes[idx].path;
        let mut parent = copy_path(cur);
        parent.pop();
        proof {
            assert(parent@ =~= self.rows()[idx as int].path.drop_last());
        }
        let found = find_row(&self.flat_nodes, &parent);
        proof {
            lemma_path_pos_bound(self.rows(), parent@);
            assert(old(self).parent_target() == match found {
                Some(j) => Some(j as int),
                None => None::<int>,
            });
        }
        match found {
            Some(j) => self.focus_row(j),
            None => {},
        }
    }

    /// Selects the first child row of the selected row, when it is expanded
    /// with children and a row follows it.
    pub fn select_first_child(&mut self)
        ensures
            final(self).moved_from(old(self), old(self).child_target()),
    {
        proof { use_type_invariant(&*self); }
        let idx = match self.navigation.focused_index() {
            Some(i) => i,
            None => {
                return;
            },
        };
        if idx < self.flat_nodes.len() && self.flat_nodes[idx].expanded && self.flat_nodes[idx].has_children && idx + 1
            < self.flat_nodes.len() {
            self.focus_row(idx + 1);
        }
    }

    /// Moves the selection as `action` says over the enabled rows (see
    /// `move_target`).
    pub fn move_selection(&mut self, action: NavAction)
        ensures
            final(self).moved_from(old(self), old(self).move_target(action)),
    {
        proof { use_type_invariant(&*self); }
        let n = self.flat_nodes.len();
        let nav0 = self.navigation;
        if let NavAction::PageUp = action {
            let page: usize = if nav0.viewport_size() >= 2 {
                nav0.viewport_size() - 1
            } else {
                1
            };
            let current: usize = match nav0.focused_index() {
                Some(i) => i,
                None => 0,
            };
            let target = if current >= page {
                current - page
            } else {
                0
            };
            if n > 0 && target >= n {
                return;
            }
        }
        let nav = stepped(nav0, action, &self.flat_nodes);
        self.navigation = nav;
    }
}


/// The cells row `r` asks for: two per level of depth, two for the expand
/// marker when markers are shown, the icon and a space when it has one, and the
/// label, counted in 16 bits.
pub open spec fn row_cells(r: RowView, icons: bool) -> int {
    (r.depth * 2 + (if icons {
        2int
    } else {
        0
    }) + match r.icon {
        Some(ic) => text_width(ic) + 1,
        None => 0,
    } + text_width(r.label)) % 0x10000
}

/// The widest of the first `n` rows (0 for none).
pub open spec fn widest_row(rows: Seq<RowView>, icons: bool, n: int) -> int
    decreases n,
{
    if n <= 0 {
        0
    } else {
        let w = row_cells(rows[n - 1], icons);
        let rest = widest_row(rows, icons, n - 1);
        if w > rest {
            w
        } else {
            rest
        }
    }
}

/// The width and height a tree view asks for: the widest row (the empty
/// message when there are none) plus two for a needed scroll bar, at least 20;
/// the rows (at least one) up to the viewport, at least 3.
pub open spec fn tree_size(rows: Seq<RowView>, setup: TreeSetup, viewport: int) -> (u16, u16) {
    let widest = if rows.len() == 0 {
        (text_width(setup.empty_message) % 0x10000) as int
    } else {
        widest_row(rows, setup.show_icons, rows.len() as int)
    };
    let content = if rows.len() == 0 {
        1
    } else {
        rows.len() as int
    };
    let bar = if setup.show_scrollbar && content > viewport {
        2int
    } else {
        0
    };
    let w = if widest + bar > 0xFFFF {
        0xFFFFint
    } else {
        widest + bar
    };
    let h = if content < viewport {
        content
    } else {
        viewport
    };
    ((if w > 20 {
        w
    } else {
        20
    }) as u16, (if h > 3 {
        h
    } else {
        3
    }) as u16)
}

impl<T: TreeNode + Clone, M> TreeView<T, M> {
    /// How many messages expanding or collapsing gives: one when it applies
    /// and an expand callback is set.
    pub open spec fn toggle_len(&self) -> int {
        if self.expand_applies() && self.expand_handler().is_some() {
            1
        } else {
            0
        }
    }

    /// The selected row is expanded.
    pub open spec fn selected_expanded(&self) -> bool {
        self.rows()[self.selection().unwrap() as int].expanded
    }

    /// Row `i`'s cells (see `row_cells`).
    fn row_width(&self, i: usize) -> (w: u16)
        requires
            i < self.rows().len(),
        ensures
            w == row_cells(self.rows()[i as int], self.setup().show_icons),
    {
        let r = &self.flat_nodes[i];
        let ghost m: int = 0x10000;
        let mut w: u32 = (((r.depth % 0x10000) as u32) * 2) % 0x10000;
        let ghost mut acc: int = r.depth * 2;
        proof {
            lemma_mul_mod_noop_left(r.depth as int, 2, m);
        }
        if self.show_icons {
            proof {
                lemma_add_mod_noop(acc, 2, m);
                acc = acc + 2;
            }
            w = (w + 2) % 0x10000;
        }
        match &r.icon {
            Some(ic) => {
                let tw = str_width(ic.as_str());
                proof {
                    lemma_add_mod_noop(acc, tw as int, m);
                    lemma_add_mod_noop(acc + tw, 1, m);
                    acc = acc + tw + 1;
                }
                w = (w + (tw % 0x10000) as u32) % 0x10000;
                w = (w + 1) % 0x10000;
            },
            None => {},
        }
        let lw = str_width(r.label.as_str());
        proof {
            lemma_add_mod_noop(acc, lw as int, m);
            acc = acc + lw;
        }
        w = (w + (lw % 0x10000) as u32) % 0x10000;
        w as u16
    }
}

impl<T: TreeNode + Clone, M> Widget<M> for TreeView<T, M> {
    open spec fn can_focus(&self) -> bool {
        exists|i: int| 0 <= i < self.rows().len() && !(#[trigger] self.rows()[i]).disabled
    }

    open spec fn focus_flag(&self) -> bool {
        self.has_focus()
    }

    open spec fn keeps_focus(&self) -> bool {
        true
    }

    /// An event that is no step of the tree.
    open spec fn passes_over(&self, event: Event) -> bool {
        tree_step(event) is Ignore
    }

    /// Moves (arrows, Home, End, page keys, wheel) shift the selection; Right
    /// expands a collapsed branch or steps into an expanded one; Left
    /// collapses an expanded branch or steps out to the parent; Enter and Space
    /// expand or collapse and then report the selection; a left click reports
    /// it. All of these are consumed; everything else is ignored.
    fn handle_event(&mut self, event: &Event) -> (r: EventResult<M>)
        ensures
            match tree_step(*event) {
                TreeStep::Ignore => r is Ignored && final(self).moved_from(old(self), None),
                TreeStep::Move(a) => (r matches EventResult::Consumed(v) && v@.len() == 0) && final(self).moved_from(
                    old(self),
                    old(self).move_target(a),
                ),
                TreeStep::Expand => r matches EventResult::Consumed(v) && if old(self).expand_applies()
                    && !old(self).selected_expanded() {
                    final(self).after_toggle(old(self), v@)
                } else {
                    v@.len() == 0 && final(self).moved_from(old(self), old(self).child_target())
                },
                TreeStep::Collapse => r matches EventResult::Consumed(v) && if old(self).expand_applies()
                    && old(self).selected_expanded() {
                    final(self).after_toggle(old(self), v@)
                } else {
                    v@.len() == 0 && final(self).moved_from(old(self), old(self).parent_target())
                },
                TreeStep::Toggle => r matches EventResult::Consumed(v) && 0 <= old(self).toggle_len() <= v@.len()
                    && final(self).after_toggle(old(self), v@.take(old(self).toggle_len()))
                    && final(self).selection_fired(v@.skip(old(self).toggle_len())),
                TreeStep::Choose => r matches EventResult::Consumed(v) && final(self).moved_from(old(self), None)
                    && old(self).selection_fired(v@),
            },
    {
        proof { use_type_invariant(&*self); }
        match event {
            Event::Key(k) => match k.code {
                KeyCode::Down => {
                    self.move_selection(NavAction::Next);
                    EventResult::Consumed(Vec::new())
                },
                KeyCode::Up => {
                    self.move_selection(NavAction::Previous);
                    EventResult::Consumed(Vec::new())
                },
                KeyCode::Home => {
                    self.move_selection(NavAction::First);
                    EventResult::Consumed(Vec::new())
                },
                KeyCode::End => {
                    self.move_selection(NavAction::Last);
                    EventResult::Consumed(Vec::new())
                },
                KeyCode::PageDown => {
                    self.move_selection(NavAction::PageDown);
                    EventResult::Consumed(Vec::new())
                },
                KeyCode::PageUp => {
                    self.move_selection(NavAction::PageUp);
                    EventResult::Consumed(Vec::new())
                },
                KeyCode::Right => {
                    let mut messages = Vec::new();
                    match self.navigation.focused_index() {
                        Some(idx) => {
                            if idx < self.flat_nodes.len() && self.flat_nodes[idx].has_children {
                                if !self.flat_nodes[idx].expanded {
                                    messages = self.toggle_expand();
                                } else {
                                    self.select_first_child();
                                }
                            }
                        },
                        None => {},
                    }
                    EventResult::Consumed(messages)
                },
                KeyCode::Left => {
                    let mut messages = Vec::new();
                    match self.navigation.focused_index() {
                        Some(idx) => {
                            if idx < self.flat_nodes.len() {
                                if self.flat_nodes[idx].has_children && self.flat_nodes[idx].expanded {
                                    messages = self.toggle_expand();
                                } else {
                                    self.select_parent();
                                }
                            }
                        },
                        None => {},
                    }
                    EventResult::Consumed(messages)
                },
                KeyCode::Enter => EventResult::Consumed(self.toggle_and_report()),
                KeyCode::Char(c) => if c == ' ' {
                    EventResult::Consumed(self.toggle_and_report())
                } else {
                    EventResult::Ignored
                },
                _ => EventResult::Ignored,
            },
            Event::Mouse(m) => match m.kind {
                MouseEventKind::Down(MouseButton::Left) => EventResult::Consumed(self.emit_selection()),
                MouseEventKind::ScrollDown => {
                    self.move_selection(NavAction::Next);
                    EventResult::Consumed(Vec::new())
                },
                MouseEventKind::ScrollUp => {
                    self.move_selection(NavAction::Previous);
                    EventResult::Consumed(Vec::new())
                },
                _ => EventResult::Ignored,
            },
            _ => EventResult::Ignored,
        }
    }

    /// The natural size of the tree view (see `tree_size`).
    fn constraints(&self) -> (c: Constraints)
        ensures
            ({
                let (w, h) = tree_size(self.rows(), self.setup(), self.nav().viewport() as int);
                c@ == (ConstraintsView { min_width: w, max_width: Some(w), min_height: h, max_height: Some(h), flex: None })
            }),
    {
        proof { use_type_invariant(self); }
        let n = self.flat_nodes.len();
        let mut widest: u16 = 0;
        if n == 0 {
            widest = (str_width(self.empty_message.as_str()) % 0x10000) as u16;
        } else {
            let mut i: usize = 0;
            while i < n
                invariant
                    n == self.rows().len(),
                    i <= n,
                    widest == widest_row(self.rows(), self.setup().show_icons, i as int),
                decreases n - i,
            {
                let w = self.row_width(i);
                if w > widest {
                    widest = w;
                }
                i = i + 1;
            }
        }
        let viewport = self.navigation.viewport_size();
        let content: usize = if n == 0 {
            1
        } else {
            n
        };
        let bar: u16 = if self.show_scrollbar && content > viewport {
            2
        } else {
            0
        };
        let w = widest.saturating_add(bar);
        let shown: usize = if content < viewport {
            content
        } else {
            viewport
        };
        let h = shown as u16;
        let width = if w > 20 {
            w
        } else {
            20
        };
        let height = if h > 3 {
            h
        } else {
            3
        };
        Constraints { min_width: width, max_width: Some(width), min_height: height, max_height: Some(height), flex: None }
    }

    /// A tree view takes focus when some row is enabled.
    fn focusable(&self) -> (r: bool)
        ensures
            r == exists|i: int| 0 <= i < self.rows().len() && !(#[trigger] self.rows()[i]).disabled,
    {
        let mut i: usize = 0;
        while i < self.flat_nodes.len()
            invariant
                i <= self.rows().len(),
                forall|k: int| 0 <= k < i ==> (#[trigger] self.rows()[k]).disabled,
            decreases self.rows().len() - i,
        {
            if !self.flat_nodes[i].disabled {
                proof {
                    assert(!self.rows()[i as int].disabled);
                }
                return true;
            }
            i = i + 1;
        }
        false
    }

    fn is_focused(&self) -> (r: bool)
        ensures
            r == self.has_focus(),
    {
        self.focused
    }

    /// Sets the focus flag; gaining focus with rows and nothing selected
    /// selects the first enabled row.
    fn set_focused(&mut self, focused: bool)
        ensures
            final(self).has_focus() == focused,
            final(self).same_setup(old(self)),
            final(self).same_rows(old(self)),
            SelectableNavigation::moved_to(
                old(self).nav(),
                final(self).nav(),
                if focused && old(self).selection().is_none() && old(self).rows().len() > 0 {
                    old(self).move_target(NavAction::First)
                } else {
                    None
                },
            ),
    {
        proof { use_type_invariant(&*self); }
        self.focused = focused;
        if focused && self.navigation.focused_index().is_none() && self.flat_nodes.len() > 0 {
            self.move_selection(NavAction::First);
        }
    }
}

impl<T: TreeNode + Clone, M> TreeView<T, M> {
    /// Expands or collapses the selected row, then reports the selection.
    fn toggle_and_report(&mut self) -> (out: Vec<M>)
        ensures
            0 <= old(self).toggle_len() <= out@.len(),
            final(self).after_toggle(old(self), out@.take(old(self).toggle_len())),
            final(self).selection_fired(out@.skip(old(self).toggle_len())),
    {
        let mut messages = self.toggle_expand();
        let mut more = self.emit_selection();
        let ghost first = messages@;
        let ghost second = more@;
        messages.append(&mut more);
        proof {
            assert(messages@.take(first.len() as int) =~= first);
            assert(messages@.skip(first.len() as int) =~= second);
        }
        messages
    }
}

/// The styles a tree view draws with.
#[derive(Debug, Clone, Copy)]
pub struct TreeStyles {
    pub normal: Style,
    pub focused: Style,
    pub selected: Style,
    pub disabled: Style,
    pub scrollbar_track: Style,
    pub scrollbar_thumb: Style,
}

/// The styles a tree view with `setup` draws with under `theme` (see
/// `get_tree_styles`).
pub open spec fn tree_styles_of(setup: TreeSetup, theme: Theme) -> TreeStyles {
    TreeStyles {
        normal: match setup.custom_style {
            Some(c) => c,
            None => styled(Some(theme.colors.text), None, false),
        },
        focused: match setup.custom_focus_style {
            Some(c) => merged(c, styled(Some(theme.colors.text), Some(theme.colors.focus_background), false)),
            None => styled(Some(theme.colors.text), Some(theme.colors.focus_background), false),
        },
        selected: match setup.custom_selected_style {
            Some(c) => merged(c, styled(Some(theme.colors.text), Some(theme.colors.primary), false)),
            None => styled(Some(theme.colors.text), Some(theme.colors.primary), false),
        },
        disabled: styled(Some(theme.colors.text_muted), None, false),
        scrollbar_track: styled(Some(theme.colors.border), None, false),
        scrollbar_thumb: styled(Some(theme.colors.info), None, false),
    }
}

/// The expand marker of a row: blank for a leaf, a down triangle for an
/// expanded branch, a right triangle for a collapsed one.
pub open spec fn expand_marker(r: RowView) -> Seq<char> {
    if !r.has_children {
        seq![' ', ' ']
    } else if r.expanded {
        seq!['▼', ' ']
    } else {
        seq!['▶', ' ']
    }
}

impl<T: TreeNode + Clone, M> TreeView<T, M> {
    /// The styles the tree view draws with under `theme`: the custom normal
    /// style or the theme's text; the custom focus and selected styles laid
    /// over the theme's (focus background, primary); muted text for disabled
    /// rows; the border and info colors for the scroll bar.
    pub fn get_tree_styles(&self, theme: &Theme) -> (s: TreeStyles)
        ensures
            s.normal == match self.setup().custom_style {
                Some(c) => c,
                None => styled(Some(theme.colors.text), None, false),
            },
            s.focused == match self.setup().custom_focus_style {
                Some(c) => merged(c, styled(Some(theme.colors.text), Some(theme.colors.focus_background), false)),
                None => styled(Some(theme.colors.text), Some(theme.colors.focus_background), false),
            },
            s.selected == match self.setup().custom_selected_style {
                Some(c) => merged(c, styled(Some(theme.colors.text), Some(theme.colors.primary), false)),
                None => styled(Some(theme.colors.text), Some(theme.colors.primary), false),
            },
            s.disabled == styled(Some(theme.colors.text_muted), None, false),
            s.scrollbar_track == styled(Some(theme.colors.border), None, false),
            s.scrollbar_thumb == styled(Some(theme.colors.info), None, false),
            s == tree_styles_of(self.setup(), *theme),
    {
        let c = &theme.colors;
        let normal = match self.custom_style {
            Some(st) => st,
            None => make_style(Some(c.text), None, false),
        };
        let base_focused = make_style(Some(c.text), Some(c.focus_background), false);
        let focused = match self.custom_focus_style {
            Some(st) => st.merge(base_focused),
            None => base_focused,
        };
        let base_selected = make_style(Some(c.text), Some(c.primary), false);
        let selected = match self.custom_selected_style {
            Some(st) => st.merge(base_selected),
            None => base_selected,
        };
        TreeStyles {
            normal,
            focused,
            selected,
            disabled: make_style(Some(c.text_muted), None, false),
            scrollbar_track: make_style(Some(c.border), None, false),
            scrollbar_thumb: make_style(Some(c.info), None, false),
        }
    }

    /// The style of a row: the disabled style for a disabled row, else the
    /// selected style for the selected row, else the normal style.
    pub fn select_node_style(&self, styles: &TreeStyles, is_disabled: bool, is_selected: bool) -> (s: Style)
        ensures
            s == if is_disabled {
                styles.disabled
            } else if is_selected {
                styles.selected
            } else {
                styles.normal
            },
    {
        if is_disabled {
            styles.disabled
        } else if is_selected {
            styles.selected
        } else {
            styles.normal
        }
    }

    /// Row `i`'s expand marker (see `expand_marker`).
    pub fn get_expand_icon(&self, i: usize) -> (s: &'static str)
        requires
            i < self.rows().len(),
        ensures
            s@ == expand_marker(self.rows()[i as int]),
    {
        proof {
            reveal_strlit("  ");
            reveal_strlit("▼ ");
            reveal_strlit("▶ ");
        }
        if !self.flat_nodes[i].has_children {
            "  "
        } else if self.flat_nodes[i].expanded {
            "▼ "
        } else {
            "▶ "
        }
    }

    /// The indent of a row at `depth`: two spaces per level.
    pub fn get_indent(&self, depth: usize) -> (s: String)
        requires
            depth <= usize::MAX / 2,
        ensures
            s@ == spaces((2 * depth) as nat),
    {
        let mut s = String::new();
        let mut k: usize = 0;
        let total = 2 * depth;
        while k < total
            invariant
                total == 2 * depth,
                k <= total,
                s@ == spaces(k as nat),
            decreases total - k,
        {
            push_char(&mut s, ' ');
            k = k + 1;
            proof {
                assert(s@ =~= spaces(k as nat));
            }
        }
        s
    }
}

/// An empty tree view.
pub fn tree_view<T: TreeNode + Clone, M>() -> (t: TreeView<T, M>)
    ensures
        t.roots().len() == 0 && t.rows().len() == 0,
        t.expanded().len() == 0,
        t.selection().is_none(),
        t.nav().offset() == 0 && t.nav().viewport() == 10,
        !t.has_focus(),
        t.setup() == (TreeSetup {
            empty_message: seq!['N', 'o', ' ', 'i', 't', 'e', 'm', 's'],
            show_icons: true,
            show_scrollbar: true,
            custom_style: None,
            custom_focus_style: None,
            custom_selected_style: None,
        }),
        t.select_handler().is_none() && t.expand_handler().is_none(),
{
    TreeView::empty()
}

/// Expanding or collapsing a path flips whether that path is expanded and
/// leaves every other path as it was; doing it twice gives back the same
/// expanded paths (as a set).
pub proof fn law_toggle_path(e: Seq<Seq<usize>>, p: Seq<usize>, q: Seq<usize>)
    requires
        e.no_duplicates(),
    ensures
        toggle_path(e, p).contains(q) == if q == p {
            !e.contains(p)
        } else {
            e.contains(q)
        },
        toggle_path(toggle_path(e, p), p).to_set() == e.to_set(),
{
    lemma_toggle_contains(e, p, q);
    lemma_toggle_unique(e, p);
    let t = toggle_path(e, p);
    assert forall|x: Seq<usize>| #[trigger] toggle_path(t, p).contains(x) == e.contains(x) by {
        lemma_toggle_contains(e, p, x);
        lemma_toggle_contains(t, p, x);
        lemma_toggle_contains(e, p, p);
    }
    assert(toggle_path(t, p).to_set() =~= e.to_set());
}

/// What toggling does to membership.
proof fn lemma_toggle_contains(e: Seq<Seq<usize>>, p: Seq<usize>, q: Seq<usize>)
    requires
        e.no_duplicates(),
    ensures
        toggle_path(e, p).contains(q) == if q == p {
            !e.contains(p)
        } else {
            e.contains(q)
        },
{
    if e.contains(p) {
        let k = first_index(e, p);
        lemma_first_index_bound(e, p);
        let r = e.remove(k);
        if q == p {
            if r.contains(p) {
                let j = choose|j: int| 0 <= j < r.len() && r[j] == p;
                let a = if j < k { j } else { j + 1 };
                assert(e[a] == e[k]);
            }
        } else {
            if e.contains(q) {
                let j = choose|j: int| 0 <= j < e.len() && e[j] == q;
                let b = if j < k { j } else { j - 1 };
                assert(r[b] == q);
            }
            if r.contains(q) {
                let j = choose|j: int| 0 <= j < r.len() && r[j] == q;
                let a = if j < k { j } else { j + 1 };
                assert(e[a] == q);
            }
        }
    } else {
        let r = e.push(p);
        if e.contains(q) {
            let j = choose|j: int| 0 <= j < e.len() && e[j] == q;
            assert(r[j] == q);
        }
        if r.contains(q) && q != p {
            let j = choose|j: int| 0 <= j < r.len() && r[j] == q;
            assert(e[j] == q);
        }
        assert(r[e.len() as int] == p);
    }
}

/// A count of bytes or cells as a 16-bit coordinate.
pub open spec fn bytes16(s: Seq<char>) -> int {
    ((encode_utf8(s).len() as usize) % 0x10000) as int
}

/// `a + b` wrapped to 16 bits.
pub open spec fn add16(a: int, b: int) -> u16 {
    ((a + b) % 0x10000) as u16
}

/// What is drawn for one tree row.
pub struct TreeRowView {
    pub y: u16,
    pub style: Style,
    pub fill: bool,
    pub indent: Seq<char>,
    pub marker: Option<Seq<char>>,
    pub marker_x: u16,
    pub icon: Option<Seq<char>>,
    pub icon_x: u16,
    pub label: Seq<char>,
    pub label_x: u16,
}

/// A drawn tree row.
pub struct TreeRow {
    /// The line of the row.
    pub y: u16,
    /// The style of the whole row.
    pub style: Style,
    /// The row's background is filled across the content (the selected row).
    pub fill: bool,
    /// Two spaces per level, from the left edge.
    pub indent: String,
    /// The expand marker, when markers are shown.
    pub marker: Option<String>,
    pub marker_x: u16,
    /// The node's icon, followed by a space.
    pub icon: Option<String>,
    pub icon_x: u16,
    /// The label, cut with an ellipsis to the room left.
    pub label: String,
    pub label_x: u16,
}

impl TreeRow {
    pub open spec fn view(&self) -> TreeRowView {
        TreeRowView {
            y: self.y,
            style: self.style,
            fill: self.fill,
            indent: self.indent@,
            marker: match self.marker {
                Some(m) => Some(m@),
                None => None,
            },
            marker_x: self.marker_x,
            icon: match self.icon {
                Some(i) => Some(i@),
                None => None,
            },
            icon_x: self.icon_x,
            label: self.label@,
            label_x: self.label_x,
        }
    }
}

/// How row `r` is drawn on line `y`: its style by disabled and selected
/// state (the selected row filled); the indent from the left edge, then the
/// marker (when shown), then the icon and a space, each placed after the bytes
/// of what precedes it; the label cut to the content width left.
pub open spec fn tree_row_view(r: RowView, y: u16, selected: bool, show_icons: bool, content_width: u16, styles: TreeStyles) -> TreeRowView {
    let indent = spaces((2 * r.depth) as nat);
    let x1 = bytes16(indent);
    let marker: Option<Seq<char>> = if show_icons {
        Some(expand_marker(r))
    } else {
        None
    };
    let x2: int = match marker {
        Some(m) => add16(x1, bytes16(m)) as int,
        None => x1,
    };
    let x3: int = match r.icon {
        Some(ic) => add16(add16(x2, bytes16(ic)) as int, 1) as int,
        None => x2,
    };
    let avail = if content_width >= x3 {
        content_width - x3
    } else {
        0
    };
    TreeRowView {
        y,
        style: if r.disabled {
            styles.disabled
        } else if selected {
            styles.selected
        } else {
            styles.normal
        },
        fill: selected,
        indent,
        marker,
        marker_x: x1 as u16,
        icon: r.icon,
        icon_x: x2 as u16,
        label: truncated(r.label, avail),
        label_x: x3 as u16,
    }
}

/// What a tree view draws in an area.
pub enum TreePlan {
    /// No rows: the empty message, centred across, halfway down.
    Empty { message: String, x: u16, y: u16, style: Style },
    /// The visible rows, the width they are drawn in, and whether a scroll
    /// bar takes the two rightmost columns.
    Rows { rows: Vec<TreeRow>, content_width: u16, scrollbar: bool },
}

impl<T: TreeNode + Clone, M> TreeView<T, M> {
    /// The rows shown in an area `height` lines high: from the scroll offset,
    /// as many as the smaller of the height and the viewport allow.
    pub open spec fn shown_range(&self, height: u16) -> (int, int) {
        let vp = if (height as int) < self.nav().viewport() {
            height as int
        } else {
            self.nav().viewport() as int
        };
        let start = self.nav().offset() as int;
        let end = if start + vp < self.rows().len() {
            start + vp
        } else {
            self.rows().len() as int
        };
        (start, end)
    }

    /// What the tree view draws in a `width` by `height` area under `theme`:
    /// nothing in an empty area; the empty message when there are no rows;
    /// otherwise the rows of `shown_range`, each as `tree_row_view` says with
    /// the styles of `get_tree_styles`, and a scroll bar when not all rows fit
    /// the viewport.
    pub fn render_plan(&self, width: u16, height: u16, theme: &Theme) -> (p: Option<TreePlan>)
        requires
            forall|i: int| 0 <= i < self.rows().len() ==> (#[trigger] self.rows()[i]).depth <= usize::MAX / 2,
        ensures
            (width == 0 || height == 0) <==> p is None,
            p matches Some(TreePlan::Empty { message, x, y, style }) ==> self.rows().len() == 0 && message@
                == self.setup().empty_message && y == height / 2 && style == theme.styles.text_muted && ({
                let mw = text_width(self.setup().empty_message) % 0x10000;
                x == if width > mw {
                    ((width - mw) / 2) as u16
                } else {
                    0u16
                }
            }),
            p matches Some(TreePlan::Rows { rows, content_width, scrollbar }) ==> ({
                let (start, end) = self.shown_range(height);
                let vp = end - start;
                &&& self.rows().len() > 0
                &&& scrollbar == (self.setup().show_scrollbar && self.rows().len() > (if (height as int) < self.nav().viewport() { height as int } else { self.nav().viewport() as int }))
                &&& content_width == (if scrollbar { if width >= 2 { width - 2 } else { 0 } } else { width as int })
                &&& rows@.len() == (if start < end { end - start } else { 0 })
                &&& forall|k: int| 0 <= k < rows@.len() ==> (#[trigger] rows@[k]).view() == tree_row_view(
                    self.rows()[start + k],
                    k as u16,
                    self.selection() == Some((start + k) as usize),
                    self.setup().show_icons,
                    content_width,
                    tree_styles_of(self.setup(), *theme),
                )
            }),
    {
        proof { use_type_invariant(self); }
        if width == 0 || height == 0 {
            return None;
        }
        let n = self.flat_nodes.len();
        if n == 0 {
            let mw = (str_width(self.empty_message.as_str()) % 0x10000) as u16;
            let x = if width > mw {
                (width - mw) / 2
            } else {
                0
            };
            return Some(TreePlan::Empty { message: owned(self.empty_message.as_str()), x, y: height / 2, style: theme.styles.text_muted });
        }
        let styles = self.get_tree_styles(theme);
        let vps = self.navigation.viewport_size();
        let vp: usize = if (height as usize) < vps {
            height as usize
        } else {
            vps
        };
        let start = self.navigation.scroll_offset();
        let end: usize = if start + vp < n {
            start + vp
        } else {
            n
        };
        let scrollbar = self.show_scrollbar && n > vp;
        let content_width: u16 = if scrollbar {
            width.saturating_sub(2)
        } else {
            width
        };
        let mut rows: Vec<TreeRow> = Vec::new();
        let stop: usize = if end > start {
            end
        } else {
            start
        };
        let mut idx = start;
        while idx < stop
            invariant
                stop > start ==> stop <= n && stop == end,
                n == self.rows().len(),
                stop - start <= 0xFFFF,
                start <= idx <= stop,
                end > start ==> stop == end,
                end <= start ==> stop == start,
                rows@.len() == idx - start,
                forall|i: int| 0 <= i < self.rows().len() ==> (#[trigger] self.rows()[i]).depth <= usize::MAX / 2,
                styles == tree_styles_of(self.setup(), *theme),
                forall|k: int| 0 <= k < rows@.len() ==> (#[trigger] rows@[k]).view() == tree_row_view(
                    self.rows()[start + k],
                    k as u16,
                    self.selection() == Some((start + k) as usize),
                    self.setup().show_icons,
                    content_width,
                    styles,
                ),
            decreases end - idx,
        {
            let y = (idx - start) as u16;
            let row = self.row_plan(idx, y, content_width, &styles);
            rows.push(row);
            idx = idx + 1;
        }
        Some(TreePlan::Rows { rows, content_width, scrollbar })
    }

    /// Row `i` drawn on line `y` (see `tree_row_view`).
    fn row_plan(&self, i: usize, y: u16, content_width: u16, styles: &TreeStyles) -> (r: TreeRow)
        requires
            i < self.rows().len(),
            self.rows()[i as int].depth <= usize::MAX / 2,
        ensures
            r.view() == tree_row_view(self.rows()[i as int], y, self.selection() == Some(i), self.setup().show_icons, content_width, *styles),
    {
        let node = &self.flat_nodes[i];
        proof {
            assert(self.rows()[i as int] == node.view());
        }
        let selected = match self.navigation.focused_index() {
            Some(f) => f == i,
            None => false,
        };
        let style = self.select_node_style(styles, node.disabled, selected);
        let indent = self.get_indent(node.depth);
        let x1 = (indent.as_str().len() % 0x10000) as u16;
        let mut x: u16 = x1;
        let marker = if self.show_icons {
            let m = self.get_expand_icon(i);
            x = ((x as u32 + (m.len() % 0x10000) as u32) % 0x10000) as u16;
            Some(owned(m))
        } else {
            None
        };
        let icon_x = x;
        let icon = match &node.icon {
            Some(ic) => {
                x = ((x as u32 + (ic.as_str().len() % 0x10000) as u32) % 0x10000) as u16;
                x = ((x as u32 + 1) % 0x10000) as u16;
                Some(owned(ic.as_str()))
            },
            None => None,
        };
        let avail = content_width.saturating_sub(x);
        let label = truncate_text(node.label.as_str(), avail);
        TreeRow { y, style, fill: selected, indent, marker, marker_x: x1, icon, icon_x, label, label_x: x }
    }
}

/// Left moves the selection to the selected row's parent: the row whose path
/// is the selected row's path with its last step taken off (same length less
/// one, same steps before it), and it does so whenever that row is shown.
pub proof fn law_left_selects_parent<T: TreeNode + Clone, M>(t: TreeView<T, M>)
    requires
        t.selection() matches Some(i) && (i as int) < t.rows().len() && t.rows()[i as int].path.len() > 1,
    ensures
        ({
            let p = t.rows()[t.selection().unwrap() as int].path;
            &&& t.parent_target() matches Some(j) ==> {
                &&& 0 <= j < t.rows().len()
                &&& t.rows()[j].path.len() == p.len() - 1
                &&& forall|k: int| 0 <= k < p.len() - 1 ==> #[trigger] t.rows()[j].path[k] == p[k]
            }
            &&& (exists|j: int| 0 <= j < t.rows().len() && (#[trigger] t.rows()[j]).path.len() == p.len() - 1
                && forall|k: int| 0 <= k < p.len() - 1 ==> #[trigger] t.rows()[j].path[k] == p[k])
                ==> t.parent_target() is Some
        }),
{
    let p = t.rows()[t.selection().unwrap() as int].path;
    lemma_path_pos_finds(t.rows(), p.drop_last());
    if exists|j: int| 0 <= j < t.rows().len() && (#[trigger] t.rows()[j]).path.len() == p.len() - 1
        && forall|k: int| 0 <= k < p.len() - 1 ==> #[trigger] t.rows()[j].path[k] == p[k] {
        let j = choose|j: int| 0 <= j < t.rows().len() && (#[trigger] t.rows()[j]).path.len() == p.len() - 1
            && forall|k: int| 0 <= k < p.len() - 1 ==> #[trigger] t.rows()[j].path[k] == p[k];
        assert(t.rows()[j].path =~= p.drop_last());
    }
}

} // verus!
