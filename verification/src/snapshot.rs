//! Which windows an activation offers, and in what order.

use vstd::prelude::*;
use vstd::seq_lib::{lemma_multiset_commutative, to_multiset_contains};

use crate::window::{addresses_distinct, window_of, Client, Window};

verus! {

/// The workspace id that stands for "no active workspace is known".
pub const NO_WORKSPACE: i32 = -1;

/// The workspace of the active window, or `NO_WORKSPACE` without one.
pub open spec fn active_workspace_of(active: Option<Client>) -> i32 {
    match active {
        Some(client) => client.workspace,
        None => NO_WORKSPACE,
    }
}

/// The windows that a client list is shown as, in the order of the list.
pub open spec fn windows_of(clients: Seq<Client>) -> Seq<Window> {
    clients.map_values(|client: Client| window_of(client))
}

/// Picks out the windows that sit on `workspace`.
pub open spec fn on_workspace(workspace: i32) -> spec_fn(Window) -> bool {
    |win: Window| win.workspace == workspace
}

/// Where a workspace stands in the order of the overlay: the active workspace
/// stands before all others, which follow by rising id.
pub open spec fn rank(workspace: i32, active: i32) -> int {
    if workspace == active {
        i32::MIN - 1
    } else {
        workspace as int
    }
}

/// No window stands behind one of a workspace of higher rank.
pub open spec fn sorted_by_rank(windows: Seq<Window>, active: i32) -> bool {
    forall|i: int, j: int|
        0 <= i < j < windows.len() ==> rank((#[trigger] windows[i]).workspace, active)
            <= rank((#[trigger] windows[j]).workspace, active)
}

/// On every workspace, `output` holds the same windows in the same order as
/// `input`.
pub open spec fn same_within_workspaces(input: Seq<Window>, output: Seq<Window>) -> bool {
    forall|workspace: i32| #[trigger]
        output.filter(on_workspace(workspace)) == input.filter(on_workspace(workspace))
}

/// `output` is `input` put in the order of the overlay: the same windows,
/// arranged by the rank of their workspace, and within one workspace in the
/// order they had before.
pub open spec fn is_workspace_order(input: Seq<Window>, output: Seq<Window>, active: i32) -> bool {
    &&& output.to_multiset() == input.to_multiset()
    &&& sorted_by_rank(output, active)
    &&& same_within_workspaces(input, output)
}

/// `windows` is the snapshot of an activation for which the compositor
/// reported the active window `active` and the client list `clients`.
///
/// With `ignore_workspace` unset it holds the windows of the active workspace
/// in the order of the client list. With it set it holds every window, in the
/// order of the overlay.
pub open spec fn is_snapshot(
    active: Option<Client>,
    clients: Seq<Client>,
    ignore_workspace: bool,
    windows: Seq<Window>,
) -> bool {
    let workspace = active_workspace_of(active);
    if ignore_workspace {
        is_workspace_order(windows_of(clients), windows, workspace)
    } else {
        windows == windows_of(clients).filter(on_workspace(workspace))
    }
}

/// Putting windows in the order of the overlay neither adds nor drops one.
pub proof fn lemma_workspace_order_len(input: Seq<Window>, output: Seq<Window>, active: i32)
    requires
        is_workspace_order(input, output, active),
    ensures
        output.len() == input.len(),
{
    input.to_multiset_ensures();
    output.to_multiset_ensures();
}

/// The order of the overlay, spelled out: every window of the active
/// workspace stands before every window of another one, the windows of other
/// workspaces stand by rising workspace id, and the windows of one workspace
/// stand as they stood before.
pub proof fn lemma_active_first_then_rising(
    input: Seq<Window>,
    output: Seq<Window>,
    active: i32,
)
    requires
        is_workspace_order(input, output, active),
    ensures
        output.len() == input.len(),
        forall|i: int, j: int|
            0 <= i < output.len() && 0 <= j < output.len() && (#[trigger] output[i]).workspace
                == active && (#[trigger] output[j]).workspace != active ==> i < j,
        forall|i: int, j: int|
            0 <= i < j < output.len() && (#[trigger] output[i]).workspace != active && (
            #[trigger] output[j]).workspace != active ==> output[i].workspace
                <= output[j].workspace,
        forall|workspace: i32| #[trigger]
            output.filter(on_workspace(workspace)) == input.filter(on_workspace(workspace)),
{
    lemma_workspace_order_len(input, output, active);
    assert forall|i: int, j: int|
        0 <= i < output.len() && 0 <= j < output.len() && (#[trigger] output[i]).workspace
            == active && (#[trigger] output[j]).workspace != active implies i < j by {
        if j < i {
            assert(rank(output[j].workspace, active) <= rank(output[i].workspace, active));
        }
    }
}

/// Two sequences of one length that are both sorted by rank and agree on
/// every workspace are the same sequence.
proof fn lemma_sorted_agreeing_equal(first: Seq<Window>, second: Seq<Window>, active: i32)
    requires
        first.len() == second.len(),
        sorted_by_rank(first, active),
        sorted_by_rank(second, active),
        same_within_workspaces(first, second),
    ensures
        first == second,
    decreases first.len(),
{
    if first.len() == 0 {
        assert(first =~= second);
    } else {
        let n = first.len() as int;
        let x = first.last();
        let y = second.last();
        let a = first.drop_last();
        let b = second.drop_last();
        assert(first =~= a.push(x));
        assert(second =~= b.push(y));
        // the last windows sit on one workspace
        let px = on_workspace(x.workspace);
        let py = on_workspace(y.workspace);
        assert(second.filter(px) == first.filter(px));
        assert(second.filter(py) == first.filter(py));
        first.lemma_filter_contains(px, n - 1);
        second.lemma_filter_contains_rev(px, x);
        let k = choose|k: int| 0 <= k < second.len() && second[k] == x;
        assert(rank(second[k].workspace, active) <= rank(second[n - 1].workspace, active));
        second.lemma_filter_contains(py, n - 1);
        first.lemma_filter_contains_rev(py, y);
        let l = choose|l: int| 0 <= l < first.len() && first[l] == y;
        assert(rank(first[l].workspace, active) <= rank(first[n - 1].workspace, active));
        assert(x.workspace == y.workspace);
        // so they are one window, and what stands before them agrees too
        a.lemma_filter_push(x, px);
        b.lemma_filter_push(y, px);
        assert(a.filter(px).push(x).last() == b.filter(px).push(y).last());
        assert(x == y);
        assert forall|workspace: i32| #[trigger]
            b.filter(on_workspace(workspace)) == a.filter(on_workspace(workspace)) by {
            let p = on_workspace(workspace);
            assert(second.filter(p) == first.filter(p));
            a.lemma_filter_push(x, p);
            b.lemma_filter_push(y, p);
            if p(x) {
                assert(a.filter(p).push(x).drop_last() =~= a.filter(p));
                assert(b.filter(p).push(y).drop_last() =~= b.filter(p));
            }
        }
        assert(sorted_by_rank(a, active)) by {
            assert forall|i: int, j: int| 0 <= i < j < a.len() implies rank(
                (#[trigger] a[i]).workspace,
                active,
            ) <= rank((#[trigger] a[j]).workspace, active) by {
                assert(a[i] == first[i] && a[j] == first[j]);
            }
        }
        assert(sorted_by_rank(b, active)) by {
            assert forall|i: int, j: int| 0 <= i < j < b.len() implies rank(
                (#[trigger] b[i]).workspace,
                active,
            ) <= rank((#[trigger] b[j]).workspace, active) by {
                assert(b[i] == second[i] && b[j] == second[j]);
            }
        }
        lemma_sorted_agreeing_equal(a, b, active);
    }
}

/// A snapshot has one order of the overlay and no other.
pub proof fn lemma_workspace_order_unique(
    input: Seq<Window>,
    first: Seq<Window>,
    second: Seq<Window>,
    active: i32,
)
    requires
        is_workspace_order(input, first, active),
        is_workspace_order(input, second, active),
    ensures
        first == second,
{
    lemma_workspace_order_len(input, first, active);
    lemma_workspace_order_len(input, second, active);
    assert forall|workspace: i32| #[trigger]
        second.filter(on_workspace(workspace)) == first.filter(on_workspace(workspace)) by {
        assert(first.filter(on_workspace(workspace)) == input.filter(on_workspace(workspace)));
    }
    lemma_sorted_agreeing_equal(first, second, active);
}

/// No two clients of a list share an address.
pub open spec fn client_addresses_distinct(clients: Seq<Client>) -> bool {
    forall|i: int, j: int|
        0 <= i < j < clients.len() ==> (#[trigger] clients[i]).address@
            != (#[trigger] clients[j]).address@
}

/// Leaving windows out does not make two of the others share an address.
proof fn lemma_filter_keeps_addresses_distinct(
    windows: Seq<Window>,
    pred: spec_fn(Window) -> bool,
)
    requires
        addresses_distinct(windows),
    ensures
        addresses_distinct(windows.filter(pred)),
    decreases windows.len(),
{
    reveal(Seq::filter);
    if windows.len() > 0 {
        let front = windows.drop_last();
        let kept = front.filter(pred);
        assert(addresses_distinct(front)) by {
            assert forall|i: int, j: int| 0 <= i < j < front.len() implies
                (#[trigger] front[i]).address@ != (#[trigger] front[j]).address@ by {
                assert(front[i] == windows[i] && front[j] == windows[j]);
            }
        }
        lemma_filter_keeps_addresses_distinct(front, pred);
        if pred(windows.last()) {
            let all = kept.push(windows.last());
            assert forall|i: int, j: int| 0 <= i < j < all.len() implies
                (#[trigger] all[i]).address@ != (#[trigger] all[j]).address@ by {
                if j == kept.len() {
                    front.lemma_filter_contains_rev(pred, kept[i]);
                    let k = choose|k: int| 0 <= k < front.len() && front[k] == kept[i];
                    assert(windows[k] == kept[i]);
                    assert(windows[windows.len() - 1] == all[j]);
                } else {
                    assert(all[i] == kept[i] && all[j] == kept[j]);
                }
            }
        }
    }
}

/// The snapshot of a client list without a repeated address has no repeated
/// address either.
pub proof fn lemma_snapshot_addresses_distinct(
    active: Option<Client>,
    clients: Seq<Client>,
    ignore_workspace: bool,
    windows: Seq<Window>,
)
    requires
        client_addresses_distinct(clients),
        is_snapshot(active, clients, ignore_workspace, windows),
    ensures
        addresses_distinct(windows),
{
    let input = windows_of(clients);
    assert(addresses_distinct(input)) by {
        assert forall|i: int, j: int| 0 <= i < j < input.len() implies
            (#[trigger] input[i]).address@ != (#[trigger] input[j]).address@ by {
            assert(input[i].address == clients[i].address);
            assert(input[j].address == clients[j].address);
        }
    }
    if ignore_workspace {
        assert(input.no_duplicates());
        input.lemma_multiset_has_no_duplicates();
        windows.lemma_multiset_has_no_duplicates_conv();
        assert forall|i: int, j: int| 0 <= i < j < windows.len() implies
            (#[trigger] windows[i]).address@ != (#[trigger] windows[j]).address@ by {
            assert(windows.contains(windows[i]) && windows.contains(windows[j]));
            to_multiset_contains(windows, windows[i]);
            to_multiset_contains(windows, windows[j]);
            to_multiset_contains(input, windows[i]);
            to_multiset_contains(input, windows[j]);
            let p = choose|p: int| 0 <= p < input.len() && input[p] == windows[i];
            let q = choose|q: int| 0 <= q < input.len() && input[q] == windows[j];
            assert(windows[i] != windows[j]);
            if p < q {
                assert(input[p].address@ != input[q].address@);
            } else if q < p {
                assert(input[q].address@ != input[p].address@);
            }
        }
    } else {
        lemma_filter_keeps_addresses_distinct(
            input,
            on_workspace(active_workspace_of(active)),
        );
    }
}

/// Putting a window behind everything of its own or a lower rank, and in
/// front of everything of a higher rank, keeps the order of the overlay.
proof fn lemma_insert_keeps_order(
    seen: Seq<Window>,
    placed: Seq<Window>,
    win: Window,
    at: int,
    active: i32,
)
    requires
        is_workspace_order(seen, placed, active),
        0 <= at <= placed.len(),
        forall|m: int|
            0 <= m < at ==> rank((#[trigger] placed[m]).workspace, active) <= rank(
                win.workspace,
                active,
            ),
        forall|m: int|
            at <= m < placed.len() ==> rank(win.workspace, active) < rank(
                (#[trigger] placed[m]).workspace,
                active,
            ),
    ensures
        is_workspace_order(seen.push(win), placed.insert(at, win), active),
{
    let front = placed.subrange(0, at);
    let back = placed.subrange(at, placed.len() as int);
    let result = placed.insert(at, win);
    assert(placed =~= front + back);
    assert(result.to_multiset() =~= seen.push(win).to_multiset()) by {
        broadcast use vstd::seq_lib::group_to_multiset_ensures;

        lemma_multiset_commutative(front, back);
        lemma_multiset_commutative(front.push(win), back);
    }
    assert forall|workspace: i32| #[trigger]
        result.filter(on_workspace(workspace)) == seen.push(win).filter(
            on_workspace(workspace),
        ) by {
        let pred = on_workspace(workspace);
        assert(placed.filter(pred) == seen.filter(pred));
        Seq::filter_distributes_over_add(front, back, pred);
        Seq::filter_distributes_over_add(front.push(win), back, pred);
        front.lemma_filter_push(win, pred);
        seen.lemma_filter_push(win, pred);
        if pred(win) {
            assert forall|m: int| 0 <= m < back.len() implies !pred(#[trigger] back[m]) by {
                assert(back[m] == placed[at + m]);
            }
            back.lemma_all_neg_filter_empty(pred);
            assert(back.filter(pred) =~= Seq::<Window>::empty());
            assert(front.filter(pred).push(win) + back.filter(pred) =~= (front.filter(pred)
                + back.filter(pred)).push(win));
        }
    }
    assert forall|i: int, j: int| 0 <= i < j < result.len() implies rank(
        (#[trigger] result[i]).workspace,
        active,
    ) <= rank((#[trigger] result[j]).workspace, active) by {
        let a = if i < at {
            placed[i]
        } else if i == at {
            win
        } else {
            placed[i - 1]
        };
        let b = if j < at {
            placed[j]
        } else if j == at {
            win
        } else {
            placed[j - 1]
        };
        assert(result[i] == a);
        assert(result[j] == b);
    }
}

/// Reads the active workspace off the active window.
pub fn active_workspace(active: &Option<Client>) -> (workspace: i32)
    ensures
        workspace == active_workspace_of(*active),
{
    match active {
        Some(client) => client.workspace,
        None => NO_WORKSPACE,
    }
}

/// Turns each client of the list into its window.
pub fn convert_clients(clients: Vec<Client>) -> (windows: Vec<Window>)
    ensures
        windows@ == windows_of(clients@),
{
    let ghost all = clients@;
    let mut windows: Vec<Window> = Vec::new();
    for client in it: clients
        invariant
            it.seq() == all,
            windows@ == windows_of(it.seq().take(it.index() as int)),
    {
        windows.push(Window::from(client));
        assert(windows@ =~= windows_of(it.seq().take(it.index() + 1)));
    }
    assert(all.take(all.len() as int) =~= all);
    windows
}

/// Keeps the windows of one workspace, in the order they come in.
pub fn keep_workspace(windows: Vec<Window>, workspace: i32) -> (kept: Vec<Window>)
    ensures
        kept@ == windows@.filter(on_workspace(workspace)),
{
    let ghost all = windows@;
    let mut kept: Vec<Window> = Vec::new();
    proof {
        all.take(0).lemma_all_neg_filter_empty(on_workspace(workspace));
        assert(all.take(0).filter(on_workspace(workspace)) =~= kept@);
    }
    for win in it: windows
        invariant
            it.seq() == all,
            kept@ == it.seq().take(it.index() as int).filter(on_workspace(workspace)),
    {
        proof {
            let seen = it.seq().take(it.index() as int);
            seen.lemma_filter_push(win, on_workspace(workspace));
            assert(it.seq().take(it.index() + 1) =~= seen.push(win));
        }
        if win.workspace == workspace {
            kept.push(win);
        }
    }
    assert(all.take(all.len() as int) =~= all);
    kept
}

/// Computes the rank of a workspace.
fn rank_of(workspace: i32, active: i32) -> (r: i64)
    ensures
        r == rank(workspace, active),
{
    if workspace == active {
        i32::MIN as i64 - 1
    } else {
        workspace as i64
    }
}

/// Puts the windows in the order of the overlay: those of the active
/// workspace first, then the others by rising workspace id. Windows of one
/// workspace keep the order they come in.
pub fn order_by_workspace(windows: Vec<Window>, active: i32) -> (ordered: Vec<Window>)
    ensures
        is_workspace_order(windows@, ordered@, active),
{
    let ghost all = windows@;
    let mut ordered: Vec<Window> = Vec::new();
    assert(all.take(0) =~= ordered@);
    for win in it: windows
        invariant
            it.seq() == all,
            is_workspace_order(it.seq().take(it.index() as int), ordered@, active),
    {
        let own = rank_of(win.workspace, active);
        let mut at: usize = 0;
        while at < ordered.len() && rank_of(ordered[at].workspace, active) <= own
            invariant
                at <= ordered.len(),
                own == rank(win.workspace, active),
                forall|m: int|
                    0 <= m < at ==> rank((#[trigger] ordered@[m]).workspace, active) <= own,
            decreases ordered.len() - at,
        {
            at += 1;
        }
        proof {
            assert forall|m: int| at <= m < ordered@.len() implies own < rank(
                (#[trigger] ordered@[m]).workspace,
                active,
            ) by {
                assert(rank(ordered@[at as int].workspace, active) <= rank(
                    ordered@[m].workspace,
                    active,
                ));
            }
            lemma_insert_keeps_order(
                it.seq().take(it.index() as int),
                ordered@,
                win,
                at as int,
                active,
            );
            assert(it.seq().take(it.index() + 1) =~= it.seq().take(it.index() as int).push(win));
        }
        ordered.insert(at, win);
    }
    assert(all.take(all.len() as int) =~= all);
    ordered
}

/// Builds the snapshot of one activation from what the compositor reported:
/// the active window, if there is one, and the full client list.
///
/// The second component is the active workspace. With `ignore_workspace`
/// unset, the snapshot holds the windows of that workspace in the order of the
/// client list. With it set, the snapshot holds every window, in the order of
/// the overlay.
pub fn get_windows(
    active: Option<Client>,
    clients: Vec<Client>,
    ignore_workspace: bool,
) -> (r: (Vec<Window>, i32))
    ensures
        r.1 == active_workspace_of(active),
        is_snapshot(active, clients@, ignore_workspace, r.0@),
{
    let workspace = active_workspace(&active);
    let windows = convert_clients(clients);
    if ignore_workspace {
        (order_by_workspace(windows, workspace), workspace)
    } else {
        (keep_workspace(windows, workspace), workspace)
    }
}

} // verus!
