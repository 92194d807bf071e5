//! What the overlay shows for one snapshot.

use vstd::prelude::*;

use crate::config::{AppConfig, Position};
use crate::geometry::{indicator_origin, place_indicator};
use crate::labels::{
    assign_labels, eligible, label_for, labelling, lemma_eligible_places, lemma_labels_distinct,
    Label, LabelAssignment, LabelError,
};
use crate::window::{addresses_distinct, Address, Window};

verus! {

/// One thing on the overlay.
#[derive(Debug, PartialEq, Eq)]
pub enum Indicator {
    /// A label box over a window of the active workspace, with the screen
    /// position of its top-left corner.
    Badge { glyph: char, x: i64, y: i64, current: bool },
    /// A row in the list of windows that sit on other workspaces.
    Row { glyph: char, title: String },
}

/// The overlay of one activation: what is shown, and which key leads to
/// which window.
#[derive(Debug)]
pub struct Overlay {
    pub indicators: Vec<Indicator>,
    pub assignment: LabelAssignment,
}

/// `indicator` is what the overlay shows for `win` under the glyph `glyph`: a
/// row with the window's title if the window is not on the active workspace,
/// and else a label box at the place its anchor gives.
pub open spec fn indicates(
    indicator: Indicator,
    win: Window,
    glyph: char,
    active: i32,
    anchor: Position,
    box_size: i32,
) -> bool {
    if win.workspace != active {
        indicator == (Indicator::Row { glyph, title: win.title })
    } else {
        &&& indicator matches Indicator::Badge { glyph: shown, x, y, current }
        &&& shown == glyph
        &&& x == indicator_origin(win, anchor, box_size as int).0
        &&& y == indicator_origin(win, anchor, box_size as int).1
        &&& current == win.is_current
    }
}

/// `indicators` is what the overlay shows for the labels `labels` of the
/// snapshot `windows`: one indicator per label, in the order of the labels.
pub open spec fn shows(
    indicators: Seq<Indicator>,
    windows: Seq<Window>,
    labels: Seq<Label>,
    active: i32,
    anchor: Position,
    box_size: i32,
) -> bool {
    &&& indicators.len() == labels.len()
    &&& forall|k: int|
        0 <= k < labels.len() ==> indicates(
            #[trigger] indicators[k],
            windows[labels[k].window as int],
            labels[k].glyph,
            active,
            anchor,
            box_size,
        )
}

/// The mapping from keys to addresses that the labels `labels` of the
/// snapshot `windows` stand for. Where two labels share a key, the later one
/// takes it.
pub open spec fn assignment_of(windows: Seq<Window>, labels: Seq<Label>) -> Map<char, Address>
    decreases labels.len(),
{
    if labels.len() == 0 {
        Map::empty()
    } else {
        assignment_of(windows, labels.drop_last()).insert(
            labels.last().key,
            windows[labels.last().window as int].address,
        )
    }
}

/// Where no two labels share a key, every key leads to the window of its own
/// label.
pub proof fn lemma_assignment_resolves(windows: Seq<Window>, labels: Seq<Label>, k: int)
    requires
        0 <= k < labels.len(),
        forall|i: int, j: int|
            0 <= i < j < labels.len() ==> (#[trigger] labels[i]).key != (#[trigger] labels[j]).key,
    ensures
        assignment_of(windows, labels).contains_key(labels[k].key),
        assignment_of(windows, labels)[labels[k].key] == windows[labels[k].window as int].address,
    decreases labels.len(),
{
    if k < labels.len() - 1 {
        let front = labels.drop_last();
        assert(front[k] == labels[k]);
        assert(labels[k].key != labels[labels.len() - 1].key);
        assert forall|i: int, j: int| 0 <= i < j < front.len() implies (#[trigger] front[i]).key
            != (#[trigger] front[j]).key by {
            assert(front[i] == labels[i]);
            assert(front[j] == labels[j]);
        }
        lemma_assignment_resolves(windows, front, k);
    }
}

/// Only the keys of the labels lead anywhere.
pub proof fn lemma_assignment_keys(windows: Seq<Window>, labels: Seq<Label>, key: char)
    ensures
        assignment_of(windows, labels).contains_key(key) <==> exists|k: int|
            0 <= k < labels.len() && (#[trigger] labels[k]).key == key,
    decreases labels.len(),
{
    if labels.len() > 0 {
        let front = labels.drop_last();
        lemma_assignment_keys(windows, front, key);
        if assignment_of(windows, labels).contains_key(key) {
            if labels.last().key == key {
                assert(labels[labels.len() - 1].key == key);
            } else {
                let k = choose|k: int| 0 <= k < front.len() && (#[trigger] front[k]).key == key;
                assert(labels[k].key == key);
            }
        }
        if exists|k: int| 0 <= k < labels.len() && (#[trigger] labels[k]).key == key {
            let k = choose|k: int| 0 <= k < labels.len() && (#[trigger] labels[k]).key == key;
            if k < front.len() {
                assert(front[k].key == key);
            }
        }
    }
}

/// The mapping from keys to addresses of the overlay of a snapshot.
pub open spec fn overlay_assignment(
    windows: Seq<Window>,
    alphabet: Seq<char>,
    ignore_current: bool,
) -> Map<char, Address> {
    assignment_of(windows, labelling(windows, alphabet, ignore_current))
}

/// Where the alphabet has no character twice and the snapshot no address
/// twice, every key of the overlay leads to the window of its own label, and
/// no two keys lead to one window.
pub proof fn lemma_assignment_is_one_to_one(
    windows: Seq<Window>,
    alphabet: Seq<char>,
    ignore_current: bool,
)
    requires
        windows.len() <= usize::MAX,
        alphabet.no_duplicates(),
        addresses_distinct(windows),
        eligible(windows, ignore_current).len() <= alphabet.len(),
    ensures
        forall|k: int|
            #![trigger labelling(windows, alphabet, ignore_current)[k]]
            0 <= k < labelling(windows, alphabet, ignore_current).len() ==> {
                let label = labelling(windows, alphabet, ignore_current)[k];
                &&& label.key == alphabet[k]
                &&& overlay_assignment(windows, alphabet, ignore_current).contains_key(label.key)
                &&& overlay_assignment(windows, alphabet, ignore_current)[label.key]
                    == windows[label.window as int].address
            },
        forall|c: char, d: char|
            #![trigger
                overlay_assignment(windows, alphabet, ignore_current)[c],
                overlay_assignment(windows, alphabet, ignore_current)[d]]
            overlay_assignment(windows, alphabet, ignore_current).contains_key(c)
                && overlay_assignment(windows, alphabet, ignore_current).contains_key(d) && c != d
                ==> overlay_assignment(windows, alphabet, ignore_current)[c]@
                != overlay_assignment(windows, alphabet, ignore_current)[d]@,
{
    let labels = labelling(windows, alphabet, ignore_current);
    let assignment = overlay_assignment(windows, alphabet, ignore_current);
    lemma_labels_distinct(windows, alphabet, ignore_current);
    assert forall|k: int| #![trigger labels[k]] 0 <= k < labels.len() implies {
        &&& labels[k].key == alphabet[k]
        &&& assignment.contains_key(labels[k].key)
        &&& assignment[labels[k].key] == windows[labels[k].window as int].address
    } by {
        lemma_assignment_resolves(windows, labels, k);
    }
    assert forall|c: char, d: char|
        #![trigger assignment[c], assignment[d]]
        assignment.contains_key(c) && assignment.contains_key(d) && c != d implies assignment[c]@
        != assignment[d]@ by {
        lemma_assignment_keys(windows, labels, c);
        lemma_assignment_keys(windows, labels, d);
        let k = choose|k: int| 0 <= k < labels.len() && (#[trigger] labels[k]).key == c;
        let l = choose|l: int| 0 <= l < labels.len() && (#[trigger] labels[l]).key == d;
        lemma_assignment_resolves(windows, labels, k);
        lemma_assignment_resolves(windows, labels, l);
        if k < l {
            assert(windows[labels[k].window as int].address@
                != windows[labels[l].window as int].address@);
        } else {
            assert(windows[labels[l].window as int].address@
                != windows[labels[k].window as int].address@);
        }
    }
}

/// Builds what the overlay shows for `win` under `glyph`.
pub fn indicator_for(
    win: &Window,
    glyph: char,
    active_workspace: i32,
    config: &AppConfig,
) -> (r: Indicator)
    ensures
        indicates(r, *win, glyph, active_workspace, config.label_position, config.box_size),
{
    if win.workspace != active_workspace {
        Indicator::Row { glyph, title: win.title.clone() }
    } else {
        let origin = place_indicator(win, config.label_position, config.box_size);
        Indicator::Badge { glyph, x: origin.0, y: origin.1, current: win.is_current }
    }
}

/// Builds the overlay of a snapshot: assigns the labels, places a label box
/// over every labelled window of the active workspace, lists the labelled
/// windows of other workspaces, and records which key leads to which window.
///
/// The call fails, with nothing built, exactly when the alphabet is too short
/// for the windows that take a label.
pub fn build_overlay(
    windows: &Vec<Window>,
    active_workspace: i32,
    config: &AppConfig,
) -> (r: Result<Overlay, LabelError>)
    ensures
        match r {
            Ok(overlay) => {
                let labels = labelling(windows@, config.labels@, config.ignore_current);
                &&& eligible(windows@, config.ignore_current).len() <= config.labels@.len()
                &&& shows(
                    overlay.indicators@,
                    windows@,
                    labels,
                    active_workspace,
                    config.label_position,
                    config.box_size,
                )
                &&& overlay.assignment@ == assignment_of(windows@, labels)
            },
            Err(e) => {
                &&& eligible(windows@, config.ignore_current).len() > config.labels@.len()
                &&& e == LabelError::AlphabetExhausted
            },
        },
{
    let labels = match assign_labels(windows, config.labels.as_str(), config.ignore_current) {
        Ok(labels) => labels,
        Err(e) => {
            return Err(e);
        },
    };
    let mut indicators: Vec<Indicator> = Vec::new();
    let mut assignment = LabelAssignment::new();
    let mut k: usize = 0;
    proof {
        lemma_eligible_places(windows@, config.ignore_current);
        assert forall|m: int| 0 <= m < labels.len() implies (#[trigger] labels@[m]).window
            < windows.len() by {
            let place = eligible(windows@, config.ignore_current)[m];
            assert(0 <= place < windows@.len());
            assert(labels@[m] == label_for(config.labels@[m], place));
        }
        assert(labels@.take(0) =~= Seq::<Label>::empty());
    }
    while k < labels.len()
        invariant
            k <= labels.len(),
            labels@ == labelling(windows@, config.labels@, config.ignore_current),
            forall|m: int| 0 <= m < labels.len() ==> (#[trigger] labels@[m]).window < windows.len(),
            shows(
                indicators@,
                windows@,
                labels@.take(k as int),
                active_workspace,
                config.label_position,
                config.box_size,
            ),
            assignment@ == assignment_of(windows@, labels@.take(k as int)),
        decreases labels.len() - k,
    {
        let label = labels[k];
        let win = &windows[label.window];
        indicators.push(indicator_for(win, label.glyph, active_workspace, config));
        assignment.insert(label.key, win.address.clone());
        proof {
            let next = labels@.take(k + 1);
            assert(next.drop_last() =~= labels@.take(k as int));
            assert(next.last() == label);
            assert forall|m: int| 0 <= m < next.len() implies indicates(
                #[trigger] indicators@[m],
                windows@[next[m].window as int],
                next[m].glyph,
                active_workspace,
                config.label_position,
                config.box_size,
            ) by {
                if m < k {
                    assert(next[m] == labels@.take(k as int)[m]);
                }
            }
        }
        k += 1;
    }
    assert(labels@.take(k as int) =~= labels@);
    Ok(Overlay { indicators, assignment })
}

} // verus!
