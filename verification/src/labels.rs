//! Which window gets which label.
//!
//! Labels are drawn from the configured alphabet in order, one per window that
//! takes a label. The character as drawn is the key a keystroke is matched
//! against; the glyph shown on screen is its upper-case form.

use std::collections::HashMap;

use vstd::prelude::*;

use crate::window::{addresses_distinct, Address, Window};

verus! {

/// Whether `c` has the Unicode property Alphabetic, as `char::is_alphabetic`
/// reports it.
pub uninterp spec fn alphabetic(c: char) -> bool;

/// The upper-case mapping of `c`, as `char::to_uppercase` yields it.
pub uninterp spec fn uppercase(c: char) -> Seq<char>;

/// Calls `char::is_alphabetic`. Nothing is claimed of the answer but that it
/// depends on the character alone.
#[verifier::external_body]
fn is_alphabetic(c: char) -> (r: bool)
    ensures
        r == alphabetic(c),
{
    c.is_alphabetic()
}

/// Calls `char::to_uppercase` and collects what it yields. Nothing is claimed
/// of the characters but that they depend on `c` alone.
#[verifier::external_body]
fn to_uppercase(c: char) -> (r: Vec<char>)
    ensures
        r@ == uppercase(c),
{
    c.to_uppercase().collect()
}

/// The glyph shown for a character of which it is known whether it is
/// alphabetic and what its upper-case mapping is: the first character of the
/// mapping if the character is alphabetic, and the character itself
/// otherwise.
pub open spec fn glyph_from(c: char, is_letter: bool, upper: Seq<char>) -> char {
    if is_letter && upper.len() > 0 {
        upper[0]
    } else {
        c
    }
}

/// The glyph shown for the label character `c`.
pub open spec fn glyph_of(c: char) -> char {
    glyph_from(c, alphabetic(c), uppercase(c))
}

/// The glyphs shown for the characters of an alphabet.
pub open spec fn glyphs_of(alphabet: Seq<char>) -> Seq<char> {
    alphabet.map_values(|c: char| glyph_of(c))
}

/// Picks the glyph shown for `c`, given whether `c` is alphabetic and what
/// its upper-case mapping is.
pub fn pick_glyph(c: char, is_letter: bool, upper: &Vec<char>) -> (g: char)
    ensures
        g == glyph_from(c, is_letter, upper@),
{
    if is_letter && upper.len() > 0 {
        upper[0]
    } else {
        c
    }
}

/// Computes the glyph shown for the label character `c`.
pub fn display_glyph(c: char) -> (g: char)
    ensures
        g == glyph_of(c),
{
    let upper = to_uppercase(c);
    pick_glyph(c, is_alphabetic(c), &upper)
}

/// Computes the glyphs shown for the characters of an alphabet.
pub fn display_glyphs(alphabet: &Vec<char>) -> (glyphs: Vec<char>)
    ensures
        glyphs@ == glyphs_of(alphabet@),
{
    let mut glyphs: Vec<char> = Vec::new();
    let mut i: usize = 0;
    while i < alphabet.len()
        invariant
            i <= alphabet.len(),
            glyphs@ == glyphs_of(alphabet@.take(i as int)),
        decreases alphabet.len() - i,
    {
        glyphs.push(display_glyph(alphabet[i]));
        assert(glyphs@ =~= glyphs_of(alphabet@.take(i + 1)));
        i += 1;
    }
    assert(alphabet@.take(i as int) =~= alphabet@);
    glyphs
}

/// Spells a string out as its characters.
pub fn chars_of(text: &str) -> (v: Vec<char>)
    ensures
        v@ == text@,
{
    let mut out: Vec<char> = Vec::new();
    for c in it: text.chars()
        invariant
            it.seq() == text@,
            out@ == it.seq().take(it.index() as int),
    {
        out.push(c);
        assert(out@ =~= it.seq().take(it.index() + 1));
    }
    assert(out@ =~= text@);
    out
}

/// One label: the key that selects it, the glyph that is shown for it, and
/// the place in the snapshot of the window it stands for.
#[derive(Debug, Clone, Copy, PartialEq, Eq, Structural)]
pub struct Label {
    pub key: char,
    pub glyph: char,
    pub window: usize,
}

/// Why no labels could be assigned.
#[derive(Debug, Clone, Copy, PartialEq, Eq, Structural)]
pub enum LabelError {
    /// More windows take a label than the alphabet has characters.
    AlphabetExhausted,
}

/// Whether a window is passed over when labels are handed out.
pub open spec fn skipped(win: Window, ignore_current: bool) -> bool {
    ignore_current && win.is_current
}

/// The places of the windows that take a label, in snapshot order.
pub open spec fn eligible(windows: Seq<Window>, ignore_current: bool) -> Seq<int>
    decreases windows.len(),
{
    if windows.len() == 0 {
        Seq::empty()
    } else {
        let before = eligible(windows.drop_last(), ignore_current);
        if skipped(windows.last(), ignore_current) {
            before
        } else {
            before.push(windows.len() - 1)
        }
    }
}

/// The label that the window at `place` gets when it is handed the character
/// `key`.
pub open spec fn label_for(key: char, place: int) -> Label {
    Label { key, glyph: glyph_of(key), window: place as usize }
}

/// The labels of a snapshot: the `k`-th window that takes a label gets the
/// `k`-th character of the alphabet.
pub open spec fn labelling(
    windows: Seq<Window>,
    alphabet: Seq<char>,
    ignore_current: bool,
) -> Seq<Label> {
    let places = eligible(windows, ignore_current);
    Seq::new(places.len(), |k: int| label_for(alphabet[k], places[k]))
}

/// The places that `eligible` lists are exactly those of the windows that are
/// not passed over, each once and in rising order.
pub proof fn lemma_eligible_places(windows: Seq<Window>, ignore_current: bool)
    ensures
        eligible(windows, ignore_current).len() <= windows.len(),
        forall|k: int|
            0 <= k < eligible(windows, ignore_current).len() ==> {
                let place = #[trigger] eligible(windows, ignore_current)[k];
                0 <= place < windows.len() && !skipped(windows[place], ignore_current)
            },
        forall|k: int, l: int|
            0 <= k < l < eligible(windows, ignore_current).len() ==> #[trigger] eligible(
                windows,
                ignore_current,
            )[k] < #[trigger] eligible(windows, ignore_current)[l],
        forall|i: int|
            0 <= i < windows.len() && !skipped(#[trigger] windows[i], ignore_current)
                ==> eligible(windows, ignore_current).contains(i),
    decreases windows.len(),
{
    let places = eligible(windows, ignore_current);
    if windows.len() > 0 {
        let front = windows.drop_last();
        let before = eligible(front, ignore_current);
        lemma_eligible_places(front, ignore_current);
        assert forall|i: int|
            0 <= i < windows.len() && !skipped(
                #[trigger] windows[i],
                ignore_current,
            ) implies places.contains(i) by {
            if i < front.len() {
                assert(front[i] == windows[i]);
                let k = choose|k: int| 0 <= k < before.len() && before[k] == i;
                assert(places[k] == i);
            } else {
                assert(places[places.len() - 1] == i);
            }
        }
        assert forall|k: int| 0 <= k < places.len() implies {
            let place = #[trigger] places[k];
            0 <= place < windows.len() && !skipped(windows[place], ignore_current)
        } by {
            if k < before.len() {
                assert(places[k] == before[k]);
                assert(front[before[k]] == windows[before[k]]);
            }
        }
    }
}

/// A longer snapshot never has fewer windows that take a label.
pub proof fn lemma_eligible_grows(windows: Seq<Window>, ignore_current: bool, n: int)
    requires
        0 <= n <= windows.len(),
    ensures
        eligible(windows.take(n), ignore_current).len() <= eligible(windows, ignore_current).len(),
    decreases windows.len(),
{
    if n == windows.len() {
        assert(windows.take(n) =~= windows);
    } else {
        assert(windows.drop_last().take(n) =~= windows.take(n));
        lemma_eligible_grows(windows.drop_last(), ignore_current, n);
    }
}

/// Where the alphabet has no character twice and the snapshot no address
/// twice, no key is given to two windows and no window gets two labels.
pub proof fn lemma_labels_distinct(
    windows: Seq<Window>,
    alphabet: Seq<char>,
    ignore_current: bool,
)
    requires
        windows.len() <= usize::MAX,
        alphabet.no_duplicates(),
        addresses_distinct(windows),
        eligible(windows, ignore_current).len() <= alphabet.len(),
    ensures
        forall|k: int, l: int|
            #![trigger
                labelling(windows, alphabet, ignore_current)[k],
                labelling(windows, alphabet, ignore_current)[l]]
            0 <= k < l < labelling(windows, alphabet, ignore_current).len() ==> {
                let a = labelling(windows, alphabet, ignore_current)[k];
                let b = labelling(windows, alphabet, ignore_current)[l];
                &&& a.key != b.key
                &&& a.window < b.window < windows.len()
                &&& windows[a.window as int].address@ != windows[b.window as int].address@
            },
{
    lemma_eligible_places(windows, ignore_current);
    let places = eligible(windows, ignore_current);
    let labels = labelling(windows, alphabet, ignore_current);
    assert forall|k: int, l: int|
        #![trigger labels[k], labels[l]]
        0 <= k < l < labels.len() implies {
        let a = labels[k];
        let b = labels[l];
        &&& a.key != b.key
        &&& a.window < b.window < windows.len()
        &&& windows[a.window as int].address@ != windows[b.window as int].address@
    } by {
        assert(places[k] < places[l]);
    }
}

/// Hands out the labels of a snapshot.
///
/// Windows are taken in snapshot order. With `ignore_current` set, the most
/// recently focused window is passed over and uses up no character. Every
/// other window gets the next character of `labels`. The call fails, and
/// assigns nothing, exactly when the alphabet is too short for the windows
/// that take a label.
pub fn assign_labels(
    windows: &Vec<Window>,
    labels: &str,
    ignore_current: bool,
) -> (r: Result<Vec<Label>, LabelError>)
    ensures
        match r {
            Ok(assigned) => {
                &&& eligible(windows@, ignore_current).len() <= labels@.len()
                &&& assigned@ == labelling(windows@, labels@, ignore_current)
            },
            Err(e) => {
                &&& eligible(windows@, ignore_current).len() > labels@.len()
                &&& e == LabelError::AlphabetExhausted
            },
        },
{
    let alphabet = chars_of(labels);
    let mut assigned: Vec<Label> = Vec::new();
    let mut i: usize = 0;
    assert(assigned@ =~= labelling(windows@.take(0), alphabet@, ignore_current));
    while i < windows.len()
        invariant
            i <= windows.len(),
            alphabet@ == labels@,
            assigned.len() <= alphabet.len(),
            assigned@ == labelling(windows@.take(i as int), alphabet@, ignore_current),
        decreases windows.len() - i,
    {
        let ghost seen = windows@.take(i as int);
        let ghost next = windows@.take(i + 1);
        let ghost before = assigned@;
        assert(next.drop_last() =~= seen);
        let win = &windows[i];
        if !(ignore_current && win.is_current) {
            if assigned.len() >= alphabet.len() {
                proof {
                    lemma_eligible_grows(windows@, ignore_current, i + 1);
                }
                return Err(LabelError::AlphabetExhausted);
            }
            let key = alphabet[assigned.len()];
            assigned.push(Label { key, glyph: display_glyph(key), window: i });
            assert(assigned@ == before.push(label_for(key, i as int)));
        }
        assert(assigned@ =~= labelling(next, alphabet@, ignore_current));
        i += 1;
    }
    assert(windows@.take(i as int) =~= windows@);
    Ok(assigned)
}

/// The keys of the labels on screen, each with the address of its window.
///
/// Recording a key that is already there replaces its address, so a key never
/// leads to two windows. Keys are kept by their code point.
#[derive(Debug)]
pub struct LabelAssignment {
    targets: HashMap<u32, Address>,
}

/// The code point of a character.
spec fn code(key: char) -> u32 {
    key as u32
}

/// No two characters share a code point.
proof fn lemma_code_tells_apart(first: char, second: char)
    ensures
        code(first) == code(second) ==> first == second,
{
    assert(code(first) as char == first);
    assert(code(second) as char == second);
}

/// The mapping by character that a mapping by code point stands for.
spec fn by_char(targets: Map<u32, Address>) -> Map<char, Address> {
    Map::new(|key: char| targets.contains_key(code(key)), |key: char| targets[code(key)])
}

impl View for LabelAssignment {
    type V = Map<char, Address>;

    closed spec fn view(&self) -> Map<char, Address> {
        by_char(self.targets@)
    }
}

impl LabelAssignment {
    /// An assignment without any key.
    pub fn new() -> (a: LabelAssignment)
        ensures
            a@ == Map::<char, Address>::empty(),
    {
        let a = LabelAssignment { targets: HashMap::new() };
        assert(a@ =~= Map::<char, Address>::empty());
        a
    }

    /// Records that `key` leads to `address`.
    pub fn insert(&mut self, key: char, address: Address)
        ensures
            final(self)@ == old(self)@.insert(key, address),
    {
        self.targets.insert(key as u32, address);
        assert forall|other: char| other != key implies #[trigger] code(other) != code(key) by {
            lemma_code_tells_apart(other, key);
        }
        assert(self@ =~= old(self)@.insert(key, address));
    }

    /// The address that `key` leads to, if it was recorded.
    pub fn get(&self, key: char) -> (r: Option<&Address>)
        ensures
            match r {
                Some(address) => self@.contains_key(key) && *address == self@[key],
                None => !self@.contains_key(key),
            },
    {
        let code = key as u32;
        self.targets.get(&code)
    }

    /// Whether `key` was recorded.
    pub fn contains_key(&self, key: char) -> (r: bool)
        ensures
            r == self@.contains_key(key),
    {
        let code = key as u32;
        self.targets.contains_key(&code)
    }
}

} // verus!
