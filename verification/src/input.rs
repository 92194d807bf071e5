//! What a keystroke means while the overlay is armed.

use vstd::prelude::*;

use crate::labels::{
    chars_of, display_glyph, display_glyphs, glyph_of, glyphs_of, LabelAssignment,
};
use crate::window::Address;

verus! {

/// Where one keystroke leaves an armed overlay.
#[derive(Debug, PartialEq, Eq)]
pub enum KeyOutcome {
    /// The key named a label on screen: focus goes to the window at this
    /// address and the session ends.
    Focused(Address),
    /// The key asked to leave: the session ends without a change of focus.
    Cancelled,
    /// The key meant nothing: the overlay stays armed.
    Armed,
}

/// The name under which the toolkit reports the key that cancels.
pub open spec fn escape_key() -> Seq<char> {
    seq!['E', 's', 'c', 'a', 'p', 'e']
}

/// Where the key named `key` leaves an overlay armed with `assignment`, for
/// labels drawn from `alphabet`.
///
/// A key of one character that the alphabet holds selects the window that the
/// character was assigned to; where it was assigned to none, nothing happens.
/// Of all other keys only the one that cancels has an effect.
pub open spec fn key_outcome(
    assignment: Map<char, Address>,
    key: Seq<char>,
    alphabet: Seq<char>,
) -> KeyOutcome {
    if key.len() == 1 && alphabet.contains(key[0]) {
        if assignment.contains_key(key[0]) {
            KeyOutcome::Focused(assignment[key[0]])
        } else {
            KeyOutcome::Armed
        }
    } else if key == escape_key() {
        KeyOutcome::Cancelled
    } else {
        KeyOutcome::Armed
    }
}

/// `i` is the first place at which `glyphs` holds `shown` and the alphabet
/// has a character.
pub open spec fn is_first_lookalike(
    alphabet: Seq<char>,
    glyphs: Seq<char>,
    shown: char,
    i: int,
) -> bool {
    &&& 0 <= i < alphabet.len()
    &&& i < glyphs.len()
    &&& glyphs[i] == shown
    &&& forall|j: int| 0 <= j < i ==> #[trigger] glyphs[j] != shown
}

/// The character of the alphabet that a typed character stands for, given
/// the glyph `shown` of the typed character and the glyphs of the alphabet,
/// place by place: the typed character itself where the alphabet holds it,
/// else the first character of the alphabet with the glyph `shown`, else the
/// typed character.
pub open spec fn canonical_among(
    c: char,
    shown: char,
    alphabet: Seq<char>,
    glyphs: Seq<char>,
) -> char {
    if alphabet.contains(c) {
        c
    } else if exists|i: int| is_first_lookalike(alphabet, glyphs, shown, i) {
        alphabet[choose|i: int| is_first_lookalike(alphabet, glyphs, shown, i)]
    } else {
        c
    }
}

/// The character of the alphabet that a typed character stands for: itself
/// where the alphabet holds it, else the first character of the alphabet that
/// is shown as the same glyph, else itself.
pub open spec fn canonical(c: char, alphabet: Seq<char>) -> char {
    canonical_among(c, glyph_of(c), alphabet, glyphs_of(alphabet))
}

/// A key name with its case brought in line with the alphabet. Only names of
/// one character are touched.
pub open spec fn normalized(key: Seq<char>, alphabet: Seq<char>) -> Seq<char> {
    if key.len() == 1 {
        seq![canonical(key[0], alphabet)]
    } else {
        key
    }
}

/// Where a keystroke leaves an armed overlay: the outcome of the key named
/// `key` once its case is brought in line with the alphabet.
pub open spec fn keypress_outcome(
    assignment: Map<char, Address>,
    key: Seq<char>,
    alphabet: Seq<char>,
) -> KeyOutcome {
    key_outcome(assignment, normalized(key, alphabet), alphabet)
}

/// A typed character and what it stands for are shown as the same glyph, and
/// a character of the alphabet stands for itself.
pub proof fn lemma_canonical_same_glyph(c: char, alphabet: Seq<char>)
    ensures
        glyph_of(canonical(c, alphabet)) == glyph_of(c),
        alphabet.contains(c) ==> canonical(c, alphabet) == c,
        canonical(c, alphabet) != c ==> alphabet.contains(canonical(c, alphabet)),
{
    let glyphs = glyphs_of(alphabet);
    if !alphabet.contains(c) && exists|i: int|
        is_first_lookalike(alphabet, glyphs, glyph_of(c), i) {
        let i = choose|i: int| is_first_lookalike(alphabet, glyphs, glyph_of(c), i);
        assert(alphabet[i] == canonical(c, alphabet));
        assert(glyphs[i] == glyph_of(alphabet[i]));
    }
}

/// Whether the alphabet holds `c`.
fn holds(alphabet: &Vec<char>, c: char) -> (r: bool)
    ensures
        r == alphabet@.contains(c),
{
    let mut i: usize = 0;
    while i < alphabet.len()
        invariant
            i <= alphabet.len(),
            forall|j: int| 0 <= j < i ==> alphabet@[j] != c,
        decreases alphabet.len() - i,
    {
        if alphabet[i] == c {
            return true;
        }
        i += 1;
    }
    false
}

/// Whether `key` is the name of the key that cancels.
fn is_escape(key: &Vec<char>) -> (r: bool)
    ensures
        r == (key@ == escape_key()),
{
    if key.len() == 6 && key[0] == 'E' && key[1] == 's' && key[2] == 'c' && key[3] == 'a'
        && key[4] == 'p' && key[5] == 'e' {
        assert(key@ =~= escape_key());
        true
    } else {
        false
    }
}

/// The transition of the armed overlay on a key name that is taken as it is,
/// spelled out: a character in another case than the alphabet has it is
/// another key.
pub fn transition(
    assignment: &LabelAssignment,
    key: &Vec<char>,
    alphabet: &Vec<char>,
) -> (r: KeyOutcome)
    ensures
        r == key_outcome(assignment@, key@, alphabet@),
{
    if key.len() == 1 && holds(alphabet, key[0]) {
        match assignment.get(key[0]) {
            Some(address) => KeyOutcome::Focused(address.clone()),
            None => KeyOutcome::Armed,
        }
    } else if is_escape(key) {
        KeyOutcome::Cancelled
    } else {
        KeyOutcome::Armed
    }
}

/// Finds the character of the alphabet that the typed character `c` stands
/// for, given the glyph `shown` of `c` and the glyphs of the alphabet, place
/// by place.
pub fn find_canonical(c: char, shown: char, alphabet: &Vec<char>, glyphs: &Vec<char>) -> (r: char)
    ensures
        r == canonical_among(c, shown, alphabet@, glyphs@),
{
    if holds(alphabet, c) {
        return c;
    }
    let mut i: usize = 0;
    while i < alphabet.len() && i < glyphs.len()
        invariant
            i <= alphabet.len(),
            i <= glyphs.len(),
            !alphabet@.contains(c),
            forall|j: int| 0 <= j < i ==> #[trigger] glyphs@[j] != shown,
        decreases alphabet.len() - i,
    {
        if glyphs[i] == shown {
            proof {
                assert(is_first_lookalike(alphabet@, glyphs@, shown, i as int));
                let k = choose|k: int| is_first_lookalike(alphabet@, glyphs@, shown, k);
                if k < i {
                    assert(glyphs@[k] != shown);
                } else if i < k {
                    assert(glyphs@[i as int] != shown);
                }
            }
            return alphabet[i];
        }
        i += 1;
    }
    c
}

/// Brings the case of a typed character in line with the alphabet.
pub fn canonical_char(c: char, alphabet: &Vec<char>) -> (r: char)
    ensures
        r == canonical(c, alphabet@),
{
    let glyphs = display_glyphs(alphabet);
    find_canonical(c, display_glyph(c), alphabet, &glyphs)
}

/// Decides what the key named `key` does to an overlay that is armed with
/// `key_to_window_id`, for labels drawn from `labels`.
///
/// The case of a key of one character is brought in line with the alphabet
/// first, so that a letter typed with the shift key held selects the label
/// that the letter without it selects. After that the key is matched against
/// the alphabet as it stands.
pub fn handle_keypress(
    key_to_window_id: &LabelAssignment,
    key: &str,
    labels: &str,
) -> (r: KeyOutcome)
    ensures
        r == keypress_outcome(key_to_window_id@, key@, labels@),
{
    let alphabet = chars_of(labels);
    let name = chars_of(key);
    if name.len() == 1 {
        let mut single: Vec<char> = Vec::new();
        single.push(canonical_char(name[0], &alphabet));
        assert(single@ =~= normalized(key@, labels@));
        transition(key_to_window_id, &single, &alphabet)
    } else {
        transition(key_to_window_id, &name, &alphabet)
    }
}

} // verus!
