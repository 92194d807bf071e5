use hyprland_easyfocus::input::{
    canonical_char, find_canonical, handle_keypress, transition, KeyOutcome,
};
use hyprland_easyfocus::labels::{chars_of, LabelAssignment};
use hyprland_easyfocus::window::Address;

fn target(text: &str) -> Address {
    Address::new(text.to_string())
}

fn two_labels() -> LabelAssignment {
    let mut assignment = LabelAssignment::new();
    assignment.insert('a', target("0x1"));
    assignment.insert('s', target("0x2"));
    assignment
}

#[test]
fn a_key_that_names_a_label_focuses_its_window() {
    let assignment = two_labels();
    assert_eq!(handle_keypress(&assignment, "a", "asdf"), KeyOutcome::Focused(target("0x1")));
    assert_eq!(handle_keypress(&assignment, "s", "asdf"), KeyOutcome::Focused(target("0x2")));
}

#[test]
fn a_key_of_the_alphabet_without_a_window_is_ignored() {
    let assignment = two_labels();
    assert_eq!(handle_keypress(&assignment, "d", "asdf"), KeyOutcome::Armed);
    assert_eq!(handle_keypress(&assignment, "f", "asdf"), KeyOutcome::Armed);
}

#[test]
fn escape_cancels() {
    let assignment = two_labels();
    assert_eq!(handle_keypress(&assignment, "Escape", "asdf"), KeyOutcome::Cancelled);
    assert_eq!(handle_keypress(&LabelAssignment::new(), "Escape", ""), KeyOutcome::Cancelled);
}

#[test]
fn escape_cancels_even_if_the_alphabet_holds_its_letters() {
    let mut assignment = LabelAssignment::new();
    assignment.insert('E', target("0x1"));
    assert_eq!(handle_keypress(&assignment, "Escape", "Escap"), KeyOutcome::Cancelled);
    assert_eq!(handle_keypress(&assignment, "E", "Escap"), KeyOutcome::Focused(target("0x1")));
}

#[test]
fn other_keys_are_ignored() {
    let assignment = two_labels();
    for key in ["x", "Return", "Shift_L", "escape", "ESCAPE", "Escape ", "", "1", "semicolon"] {
        assert_eq!(handle_keypress(&assignment, key, "asdf"), KeyOutcome::Armed);
    }
}

#[test]
fn a_name_of_several_characters_is_no_label_even_if_the_alphabet_spells_it() {
    let assignment = two_labels();
    assert_eq!(handle_keypress(&assignment, "as", "asdf"), KeyOutcome::Armed);
    assert_eq!(handle_keypress(&assignment, "asdf", "asdf"), KeyOutcome::Armed);
}

#[test]
fn a_key_recorded_outside_the_alphabet_is_ignored() {
    let mut assignment = LabelAssignment::new();
    assignment.insert('q', target("0x1"));
    assert_eq!(handle_keypress(&assignment, "q", "asdf"), KeyOutcome::Armed);
}

#[test]
fn the_raw_transition_takes_the_key_as_it_is() {
    let assignment = two_labels();
    let alphabet = chars_of("asdf");
    assert_eq!(
        transition(&assignment, &chars_of("a"), &alphabet),
        KeyOutcome::Focused(target("0x1"))
    );
    assert_eq!(transition(&assignment, &chars_of("A"), &alphabet), KeyOutcome::Armed);
    assert_eq!(transition(&assignment, &chars_of("d"), &alphabet), KeyOutcome::Armed);
    assert_eq!(transition(&assignment, &chars_of("Escape"), &alphabet), KeyOutcome::Cancelled);
    assert_eq!(transition(&assignment, &chars_of("as"), &alphabet), KeyOutcome::Armed);
    assert_eq!(transition(&assignment, &Vec::new(), &alphabet), KeyOutcome::Armed);
}

#[test]
fn a_shifted_letter_whose_label_is_on_screen_focuses_its_window() {
    let mut assignment = LabelAssignment::new();
    assignment.insert('a', target("0x1"));
    assert_eq!(handle_keypress(&assignment, "A", "asdf"), KeyOutcome::Focused(target("0x1")));
    assert_eq!(handle_keypress(&assignment, "a", "asdf"), KeyOutcome::Focused(target("0x1")));
}

#[test]
fn a_shifted_letter_resolves_to_the_label_of_the_letter() {
    let assignment = two_labels();
    assert_eq!(handle_keypress(&assignment, "A", "asdf"), KeyOutcome::Focused(target("0x1")));
    assert_eq!(handle_keypress(&assignment, "S", "asdf"), KeyOutcome::Focused(target("0x2")));
    assert_eq!(handle_keypress(&assignment, "D", "asdf"), KeyOutcome::Armed);
    assert_eq!(handle_keypress(&assignment, "X", "asdf"), KeyOutcome::Armed);
}

#[test]
fn an_unshifted_letter_resolves_to_an_upper_case_alphabet() {
    let mut assignment = LabelAssignment::new();
    assignment.insert('A', target("0x1"));
    assert_eq!(handle_keypress(&assignment, "a", "AB"), KeyOutcome::Focused(target("0x1")));
    assert_eq!(handle_keypress(&assignment, "A", "AB"), KeyOutcome::Focused(target("0x1")));
}

#[test]
fn resolving_leaves_other_keys_as_they_are() {
    let assignment = two_labels();
    assert_eq!(handle_keypress(&assignment, "a", "asdf"), KeyOutcome::Focused(target("0x1")));
    assert_eq!(handle_keypress(&assignment, "Escape", "asdf"), KeyOutcome::Cancelled);
    assert_eq!(handle_keypress(&assignment, "ESCAPE", "asdf"), KeyOutcome::Armed);
    assert_eq!(handle_keypress(&assignment, "Return", "asdf"), KeyOutcome::Armed);
    assert_eq!(handle_keypress(&assignment, "", "asdf"), KeyOutcome::Armed);
    assert_eq!(handle_keypress(&assignment, "1", "asdf"), KeyOutcome::Armed);
}

#[test]
fn a_character_of_the_alphabet_stands_for_itself() {
    let alphabet = vec!['a', 'A', 'b'];
    assert_eq!(canonical_char('a', &alphabet), 'a');
    assert_eq!(canonical_char('A', &alphabet), 'A');
    assert_eq!(canonical_char('b', &alphabet), 'b');
}

#[test]
fn a_character_in_another_case_stands_for_the_first_that_looks_alike() {
    assert_eq!(canonical_char('B', &vec!['a', 'b', 'c']), 'b');
    assert_eq!(canonical_char('b', &vec!['A', 'B', 'C']), 'B');
    assert_eq!(canonical_char('É', &vec!['e', 'é']), 'é');
}

#[test]
fn a_character_unknown_to_the_alphabet_stands_for_itself() {
    assert_eq!(canonical_char('x', &vec!['a', 'b']), 'x');
    assert_eq!(canonical_char('1', &vec!['a', 'b']), '1');
    assert_eq!(canonical_char('a', &Vec::new()), 'a');
}

#[test]
fn the_first_character_with_the_typed_glyph_is_found() {
    let alphabet = vec!['a', 'b', 'c'];
    let glyphs = vec!['A', 'B', 'C'];
    assert_eq!(find_canonical('B', 'B', &alphabet, &glyphs), 'b');
    assert_eq!(find_canonical('C', 'C', &alphabet, &glyphs), 'c');
    assert_eq!(find_canonical('x', 'A', &vec!['p', 'q'], &vec!['A', 'A']), 'p');
}

#[test]
fn a_character_of_the_alphabet_is_found_as_itself_whatever_the_glyphs() {
    assert_eq!(find_canonical('b', 'A', &vec!['a', 'b'], &vec!['A', 'B']), 'b');
    assert_eq!(find_canonical('b', 'B', &vec!['a', 'b'], &vec!['B', 'B']), 'b');
}

#[test]
fn without_a_matching_glyph_the_typed_character_is_found() {
    assert_eq!(find_canonical('x', 'X', &vec!['a', 'b'], &vec!['A', 'B']), 'x');
    assert_eq!(find_canonical('x', 'X', &Vec::new(), &Vec::new()), 'x');
}

#[test]
fn glyphs_beyond_the_alphabet_are_not_looked_at() {
    assert_eq!(find_canonical('x', 'X', &vec!['a'], &vec!['A', 'X']), 'x');
    assert_eq!(find_canonical('x', 'B', &vec!['a', 'b'], &vec!['A']), 'x');
}
