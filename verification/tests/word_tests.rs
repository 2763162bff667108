use mecano::textbox::{print_word, Cell};
use mecano::word::{CharState, MecanoWord, WordState};

fn type_all(word: &mut MecanoWord, text: &str) {
    for c in text.chars() {
        word.type_char(c);
        word.push_duration(0);
    }
}

#[test]
fn test_print_word() {
    let mut word = MecanoWord::from_str("prueba");

    let incorrect = "pruebaeeee";
    type_all(&mut word, incorrect);

    assert_eq!(word.iter().len(), 6);
    let cells: Vec<Cell> = print_word(&word, 8);
    assert!(cells.len() <= 8);
}

#[test]
fn word_slots_and_overflow() {
    // word "cat", typed "caxt": the first two slots right, the third wrong,
    // and one overflow character
    let mut word = MecanoWord::from_str("cat");
    word.select();
    type_all(&mut word, "caxt");

    let states: Vec<CharState> = word.iter().iter().map(|mc| mc.state).collect();
    assert_eq!(states, vec![CharState::Right, CharState::Right, CharState::Wrong]);
    assert_eq!(word.excess().clone(), vec!['t']);
    let punct = word.get_punct();
    assert_eq!(punct.right, 2);
    assert_eq!(punct.wrong, 1);
    assert_eq!(punct.excess, 1);
}

#[test]
fn word_conservation_when_finalized() {
    let mut word = MecanoWord::from_str("house");
    word.select();
    type_all(&mut word, "hou");
    word.unselect();

    let punct = word.get_punct();
    assert_eq!(punct.right + punct.wrong + punct.missed, punct.total);
    assert_eq!(punct.missed, 2);
    assert_eq!(punct.excess as usize, word.excess().len());
}

#[test]
fn finalize_twice_changes_nothing() {
    let mut word = MecanoWord::from_str("tree");
    word.select();
    type_all(&mut word, "tr");
    word.unselect();
    let first = word.get_punct().clone();
    word.unselect();
    assert_eq!(&first, word.get_punct());
}

#[test]
fn delete_with_nothing_typed_is_noop() {
    let mut word = MecanoWord::from_str("still");
    word.select();
    word.delete();
    let punct = word.get_punct();
    assert_eq!(punct.right, 0);
    assert_eq!(punct.wrong, 0);
    assert_eq!(punct.excess, 0);
    assert_eq!(word.excess().len(), 0);
}

#[test]
fn delete_undoes_judgement_and_merges_durations() {
    let mut word = MecanoWord::from_str("ab");
    word.select();
    word.type_char('a');
    word.push_duration(100);
    word.type_char('x');
    word.push_duration(40);
    assert_eq!(word.get_punct().wrong, 1);

    word.delete();
    let punct = word.get_punct();
    assert_eq!(punct.wrong, 0);
    assert_eq!(punct.right, 1);
    assert_eq!(punct.key_times, vec![140]);
}

#[test]
fn cursor_stays_in_bounds() {
    let mut word = MecanoWord::from_str("go");
    word.select();
    type_all(&mut word, "gogogo");
    for _ in 0..10 {
        word.delete();
    }
    assert!(word.select_char_idx <= word.iter().len());
    assert!(word.excess().is_empty());
}

#[test]
fn print_word_full_width() {
    // plenty of room: every slot, the overflow, and one separator space
    let mut word = MecanoWord::from_str("ab");
    word.select();
    type_all(&mut word, "abx");
    let cells = print_word(&word, 20);
    let chars: Vec<char> = cells.iter().map(|c| c.c).collect();
    assert_eq!(chars, vec!['a', 'b', 'x', ' ']);
    assert_eq!(cells[2].color, CharState::Wrong);
    assert_eq!(cells[3].c, ' ');
}

#[test]
fn print_word_truncates_overflow() {
    // budget 8 for "prueba" + 4 overflow: slots, overflow cut to the last
    // character, one space, never past the budget
    let mut word = MecanoWord::from_str("prueba");
    type_all(&mut word, "pruebaeeee");
    let cells = print_word(&word, 8);
    assert_eq!(cells.len(), 8);
    let chars: Vec<char> = cells.iter().map(|c| c.c).collect();
    assert_eq!(chars[..6], ['p', 'r', 'u', 'e', 'b', 'a']);
}

#[test]
fn print_word_tight_budget_closes_on_last_slot() {
    let mut word = MecanoWord::from_str("cat");
    word.select();
    type_all(&mut word, "ca");
    let cells = print_word(&word, 3);
    assert_eq!(cells.len(), 3);
    assert_eq!(cells[2].c, 't');
    assert_eq!(cells[2].color, CharState::Right);
}

#[test]
fn unselect_classifies_pass_and_fail() {
    let mut right = MecanoWord::from_str("ok");
    right.select();
    type_all(&mut right, "ok");
    right.unselect();
    assert_eq!(right.get_punct().state, WordState::Right);

    let mut wrong = MecanoWord::from_str("ok");
    wrong.select();
    type_all(&mut wrong, "ko");
    wrong.unselect();
    assert_eq!(wrong.get_punct().state, WordState::Wrong);
}
