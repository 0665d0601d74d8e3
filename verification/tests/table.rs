use turing_sim::machine::{Direction, Instruction, TuringMachine};

fn table() -> TuringMachine {
    TuringMachine::new(
        "lookup fixture".to_string(),
        vec![
            Instruction::new("A".to_string(), '0', "B".to_string(), '1', 1),
            Instruction::new("A".to_string(), '1', "A".to_string(), '0', 0),
            Instruction::new("B".to_string(), '0', "A".to_string(), '0', -1),
        ],
        "A".to_string(),
        vec!["B".to_string()],
    )
}

#[test]
fn lookup_finds_a_present_pair() {
    let m = table();
    let ins = m.lookup(&"A".to_string(), '1').expect("rule is in the table");
    assert_eq!(ins.next_state, "A".to_string());
    assert_eq!(ins.new_char, '0');
    assert_eq!(ins.move_direction, Direction::Stay);
}

#[test]
fn lookup_answers_none_for_an_absent_pair() {
    let m = table();
    assert!(m.lookup(&"B".to_string(), '1').is_none());
    assert!(m.lookup(&"C".to_string(), '0').is_none());
}

#[test]
fn lookup_takes_the_first_of_duplicate_keys() {
    let m = TuringMachine::new(
        "duplicate keys".to_string(),
        vec![
            Instruction::new("A".to_string(), '0', "FIRST".to_string(), '1', 1),
            Instruction::new("A".to_string(), '0', "SECOND".to_string(), '0', -1),
        ],
        "A".to_string(),
        vec![],
    );
    let ins = m.lookup(&"A".to_string(), '0').expect("a rule matches");
    assert_eq!(ins.next_state, "FIRST".to_string());
}

#[test]
fn instruction_new_decodes_each_direction() {
    let left = Instruction::new("A".to_string(), '0', "A".to_string(), '0', -1);
    let stay = Instruction::new("A".to_string(), '0', "A".to_string(), '0', 0);
    let right = Instruction::new("A".to_string(), '0', "A".to_string(), '0', 1);
    assert_eq!(left.move_direction, Direction::Left);
    assert_eq!(stay.move_direction, Direction::Stay);
    assert_eq!(right.move_direction, Direction::Right);
    assert_eq!(left.current_state, "A".to_string());
    assert_eq!(left.current_char, '0');
}
