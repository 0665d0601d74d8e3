use turing_sim::engine::{HaltStatus, SimulationOutcome};
use turing_sim::machine::{Direction, Instruction, TuringMachine};

fn chars(s: &str) -> Vec<char> {
    s.chars().collect()
}

/// The bit-flip machine: flips each bit of a binary input and accepts.
fn bit_flip_machine() -> TuringMachine {
    let instructions = vec![
        Instruction::new("Q0".to_string(), '0', "Q0".to_string(), '1', 1),
        Instruction::new("Q0".to_string(), '1', "Q0".to_string(), '0', 1),
        Instruction::new("Q0".to_string(), 'b', "Q1".to_string(), 'b', 1),
        Instruction::new("Q1".to_string(), 'b', "Q2".to_string(), 'b', -1),
        Instruction::new("Q1".to_string(), '1', "Q1".to_string(), '1', -1),
        Instruction::new("Q1".to_string(), '0', "Q1".to_string(), '0', -1),
    ];
    TuringMachine::new(
        "A Turing machine that flips the bits of a binary input".to_string(),
        instructions,
        "Q0".to_string(),
        vec!["Q2".to_string()],
    )
}

/// The copy machine: for a word w of a's, returns ww (a's written in place
/// of the markers on the way back).
fn copy_machine() -> TuringMachine {
    TuringMachine::new(
        "For word w returns ww".to_string(),
        vec![
            Instruction::new("q1".to_string(), 'a', "q2".to_string(), 'x', 1),
            Instruction::new("q1".to_string(), 'b', "qf".to_string(), 'b', 0),
            Instruction::new("q2".to_string(), 'a', "q2".to_string(), 'a', 1),
            Instruction::new("q2".to_string(), 'x', "q2".to_string(), 'x', 1),
            Instruction::new("q2".to_string(), 'b', "q3".to_string(), 'x', -1),
            Instruction::new("q3".to_string(), 'a', "q4".to_string(), 'a', -1),
            Instruction::new("q3".to_string(), 'x', "q3".to_string(), 'x', -1),
            Instruction::new("q3".to_string(), 'b', "q5".to_string(), 'b', 1),
            Instruction::new("q4".to_string(), 'a', "q4".to_string(), 'a', -1),
            Instruction::new("q4".to_string(), 'x', "q1".to_string(), 'x', 1),
            Instruction::new("q5".to_string(), 'x', "q5".to_string(), 'a', 1),
            Instruction::new("q5".to_string(), 'b', "qf".to_string(), 'b', 0),
        ],
        "q1".to_string(),
        vec!["qf".to_string()],
    )
}

#[test]
fn bit_flip_flips_1101() {
    let r: SimulationOutcome = bit_flip_machine().simulate("1101", 10_000);
    assert_eq!(r.output, chars("0010"));
    assert_eq!(r.status, HaltStatus::Accepted);
    assert_eq!(r.final_state, "Q2".to_string());
}

#[test]
fn bit_flip_flips_101() {
    let r = bit_flip_machine().simulate("101", 10_000);
    assert_eq!(r.output, chars("010"));
    assert_eq!(r.status, HaltStatus::Accepted);
}

#[test]
fn copy_machine_doubles_aaa() {
    let r = copy_machine().simulate("aaa", 10_000);
    assert_eq!(r.output, chars("aaaaaa"));
    assert_eq!(r.status, HaltStatus::Accepted);
    assert_eq!(r.final_state, "qf".to_string());
}

#[test]
fn empty_input_runs_on_blank_tape() {
    let r = bit_flip_machine().simulate("", 10_000);
    assert_eq!(r.output, chars(""));
    assert_eq!(r.status, HaltStatus::Accepted);
    assert_eq!(r.final_tape, chars("bbb"));
}

#[test]
fn unmatched_symbol_halts_stuck_at_step_zero() {
    let r = bit_flip_machine().simulate("2", 10_000);
    assert_eq!(r.status, HaltStatus::StuckNoTransition);
    assert_eq!(r.steps, 0);
    assert!(r.trace.is_empty());
    assert_eq!(r.output, chars("2"));
}

#[test]
fn two_runs_agree_in_every_field() {
    let m = bit_flip_machine();
    let r1 = m.simulate("1101", 10_000);
    let r2 = m.simulate("1101", 10_000);
    assert_eq!(r1, r2);
}

#[test]
fn trace_records_each_step_in_order() {
    let r = bit_flip_machine().simulate("1", 10_000);
    // one pass right over '1' and the boundary blank, one step back, accept
    assert_eq!(r.output, chars("0"));
    assert_eq!(r.steps as usize, r.trace.len());
    let first = &r.trace[0];
    assert_eq!(first.step, 0);
    assert_eq!(first.tape, chars("b1b"));
    assert_eq!(first.current_state, "Q0".to_string());
    assert_eq!(first.current_char, '1');
    assert_eq!(first.next_state, "Q0".to_string());
    assert_eq!(first.new_char, '0');
    assert_eq!(first.move_direction, Direction::Right);
    for (i, rec) in r.trace.iter().enumerate() {
        assert_eq!(rec.step as usize, i);
    }
}

#[test]
fn tape_grows_one_blank_at_the_high_end() {
    let r = bit_flip_machine().simulate("1", 10_000);
    // the tape starts as b1b; crossing the right boundary blank appends
    // exactly one more blank, and nothing ever grows on the left
    assert_eq!(r.trace[0].tape, chars("b1b"));
    assert_eq!(r.trace[1].tape, chars("b0b"));
    assert_eq!(r.trace[2].tape, chars("b0bb"));
    assert_eq!(r.final_tape, chars("b0bb"));
}

#[test]
fn stuck_halt_reports_where_the_head_stood() {
    let r = bit_flip_machine().simulate("2", 10_000);
    assert_eq!(r.status, HaltStatus::StuckNoTransition);
    assert_eq!(r.final_head, Some(1));
    assert_eq!(r.final_tape[1], '2');
    assert_eq!(r.final_state, "Q0".to_string());
}

#[test]
fn left_overrun_leaves_no_head_position() {
    let m = TuringMachine::new(
        "left".to_string(),
        vec![
            Instruction::new("Q0".to_string(), 'b', "Q1".to_string(), 'b', -1),
            Instruction::new("Q1".to_string(), 'b', "Q1".to_string(), 'b', -1),
        ],
        "Q0".to_string(),
        vec!["QF".to_string()],
    );
    let r = m.simulate("", 10_000);
    assert_eq!(r.status, HaltStatus::HeadLeftOverrun);
    assert_eq!(r.final_head, None);
}

#[test]
fn budget_runs_out_on_a_spinning_machine() {
    // a single rule that rewrites '1' in place forever; the final state is
    // never reached
    let m = TuringMachine::new(
        "spin".to_string(),
        vec![Instruction::new("Q0".to_string(), '1', "Q0".to_string(), '1', 0)],
        "Q0".to_string(),
        vec!["QF".to_string()],
    );
    let r = m.simulate("1", 25);
    assert_eq!(r.status, HaltStatus::StepBudgetExceeded);
    assert_eq!(r.steps, 25);
    assert_eq!(r.output, chars("1"));
}

#[test]
fn empty_final_state_set_never_accepts() {
    let m = TuringMachine::new(
        "no finals".to_string(),
        vec![Instruction::new("Q0".to_string(), '1', "Q1".to_string(), '1', 1)],
        "Q0".to_string(),
        Vec::new(),
    );
    let r = m.simulate("1", 10_000);
    // after the one rule fires, no rule matches the blank under the head
    assert_eq!(r.status, HaltStatus::StuckNoTransition);
    assert_eq!(r.steps, 1);
}

#[test]
fn left_overrun_is_its_own_halt() {
    // walk left off the start of the tape into a state that is not final
    let m = TuringMachine::new(
        "left".to_string(),
        vec![
            Instruction::new("Q0".to_string(), '1', "Q1".to_string(), '1', -1),
            Instruction::new("Q1".to_string(), 'b', "Q1".to_string(), 'b', -1),
        ],
        "Q0".to_string(),
        vec!["QF".to_string()],
    );
    let r = m.simulate("1", 10_000);
    assert_eq!(r.status, HaltStatus::HeadLeftOverrun);
    assert_eq!(r.steps, 2);
    assert_eq!(r.output, chars("1"));
}

#[test]
fn left_overrun_into_a_final_state_still_accepts() {
    // the move that leaves the tape also enters a final state: acceptance is
    // checked first, as in the bit-flip machine's last step
    let m = TuringMachine::new(
        "accept on the way out".to_string(),
        vec![
            Instruction::new("Q0".to_string(), '1', "Q1".to_string(), '1', -1),
            Instruction::new("Q1".to_string(), 'b', "QF".to_string(), 'b', -1),
        ],
        "Q0".to_string(),
        vec!["QF".to_string()],
    );
    let r = m.simulate("1", 10_000);
    assert_eq!(r.status, HaltStatus::Accepted);
    assert_eq!(r.final_state, "QF".to_string());
}

#[test]
fn initial_state_already_final_takes_no_step() {
    let m = TuringMachine::new(
        "done at once".to_string(),
        vec![Instruction::new("Q0".to_string(), '1', "Q0".to_string(), '0', 1)],
        "Q0".to_string(),
        vec!["Q0".to_string()],
    );
    let r = m.simulate("111", 10_000);
    assert_eq!(r.status, HaltStatus::Accepted);
    assert_eq!(r.steps, 0);
    assert!(r.trace.is_empty());
    assert_eq!(r.output, chars("111"));
}
