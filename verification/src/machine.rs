//! The machine description: transition rules and the instruction table.

use vstd::prelude::*;

verus! {

/// Direction the head moves after a rule fires.  Only the three directions
/// exist; an instruction can never move the head by more than one cell.
#[derive(Clone, Copy, Debug, PartialEq, Eq, Structural)]
pub enum Direction {
    Left,
    Stay,
    Right,
}

/// The head displacement a direction stands for.
pub open spec fn direction_offset(d: Direction) -> int {
    match d {
        Direction::Left => -1,
        Direction::Stay => 0,
        Direction::Right => 1,
    }
}

/// A single transition rule:
/// `(current_state, current_char) -> (next_state, new_char, move_direction)`.
#[derive(Clone, Debug, PartialEq)]
pub struct Instruction {
    pub current_state: String,
    pub current_char: char,
    pub next_state: String,
    pub new_char: char,
    pub move_direction: Direction,
}

/// The mathematical value of an [`Instruction`]: state labels as character
/// sequences, symbols and direction as themselves.
pub ghost struct InstructionView {
    pub current_state: Seq<char>,
    pub current_char: char,
    pub next_state: Seq<char>,
    pub new_char: char,
    pub move_direction: Direction,
}

impl View for Instruction {
    type V = InstructionView;

    open spec fn view(&self) -> InstructionView {
        InstructionView {
            current_state: self.current_state@,
            current_char: self.current_char,
            next_state: self.next_state@,
            new_char: self.new_char,
            move_direction: self.move_direction,
        }
    }
}

impl Instruction {
    /// Builds a rule from the raw encoding of a direction: `-1` moves the
    /// head left, `0` keeps it in place, `1` moves it right.  Any other
    /// integer is not a direction, so the caller must not pass one.
    pub fn new(
        current_state: String,
        current_char: char,
        next_state: String,
        new_char: char,
        move_direction: i32,
    ) -> (r: Self)
        requires
            -1 <= move_direction <= 1,
        ensures
            r@.current_state == current_state@,
            r@.current_char == current_char,
            r@.next_state == next_state@,
            r@.new_char == new_char,
            direction_offset(r@.move_direction) == move_direction as int,
    {
        let dir = if move_direction < 0 {
            Direction::Left
        } else if move_direction == 0 {
            Direction::Stay
        } else {
            Direction::Right
        };
        Instruction { current_state, current_char, next_state, new_char, move_direction: dir }
    }
}

/// A deterministic single-tape Turing machine: a description used only for
/// display, an ordered instruction table, the initial control state, and the
/// set of accepting states.
#[derive(Debug)]
pub struct TuringMachine {
    pub description: String,
    pub instructions: Vec<Instruction>,
    pub initial_state: String,
    pub final_states: Vec<String>,
}

/// The mathematical value of a [`TuringMachine`].
pub ghost struct MachineView {
    pub description: Seq<char>,
    pub instructions: Seq<InstructionView>,
    pub initial_state: Seq<char>,
    pub final_states: Seq<Seq<char>>,
}

impl View for TuringMachine {
    type V = MachineView;

    open spec fn view(&self) -> MachineView {
        MachineView {
            description: self.description@,
            instructions: self.instructions@.map(|i: int, ins: Instruction| ins@),
            initial_state: self.initial_state@,
            final_states: self.final_states@.map(|i: int, s: String| s@),
        }
    }
}

/// Whether a rule fires on the given control state and read symbol.
pub open spec fn rule_matches(ins: InstructionView, state: Seq<char>, symbol: char) -> bool {
    ins.current_state == state && ins.current_char == symbol
}

/// The rule an instruction table answers for a `(state, symbol)` query: the
/// first rule, in construction order, whose key matches, or `None` when no
/// rule matches.  Taking the first match is the documented policy for tables
/// that hold a duplicate key; a well-formed table holds at most one rule per
/// key, and then the first match is the only match.
pub open spec fn spec_lookup(
    instrs: Seq<InstructionView>,
    state: Seq<char>,
    symbol: char,
) -> Option<InstructionView>
    decreases instrs.len(),
{
    if instrs.len() == 0 {
        None
    } else if rule_matches(instrs[0], state, symbol) {
        Some(instrs[0])
    } else {
        spec_lookup(instrs.drop_first(), state, symbol)
    }
}

impl TuringMachine {
    /// Builds a machine.  No validation is performed: a table with a
    /// duplicate `(state, symbol)` key, an initial state that appears in no
    /// rule, or an empty set of final states all construct successfully and
    /// surface only through the behaviour of `lookup` and of the engine.
    pub fn new(
        description: String,
        instructions: Vec<Instruction>,
        initial_state: String,
        final_states: Vec<String>,
    ) -> (r: Self)
        ensures
            r@.description == description@,
            r@.instructions == instructions@.map(|i: int, ins: Instruction| ins@),
            r@.initial_state == initial_state@,
            r@.final_states == final_states@.map(|i: int, s: String| s@),
    {
        TuringMachine { description, instructions, initial_state, final_states }
    }

    /// Whether `s` is one of the machine's accepting states.
    pub fn is_final_state(&self, s: &String) -> (r: bool)
        ensures
            r == self@.final_states.contains(s@),
    {
        let ghost labels = self@.final_states;
        let mut i: usize = 0;
        while i < self.final_states.len()
            invariant
                i <= self.final_states@.len(),
                labels == self@.final_states,
                labels.len() == self.final_states@.len(),
                forall|k: int| 0 <= k < i ==> labels[k] != s@,
            decreases self.final_states@.len() - i,
        {
            proof {
                assert(labels[i as int] == self.final_states@[i as int]@);
            }
            if self.final_states[i] == *s {
                proof {
                    assert(labels.contains(s@)) by {
                        assert(labels[i as int] == s@);
                    }
                }
                return true;
            }
            i = i + 1;
        }
        false
    }

    /// Scans the instruction table for the first rule that fires on
    /// `(state, symbol)`; answers exactly what [`spec_lookup`] says.
    pub fn lookup<'a>(&'a self, state: &String, symbol: char) -> (r: Option<&'a Instruction>)
        ensures
            match r {
                Some(ins) => spec_lookup(self@.instructions, state@, symbol) == Some(ins@),
                None => spec_lookup(self@.instructions, state@, symbol) is None,
            },
    {
        let ghost all = self@.instructions;
        proof {
            assert(all.skip(0) =~= all);
        }
        let mut idx: usize = 0;
        while idx < self.instructions.len()
            invariant
                idx <= self.instructions@.len(),
                all == self@.instructions,
                all.len() == self.instructions@.len(),
                spec_lookup(all, state@, symbol) == spec_lookup(
                    all.skip(idx as int),
                    state@,
                    symbol,
                ),
            decreases self.instructions@.len() - idx,
        {
            let ins = &self.instructions[idx];
            proof {
                assert(all.skip(idx as int)[0] == ins@);
            }
            if ins.current_state == *state && ins.current_char == symbol {
                return Some(ins);
            }
            proof {
                assert(all.skip(idx as int).drop_first() =~= all.skip(idx as int + 1));
            }
            idx = idx + 1;
        }
        proof {
            assert(all.skip(idx as int) =~= Seq::<InstructionView>::empty());
        }
        None
    }
}

/// Lookup correctness, the presence half: for a `(state, symbol)` key that is
/// present exactly once in the table, lookup answers that rule.
pub proof fn lemma_lookup_present_once(
    instrs: Seq<InstructionView>,
    state: Seq<char>,
    symbol: char,
    i: int,
)
    requires
        0 <= i < instrs.len(),
        rule_matches(instrs[i], state, symbol),
        forall|j: int| 0 <= j < instrs.len() && j != i ==> !rule_matches(
            instrs[j],
            state,
            symbol,
        ),
    ensures
        spec_lookup(instrs, state, symbol) == Some(instrs[i]),
    decreases instrs.len(),
{
    if i == 0 {
    } else {
        assert(forall|j: int|
            0 <= j < instrs.drop_first().len() && j != i - 1 ==> instrs.drop_first()[j]
                == instrs[j + 1] && !rule_matches(instrs.drop_first()[j], state, symbol));
        lemma_lookup_present_once(instrs.drop_first(), state, symbol, i - 1);
    }
}

/// Lookup correctness, the absence half: for a `(state, symbol)` key that
/// matches no rule in the table, lookup answers `None`.
pub proof fn lemma_lookup_absent(instrs: Seq<InstructionView>, state: Seq<char>, symbol: char)
    requires
        forall|j: int| 0 <= j < instrs.len() ==> !rule_matches(instrs[j], state, symbol),
    ensures
        spec_lookup(instrs, state, symbol) is None,
    decreases instrs.len(),
{
    if instrs.len() == 0 {
    } else {
        assert(forall|j: int|
            0 <= j < instrs.drop_first().len() ==> instrs.drop_first()[j] == instrs[j + 1]
                && !rule_matches(instrs.drop_first()[j], state, symbol));
        lemma_lookup_absent(instrs.drop_first(), state, symbol);
    }
}

/// The first-match policy: the first rule, in construction order, whose key
/// matches is the one returned, whatever rules stand behind it.  A duplicate
/// key in a malformed table is therefore resolved deterministically, never
/// silently in an arbitrary way.
pub proof fn lemma_lookup_first_match(
    instrs: Seq<InstructionView>,
    state: Seq<char>,
    symbol: char,
    i: int,
)
    requires
        0 <= i < instrs.len(),
        rule_matches(instrs[i], state, symbol),
        forall|j: int| 0 <= j < i ==> !rule_matches(instrs[j], state, symbol),
    ensures
        spec_lookup(instrs, state, symbol) == Some(instrs[i]),
    decreases instrs.len(),
{
    if i == 0 {
    } else {
        assert(forall|j: int|
            0 <= j < i - 1 ==> instrs.drop_first()[j] == instrs[j + 1] && !rule_matches(
                instrs.drop_first()[j],
                state,
                symbol,
            ));
        lemma_lookup_first_match(instrs.drop_first(), state, symbol, i - 1);
    }
}

} // verus!
