//! The simulation engine: runs a machine on an input string to completion
//! and reports the final tape, a halting status, and an ordered trace.

use vstd::prelude::*;
use crate::machine::{
    Direction, InstructionView, MachineView, TuringMachine, direction_offset, spec_lookup,
};
use crate::tape::{BLANK, initial_tape, spec_initial_tape, spec_trim_blanks, trim_blanks};

verus! {

/// How a run came to its end.
///
/// A machine itself only ever stops by acceptance or for want of a matching
/// rule.  The two remaining statuses are this engine's documented hardening
/// choices: a head that steps left past the start of the tape halts the run
/// as `HeadLeftOverrun` instead of indexing out of range, and a run that
/// exhausts its caller-supplied step budget halts as `StepBudgetExceeded`
/// instead of spinning forever.
#[derive(Clone, Copy, Debug, PartialEq, Eq, Structural)]
pub enum HaltStatus {
    /// The control state entered the set of final states.
    Accepted,
    /// No rule matches the current `(state, symbol)` pair.  A reportable
    /// halting condition, not a fault: the tape built so far is returned.
    StuckNoTransition,
    /// A rule moved the head left of the first tape cell while the machine
    /// was not yet in a final state.
    HeadLeftOverrun,
    /// The step budget ran out with the machine still able to move.
    StepBudgetExceeded,
}

/// One line of the execution trace, recorded just before a rule fires: the
/// step index, the whole tape as it stood, the control state and symbol that
/// selected the rule, and what the rule does.
#[derive(Clone, Debug, PartialEq)]
pub struct TraceRecord {
    pub step: u64,
    pub tape: Vec<char>,
    pub current_state: String,
    pub current_char: char,
    pub next_state: String,
    pub new_char: char,
    pub move_direction: Direction,
}

/// The mathematical value of a [`TraceRecord`].
pub ghost struct TraceRecordView {
    pub step: nat,
    pub tape: Seq<char>,
    pub current_state: Seq<char>,
    pub current_char: char,
    pub next_state: Seq<char>,
    pub new_char: char,
    pub move_direction: Direction,
}

impl View for TraceRecord {
    type V = TraceRecordView;

    open spec fn view(&self) -> TraceRecordView {
        TraceRecordView {
            step: self.step as nat,
            tape: self.tape@,
            current_state: self.current_state@,
            current_char: self.current_char,
            next_state: self.next_state@,
            new_char: self.new_char,
            move_direction: self.move_direction,
        }
    }
}

/// The views of a sequence of trace records, in order.
pub open spec fn trace_views(trace: Seq<TraceRecord>) -> Seq<TraceRecordView> {
    trace.map(|i: int, r: TraceRecord| r@)
}

/// Everything a finished run determines: the final tape, the final control
/// state, the final head position (`-1` after a left overrun), the halting
/// status, the number of steps executed, and the trace.
pub ghost struct SpecOutcome {
    pub tape: Seq<char>,
    pub state: Seq<char>,
    pub head: int,
    pub status: HaltStatus,
    pub steps: nat,
    pub trace: Seq<TraceRecordView>,
}

/// The symbol under the head.
pub open spec fn head_symbol(tape: Seq<char>, head: int) -> char {
    tape[head]
}

/// What one firing rule does to the tape and the head: the cell under the
/// head is rewritten, the head moves by the rule's direction, and when the
/// head would step past the high end, exactly one blank is appended there.
/// The tape never grows at the low end; a head at `-1` is the left overrun.
pub open spec fn spec_apply(tape: Seq<char>, head: int, ins: InstructionView) -> (Seq<char>, int) {
    let written = tape.update(head, ins.new_char);
    let new_head = head + direction_offset(ins.move_direction);
    if new_head == written.len() {
        (written.push(BLANK), new_head)
    } else {
        (written, new_head)
    }
}

/// The run of machine `m` from the given configuration, with `fuel` steps of
/// budget left and `step` steps already executed.  Each tick checks, in
/// order: acceptance, left overrun, a missing rule, an exhausted budget; only
/// then does the one matching rule fire.  Acceptance is checked before the
/// head is read, so a final state entered on a left overrun still accepts,
/// and a run whose budget is spent reports `StuckNoTransition` rather than
/// `StepBudgetExceeded` when no rule could fire anyway.
pub open spec fn spec_run(
    m: MachineView,
    tape: Seq<char>,
    state: Seq<char>,
    head: int,
    step: nat,
    fuel: nat,
) -> SpecOutcome
    decreases fuel,
{
    if m.final_states.contains(state) {
        SpecOutcome { tape, state, head, status: HaltStatus::Accepted, steps: step, trace: Seq::empty() }
    } else if head < 0 {
        SpecOutcome {
            tape,
            state,
            head,
            status: HaltStatus::HeadLeftOverrun,
            steps: step,
            trace: Seq::empty(),
        }
    } else if spec_lookup(m.instructions, state, head_symbol(tape, head)) is None {
        SpecOutcome {
            tape,
            state,
            head,
            status: HaltStatus::StuckNoTransition,
            steps: step,
            trace: Seq::empty(),
        }
    } else if fuel == 0 {
        SpecOutcome {
            tape,
            state,
            head,
            status: HaltStatus::StepBudgetExceeded,
            steps: step,
            trace: Seq::empty(),
        }
    } else {
        let ins = spec_lookup(m.instructions, state, head_symbol(tape, head)).unwrap();
        let rec = TraceRecordView {
            step,
            tape,
            current_state: state,
            current_char: head_symbol(tape, head),
            next_state: ins.next_state,
            new_char: ins.new_char,
            move_direction: ins.move_direction,
        };
        let applied = spec_apply(tape, head, ins);
        let rest = spec_run(m, applied.0, ins.next_state, applied.1, step + 1, (fuel - 1) as nat);
        SpecOutcome {
            tape: rest.tape,
            state: rest.state,
            head: rest.head,
            status: rest.status,
            steps: rest.steps,
            trace: seq![rec] + rest.trace,
        }
    }
}

/// The run of machine `m` on `input`: the tape starts as the input between
/// two boundary blanks, the head on the first input cell, in the initial
/// state, with no step yet executed.
pub open spec fn spec_simulate(m: MachineView, input: Seq<char>, max_steps: nat) -> SpecOutcome {
    spec_run(m, spec_initial_tape(input), m.initial_state, 1, 0, max_steps)
}

/// A run in a configuration that satisfies one of the four halting checks
/// stops there: the tape, state and step count are handed back as they
/// stand, no trace record is added, and the status names the first check,
/// in order, that holds.
proof fn lemma_run_halted(
    m: MachineView,
    tape: Seq<char>,
    state: Seq<char>,
    head: int,
    step: nat,
    fuel: nat,
)
    requires
        m.final_states.contains(state) || head < 0 || spec_lookup(
            m.instructions,
            state,
            head_symbol(tape, head),
        ) is None || fuel == 0,
    ensures
        ({
            let o = spec_run(m, tape, state, head, step, fuel);
            &&& o.tape == tape
            &&& o.state == state
            &&& o.head == head
            &&& o.steps == step
            &&& o.trace == Seq::<TraceRecordView>::empty()
            &&& o.status == (if m.final_states.contains(state) {
                HaltStatus::Accepted
            } else if head < 0 {
                HaltStatus::HeadLeftOverrun
            } else if spec_lookup(m.instructions, state, head_symbol(tape, head)) is None {
                HaltStatus::StuckNoTransition
            } else {
                HaltStatus::StepBudgetExceeded
            })
        }),
{
}

/// A run in a configuration that passes all four halting checks fires the
/// rule that lookup answers, records one trace line, and continues as the
/// run from the rewritten configuration with one step less of budget.
proof fn lemma_run_step(
    m: MachineView,
    tape: Seq<char>,
    state: Seq<char>,
    head: int,
    step: nat,
    fuel: nat,
)
    requires
        !m.final_states.contains(state),
        head >= 0,
        spec_lookup(m.instructions, state, head_symbol(tape, head)) is Some,
        fuel > 0,
    ensures
        ({
            let ins = spec_lookup(m.instructions, state, head_symbol(tape, head)).unwrap();
            let rec = TraceRecordView {
                step,
                tape,
                current_state: state,
                current_char: head_symbol(tape, head),
                next_state: ins.next_state,
                new_char: ins.new_char,
                move_direction: ins.move_direction,
            };
            let applied = spec_apply(tape, head, ins);
            let rest = spec_run(
                m,
                applied.0,
                ins.next_state,
                applied.1,
                step + 1,
                (fuel - 1) as nat,
            );
            let o = spec_run(m, tape, state, head, step, fuel);
            &&& o.tape == rest.tape
            &&& o.state == rest.state
            &&& o.head == rest.head
            &&& o.status == rest.status
            &&& o.steps == rest.steps
            &&& o.trace == seq![rec] + rest.trace
        }),
{
    reveal_with_fuel(spec_run, 2);
}

/// Determinism: everything a run yields — final tape, final state, halting
/// status, step count, trace, and therefore the trimmed output — is a
/// function of the machine, the input and the step budget alone.  Together
/// with `simulate`'s postcondition, which pins every field of its result to
/// [`spec_simulate`], two independent runs of the same machine on the same
/// input with the same budget cannot differ in any observable way.
pub proof fn lemma_simulate_deterministic(
    m: MachineView,
    input: Seq<char>,
    max_steps: nat,
    o1: SpecOutcome,
    o2: SpecOutcome,
)
    requires
        o1 == spec_simulate(m, input, max_steps),
        o2 == spec_simulate(m, input, max_steps),
    ensures
        o1 == o2,
{
}

/// Tape growth invariant, per step: starting from a head inside the tape,
/// one firing rule rewrites exactly the cell under the head; the tape grows
/// only at the high end, by exactly one blank, exactly when the head would
/// otherwise step past the current end; and the head stays inside the tape
/// afterwards unless the rule moved it left from cell `0` — the left
/// overrun, on which the run halts before the head is ever read again.
pub proof fn lemma_tape_growth(tape: Seq<char>, head: int, ins: InstructionView)
    requires
        0 <= head < tape.len(),
    ensures
        ({
            let applied = spec_apply(tape, head, ins);
            let grown = applied.0.len() == tape.len() + 1;
            &&& applied.0.len() == tape.len() || grown
            &&& (grown <==> head + direction_offset(ins.move_direction) == tape.len())
            &&& (grown ==> applied.0 == tape.update(head, ins.new_char).push(BLANK))
            &&& (!grown ==> applied.0 == tape.update(head, ins.new_char))
            &&& (applied.1 < 0 <==> head == 0 && ins.move_direction == Direction::Left)
            &&& (applied.1 >= 0 ==> 0 <= applied.1 < applied.0.len())
        }),
{
}

/// Halting classification: a run ends `Accepted` if and only if its final
/// control state is one of the machine's final states.  Every other status —
/// stuck, left overrun, or an exhausted budget — leaves the machine in a
/// state outside that set, because acceptance is checked first at every tick.
pub proof fn lemma_halting_classification(m: MachineView, input: Seq<char>, max_steps: nat)
    ensures
        ({
            let o = spec_simulate(m, input, max_steps);
            (o.status == HaltStatus::Accepted) <==> m.final_states.contains(o.state)
        }),
{
    lemma_run_halting_classification(m, spec_initial_tape(input), m.initial_state, 1, 0, max_steps);
}

/// Halting classification from any configuration, by induction on the budget.
proof fn lemma_run_halting_classification(
    m: MachineView,
    tape: Seq<char>,
    state: Seq<char>,
    head: int,
    step: nat,
    fuel: nat,
)
    ensures
        ({
            let o = spec_run(m, tape, state, head, step, fuel);
            (o.status == HaltStatus::Accepted) <==> m.final_states.contains(o.state)
        }),
    decreases fuel,
{
    if m.final_states.contains(state) {
    } else if head < 0 {
    } else if spec_lookup(m.instructions, state, head_symbol(tape, head)) is None {
    } else if fuel == 0 {
    } else {
        let ins = spec_lookup(m.instructions, state, head_symbol(tape, head)).unwrap();
        let applied = spec_apply(tape, head, ins);
        lemma_run_halting_classification(
            m,
            applied.0,
            ins.next_state,
            applied.1,
            step + 1,
            (fuel - 1) as nat,
        );
    }
}

/// Each executed step leaves exactly one trace record: a run's final step
/// count is the count it began with plus the length of its trace.  For a
/// whole run, which begins at step `0`, the trace length equals the step
/// count.
pub proof fn lemma_trace_counts_steps(
    m: MachineView,
    tape: Seq<char>,
    state: Seq<char>,
    head: int,
    step: nat,
    fuel: nat,
)
    ensures
        ({
            let o = spec_run(m, tape, state, head, step, fuel);
            o.steps == step + o.trace.len()
        }),
    decreases fuel,
{
    if m.final_states.contains(state) {
    } else if head < 0 {
    } else if spec_lookup(m.instructions, state, head_symbol(tape, head)) is None {
    } else if fuel == 0 {
    } else {
        let ins = spec_lookup(m.instructions, state, head_symbol(tape, head)).unwrap();
        let applied = spec_apply(tape, head, ins);
        lemma_trace_counts_steps(
            m,
            applied.0,
            ins.next_state,
            applied.1,
            step + 1,
            (fuel - 1) as nat,
        );
    }
}

/// What a finished run hands back to the caller.  `output` is `final_tape`
/// with the blanks removed from both ends; `trace` holds one record per
/// executed step, so `trace.len() == steps`.  `final_head` is where the head
/// came to rest — on a `StuckNoTransition` halt the unmatched symbol is
/// `final_tape[final_head]` — and is `None` only after a left overrun.
#[derive(Clone, Debug, PartialEq)]
pub struct SimulationOutcome {
    pub output: Vec<char>,
    pub status: HaltStatus,
    pub final_tape: Vec<char>,
    pub final_state: String,
    pub final_head: Option<usize>,
    pub steps: u64,
    pub trace: Vec<TraceRecord>,
}

/// A fresh tape holding the same symbols.
fn copy_tape(t: &Vec<char>) -> (r: Vec<char>)
    ensures
        r@ == t@,
{
    let mut r: Vec<char> = Vec::new();
    let mut i: usize = 0;
    while i < t.len()
        invariant
            i <= t@.len(),
            r@ == t@.take(i as int),
        decreases t@.len() - i,
    {
        let c = t[i];
        r.push(c);
        proof {
            assert(t@.take(i as int).push(t@[i as int]) =~= t@.take(i as int + 1));
        }
        i = i + 1;
    }
    proof {
        assert(t@.take(t@.len() as int) =~= t@);
    }
    r
}

impl TuringMachine {
    /// Runs the machine on `input` until it halts or `max_steps` steps have
    /// been executed, and returns exactly the run that [`spec_simulate`]
    /// describes: the final tape, the final control state, the halting
    /// status, the step count, the per-step trace, and the output string
    /// derived from the final tape by trimming the blanks at its ends.
    pub fn simulate(&self, input: &str, max_steps: u64) -> (r: SimulationOutcome)
        requires
            input@.len() + 2 + max_steps <= usize::MAX,
        ensures
            ({
                let o = spec_simulate(self@, input@, max_steps as nat);
                &&& r.final_tape@ == o.tape
                &&& r.final_state@ == o.state
                &&& match r.final_head {
                    Some(h) => o.head == h as int && (h as int) < o.tape.len(),
                    None => o.head == -1,
                }
                &&& r.status == o.status
                &&& r.steps as nat == o.steps
                &&& trace_views(r.trace@) == o.trace
                &&& r.output@ == spec_trim_blanks(o.tape)
            }),
    {
        let ghost m = self@;
        let ghost total = spec_simulate(m, input@, max_steps as nat);
        let mut tape = initial_tape(input);
        let mut state: String = self.initial_state.clone();
        let mut head: usize = 1;
        let mut off_left: bool = false;
        let mut steps: u64 = 0;
        let mut trace: Vec<TraceRecord> = Vec::new();
        let mut status: HaltStatus = HaltStatus::StepBudgetExceeded;
        loop
            invariant
                m == self@,
                total == spec_simulate(m, input@, max_steps as nat),
                input@.len() + 2 + max_steps <= usize::MAX,
                steps <= max_steps,
                tape@.len() <= input@.len() + 2 + steps,
                !off_left ==> head < tape@.len(),
                ({
                    let h: int = if off_left {
                        -1
                    } else {
                        head as int
                    };
                    let rem = spec_run(m, tape@, state@, h, steps as nat, (max_steps - steps) as nat);
                    &&& total.tape == rem.tape
                    &&& total.state == rem.state
                    &&& total.head == rem.head
                    &&& total.status == rem.status
                    &&& total.steps == rem.steps
                    &&& total.trace == trace_views(trace@) + rem.trace
                }),
            ensures
                tape@ == total.tape,
                state@ == total.state,
                status == total.status,
                off_left ==> total.head == -1,
                !off_left ==> total.head == head as int && head < tape@.len(),
                steps as nat == total.steps,
                trace_views(trace@) == total.trace,
            decreases max_steps - steps,
        {
            let ghost h0: int = if off_left { -1 } else { head as int };
            let ghost fuel0 = (max_steps - steps) as nat;
            let ghost rem0 = spec_run(m, tape@, state@, h0, steps as nat, fuel0);
            if self.is_final_state(&state) {
                status = HaltStatus::Accepted;
                proof {
                    lemma_run_halted(m, tape@, state@, h0, steps as nat, fuel0);
                    assert(trace_views(trace@) + rem0.trace =~= trace_views(trace@));
                }
                break;
            }
            if off_left {
                status = HaltStatus::HeadLeftOverrun;
                proof {
                    lemma_run_halted(m, tape@, state@, h0, steps as nat, fuel0);
                    assert(trace_views(trace@) + rem0.trace =~= trace_views(trace@));
                }
                break;
            }
            let sym = tape[head];
            match self.lookup(&state, sym) {
                None => {
                    status = HaltStatus::StuckNoTransition;
                    proof {
                        lemma_run_halted(m, tape@, state@, h0, steps as nat, fuel0);
                        assert(trace_views(trace@) + rem0.trace =~= trace_views(trace@));
                    }
                    break;
                },
                Some(ins) => {
                    if steps == max_steps {
                        status = HaltStatus::StepBudgetExceeded;
                        proof {
                            lemma_run_halted(m, tape@, state@, h0, steps as nat, fuel0);
                            assert(trace_views(trace@) + rem0.trace =~= trace_views(trace@));
                        }
                        break;
                    }
                    let ghost pre_tape = tape@;
                    let ghost pre_state = state@;
                    let ghost pre_trace = trace@;
                    let ghost ins_v = ins@;
                    let snapshot = copy_tape(&tape);
                    let rec = TraceRecord {
                        step: steps,
                        tape: snapshot,
                        current_state: state.clone(),
                        current_char: sym,
                        next_state: ins.next_state.clone(),
                        new_char: ins.new_char,
                        move_direction: ins.move_direction,
                    };
                    let ghost recv = rec@;
                    trace.push(rec);
                    tape.set(head, ins.new_char);
                    state = ins.next_state.clone();
                    match ins.move_direction {
                        Direction::Right => {
                            head = head + 1;
                            if head == tape.len() {
                                tape.push(BLANK);
                            }
                        },
                        Direction::Stay => {},
                        Direction::Left => {
                            if head == 0 {
                                off_left = true;
                            } else {
                                head = head - 1;
                            }
                        },
                    }
                    steps = steps + 1;
                    proof {
                        let pre_steps = (steps - 1) as nat;
                        lemma_run_step(m, pre_tape, pre_state, h0, pre_steps, fuel0);
                        assert(spec_lookup(m.instructions, pre_state, head_symbol(pre_tape, h0)) == Some(
                            ins_v,
                        ));
                        let applied = spec_apply(pre_tape, h0, ins_v);
                        let rem1 = spec_run(
                            m,
                            applied.0,
                            ins_v.next_state,
                            applied.1,
                            steps as nat,
                            (max_steps - steps) as nat,
                        );
                        assert(recv == TraceRecordView {
                            step: pre_steps,
                            tape: pre_tape,
                            current_state: pre_state,
                            current_char: head_symbol(pre_tape, h0),
                            next_state: ins_v.next_state,
                            new_char: ins_v.new_char,
                            move_direction: ins_v.move_direction,
                        });
                        assert(rem0.trace == seq![recv] + rem1.trace);
                        assert(tape@ == applied.0);
                        assert((if off_left {
                            -1 as int
                        } else {
                            head as int
                        }) == applied.1);
                        assert(rem0.head == rem1.head);
                        assert(trace@.len() == pre_trace.len() + 1);
                        assert(trace@[pre_trace.len() as int]@ == recv);
                        assert(trace_views(trace@) =~= trace_views(pre_trace).push(recv));
                        assert(trace_views(pre_trace) + rem0.trace =~= trace_views(trace@)
                            + rem1.trace);
                    }
                },
            }
        }
        let output = trim_blanks(&tape);
        let final_head = if off_left {
            None
        } else {
            Some(head)
        };
        SimulationOutcome {
            output,
            status,
            final_tape: tape,
            final_state: state,
            final_head,
            steps,
            trace,
        }
    }
}

} // verus!
