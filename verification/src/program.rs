//! The execution engine: reads commands from the source cursor and applies
//! them to the tape and the output buffer.

use vstd::prelude::*;
use crate::machine::{Frame, Machine, Status};
use crate::stream::{decode, decode_bytes, FakeStreamer};
use crate::tape::Tape;

verus! {

/// One open loop as the engine keeps it: the position in the program text
/// where its body begins, and the index of its counter cell.
#[derive(Clone, Copy, Debug, PartialEq, Eq, Structural)]
pub struct LoopFrame {
    pub start: usize,
    pub counter: usize,
}

impl View for LoopFrame {
    type V = Frame;

    open spec fn view(&self) -> Frame {
        Frame { start: self.start as nat, counter: self.counter as nat }
    }
}

/// The model of a stack of loop frames, outermost first.
pub open spec fn frames_view(frames: Seq<LoopFrame>) -> Seq<Frame> {
    Seq::new(frames.len(), |i: int| frames[i]@)
}

/// A program together with everything its run has changed so far.
#[derive(Debug)]
pub struct ProgramState {
    /// Program memory and the pointer.
    pub tape: Tape,
    /// The program text and the position of the next command.
    pub stream: FakeStreamer,
    /// The bytes that the program has emitted.
    pub output: Vec<u8>,
    /// The open passes, outermost first.
    pub frames: Vec<LoopFrame>,
    /// Whether the run can go on, and if not, why it stopped.
    pub status: Status,
}

impl View for ProgramState {
    type V = Machine;

    open spec fn view(&self) -> Machine {
        Machine {
            stream: self.stream@,
            tape: self.tape@,
            output: self.output@,
            frames: frames_view(self.frames@),
            status: self.status,
        }
    }
}

impl ProgramState {
    /// The state is a well-formed machine.
    pub open spec fn wf(&self) -> bool {
        self@.wf()
    }

    /// Creates the state in which the program given as raw bytes is about to
    /// run from its first command: blank tape, empty output.
    pub fn new(source: &[u8]) -> (program: ProgramState)
        ensures
            program.wf(),
            program@ == Machine::initial(decode(source@)),
    {
        let mut frames: Vec<LoopFrame> = Vec::new();
        frames.push(LoopFrame { start: 0, counter: 0 });
        let program = ProgramState {
            tape: Tape::new(),
            stream: FakeStreamer::new(source),
            output: Vec::new(),
            frames,
            status: Status::Running,
        };
        assert(program@.frames =~= Machine::initial(decode(source@)).frames);
        program
    }

    /// The output so far as text, one character for each byte emitted.
    pub fn output_chars(&self) -> (text: Vec<char>)
        ensures
            text@ == decode(self@.output),
    {
        decode_bytes(self.output.as_slice())
    }

    /// Applies `]`: tests the counter cell of the innermost pass and either
    /// ends that pass or sends cursor and pointer back to its beginning.
    fn close_loop(&mut self)
        requires
            old(self).wf(),
            old(self).status == Status::Running,
        ensures
            final(self).wf(),
            final(self)@ == old(self)@.close_loop(),
    {
        let depth = self.frames.len();
        let frame = self.frames[depth - 1];
        assert(frame@ == self@.frames.last());
        if self.tape.cell(frame.counter) == 0 {
            self.frames.pop();
            if depth == 1 {
                self.status = Status::Finished;
            }
            assert(self@.frames =~= old(self)@.frames.drop_last());
        } else {
            self.stream.seek(frame.start);
            self.tape.point_at(frame.counter);
        }
    }

    /// Takes one step: reads the next command and applies it, or finishes
    /// when the text is exhausted. A state that has stopped is left alone.
    /// Returns the status after the step.
    pub fn step(&mut self) -> (status: Status)
        requires
            old(self).wf(),
        ensures
            final(self).wf(),
            final(self)@ == old(self)@.step(),
            status == final(self)@.status,
    {
        match self.status {
            Status::Running => {},
            stopped => {
                return stopped;
            },
        }
        match self.stream.read_next_idx() {
            None => {
                self.status = Status::Finished;
            },
            Some(command) => {
                if command == '>' {
                    self.tape.move_right();
                } else if command == '<' {
                    if self.tape.move_left().is_err() {
                        self.status = Status::TapeUnderflow;
                    }
                } else if command == '+' {
                    self.tape.increment();
                } else if command == '-' {
                    self.tape.decrement();
                } else if command == '.' {
                    let value = self.tape.current();
                    self.output.push(value);
                } else if command == '[' {
                    let frame = LoopFrame {
                        start: self.stream.next_read_idx,
                        counter: self.tape.pointer,
                    };
                    self.frames.push(frame);
                    assert(self@.frames =~= old(self)@.frames.push(frame@));
                } else if command == ']' {
                    self.close_loop();
                }
            },
        }
        self.status
    }

    /// Goes on from the present state for at most `max_steps` steps, and
    /// stops early once the run has stopped. Returns the status reached:
    /// `Running` means that the budget ran out first.
    pub fn resume(&mut self, max_steps: u64) -> (status: Status)
        requires
            old(self).wf(),
        ensures
            final(self).wf(),
            final(self)@ == old(self)@.run(max_steps as nat),
            status == final(self)@.status,
    {
        let mut remaining = max_steps;
        while remaining > 0
            invariant
                self.wf(),
                self@.run(remaining as nat) == old(self)@.run(max_steps as nat),
            decreases remaining,
        {
            match self.step() {
                Status::Running => {},
                stopped => {
                    proof {
                        self@.lemma_run_stopped((remaining - 1) as nat);
                    }
                    return stopped;
                },
            }
            remaining = remaining - 1;
        }
        self.status
    }

    /// Runs a fresh outermost pass for at most `max_steps` steps: the cursor
    /// is set to `loop_start_idx`, the pointer to cell `loop_counter_idx`,
    /// which also is the counter that a `]` outside every loop tests. Tape
    /// contents and earlier output are kept. Returns the status reached:
    /// `Running` means that the budget ran out first.
    pub fn execute(
        &mut self,
        loop_start_idx: usize,
        loop_counter_idx: usize,
        max_steps: u64,
    ) -> (status: Status)
        requires
            loop_counter_idx < old(self)@.tape.cells.len(),
        ensures
            final(self).wf(),
            final(self)@ == old(self)@.entered(loop_start_idx as nat, loop_counter_idx as nat).run(
                max_steps as nat,
            ),
            status == final(self)@.status,
    {
        self.stream.seek(loop_start_idx);
        self.tape.point_at(loop_counter_idx);
        let entry = LoopFrame { start: loop_start_idx, counter: loop_counter_idx };
        self.frames.clear();
        self.frames.push(entry);
        self.status = Status::Running;
        assert(self@.frames =~= seq![entry@]);
        self.resume(max_steps)
    }
}

} // verus!
