//! The mathematical model of the interpreter: what a machine state is, what
//! one step does to it, and what a run of many steps is.

use vstd::prelude::*;
use crate::stream::StreamView;
use crate::tape::TapeView;

verus! {

/// How far a machine has come.
#[derive(Clone, Copy, Debug, PartialEq, Eq, Structural)]
pub enum Status {
    /// The machine can take another step.
    Running,
    /// The program text was exhausted, or the outermost pass was closed with
    /// its counter cell at zero.
    Finished,
    /// A `<` was read while the pointer stood on the first cell.
    TapeUnderflow,
}

/// One open loop: where its body begins in the program text, and the cell
/// that is tested each time its closing `]` is read.
pub struct Frame {
    pub start: nat,
    pub counter: nat,
}

/// A machine state.
pub struct Machine {
    /// The program text and the position of the next command.
    pub stream: StreamView,
    /// Program memory and the pointer.
    pub tape: TapeView,
    /// The bytes emitted so far.
    pub output: Seq<u8>,
    /// The open passes, outermost first. The outermost one stands for the
    /// whole run and is there from the start.
    pub frames: Seq<Frame>,
    /// Whether the run can go on, and if not, why it stopped.
    pub status: Status,
}

/// Whether `c` is one of the seven commands. Every other character is a comment.
pub open spec fn is_command(c: char) -> bool {
    c == '>' || c == '<' || c == '+' || c == '-' || c == '.' || c == '[' || c == ']'
}

impl Machine {
    /// The pointer and every loop counter address existing cells, and a
    /// running machine has an open pass.
    pub open spec fn wf(self) -> bool {
        &&& self.tape.wf()
        &&& forall|i: int|
            0 <= i < self.frames.len() ==> (#[trigger] self.frames[i]).counter
                < self.tape.cells.len()
        &&& self.status == Status::Running ==> self.frames.len() > 0
    }

    /// The machine that is about to run `source` from its first command on a
    /// blank tape.
    pub open spec fn initial(source: Seq<char>) -> Machine {
        Machine {
            stream: StreamView::start(source),
            tape: TapeView::blank(),
            output: Seq::empty(),
            frames: seq![Frame { start: 0, counter: 0 }],
            status: Status::Running,
        }
    }

    /// The machine about to begin a fresh outermost pass whose body starts at
    /// `start` and whose counter is cell `counter`. Tape contents and output
    /// are kept.
    pub open spec fn entered(self, start: nat, counter: nat) -> Machine {
        Machine {
            stream: self.stream.at(start),
            tape: self.tape.pointed_at(counter),
            output: self.output,
            frames: seq![Frame { start, counter }],
            status: Status::Running,
        }
    }

    /// The effect of `]`: the innermost pass tests its own counter cell,
    /// wherever the pointer is. At zero the pass ends, and with the outermost
    /// pass the run; otherwise cursor and pointer go back to where the pass
    /// began.
    pub open spec fn close_loop(self) -> Machine {
        let frame = self.frames.last();
        if self.tape.cells[frame.counter as int] == 0 {
            let rest = self.frames.drop_last();
            Machine {
                frames: rest,
                status: if rest.len() == 0 {
                    Status::Finished
                } else {
                    Status::Running
                },
                ..self
            }
        } else {
            Machine {
                stream: self.stream.at(frame.start),
                tape: self.tape.pointed_at(frame.counter),
                ..self
            }
        }
    }

    /// The effect of the command `c` on a machine whose cursor is already
    /// past it.
    pub open spec fn apply(self, c: char) -> Machine {
        if c == '>' {
            Machine { tape: self.tape.moved_right(), ..self }
        } else if c == '<' {
            if self.tape.can_move_left() {
                Machine { tape: self.tape.moved_left(), ..self }
            } else {
                Machine { status: Status::TapeUnderflow, ..self }
            }
        } else if c == '+' {
            Machine { tape: self.tape.incremented(), ..self }
        } else if c == '-' {
            Machine { tape: self.tape.decremented(), ..self }
        } else if c == '.' {
            Machine { output: self.output.push(self.tape.current()), ..self }
        } else if c == '[' {
            Machine {
                frames: self.frames.push(
                    Frame { start: self.stream.position, counter: self.tape.pointer },
                ),
                ..self
            }
        } else if c == ']' {
            self.close_loop()
        } else {
            self
        }
    }

    /// One step. A machine that has stopped stays as it is. A running one
    /// reads a command and applies it, or finishes when none is left.
    pub open spec fn step(self) -> Machine {
        if self.status != Status::Running {
            self
        } else if self.stream.exhausted() {
            Machine { status: Status::Finished, ..self }
        } else {
            Machine { stream: self.stream.advanced(), ..self }.apply(self.stream.peek())
        }
    }

    /// The machine after `steps` steps.
    pub open spec fn run(self, steps: nat) -> Machine
        decreases steps,
    {
        if steps == 0 {
            self
        } else {
            self.step().run((steps - 1) as nat)
        }
    }

    /// The machine that runs as `self` does, but with the passes `below`
    /// open underneath its own. When `self` has closed its outermost pass,
    /// the run goes on in the innermost pass of `below`, if there is one.
    pub open spec fn under(self, below: Seq<Frame>) -> Machine {
        Machine {
            frames: below + self.frames,
            status: if self.frames.len() == 0 && below.len() > 0 {
                Status::Running
            } else {
                self.status
            },
            ..self
        }
    }

    /// A machine that has not started yet is already entered at its first
    /// command with the first cell as counter.
    pub proof fn lemma_initial_is_entered(source: Seq<char>)
        ensures
            Machine::initial(source).wf(),
            Machine::initial(source).entered(0, 0) == Machine::initial(source),
    {
    }

    /// A machine that has stopped stays as it is, however many steps follow.
    pub proof fn lemma_run_stopped(self, steps: nat)
        requires
            self.status != Status::Running,
        ensures
            self.run(steps) == self,
        decreases steps,
    {
        if steps > 0 {
            self.lemma_run_stopped((steps - 1) as nat);
        }
    }

    /// Running `first + then` steps is running `first` steps and then
    /// `then` more.
    pub proof fn lemma_run_add(self, first: nat, then: nat)
        ensures
            self.run(first + then) == self.run(first).run(then),
        decreases first,
    {
        if first > 0 {
            self.step().lemma_run_add((first - 1) as nat, then);
        }
    }

    /// Once a run has stopped, a larger step budget changes nothing.
    pub proof fn lemma_run_stable(self, steps: nat, more: nat)
        requires
            self.run(steps).status != Status::Running,
            steps <= more,
        ensures
            self.run(more) == self.run(steps),
    {
        self.lemma_run_add(steps, (more - steps) as nat);
        self.run(steps).lemma_run_stopped((more - steps) as nat);
    }

    /// What a machine keeps of an earlier state `before` of its run: the
    /// program text is the same, the output has only been appended to, and
    /// the tape has not become shorter.
    pub open spec fn continues(self, before: Machine) -> bool {
        &&& self.stream.data == before.stream.data
        &&& before.output.is_prefix_of(self.output)
        &&& before.tape.cells.len() <= self.tape.cells.len()
    }

    /// A step keeps a machine well formed, never changes the program text,
    /// only appends to the output and never shortens the tape.
    pub proof fn lemma_step_preserves(self)
        requires
            self.wf(),
        ensures
            self.step().wf(),
            self.step().continues(self),
    {
    }

    /// A run keeps a machine well formed, never changes the program text,
    /// only appends to the output and never shortens the tape.
    pub proof fn lemma_run_preserves(self, steps: nat)
        requires
            self.wf(),
        ensures
            self.run(steps).wf(),
            self.run(steps).continues(self),
        decreases steps,
    {
        if steps > 0 {
            self.lemma_step_preserves();
            self.step().lemma_run_preserves((steps - 1) as nat);
        }
    }
}

} // verus!
