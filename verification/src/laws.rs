//! Laws of the language, proved over the machine model.

use vstd::prelude::*;
use crate::machine::{is_command, Frame, Machine, Status};
use crate::stream::StreamView;
use crate::tape::TapeView;

verus! {

/// The program of `n` times `+` followed by one `.`.
pub open spec fn count_then_emit(n: nat) -> Seq<char> {
    Seq::new(n, |i: int| '+').push('.')
}

/// The byte that a cell holds after `n` increments from zero.
pub open spec fn counted(n: nat) -> u8 {
    (n % 256) as u8
}

/// The machine that runs `count_then_emit(n)` and has applied its first
/// `done` commands.
spec fn counting(n: nat, done: nat) -> Machine {
    Machine {
        stream: StreamView { data: count_then_emit(n), position: done },
        tape: TapeView { cells: seq![counted(done)], pointer: 0 },
        output: Seq::empty(),
        frames: seq![Frame { start: 0, counter: 0 }],
        status: Status::Running,
    }
}

/// The machine in which `count_then_emit(n)` has finished.
spec fn counted_out(n: nat) -> Machine {
    Machine {
        stream: StreamView { data: count_then_emit(n), position: n + 1 },
        tape: TapeView { cells: seq![counted(n)], pointer: 0 },
        output: seq![counted(n)],
        frames: seq![Frame { start: 0, counter: 0 }],
        status: Status::Finished,
    }
}

/// From any point of the count, `count_then_emit(n)` runs to its end in
/// the steps that are left, and emits the full count.
proof fn lemma_counting(n: nat, done: nat)
    requires
        done <= n,
    ensures
        counting(n, done).run((n - done + 2) as nat) == counted_out(n),
    decreases n - done,
{
    let m = counting(n, done);
    if done < n {
        assert(m.stream.peek() == '+');
        assert(m.step().tape.cells =~= seq![counted(done + 1)]);
        assert(m.step() == counting(n, done + 1));
        lemma_counting(n, done + 1);
    } else {
        assert(m.stream.peek() == '.');
        let emitted = m.step();
        assert(emitted.output =~= seq![counted(n)]);
        assert(emitted.stream.exhausted());
        assert(emitted.step() == counted_out(n));
        assert(m.run(2) == emitted.step()) by {
            reveal_with_fuel(Machine::run, 3);
        }
    }
}

/// `n` times `+` followed by `.` emits exactly one byte, `n` modulo 256, and
/// the run is over after `n + 2` steps: so for `n` below 256 the byte is `n`
/// itself, and 256 increments bring the cell back to zero.
pub proof fn lemma_count_then_emit(n: nat, steps: nat)
    requires
        steps >= n + 2,
    ensures
        Machine::initial(count_then_emit(n)).run(steps).status == Status::Finished,
        Machine::initial(count_then_emit(n)).run(steps).output == seq![counted(n)],
        Machine::initial(count_then_emit(n)).run(steps).tape.cells == seq![counted(n)],
        n < 256 ==> counted(n) == n,
{
    let start = Machine::initial(count_then_emit(n));
    assert(start == counting(n, 0));
    lemma_counting(n, 0);
    start.lemma_run_stable(n + 2, steps);
}

/// A program without commands emits nothing and leaves the tape a single
/// zero cell, whatever the step budget; after one step the run is over.
pub proof fn lemma_empty_program(steps: nat)
    ensures
        Machine::initial(Seq::empty()).run(steps).output == Seq::<u8>::empty(),
        Machine::initial(Seq::empty()).run(steps).tape == TapeView::blank(),
        steps >= 1 ==> Machine::initial(Seq::empty()).run(steps).status == Status::Finished,
{
    let start = Machine::initial(Seq::empty());
    if steps >= 1 {
        assert(start.stream.exhausted());
        assert(start.run(1) == start.step()) by {
            reveal_with_fuel(Machine::run, 2);
        }
        start.lemma_run_stable(1, steps);
    }
}

/// Whether the next step of `m` is a `>` that takes the pointer off the
/// last cell of the tape.
pub open spec fn leaves_last_cell(m: Machine) -> bool {
    &&& m.status == Status::Running
    &&& !m.stream.exhausted()
    &&& m.stream.peek() == '>'
    &&& m.tape.pointer + 1 == m.tape.cells.len()
}

/// The tape grows lazily. A `>` that takes the pointer off the last cell
/// appends exactly one zero cell, on which the pointer then stands, and
/// leaves every earlier cell as it was. No other step changes the length of
/// the tape.
pub proof fn lemma_tape_grows_lazily(m: Machine)
    requires
        m.wf(),
    ensures
        leaves_last_cell(m) ==> m.step().tape == (TapeView {
            cells: m.tape.cells.push(0u8),
            pointer: m.tape.cells.len(),
        }),
        !leaves_last_cell(m) ==> m.step().tape.cells.len() == m.tape.cells.len(),
{
}

/// The end of the program text ends the run, whatever loops are still
/// open: the next step finishes a running machine and changes nothing else.
pub proof fn lemma_end_of_text_finishes(m: Machine, steps: nat)
    requires
        m.status == Status::Running,
        m.stream.exhausted(),
        steps >= 1,
    ensures
        m.run(steps) == (Machine { status: Status::Finished, ..m }),
{
    assert(m.run(1) == m.step()) by {
        reveal_with_fuel(Machine::run, 2);
    }
    m.lemma_run_stable(1, steps);
}

/// Characters that are no commands are skipped: over a stretch of `count`
/// of them a running machine moves its cursor and changes nothing else.
pub proof fn lemma_comments_are_skipped(m: Machine, count: nat)
    requires
        m.status == Status::Running,
        m.stream.position + count <= m.stream.data.len(),
        forall|i: int|
            m.stream.position <= i < m.stream.position + count ==> !is_command(
                #[trigger] m.stream.data[i],
            ),
    ensures
        m.run(count) == (Machine { stream: m.stream.at(m.stream.position + count), ..m }),
    decreases count,
{
    if count > 0 {
        assert(!is_command(m.stream.data[m.stream.position as int]));
        let next = m.step();
        assert(next == Machine { stream: m.stream.advanced(), ..m });
        lemma_comments_are_skipped(next, (count - 1) as nat);
    }
}

/// A loop whose counter cell is zero at entry and whose body holds no
/// command is passed over: after the `count + 2` steps over `[`, the body
/// and `]`, only the cursor has moved.
pub proof fn lemma_zero_loop_without_commands(m: Machine, count: nat)
    requires
        m.wf(),
        m.status == Status::Running,
        m.stream.position + count + 1 < m.stream.data.len(),
        m.stream.peek() == '[',
        forall|i: int|
            m.stream.position < i <= m.stream.position + count ==> !is_command(
                #[trigger] m.stream.data[i],
            ),
        m.stream.command(count + 1) == ']',
        m.tape.current() == 0,
    ensures
        m.run(count + 2) == (Machine { stream: m.stream.at(m.stream.position + count + 2), ..m }),
{
    let entered = m.step();
    lemma_comments_are_skipped(entered, count);
    let at_close = entered.run(count);
    assert(at_close.stream.peek() == ']');
    assert(at_close.frames.last().counter == m.tape.pointer);
    let closed = at_close.step();
    assert(closed.frames =~= m.frames);
    assert(closed == Machine { stream: m.stream.at(m.stream.position + count + 2), ..m });
    assert(m.run(count + 2) == closed) by {
        m.lemma_run_add(1, count + 1);
        entered.lemma_run_add(count, 1);
        reveal_with_fuel(Machine::run, 2);
    }
}

/// What `]` does depends on the counter cell of the innermost pass alone,
/// not on where the body has left the pointer. Had the pointer been
/// anywhere else, a pass that repeats would reach the very same state, and
/// a pass that ends would differ in nothing but that pointer.
pub proof fn lemma_close_ignores_pointer(m: Machine, elsewhere: nat)
    requires
        m.status == Status::Running,
        !m.stream.exhausted(),
        m.stream.peek() == ']',
    ensures
        ({
            let counter = m.frames.last().counter;
            let moved = Machine { tape: m.tape.pointed_at(elsewhere), ..m };
            if m.tape.cells[counter as int] == 0 {
                &&& m.step().frames == m.frames.drop_last()
                &&& m.step().tape == m.tape
                &&& moved.step() == (Machine { tape: moved.tape, ..m.step() })
            } else {
                &&& m.step().stream.position == m.frames.last().start
                &&& m.step().tape == m.tape.pointed_at(counter)
                &&& moved.step() == m.step()
            }
        }),
{
}

/// A step of a running pass does not look at the passes open underneath
/// it: with `below` underneath, the step does the same.
pub proof fn lemma_step_under_frames(m: Machine, below: Seq<Frame>)
    requires
        m.status == Status::Running,
        m.frames.len() > 0,
    ensures
        m.under(below).step() == m.step().under(below),
{
    let lower = m.under(below);
    assert(lower.frames.last() == m.frames.last());
    assert(lower.frames.drop_last() =~= below + m.frames.drop_last());
    assert forall|frame: Frame| lower.frames.push(frame) =~= below + m.frames.push(frame) by {}
    assert(lower.step().frames =~= m.step().under(below).frames);
}

/// As long as a pass run on its own is running, it runs the same with
/// `below` underneath, step for step. Its last step may be the one that
/// stops it: if that step closed the pass, the machine with `below`
/// underneath is back in the enclosing pass.
pub proof fn lemma_run_under_frames(m: Machine, below: Seq<Frame>, steps: nat)
    requires
        m.wf(),
        steps > 0 ==> m.run((steps - 1) as nat).status == Status::Running,
    ensures
        m.under(below).run(steps) == m.run(steps).under(below),
    decreases steps,
{
    if steps > 0 {
        if m.status != Status::Running {
            m.lemma_run_stopped((steps - 1) as nat);
        }
        lemma_step_under_frames(m, below);
        m.lemma_step_preserves();
        lemma_run_under_frames(m.step(), below, (steps - 1) as nat);
    } else {
        assert(m.under(below).frames =~= m.run(0).under(below).frames);
    }
}

/// A loop is a pass of its own, nested in the one that holds it. Reading
/// `[` and then taking `steps` steps comes to the same as a fresh outermost
/// pass that starts behind the `[` with the current cell as its counter,
/// takes `steps` steps, and is then put back on top of the passes that were
/// open. This holds up to and including the step that stops the nested pass.
pub proof fn lemma_loop_is_nested_pass(m: Machine, steps: nat)
    requires
        m.wf(),
        m.status == Status::Running,
        !m.stream.exhausted(),
        m.stream.peek() == '[',
        steps > 0 ==> m.entered(m.stream.position + 1, m.tape.pointer).run(
            (steps - 1) as nat,
        ).status == Status::Running,
    ensures
        m.run(steps + 1) == m.entered(m.stream.position + 1, m.tape.pointer).run(steps).under(
            m.frames,
        ),
{
    let pass = m.entered(m.stream.position + 1, m.tape.pointer);
    assert(m.step().frames =~= pass.under(m.frames).frames);
    assert(m.step() == pass.under(m.frames));
    lemma_run_under_frames(pass, m.frames, steps);
    m.lemma_run_add(1, steps);
    assert(m.run(1) == m.step()) by {
        reveal_with_fuel(Machine::run, 2);
    }
}

/// Whether the loop `[->]` stands at the cursor: its body takes one from
/// the counter cell and then leaves that cell.
pub open spec fn at_drain_loop(stream: StreamView) -> bool {
    &&& stream.position + 3 < stream.data.len()
    &&& stream.command(0) == '['
    &&& stream.command(1) == '-'
    &&& stream.command(2) == '>'
    &&& stream.command(3) == ']'
}

/// How many passes bring a counter cell that holds `start` down to zero
/// when each pass takes one from it. The test comes after the pass, so a
/// cell that starts at zero goes once around.
pub open spec fn drain_passes(start: u8) -> nat {
    if start == 0 {
        256
    } else {
        start as nat
    }
}

/// The tape after the loop `[->]`: the counter cell is zero and the pointer
/// is on the cell to its right, created if it was not there.
pub open spec fn drained(tape: TapeView) -> TapeView {
    TapeView {
        cells: tape.moved_right().cells.update(tape.pointer as int, 0u8),
        pointer: tape.pointer + 1,
    }
}

/// Inside the loop `[->]`, at the start of its body: the passes that are
/// left bring the counter cell to zero and close the loop.
proof fn lemma_drain_passes(m: Machine)
    requires
        m.wf(),
        m.status == Status::Running,
        m.frames.len() >= 2,
        m.frames.last() == (Frame { start: m.stream.position, counter: m.tape.pointer }),
        m.stream.position + 2 < m.stream.data.len(),
        m.stream.command(0) == '-',
        m.stream.command(1) == '>',
        m.stream.command(2) == ']',
    ensures
        m.run(3 * drain_passes(m.tape.current())) == (Machine {
            stream: m.stream.at(m.stream.position + 3),
            tape: drained(m.tape),
            frames: m.frames.drop_last(),
            ..m
        }),
    decreases drain_passes(m.tape.current()),
{
    let passes = drain_passes(m.tape.current());
    let taken = m.step();
    let away = taken.step();
    let tested = away.step();
    assert(m.run(3) == tested) by {
        reveal_with_fuel(Machine::run, 4);
    }
    m.lemma_run_add(3, (3 * (passes - 1)) as nat);
    if m.tape.current() == 1 {
        assert(tested.tape.cells =~= drained(m.tape).cells);
    } else {
        assert(tested.tape.cells[m.tape.pointer as int] == taken.tape.current());
        assert(drain_passes(tested.tape.current()) == passes - 1);
        m.lemma_run_preserves(3);
        lemma_drain_passes(tested);
        assert(drained(tested.tape).cells =~= drained(m.tape).cells);
    }
}

/// The loop `[->]` ends with its counter cell at zero, though every pass
/// leaves the pointer on the next cell: each `]` tests the cell on which
/// the loop was entered. The body runs once for each unit the counter held
/// at entry, and 256 times if it held zero; output, the cells other than the
/// counter and the enclosing passes are as before.
pub proof fn lemma_drain_loop(m: Machine)
    requires
        m.wf(),
        m.status == Status::Running,
        at_drain_loop(m.stream),
    ensures
        m.run(3 * drain_passes(m.tape.current()) + 1) == (Machine {
            stream: m.stream.at(m.stream.position + 4),
            tape: drained(m.tape),
            ..m
        }),
{
    let inside = m.step();
    m.lemma_step_preserves();
    assert(inside.frames.drop_last() =~= m.frames);
    lemma_drain_passes(inside);
    m.lemma_run_add(1, 3 * drain_passes(m.tape.current()));
    assert(m.run(1) == inside) by {
        reveal_with_fuel(Machine::run, 2);
    }
}

} // verus!
