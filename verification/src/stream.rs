//! The source cursor: restartable, one-command-at-a-time access to a
//! program's text.

use vstd::prelude::*;

verus! {

/// Mathematical model of a source cursor: the program text and the index of
/// the command that is read next.
pub struct StreamView {
    pub data: Seq<char>,
    pub position: nat,
}

/// The program text that a run of raw bytes stands for: every byte is one
/// character, the one with the byte's value as its code point.
pub open spec fn decode(bytes: Seq<u8>) -> Seq<char> {
    Seq::new(bytes.len(), |i: int| bytes[i] as char)
}

/// Turns raw bytes into the characters they stand for.
pub fn decode_bytes(bytes: &[u8]) -> (text: Vec<char>)
    ensures
        text@ == decode(bytes@),
{
    let mut text: Vec<char> = Vec::new();
    let mut i: usize = 0;
    while i < bytes.len()
        invariant
            i <= bytes@.len(),
            text@ == decode(bytes@.subrange(0, i as int)),
        decreases bytes@.len() - i,
    {
        text.push(bytes[i] as char);
        i = i + 1;
    }
    assert(bytes@.subrange(0, i as int) == bytes@);
    text
}

impl StreamView {
    /// The cursor over `data`, placed before its first command.
    pub open spec fn start(data: Seq<char>) -> StreamView {
        StreamView { data, position: 0 }
    }

    /// Whether no command is left to read.
    pub open spec fn exhausted(self) -> bool {
        self.position >= self.data.len()
    }

    /// The command that is read next.
    pub open spec fn peek(self) -> char
        recommends
            !self.exhausted(),
    {
        self.data[self.position as int]
    }

    /// The command `ahead` places after the one that is read next.
    pub open spec fn command(self, ahead: nat) -> char
        recommends
            self.position + ahead < self.data.len(),
    {
        self.data[(self.position + ahead) as int]
    }

    /// The cursor after one command was read.
    pub open spec fn advanced(self) -> StreamView {
        StreamView { position: self.position + 1, ..self }
    }

    /// The cursor moved to `position`; the text stays.
    pub open spec fn at(self, position: nat) -> StreamView {
        StreamView { position, ..self }
    }
}

/// Hands out the commands of a program one by one, and can be sent back to
/// an earlier position so that a loop body is read again.
#[derive(Debug)]
pub struct FakeStreamer {
    /// Index of the command that is read next.
    pub next_read_idx: usize,
    /// The program text, never changed after construction.
    pub data: Vec<char>,
}

impl View for FakeStreamer {
    type V = StreamView;

    open spec fn view(&self) -> StreamView {
        StreamView { data: self.data@, position: self.next_read_idx as nat }
    }
}

impl FakeStreamer {
    /// Creates a cursor at the start of the program given as raw bytes.
    pub fn new(source: &[u8]) -> (stream: FakeStreamer)
        ensures
            stream@ == StreamView::start(decode(source@)),
    {
        FakeStreamer { next_read_idx: 0, data: decode_bytes(source) }
    }

    /// Reads the command at the cursor and moves the cursor past it, or
    /// returns `None`, and moves nothing, once the text is exhausted.
    pub fn read_next_idx(&mut self) -> (command: Option<char>)
        ensures
            old(self)@.exhausted() ==> command == None::<char> && final(self)@ == old(self)@,
            !old(self)@.exhausted() ==> command == Some(old(self)@.peek()) && final(self)@
                == old(self)@.advanced(),
    {
        let read_idx = self.next_read_idx;
        if self.data.len() > read_idx {
            self.next_read_idx = read_idx + 1;
            return Some(self.data[read_idx]);
        }
        None
    }

    /// Moves the cursor to `position`. Any position is accepted: one at or
    /// past the end of the text leaves nothing to read.
    pub fn seek(&mut self, position: usize)
        ensures
            final(self)@ == old(self)@.at(position as nat),
    {
        self.next_read_idx = position;
    }
}

} // verus!
