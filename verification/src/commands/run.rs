//! `run`: replay a stored session, or show its commands.

use crate::pty::{RawModeReader, RecordConfig};
use crate::session::Session;
use crate::text::{append_bytes, decimal, push_decimal};
use vstd::prelude::*;
use vstd::string::*;
use vstd::utf8::*;

verus! {

/// Replays the session at a position, or lists its commands.
#[derive(Debug, PartialEq, Eq, Structural)]
pub struct RunCommand {
    session_index: u32,
    show: bool,
    delay: u64,
}

/// The bytes of `lines`, one line after the other.
pub open spec fn replay_bytes(lines: Seq<Seq<char>>) -> Seq<u8>
    decreases lines.len(),
{
    if lines.len() == 0 {
        Seq::<u8>::empty()
    } else {
        replay_bytes(lines.drop_last()) + encode_utf8(lines.last())
    }
}

/// The first line of what `--show` prints for the session at `index`.
pub open spec fn show_header(index: u32) -> Seq<char> {
    "Commands for session 'replay@{"@ + decimal(index as int) + "}':"@
}

/// The line that `--show` prints for the command `line`, the `number`-th of
/// the session.
pub open spec fn show_line(number: int, line: Seq<char>) -> Seq<char> {
    "  "@ + decimal(number) + ". "@ + line
}

/// How many commands `--show` prints: all but the last, which ends the
/// session.
pub open spec fn shown_count(lines: Seq<Seq<char>>) -> int {
    if lines.len() == 0 {
        0
    } else {
        lines.len() - 1
    }
}

/// A line that was typed as UTF-8 is replayed byte for byte: encoding the
/// recorded text gives the typed bytes back.
pub proof fn lemma_valid_line_replays_as_typed(typed: Seq<u8>)
    requires
        valid_utf8(typed),
    ensures
        encode_utf8(decode_utf8(typed)) == typed,
        replay_bytes(seq![decode_utf8(typed)]) == typed,
{
    decode_utf8_encode_utf8(typed);
    let lines = seq![decode_utf8(typed)];
    assert(lines.drop_last() =~= Seq::<Seq<char>>::empty());
    assert(replay_bytes(lines.drop_last()) =~= Seq::<u8>::empty());
    assert(replay_bytes(lines) =~= typed);
}

/// The bytes of a replay are those of its lines, in order.
pub proof fn lemma_replay_bytes_push(lines: Seq<Seq<char>>, line: Seq<char>)
    ensures
        replay_bytes(lines.push(line)) == replay_bytes(lines) + encode_utf8(line),
{
    assert(lines.push(line).drop_last() =~= lines);
}

impl RunCommand {
    /// The position of the session, 0 being the newest.
    pub closed spec fn index(&self) -> u32 {
        self.session_index
    }

    /// Whether the commands are listed instead of run.
    pub closed spec fn shows(&self) -> bool {
        self.show
    }

    /// The pause before each byte, in milliseconds.
    pub closed spec fn pause(&self) -> u64 {
        self.delay
    }

    /// The command that replays the session at `session_index`.
    pub fn new(session_index: u32, show: bool, delay: u64) -> (r: Self)
        ensures
            r.index() == session_index,
            r.shows() == show,
            r.pause() == delay,
    {
        RunCommand { session_index, show, delay }
    }

    /// The position of the session, 0 being the newest.
    pub fn session_index(&self) -> (n: u32)
        ensures
            n == self.index(),
    {
        self.session_index
    }

    /// Whether the commands are listed instead of run.
    pub fn show(&self) -> (b: bool)
        ensures
            b == self.shows(),
    {
        self.show
    }

    /// The pause before each byte, in milliseconds.
    pub fn delay(&self) -> (d: u64)
        ensures
            d == self.pause(),
    {
        self.delay
    }

    /// What `--show` prints for `session`: a header, then the commands with
    /// their numbers, but for the last one.
    pub fn show_commands(&self, session: &Session) -> (r: Vec<String>)
        ensures
            r@.len() == 1 + shown_count(session.lines()),
            r@[0]@ == show_header(self.index()),
            forall|i: int|
                1 <= i < r@.len() ==> (#[trigger] r@[i])@ == show_line(i, session.lines()[i - 1]),
    {
        let mut out: Vec<String> = Vec::new();
        let mut header = String::from_str("Commands for session 'replay@{");
        push_decimal(&mut header, self.session_index as u128);
        header.append("}':");
        out.push(header);
        let count = if session.commands.len() == 0 {
            0
        } else {
            session.commands.len() - 1
        };
        let mut i: usize = 0;
        while i < count
            invariant
                i <= count,
                count == shown_count(session.lines()),
                out@.len() == 1 + i,
                out@[0]@ == show_header(self.index()),
                forall|k: int|
                    1 <= k < out@.len() ==> (#[trigger] out@[k])@ == show_line(
                        k,
                        session.lines()[k - 1],
                    ),
            decreases count - i,
        {
            let mut line = String::from_str("  ");
            push_decimal(&mut line, (i + 1) as u128);
            line.append(". ");
            line.append(session.commands[i].as_str());
            out.push(line);
            i += 1;
        }
        out
    }

    /// The input of the replay: the bytes of the session's commands, one
    /// command after the other, each byte after the command's pause.
    pub fn replay_input(&self, session: &Session) -> (r: RawModeReader)
        ensures
            r.data() == replay_bytes(session.lines()),
            r.position() == 0,
            r.pause() == self.pause(),
    {
        let mut bytes: Vec<u8> = Vec::new();
        let mut i: usize = 0;
        while i < session.commands.len()
            invariant
                i <= session.commands@.len(),
                bytes@ == replay_bytes(session.lines().subrange(0, i as int)),
            decreases session.commands@.len() - i,
        {
            proof {
                let next = session.lines().subrange(0, i + 1);
                assert(next.drop_last() =~= session.lines().subrange(0, i as int));
                assert(next.last() == session.commands@[i as int]@);
            }
            append_bytes(&mut bytes, session.commands[i].as_str().as_bytes());
            i += 1;
        }
        assert(session.lines().subrange(0, session.lines().len() as int) =~= session.lines());
        RawModeReader::with_input_and_delay(bytes.as_slice(), self.delay)
    }

    /// How the run of the shell is recorded during a replay: not at all.
    pub fn config(&self) -> (r: RecordConfig)
        ensures
            !r.record_input,
            r.session_description is None,
            !r.no_compression,
    {
        RecordConfig { record_input: false, session_description: None, no_compression: false }
    }
}

} // verus!
