//! The rules of a recording: what each keystroke does to the pending line and
//! to the session, when a line ends the recording, and when the next byte may
//! be read.

use crate::char_buffer::{last_word, word_start, CharBuffer};
use crate::errors::{ReplayError, ReplayResult};
use crate::pattern::{is_match, regex_is_match};
use crate::session::{description_text, own_id, session_view, Session, SessionView};
use crate::text::text_of;
use vstd::prelude::*;
use vstd::string::*;
use vstd::utf8::*;

verus! {

/// Backspace: takes the last byte off the pending line.
pub const BACKSPACE: u8 = 0x7F;

/// Ctrl+W: takes the last word off the pending line.
pub const CTRL_W: u8 = 0x17;

/// Ctrl+C: drops the pending line and the last recorded one.
pub const CTRL_C: u8 = 0x03;

/// Enter: submits the pending line.
pub const ENTER: u8 = 0x0D;

/// How a run of the shell is recorded.
pub struct RecordConfig {
    /// Whether the submitted lines are kept.
    pub record_input: bool,
    /// What the user says of the session.
    pub session_description: Option<String>,
    /// Whether the session is stored as plain JSON.
    pub no_compression: bool,
}

impl Default for RecordConfig {
    fn default() -> (r: Self)
        ensures
            !r.record_input,
            r.session_description is None,
            !r.no_compression,
    {
        RecordConfig { record_input: false, session_description: None, no_compression: false }
    }
}

/// Where the input loop stands.
#[derive(Clone, Copy, Debug, PartialEq, Eq, Structural)]
pub enum Phase {
    /// A line went to the shell, or the shell has just started: no byte is
    /// read until the prompt is back.
    AwaitingPrompt,
    /// The pending line is empty.
    Idle,
    /// The pending line holds something.
    Editing,
    /// The loop is over.
    Terminating,
}

/// What a submitted line asks for.
#[derive(Clone, Copy, Debug, PartialEq, Eq, Structural)]
pub enum LineKind {
    /// `q` and Enter: leave without saving.
    Quit,
    /// `exit` between optional white space: leave and save.
    Exit,
    /// Any other line: a command for the shell.
    Other,
}

/// What the loop does with the byte it has just read.
#[derive(Clone, Copy, Debug, PartialEq, Eq, Structural)]
pub enum Action {
    /// Write the byte to the shell and read on.
    Forward,
    /// Write the byte to the shell, tell the output side that a command went
    /// out, and wait for the prompt.
    Submit,
    /// Kill the shell and stop; the byte is not written.
    Quit,
    /// Close the shell's input and stop; the byte is not written.
    Exit,
}

/// The state of a recording.
pub struct Recording {
    /// The pending line.
    pub line: Seq<u8>,
    /// The session that is being recorded; `None` when nothing is recorded
    /// or the session was dropped.
    pub session: Option<SessionView>,
    /// Whether the run was started to record.
    pub record_input: bool,
    /// Whether the session is to be stored compressed.
    pub compress: bool,
    /// Where the loop stands.
    pub phase: Phase,
    /// Whether a line that is not UTF-8 ended the recording.
    pub fault: bool,
}

/// The regular expression of a line that ends the recording.
pub open spec fn exit_pattern() -> Seq<char> {
    "^\\s*exit\\s*\\r$"@
}

/// The line that leaves without saving: `q` and Enter.
pub open spec fn quit_line() -> Seq<u8> {
    seq![0x71u8, 0x0Du8]
}

/// True when `text` matches the exit pattern.
pub open spec fn is_exit_text(text: Seq<char>) -> bool {
    regex_is_match(exit_pattern(), text) == Some(true)
}

/// What the submitted line `line` asks for; `None` where it is neither the
/// quit line nor UTF-8.
pub open spec fn line_kind(line: Seq<u8>) -> Option<LineKind> {
    if line == quit_line() {
        Some(LineKind::Quit)
    } else if !valid_utf8(line) {
        None
    } else if is_exit_text(decode_utf8(line)) {
        Some(LineKind::Exit)
    } else {
        Some(LineKind::Other)
    }
}

/// The phase of a loop that may read, given the pending line.
pub open spec fn reading_phase(line: Seq<u8>) -> Phase {
    if line.len() == 0 {
        Phase::Idle
    } else {
        Phase::Editing
    }
}

impl Recording {
    /// The lines recorded so far; `None` when nothing is recorded or the
    /// session was dropped.
    pub open spec fn lines(&self) -> Option<Seq<Seq<char>>> {
        match self.session {
            Some(s) => Some(s.lines),
            None => None,
        }
    }
}

/// A recording that has not read a byte yet: it waits for the first prompt.
pub open spec fn initial(record_input: bool, compress: bool, session: Option<SessionView>) -> Recording {
    Recording {
        line: Seq::<u8>::empty(),
        session,
        record_input,
        compress,
        phase: Phase::AwaitingPrompt,
        fault: false,
    }
}

/// The pending line after an editing byte, which is any byte but Enter.
pub open spec fn edited_line(line: Seq<u8>, c: u8) -> Seq<u8> {
    if c == BACKSPACE {
        if line.len() > 0 {
            line.drop_last()
        } else {
            line
        }
    } else if c == CTRL_W {
        if last_word(line) is Some {
            line.subrange(0, word_start(line))
        } else {
            line
        }
    } else if c == CTRL_C {
        Seq::<u8>::empty()
    } else {
        line.push(c)
    }
}

/// The session after an editing byte: Ctrl+C takes its last line off, and
/// nothing else of it changes.
pub open spec fn edited_session(session: Option<SessionView>, c: u8) -> Option<SessionView> {
    match session {
        Some(s) => if c == CTRL_C && s.lines.len() > 0 {
            Some(SessionView { lines: s.lines.drop_last(), ..s })
        } else {
            Some(s)
        },
        None => None,
    }
}

/// The recording after an editing byte.
pub open spec fn edit(m: Recording, c: u8) -> Recording {
    Recording {
        line: edited_line(m.line, c),
        session: edited_session(m.session, c),
        phase: reading_phase(edited_line(m.line, c)),
        ..m
    }
}

/// The recording once Enter has closed the pending line: the line ends with
/// Enter and, where lines are recorded, is the last of them.
pub open spec fn submit(m: Recording) -> Recording {
    Recording {
        line: m.line.push(ENTER),
        session: match m.session {
            Some(s) => Some(
                SessionView { lines: s.lines.push(text_of(m.line.push(ENTER))), ..s },
            ),
            None => None,
        },
        ..m
    }
}

/// The recording once the closed line has been judged.
pub open spec fn settle(m: Recording, kind: Option<LineKind>) -> Recording {
    match kind {
        Some(LineKind::Quit) => Recording { session: None, phase: Phase::Terminating, ..m },
        Some(LineKind::Exit) => Recording { phase: Phase::Terminating, ..m },
        Some(LineKind::Other) => Recording {
            line: Seq::<u8>::empty(),
            phase: Phase::AwaitingPrompt,
            ..m
        },
        None => Recording { session: None, phase: Phase::Terminating, fault: true, ..m },
    }
}

/// What the loop does once the closed line has been judged; nothing where
/// the line is not UTF-8.
pub open spec fn action_for(kind: Option<LineKind>) -> Option<Action> {
    match kind {
        Some(LineKind::Quit) => Some(Action::Quit),
        Some(LineKind::Exit) => Some(Action::Exit),
        Some(LineKind::Other) => Some(Action::Submit),
        None => None,
    }
}

/// The recording after the byte `c`.
pub open spec fn step(m: Recording, c: u8) -> Recording {
    if c == ENTER {
        settle(submit(m), line_kind(submit(m).line))
    } else {
        edit(m, c)
    }
}

/// What the loop does with the byte `c`.
pub open spec fn step_action(m: Recording, c: u8) -> Option<Action> {
    if c == ENTER {
        action_for(line_kind(submit(m).line))
    } else {
        Some(Action::Forward)
    }
}

/// The recording once the prompt is back.
pub open spec fn prompted(m: Recording) -> Recording {
    if m.phase == Phase::AwaitingPrompt {
        Recording { phase: reading_phase(m.line), ..m }
    } else {
        m
    }
}

/// The recording after the bytes of `input`, with a shell that shows its
/// prompt after every line: the bytes that follow the end of the loop are
/// not read.
pub open spec fn run(m: Recording, input: Seq<u8>) -> Recording
    decreases input.len(),
{
    if input.len() == 0 || prompted(m).phase == Phase::Terminating {
        m
    } else {
        run(step(prompted(m), input[0]), input.drop_first())
    }
}

/// After a byte the loop waits for the prompt exactly when the byte was
/// Enter and the line was a command for the shell; in every other case it
/// may read on or has ended.
pub proof fn lemma_enter_awaits_prompt(m: Recording, c: u8)
    requires
        m.phase == Phase::Idle || m.phase == Phase::Editing,
    ensures
        step(m, c).phase == Phase::AwaitingPrompt <==> c == ENTER && line_kind(submit(m).line)
            == Some(LineKind::Other),
        step(m, c).phase == Phase::AwaitingPrompt <==> step_action(m, c) == Some(Action::Submit),
        step(m, c).phase == Phase::AwaitingPrompt ==> step(m, c).line.len() == 0,
        prompted(step(m, c)).phase != Phase::AwaitingPrompt,
{
}

/// A recording that an exit line ends holds that line as its last one; one
/// that the quit line ends holds nothing.
pub proof fn lemma_last_line_tells_the_ending(m: Recording)
    requires
        m.session is Some,
    ensures
        line_kind(submit(m).line) == Some(LineKind::Exit) ==> step(m, ENTER).phase
            == Phase::Terminating && step(m, ENTER).lines() is Some && step(
            m,
            ENTER,
        ).lines().unwrap().last() == text_of(m.line.push(ENTER)),
        line_kind(submit(m).line) == Some(LineKind::Quit) ==> step(m, ENTER).phase
            == Phase::Terminating && step(m, ENTER).session is None,
        line_kind(submit(m).line) == Some(LineKind::Other) ==> step(m, ENTER).phase
            != Phase::Terminating,
{
}

/// A line that was typed as UTF-8 is recorded as the text that it encodes.
pub proof fn lemma_utf8_line_is_recorded_as_typed(m: Recording)
    requires
        m.session is Some,
        valid_utf8(m.line.push(ENTER)),
    ensures
        submit(m).session.unwrap().lines.last() == decode_utf8(m.line.push(ENTER)),
        step(m, ENTER).session is Some ==> step(m, ENTER).session.unwrap().lines.last()
            == decode_utf8(m.line.push(ENTER)),
{
}

/// True when `after` is `before` but for its lines, or no session at all:
/// a byte never touches a session's description, id, user or time, and
/// never opens a session.
pub open spec fn same_identity(before: Option<SessionView>, after: Option<SessionView>) -> bool {
    match after {
        Some(a) => before is Some && a == (SessionView { lines: a.lines, ..before.unwrap() }),
        None => true,
    }
}

/// A byte changes neither how the run was started nor, of the session,
/// anything but its lines.
pub proof fn lemma_step_keeps_identity(m: Recording, c: u8)
    ensures
        step(m, c).record_input == m.record_input,
        step(m, c).compress == m.compress,
        same_identity(m.session, step(m, c).session),
        own_id(m.session.unwrap()) && step(m, c).session is Some ==> own_id(
            step(m, c).session.unwrap(),
        ),
{
}

/// No input changes how the run was started or, of the session, anything
/// but its lines.
pub proof fn lemma_run_keeps_identity(m: Recording, input: Seq<u8>)
    ensures
        run(m, input).record_input == m.record_input,
        run(m, input).compress == m.compress,
        same_identity(m.session, run(m, input).session),
    decreases input.len(),
{
    if input.len() == 0 || prompted(m).phase == Phase::Terminating {
    } else {
        let next = step(prompted(m), input[0]);
        lemma_step_keeps_identity(prompted(m), input[0]);
        lemma_run_keeps_identity(next, input.drop_first());
    }
}

/// A run that was not started to record holds no session, whatever it
/// reads.
pub proof fn lemma_replay_records_nothing(m: Recording, input: Seq<u8>)
    requires
        m.session is None,
    ensures
        run(m, input).session is None,
{
    lemma_run_keeps_identity(m, input);
}

/// Ctrl+C leaves the pending line empty, whether or not it was: pressing it
/// twice in a row changes the line no more than pressing it once.
pub proof fn lemma_ctrl_c_clears(m: Recording)
    ensures
        edit(m, CTRL_C).line.len() == 0,
        edit(m, CTRL_C).phase == Phase::Idle,
        edit(edit(m, CTRL_C), CTRL_C).line == edit(m, CTRL_C).line,
{
}

/// What the closed line asks for, given whether it is the quit line and what
/// the exit pattern found in its text.
pub fn kind_from(is_quit: bool, exit_found: Option<bool>) -> (k: LineKind)
    ensures
        k == if is_quit {
            LineKind::Quit
        } else if exit_found == Some(true) {
            LineKind::Exit
        } else {
            LineKind::Other
        },
{
    if is_quit {
        LineKind::Quit
    } else {
        match exit_found {
            Some(true) => LineKind::Exit,
            _ => LineKind::Other,
        }
    }
}

/// True when `line` is `q` and Enter.
pub fn is_quit_line(line: &[u8]) -> (b: bool)
    ensures
        b == (line@ == quit_line()),
{
    let b = line.len() == 2 && line[0] == 0x71 && line[1] == ENTER;
    assert(b ==> line@ =~= quit_line());
    b
}

/// What the submitted line asks for. A line that is neither the quit line
/// nor UTF-8 is an error.
pub fn classify_line(line: &[u8]) -> (r: ReplayResult<LineKind>)
    ensures
        match line_kind(line@) {
            Some(k) => r == Ok::<LineKind, ReplayError>(k),
            None => r is Err && r.unwrap_err() is Utf8,
        },
{
    if is_quit_line(line) {
        return Ok(kind_from(true, None));
    }
    match core::str::from_utf8(line) {
        Ok(text) => Ok(kind_from(false, is_match("^\\s*exit\\s*\\r$", text))),
        Err(e) => Err(ReplayError::Utf8(e)),
    }
}

/// The input side of a recording: the pending line, the session that is
/// being recorded, and the phase of the loop.
pub struct InputInterpreter {
    buffer: CharBuffer,
    session: Option<Session>,
    record_input: bool,
    no_compression: bool,
    phase: Phase,
    fault: bool,
}

impl View for InputInterpreter {
    type V = Recording;

    closed spec fn view(&self) -> Recording {
        Recording {
            line: self.buffer@,
            session: session_view(self.session),
            record_input: self.record_input,
            compress: !self.no_compression,
            phase: self.phase,
            fault: self.fault,
        }
    }
}

impl InputInterpreter {
    /// The interpreter of a run that has not read a byte yet and records
    /// into `session`, if there is one.
    pub fn with_session(session: Option<Session>, record_input: bool, no_compression: bool) -> (r:
        Self)
        ensures
            r@ == initial(record_input, !no_compression, session_view(session)),
    {
        InputInterpreter {
            buffer: CharBuffer::new(),
            session,
            record_input,
            no_compression,
            phase: Phase::AwaitingPrompt,
            fault: false,
        }
    }

    /// The interpreter of a run that has not read a byte yet. Where the run
    /// records, a session without lines is opened for the current user at
    /// the current time, under the description of `config`; where it does
    /// not, there is no session and nothing can fail.
    pub fn new(config: RecordConfig) -> (r: ReplayResult<Self>)
        ensures
            !config.record_input ==> r is Ok,
            r is Ok ==> {
                let m = r.unwrap()@;
                &&& m == initial(config.record_input, !config.no_compression, m.session)
                &&& m.session is Some <==> config.record_input
                &&& m.session is Some ==> {
                    let s = m.session.unwrap();
                    &&& s.lines == Seq::<Seq<char>>::empty()
                    &&& s.description == description_text(config.session_description)
                    &&& own_id(s)
                    &&& crate::session::fills_a_record(s.id)
                }
            },
            r is Err ==> r->Err_0.is_session_error(crate::errors::time_text()),
    {
        let session = if config.record_input {
            match Session::new(config.session_description) {
                Ok(s) => Some(s),
                Err(e) => {
                    return Err(e);
                },
            }
        } else {
            None
        };
        Ok(Self::with_session(session, config.record_input, config.no_compression))
    }

    /// Where the loop stands.
    pub fn phase(&self) -> (p: Phase)
        ensures
            p == self@.phase,
    {
        self.phase
    }

    /// The pending line.
    pub fn pending(&self) -> (r: &[u8])
        ensures
            r@ == self@.line,
    {
        self.buffer.get_buf()
    }

    /// Takes note that the shell shows its prompt: a loop that waited for it
    /// may read again.
    pub fn prompt_ready(&mut self)
        ensures
            final(self)@ == prompted(old(self)@),
    {
        if self.phase == Phase::AwaitingPrompt {
            self.phase = if self.buffer.get_buf().len() == 0 {
                Phase::Idle
            } else {
                Phase::Editing
            };
        }
    }

    /// Applies a byte that is not Enter: Backspace, Ctrl+W and Ctrl+C edit
    /// the pending line, and Ctrl+C also takes the last recorded line back;
    /// any other byte joins the pending line.
    pub fn edit_byte(&mut self, c: u8)
        requires
            c != ENTER,
        ensures
            final(self)@ == edit(old(self)@, c),
    {
        if c == BACKSPACE {
            self.buffer.pop_char();
        } else if c == CTRL_W {
            self.buffer.pop_word();
        } else if c == CTRL_C {
            match &mut self.session {
                Some(s) => {
                    s.remove_last_command();
                },
                None => {},
            }
            self.buffer.clear();
        } else {
            self.buffer.push_char(c);
        }
        self.phase = if self.buffer.get_buf().len() == 0 {
            Phase::Idle
        } else {
            Phase::Editing
        };
    }

    /// Closes the pending line with Enter and, where lines are recorded,
    /// appends it to the session.
    pub fn submit_line(&mut self)
        ensures
            final(self)@ == submit(old(self)@),
    {
        self.buffer.push_char(ENTER);
        match &mut self.session {
            Some(s) => {
                s.add_command(vstd::slice::slice_to_vec(self.buffer.get_buf()));
            },
            None => {},
        }
    }

    /// Acts on the judgement of the closed line: the quit line drops the
    /// session and ends the loop, an exit line ends it, a line that is not
    /// UTF-8 ends it with that error and drops the session, and any other
    /// line empties the pending line and makes the loop wait for the prompt.
    pub fn settle_line(&mut self, kind: ReplayResult<LineKind>) -> (r: ReplayResult<Action>)
        ensures
            match kind {
                Ok(k) => final(self)@ == settle(old(self)@, Some(k)) && r.ok() == action_for(
                    Some(k),
                ),
                Err(e) => final(self)@ == settle(old(self)@, None) && r == Err::<
                    Action,
                    ReplayError,
                >(e),
            },
    {
        match kind {
            Ok(LineKind::Quit) => {
                self.session = None;
                self.phase = Phase::Terminating;
                Ok(Action::Quit)
            },
            Ok(LineKind::Exit) => {
                self.phase = Phase::Terminating;
                Ok(Action::Exit)
            },
            Ok(LineKind::Other) => {
                self.buffer.clear();
                self.phase = Phase::AwaitingPrompt;
                Ok(Action::Submit)
            },
            Err(e) => {
                self.session = None;
                self.phase = Phase::Terminating;
                self.fault = true;
                Err(e)
            },
        }
    }

    /// Applies the byte `c` and says what the loop does next. The loop reads
    /// a byte only while it neither waits for the prompt nor has ended.
    pub fn on_byte(&mut self, c: u8) -> (r: ReplayResult<Action>)
        requires
            old(self)@.phase == Phase::Idle || old(self)@.phase == Phase::Editing,
        ensures
            final(self)@ == step(old(self)@, c),
            r.ok() == step_action(old(self)@, c),
            r is Err ==> r.unwrap_err() is Utf8,
    {
        if c == ENTER {
            self.submit_line();
            let kind = classify_line(self.buffer.get_buf());
            self.settle_line(kind)
        } else {
            self.edit_byte(c);
            Ok(Action::Forward)
        }
    }

    /// Applies the bytes of `input` in order, with a shell that shows its
    /// prompt after every line, and stops where the loop ends.
    pub fn feed(&mut self, input: &[u8]) -> (r: ReplayResult<()>)
        ensures
            final(self)@ == run(old(self)@, input@),
            r is Err ==> final(self)@.fault && r.unwrap_err() is Utf8,
            r is Ok ==> final(self)@.fault == old(self)@.fault,
    {
        let mut i: usize = 0;
        assert(input@.subrange(0, input@.len() as int) =~= input@);
        while i < input.len()
            invariant
                i <= input@.len(),
                run(old(self)@, input@) == run(self@, input@.subrange(i as int, input@.len() as int)),
                self@.fault == old(self)@.fault,
            decreases input@.len() - i,
        {
            let ghost rest = input@.subrange(i as int, input@.len() as int);
            self.prompt_ready();
            if self.phase == Phase::Terminating {
                return Ok(());
            }
            let r = self.on_byte(input[i]);
            i += 1;
            proof {
                assert(rest.drop_first() =~= input@.subrange(i as int, input@.len() as int));
                assert(rest[0] == input@[i - 1]);
            }
            match r {
                Ok(_) => {},
                Err(e) => {
                    proof {
                        lemma_run_ended(self@, input@.subrange(i as int, input@.len() as int));
                    }
                    return Err(e);
                },
            }
        }
        Ok(())
    }

    /// Ends the run and hands out what is left to do: the session to save,
    /// if there is one.
    pub fn finish(self) -> (r: RecordOutcome)
        ensures
            session_view(r.session) == self@.session,
            r.session is Some <==> self@.session is Some,
            r.session is Some ==> self@.lines() == Some(r.session.unwrap().lines()),
            r.compress == self@.compress,
            r.record_input == self@.record_input,
    {
        RecordOutcome {
            session: self.session,
            compress: !self.no_compression,
            record_input: self.record_input,
        }
    }
}

/// A loop that has ended reads no further byte.
pub proof fn lemma_run_ended(m: Recording, input: Seq<u8>)
    requires
        m.phase == Phase::Terminating,
    ensures
        run(m, input) == m,
{
}

/// What is left to do once the input loop is over.
pub struct RecordOutcome {
    /// The session to save; `None` where nothing was recorded or the session
    /// was dropped.
    pub session: Option<Session>,
    /// Whether the session is stored compressed.
    pub compress: bool,
    /// Whether the run was started to record.
    pub record_input: bool,
}

/// The text that tells the user how a recording ended. `None` for a run that
/// did not record.
pub open spec fn exit_text(saved: bool, record_input: bool) -> Option<Seq<char>> {
    if saved {
        Some("Session saved"@)
    } else if record_input {
        Some("No session saved"@)
    } else {
        None
    }
}

impl RecordOutcome {
    /// The message to show once the session, if any, has been saved.
    pub fn exit_message(&self) -> (r: Option<String>)
        ensures
            r is Some <==> exit_text(self.session is Some, self.record_input) is Some,
            r is Some ==> Some(r.unwrap()@) == exit_text(self.session is Some, self.record_input),
    {
        if self.session.is_some() {
            Some(String::from_str("Session saved"))
        } else if self.record_input {
            Some(String::from_str("No session saved"))
        } else {
            None
        }
    }
}

/// A source that hands out recorded input one byte at a time, as a terminal
/// in raw mode does, with a pause before each byte.
pub struct RawModeReader {
    data: Vec<u8>,
    pos: usize,
    delay_ms: u64,
}

impl RawModeReader {
    /// All the bytes of the source.
    pub closed spec fn data(&self) -> Seq<u8> {
        self.data@
    }

    /// Number of bytes handed out so far.
    pub closed spec fn position(&self) -> int {
        self.pos as int
    }

    /// The pause before each byte, in milliseconds.
    pub closed spec fn pause(&self) -> u64 {
        self.delay_ms
    }

    #[verifier::type_invariant]
    spec fn inv(&self) -> bool {
        self.pos <= self.data@.len()
    }

    /// A source of the bytes of `input`, without pause.
    pub fn with_input(input: &[u8]) -> (r: Self)
        ensures
            r.data() == input@,
            r.position() == 0,
            r.pause() == 0,
    {
        RawModeReader { data: vstd::slice::slice_to_vec(input), pos: 0, delay_ms: 0 }
    }

    /// A source of the bytes of `input` that pauses `delay_ms` milliseconds
    /// before each of them.
    pub fn with_input_and_delay(input: &[u8], delay_ms: u64) -> (r: Self)
        ensures
            r.data() == input@,
            r.position() == 0,
            r.pause() == delay_ms,
    {
        RawModeReader { data: vstd::slice::slice_to_vec(input), pos: 0, delay_ms }
    }

    /// The pause before each byte, in milliseconds.
    pub fn delay_ms(&self) -> (d: u64)
        ensures
            d == self.pause(),
    {
        self.delay_ms
    }

    /// Number of bytes still to come.
    pub fn remaining(&self) -> (n: usize)
        ensures
            n == self.data().len() - self.position(),
            0 <= self.position() <= self.data().len(),
    {
        proof {
            use_type_invariant(self);
        }
        self.data.len() - self.pos
    }

    /// Puts the next byte into `buf[0]` and returns 1, or returns 0 once all
    /// bytes have been handed out.
    pub fn read(&mut self, buf: &mut [u8]) -> (n: usize)
        requires
            old(self).position() < old(self).data().len() ==> old(buf)@.len() > 0,
        ensures
            final(self).data() == old(self).data(),
            final(self).pause() == old(self).pause(),
            old(self).position() >= old(self).data().len() ==> n == 0 && final(buf)@ == old(buf)@
                && final(self).position() == old(self).position(),
            old(self).position() < old(self).data().len() ==> n == 1 && final(buf)@ == old(
                buf,
            )@.update(0, old(self).data()[old(self).position()]) && final(self).position() == old(
                self,
            ).position() + 1,
    {
        proof {
            use_type_invariant(&*self);
        }
        if self.pos >= self.data.len() {
            return 0;
        }
        buf[0] = self.data[self.pos];
        self.pos += 1;
        1
    }
}

impl Default for RawModeReader {
    fn default() -> (r: Self)
        ensures
            r.data() == Seq::<u8>::empty(),
            r.position() == 0,
            r.pause() == 0,
    {
        RawModeReader { data: Vec::new(), pos: 0, delay_ms: 0 }
    }
}

} // verus!
