//! Finding the shell's prompt and recognising it in the shell's output.

use crate::pattern::{strip_matches, without_matches};
use crate::text::{chars_of, contains, contains_text, decode_lossy, string_of, trim, trimmed, text_of};
use vstd::prelude::*;
use vstd::string::*;

verus! {

/// The regular expression of an ANSI escape sequence.
pub open spec fn ansi_pattern() -> Seq<char> {
    "\\x1b\\[[0-9;?]*[a-zA-Z]"@
}

/// The regular expression of what surrounds a prompt in the reply to a
/// probe: ANSI escape sequences and the two markers of non-printing text.
pub open spec fn probe_noise_pattern() -> Seq<char> {
    "\\x1b\\[[0-9;?]*[a-zA-Z]|\\x01|\\x02"@
}

/// The regular expression of what the shell's output holds besides text:
/// ANSI escape sequences, the two markers of non-printing text, operating
/// system commands and mode switches.
pub open spec fn output_noise_pattern() -> Seq<char> {
    "\\x1b\\[[0-9;?]*[a-zA-Z]|[\\x01\\x02]|\\x1b\\][^\\x07]*\\x07|\\x1b\\??\\d*[hl]"@
}

/// The text that the first probe asks the shell to print.
pub open spec fn first_probe() -> Seq<char> {
    "$PS1"@
}

/// True when `text` has the shape `$(...)` of a substitution that the shell
/// has not carried out.
pub open spec fn is_unexpanded(text: Seq<char>) -> bool {
    text.len() >= 2 && text[0] == '$' && text[1] == '(' && text.last() == ')'
}

/// The word that marks the echo of a probe.
pub open spec fn echo_word() -> Seq<char> {
    seq!['e', 'c', 'h', 'o']
}

/// A line of the reply, without escape sequences and surrounding white
/// space.
pub open spec fn cleaned_line(line: Seq<char>) -> Seq<char> {
    trimmed(without_matches(probe_noise_pattern(), line))
}

/// True when the line `line` is a substitution that still has to be carried
/// out.
pub open spec fn is_env_var_text(line: Seq<char>) -> bool {
    is_unexpanded(without_matches(ansi_pattern(), trimmed(line)))
}

/// The command that makes the shell print `last_output`.
pub open spec fn probe_text(last_output: Seq<char>) -> Seq<char> {
    "echo \""@ + last_output + "\" \r"@
}

/// What a line of the reply to a probe tells.
pub enum ProbeReply {
    /// The line is empty or the echo of the probe: read the next line.
    Skip,
    /// The line is a substitution that the shell has not carried out: probe
    /// again with this text.
    Retry(String),
    /// The line is the prompt, and this is its last character.
    Found(char),
}

/// True when `text` has the shape `$(...)`.
pub fn looks_unexpanded(text: &[char]) -> (b: bool)
    ensures
        b == is_unexpanded(text@),
{
    let n = text.len();
    n >= 2 && text[0] == '$' && text[1] == '(' && text[n - 1] == ')'
}

/// Whether the line `line` is a substitution that still has to be carried
/// out: `$(` at its start and `)` at its end, once white space at both ends
/// and escape sequences are taken off.
pub fn is_env_var_output(line: &str) -> (b: bool)
    ensures
        b == is_env_var_text(line@),
{
    let chars = chars_of(line);
    let inner = string_of(trim(chars.as_slice()).as_slice());
    let cleaned = strip_matches("\\x1b\\[[0-9;?]*[a-zA-Z]", inner.as_str());
    let cleaned_chars = chars_of(cleaned.as_str());
    looks_unexpanded(cleaned_chars.as_slice())
}

/// The command that makes the shell print `last_output`.
pub fn probe_command(last_output: &str) -> (r: String)
    ensures
        r@ == probe_text(last_output@),
{
    let mut out = String::from_str("echo \"");
    out.append(last_output);
    out.append("\" \r");
    out
}

/// What the cleaned line `cleaned` tells, given whether it is a
/// substitution that still has to be carried out.
pub fn judge_reply(cleaned: &[char], unexpanded: bool) -> (r: ProbeReply)
    ensures
        cleaned@.len() == 0 || contains_text(cleaned@, echo_word()) ==> r is Skip,
        cleaned@.len() > 0 && !contains_text(cleaned@, echo_word()) && unexpanded ==> r is Retry
            && r->Retry_0@ == cleaned@,
        cleaned@.len() > 0 && !contains_text(cleaned@, echo_word()) && !unexpanded ==> r
            == ProbeReply::Found(cleaned@.last()),
{
    let word: [char; 4] = ['e', 'c', 'h', 'o'];
    assert(word@ =~= echo_word());
    if cleaned.len() == 0 || contains(cleaned, word.as_slice()) {
        ProbeReply::Skip
    } else if unexpanded {
        ProbeReply::Retry(string_of(cleaned))
    } else {
        ProbeReply::Found(cleaned[cleaned.len() - 1])
    }
}

/// What the line `line` of the reply to a probe tells: nothing where it is
/// empty or echoes the probe, the text to probe with next where it is a
/// substitution, and else the last character of the prompt.
pub fn read_probe_line(line: &str) -> (r: ProbeReply)
    ensures
        cleaned_line(line@).len() == 0 || contains_text(cleaned_line(line@), echo_word()) ==> r
            is Skip,
        cleaned_line(line@).len() > 0 && !contains_text(cleaned_line(line@), echo_word())
            && is_env_var_text(cleaned_line(line@)) ==> r is Retry && r->Retry_0@ == cleaned_line(
            line@,
        ),
        cleaned_line(line@).len() > 0 && !contains_text(cleaned_line(line@), echo_word())
            && !is_env_var_text(cleaned_line(line@)) ==> r == ProbeReply::Found(
            cleaned_line(line@).last(),
        ),
{
    let stripped = strip_matches("\\x1b\\[[0-9;?]*[a-zA-Z]|\\x01|\\x02", line);
    let stripped_chars = chars_of(stripped.as_str());
    let cleaned = trim(stripped_chars.as_slice());
    let text = string_of(cleaned.as_slice());
    judge_reply(cleaned.as_slice(), is_env_var_output(text.as_str()))
}

/// The greatest number of probes that a search for the prompt sends.
pub const MAX_PROBES: u32 = 16;

/// Where a search for the prompt stands.
pub struct ProbeState {
    /// The text that the next probe asks the shell to print.
    pub text: Seq<char>,
    /// Number of probes sent so far.
    pub sent: nat,
}

/// What the search does with a line of the reply.
pub enum ProbeStep {
    /// Read the next line.
    ReadOn,
    /// Send the next probe.
    ProbeAgain,
    /// The prompt is found, and this is its last character.
    Found(char),
}

/// What a line whose cleaned text is `cleaned` makes of the search.
pub open spec fn probe_after(s: ProbeState, cleaned: Seq<char>) -> ProbeState {
    if cleaned.len() > 0 && !contains_text(cleaned, echo_word()) && is_env_var_text(cleaned) {
        ProbeState { text: cleaned, sent: s.sent }
    } else {
        s
    }
}

/// What the search does with a line whose cleaned text is `cleaned`.
pub open spec fn probe_step(cleaned: Seq<char>) -> ProbeStep {
    if cleaned.len() == 0 || contains_text(cleaned, echo_word()) {
        ProbeStep::ReadOn
    } else if is_env_var_text(cleaned) {
        ProbeStep::ProbeAgain
    } else {
        ProbeStep::Found(cleaned.last())
    }
}

/// The search for the last character of the shell's prompt: it asks the
/// shell to print its prompt, asks again while the answer is a substitution
/// that the shell has not carried out, and gives up after `MAX_PROBES`
/// probes.
pub struct PromptProbe {
    last_output: String,
    sent: u32,
}

impl View for PromptProbe {
    type V = ProbeState;

    closed spec fn view(&self) -> ProbeState {
        ProbeState { text: self.last_output@, sent: self.sent as nat }
    }
}

impl PromptProbe {
    #[verifier::type_invariant]
    spec fn inv(&self) -> bool {
        self.sent <= MAX_PROBES
    }

    /// A search that has sent nothing yet and will ask for `$PS1`.
    pub fn new() -> (r: Self)
        ensures
            r@ == (ProbeState { text: first_probe(), sent: 0 }),
    {
        PromptProbe { last_output: String::from_str("$PS1"), sent: 0 }
    }

    /// Number of probes sent so far, which never exceeds `MAX_PROBES`.
    pub fn sent(&self) -> (n: u32)
        ensures
            n == self@.sent,
            n <= MAX_PROBES,
    {
        proof {
            use_type_invariant(self);
        }
        self.sent
    }

    /// The next probe to send, or `None` once `MAX_PROBES` probes were sent:
    /// the search is then given up.
    pub fn next_command(&mut self) -> (r: Option<String>)
        ensures
            final(self)@.text == old(self)@.text,
            old(self)@.sent < MAX_PROBES ==> r is Some && r.unwrap()@ == probe_text(
                old(self)@.text,
            ) && final(self)@.sent == old(self)@.sent + 1,
            old(self)@.sent >= MAX_PROBES ==> r is None && final(self)@.sent == old(self)@.sent,
    {
        proof {
            use_type_invariant(&*self);
        }
        if self.sent >= MAX_PROBES {
            return None;
        }
        self.sent = self.sent + 1;
        Some(probe_command(self.last_output.as_str()))
    }

    /// Takes note of what the line of the reply told.
    pub fn on_reply(&mut self, reply: ProbeReply) -> (r: ProbeStep)
        ensures
            final(self)@.sent == old(self)@.sent,
            match reply {
                ProbeReply::Skip => r is ReadOn && final(self)@ == old(self)@,
                ProbeReply::Retry(text) => r is ProbeAgain && final(self)@.text == text@,
                ProbeReply::Found(c) => r == ProbeStep::Found(c) && final(self)@ == old(self)@,
            },
    {
        proof {
            use_type_invariant(&*self);
        }
        match reply {
            ProbeReply::Skip => ProbeStep::ReadOn,
            ProbeReply::Retry(text) => {
                self.last_output = text;
                ProbeStep::ProbeAgain
            },
            ProbeReply::Found(c) => ProbeStep::Found(c),
        }
    }

    /// Takes note of the line `line` of the reply to the last probe.
    pub fn on_line(&mut self, line: &str) -> (r: ProbeStep)
        ensures
            final(self)@ == probe_after(old(self)@, cleaned_line(line@)),
            r == probe_step(cleaned_line(line@)),
    {
        let reply = read_probe_line(line);
        self.on_reply(reply)
    }
}

/// The text of a chunk of the shell's output: decoded, without escape
/// sequences and surrounding white space.
pub open spec fn cleaned_output(chunk: Seq<u8>) -> Seq<char> {
    trimmed(without_matches(output_noise_pattern(), text_of(chunk)))
}

/// True when `text` ends with the prompt's last character.
pub open spec fn ends_with_prompt(text: Seq<char>, ps1: char) -> bool {
    text.len() > 0 && text.last() == ps1
}

/// What the output side knows of the prompt.
pub struct PromptState {
    /// The last character of the prompt.
    pub ps1: char,
    /// Whether the prompt was seen since the last command went out.
    pub detected: bool,
}

/// The state after a chunk of output whose cleaned text is `text`.
pub open spec fn noted(s: PromptState, text: Seq<char>, command_sent: bool) -> PromptState {
    PromptState {
        ps1: s.ps1,
        detected: (s.detected && !command_sent) || ends_with_prompt(text, s.ps1),
    }
}

/// Whether the chunk makes the output side tell the input side that the
/// prompt is back: it ends with the prompt, and the prompt was not seen
/// since the last command went out.
pub open spec fn signals(s: PromptState, text: Seq<char>, command_sent: bool) -> bool {
    ends_with_prompt(text, s.ps1) && !(s.detected && !command_sent)
}

/// The output side's watch for the prompt.
pub struct PromptTracker {
    ps1: char,
    ps1_detected: bool,
}

impl View for PromptTracker {
    type V = PromptState;

    closed spec fn view(&self) -> PromptState {
        PromptState { ps1: self.ps1, detected: self.ps1_detected }
    }
}

impl PromptTracker {
    /// A watch for the prompt that ends with `ps1`, which has not been seen
    /// yet.
    pub fn new(ps1: char) -> (r: Self)
        ensures
            r@ == (PromptState { ps1, detected: false }),
    {
        PromptTracker { ps1, ps1_detected: false }
    }

    /// Takes note of a chunk of output whose cleaned text is `text`, and of
    /// whether a command went out since the last chunk. Returns whether the
    /// input side is to be told that the prompt is back.
    pub fn note(&mut self, text: &[char], command_sent: bool) -> (signal: bool)
        ensures
            final(self)@ == noted(old(self)@, text@, command_sent),
            signal == signals(old(self)@, text@, command_sent),
    {
        if command_sent {
            self.ps1_detected = false;
        }
        let n = text.len();
        if n > 0 && text[n - 1] == self.ps1 && !self.ps1_detected {
            self.ps1_detected = true;
            true
        } else {
            false
        }
    }

    /// Takes note of the chunk `chunk` of the shell's output, and of whether
    /// a command went out since the last chunk. Returns whether the input
    /// side is to be told that the prompt is back.
    pub fn observe(&mut self, chunk: &[u8], command_sent: bool) -> (signal: bool)
        ensures
            final(self)@ == noted(old(self)@, cleaned_output(chunk@), command_sent),
            signal == signals(old(self)@, cleaned_output(chunk@), command_sent),
    {
        let text = decode_lossy(chunk);
        let stripped = strip_matches(
            "\\x1b\\[[0-9;?]*[a-zA-Z]|[\\x01\\x02]|\\x1b\\][^\\x07]*\\x07|\\x1b\\??\\d*[hl]",
            text.as_str(),
        );
        let stripped_chars = chars_of(stripped.as_str());
        let cleaned = trim(stripped_chars.as_slice());
        self.note(cleaned.as_slice(), command_sent)
    }
}

/// Once the prompt was signalled, no further chunk signals it until a
/// command goes out.
pub proof fn lemma_one_signal_per_command(s: PromptState, first: Seq<char>, second: Seq<char>, sent: bool)
    requires
        signals(s, first, sent),
    ensures
        !signals(noted(s, first, sent), second, false),
        noted(s, first, sent).detected,
{
}

} // verus!
