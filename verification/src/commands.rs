//! Commands: how one is terminated before it goes to the device, and the
//! interface of a command that reads its own reply.

use crate::error::AtError;
use crate::text::{chars_of, ends_with, starts_with};
use vstd::prelude::*;
use vstd::utf8::encode_utf8;

verus! {

/// The two characters that end a command: carriage return, line feed.
pub open spec fn terminator() -> Seq<char> {
    seq!['\r', '\n']
}

/// `s` ends with the terminator.
pub open spec fn is_terminated(s: Seq<char>) -> bool {
    ends_with(s, terminator())
}

/// `s` without the carriage returns and line feeds at its end.
pub open spec fn strip_line_breaks(s: Seq<char>) -> Seq<char>
    decreases s.len(),
{
    if s.len() > 0 && (s.last() == '\r' || s.last() == '\n') {
        strip_line_breaks(s.drop_last())
    } else {
        s
    }
}

/// The command `s` as it is sent: unchanged where it ends with the
/// terminator; otherwise without the carriage returns and line feeds at its
/// end, and with the terminator in their place.
pub open spec fn normalized(s: Seq<char>) -> Seq<char> {
    if is_terminated(s) {
        s
    } else {
        strip_line_breaks(s) + terminator()
    }
}

/// The command as it is sent.
pub fn normalize_command(command: &str) -> (r: String)
    ensures
        r@ == normalized(command@),
{
    let chars = chars_of(command);
    let n: usize = chars.len();
    if n >= 2 && chars[n - 2] == '\r' && chars[n - 1] == '\n' {
        assert(chars@.subrange(n - 2, n as int) == terminator());
        return String::from_str(command);
    }
    assert(!is_terminated(chars@)) by {
        if is_terminated(chars@) {
            assert(chars@.subrange(n - 2, n as int)[0] == '\r');
            assert(chars@.subrange(n - 2, n as int)[1] == '\n');
        }
    }
    let mut end: usize = n;
    assert(chars@.take(n as int) == chars@);
    while end > 0 && (chars[end - 1] == '\r' || chars[end - 1] == '\n')
        invariant
            end <= n == chars.len(),
            strip_line_breaks(chars@) == strip_line_breaks(chars@.take(end as int)),
        decreases end,
    {
        assert(chars@.take(end as int).drop_last() == chars@.take(end - 1));
        end = end - 1;
    }
    let mut r = String::new();
    let mut i: usize = 0;
    while i < end
        invariant
            i <= end <= chars.len(),
            r@ == chars@.take(i as int),
        decreases end - i,
    {
        r.push(chars[i]);
        i = i + 1;
    }
    r.push('\r');
    r.push('\n');
    assert(r@ == chars@.take(end as int) + terminator());
    r
}

/// The bytes that are written for a command: its sent form in UTF-8.
pub fn command_bytes(command: &str) -> (r: Vec<u8>)
    ensures
        r@ == encode_utf8(normalized(command@)),
{
    let text = normalize_command(command);
    text.as_str().as_bytes_vec()
}

/// Every command is sent with the terminator at its end.
pub proof fn lemma_normalized_is_terminated(s: Seq<char>)
    ensures
        is_terminated(normalized(s)),
{
    if !is_terminated(s) {
        let r = normalized(s);
        assert(r.subrange(r.len() - 2, r.len() as int) == terminator());
    }
}

/// Normalising twice is normalising once.
pub proof fn lemma_normalize_is_idempotent(s: Seq<char>)
    ensures
        normalized(normalized(s)) == normalized(s),
{
    lemma_normalized_is_terminated(s);
}

/// A command that lacks the terminator is sent as what it is without the
/// line breaks at its end, followed by the terminator.
pub proof fn lemma_normalize_completes(s: Seq<char>)
    requires
        !is_terminated(s),
    ensures
        is_terminated(normalized(s)),
        starts_with(normalized(s), strip_line_breaks(s)),
        normalized(s).len() == strip_line_breaks(s).len() + 2,
{
    lemma_normalized_is_terminated(s);
    let r = normalized(s);
    assert(r.subrange(0, strip_line_breaks(s).len() as int) == strip_line_breaks(s));
}

/// A command that knows its own text and how to read its reply.
pub trait ATCommand {
    /// The text of the command.
    fn command(&self) -> String;

    /// What the command makes of a reply.
    fn parse_response(&self, response: &str) -> Result<String, AtError>;
}

/// A command given by its text, which takes any reply as it is.
pub struct BasicCommand {
    cmd: String,
}

impl View for BasicCommand {
    type V = Seq<char>;

    /// The text of the command.
    closed spec fn view(&self) -> Seq<char> {
        self.cmd@
    }
}

impl BasicCommand {
    pub fn new(cmd: &str) -> (r: BasicCommand)
        ensures
            r@ == cmd@,
    {
        BasicCommand { cmd: String::from_str(cmd) }
    }
}

impl ATCommand for BasicCommand {
    /// The text that the command was made with.
    fn command(&self) -> (r: String)
        ensures
            r@ == self@,
    {
        self.cmd.clone()
    }

    /// The reply itself, whatever it is.
    fn parse_response(&self, response: &str) -> (r: Result<String, AtError>)
        ensures
            r matches Ok(text) && text@ == response@,
    {
        Ok(String::from_str(response))
    }
}

} // verus!
