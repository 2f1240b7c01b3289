//! The interactive console: what a typed line means, what a key does to the
//! line being typed, what is kept of the session, and where it goes on the
//! screen. Drawing and reading the keyboard are the caller's.

use crate::terminal::{DataView, ReceivedData};
use crate::text::{
    chars_of, ends_with, hex_list, lines, push_hex_list, same_chars, split_lines, string_of, trim,
    trimmed, views,
};
use vstd::prelude::*;
use vstd::string::StringSliceAdditionalSpecFns;

verus! {

/// The colours that the console writes in.
#[derive(Debug, Clone, Copy, PartialEq, Eq, Structural)]
pub enum Color {
    White,
    DarkGrey,
    DarkYellow,
    Cyan,
}

/// What a line typed at the prompt asks for.
#[derive(Debug, Clone, Copy, PartialEq, Eq, Structural)]
pub enum ConsoleCommand {
    /// Leave the console.
    Quit,
    /// Clear the screen and forget what was shown.
    Clear,
    /// Show the list of commands.
    Help,
    /// Nothing: the line is blank.
    Nothing,
    /// Send the line to the device.
    Send,
}

/// What a line typed at the prompt asks for. The white space around it does
/// not count.
pub open spec fn meaning(line: Seq<char>) -> ConsoleCommand {
    let word = trim(line);
    if word == "exit"@ || word == "quit"@ {
        ConsoleCommand::Quit
    } else if word == "clear"@ {
        ConsoleCommand::Clear
    } else if word == "help"@ {
        ConsoleCommand::Help
    } else if word.len() == 0 {
        ConsoleCommand::Nothing
    } else {
        ConsoleCommand::Send
    }
}

/// What a line typed at the prompt asks for.
pub fn interpret(line: &str) -> (r: ConsoleCommand)
    ensures
        r == meaning(line@),
{
    let chars = chars_of(line);
    let word = trimmed(chars.as_slice());
    if same_chars(word.as_slice(), chars_of("exit").as_slice()) || same_chars(
        word.as_slice(),
        chars_of("quit").as_slice(),
    ) {
        ConsoleCommand::Quit
    } else if same_chars(word.as_slice(), chars_of("clear").as_slice()) {
        ConsoleCommand::Clear
    } else if same_chars(word.as_slice(), chars_of("help").as_slice()) {
        ConsoleCommand::Help
    } else if word.len() == 0 {
        ConsoleCommand::Nothing
    } else {
        ConsoleCommand::Send
    }
}

/// A number of rows or columns as the screen counts them: cut off at the
/// largest `u16`.
pub open spec fn capped(n: nat) -> u16 {
    if n > u16::MAX {
        u16::MAX
    } else {
        n as u16
    }
}

/// The rows that a line of `len` characters takes on a screen `width`
/// columns wide: as many as it wraps into, and one where it is empty.
pub open spec fn wrapped_rows(len: nat, width: nat) -> nat {
    if len == 0 {
        1
    } else if len % width == 0 {
        len / width
    } else {
        len / width + 1
    }
}

/// The rows that the given lines take together.
pub open spec fn total_rows(lines: Seq<Seq<char>>, width: nat) -> nat
    decreases lines.len(),
{
    if lines.len() == 0 {
        0
    } else {
        total_rows(lines.drop_last(), width) + wrapped_rows(lines.last().len(), width)
    }
}

/// The rows that `text` takes on a screen `width` columns wide: those of its
/// lines, and one where it has none.
pub open spec fn display_lines(text: Seq<char>, width: nat) -> nat {
    let rows = total_rows(lines(text), width);
    if rows == 0 {
        1
    } else {
        rows
    }
}

/// The rows that `text` takes on a screen `width` columns wide.
pub fn count_display_lines(text: &str, width: u16) -> (rows: u16)
    requires
        width > 0,
    ensures
        rows == capped(display_lines(text@, width as nat)),
{
    let chars = chars_of(text);
    let all = split_lines(chars.as_slice());
    let mut count: u16 = 0;
    let mut i: usize = 0;
    while i < all.len()
        invariant
            i <= all.len(),
            width > 0,
            count == capped(total_rows(views(all@).take(i as int), width as nat)),
        decreases all.len() - i,
    {
        let len: usize = all[i].len();
        proof {
            let upto = views(all@).take(i + 1);
            assert(upto.drop_last() == views(all@).take(i as int));
            assert(upto.last() == all@[i as int]@);
        }
        let len: u128 = len as u128;
        let w: u128 = width as u128;
        let rows: u128 = if len == 0 {
            1
        } else if len % w == 0 {
            len / w
        } else {
            len / w + 1
        };
        let step: u16 = if rows > 0xFFFF {
            0xFFFF
        } else {
            rows as u16
        };
        count = if step > 0xFFFF - count {
            0xFFFF
        } else {
            count + step
        };
        i = i + 1;
    }
    assert(views(all@).take(all.len() as int) == views(all@));
    if count == 0 {
        1
    } else {
        count
    }
}

/// The line that the console shows when it starts.
pub const BANNER: &'static str = "TDTech Terminal | Type 'help' to get commands list";

/// A key as far as the console tells keys apart.
#[derive(Debug, Clone, Copy, PartialEq, Eq, Structural)]
pub enum Key {
    Enter,
    Char(char),
    Backspace,
    Esc,
    Other,
}

/// One message of the session, as it was shown.
#[derive(Debug, PartialEq, Eq)]
pub struct OutputLine {
    pub text: String,
    pub color: Color,
}

impl View for OutputLine {
    type V = (Seq<char>, Color);

    open spec fn view(&self) -> (Seq<char>, Color) {
        (self.text@, self.color)
    }
}

/// What the caller does after a key.
#[derive(Debug, PartialEq, Eq)]
pub enum KeyOutcome {
    /// Go on.
    Continue,
    /// Leave the console.
    Quit,
    /// Clear the screen, and go on.
    ClearScreen,
    /// Send the line to the device, and go on.
    Send(String),
}

/// A [`KeyOutcome`] as a mathematical value.
pub enum OutcomeView {
    Continue,
    Quit,
    ClearScreen,
    Send(Seq<char>),
}

impl View for KeyOutcome {
    type V = OutcomeView;

    open spec fn view(&self) -> OutcomeView {
        match self {
            KeyOutcome::Continue => OutcomeView::Continue,
            KeyOutcome::Quit => OutcomeView::Quit,
            KeyOutcome::ClearScreen => OutcomeView::ClearScreen,
            KeyOutcome::Send(line) => OutcomeView::Send(line@),
        }
    }
}

/// What the caller does about a line with the given meaning.
pub open spec fn outcome_of(command: ConsoleCommand, line: Seq<char>) -> OutcomeView {
    match command {
        ConsoleCommand::Quit => OutcomeView::Quit,
        ConsoleCommand::Clear => OutcomeView::ClearScreen,
        ConsoleCommand::Help => OutcomeView::Continue,
        ConsoleCommand::Nothing => OutcomeView::Continue,
        ConsoleCommand::Send => OutcomeView::Send(line),
    }
}

/// A session as a mathematical value.
pub struct ConsoleView {
    /// The line being typed.
    pub input: Seq<char>,
    /// The lines that were entered, oldest first.
    pub commands: Seq<Seq<char>>,
    /// The messages that were shown, oldest first.
    pub output: Seq<(Seq<char>, Color)>,
}

impl ConsoleView {
    /// The session after a message was shown.
    pub open spec fn shown(self, text: Seq<char>, color: Color) -> ConsoleView {
        ConsoleView { output: self.output.push((text, color)), ..self }
    }

    /// The session after the list of commands was shown.
    pub open spec fn help_shown(self) -> ConsoleView {
        self.shown("available commands:"@, Color::White).shown("  help"@, Color::White).shown(
            "  clear"@,
            Color::White,
        ).shown("  exit"@, Color::White)
    }

    /// The session after a chunk from the device was shown: text in white,
    /// bytes as a list in hexadecimal in dark yellow.
    pub open spec fn received(self, data: DataView) -> ConsoleView {
        match data {
            DataView::Text(text) => self.shown(text, Color::White),
            DataView::Binary(bytes) => self.shown(hex_list(bytes), Color::DarkYellow),
        }
    }

    /// The session after an entered line was acted on: `clear` forgets what
    /// was shown, `help` shows the list of commands, anything else leaves the
    /// session as it is.
    pub open spec fn after_command(self, line: Seq<char>) -> ConsoleView {
        match meaning(line) {
            ConsoleCommand::Clear => ConsoleView { output: Seq::empty(), ..self },
            ConsoleCommand::Help => self.help_shown(),
            _ => self,
        }
    }

    /// The session after a key. Enter takes the line being typed, notes it
    /// among the entered lines, shows it after `> ` in dark grey and acts on
    /// it; a character is added to the line; backspace takes its last
    /// character off; any other key leaves the session as it is.
    pub open spec fn after_key(self, key: Key) -> ConsoleView {
        match key {
            Key::Enter => (ConsoleView {
                input: Seq::empty(),
                commands: self.commands.push(self.input),
                output: self.output,
            }).shown("> "@ + self.input, Color::DarkGrey).after_command(self.input),
            Key::Char(c) => ConsoleView { input: self.input.push(c), ..self },
            Key::Backspace => if self.input.len() > 0 {
                ConsoleView { input: self.input.drop_last(), ..self }
            } else {
                self
            },
            _ => self,
        }
    }

    /// What the caller does after a key: after Enter, what the entered line
    /// asks for; after Esc, leave; after any other key, go on.
    pub open spec fn key_outcome(self, key: Key) -> OutcomeView {
        match key {
            Key::Enter => outcome_of(meaning(self.input), self.input),
            Key::Esc => OutcomeView::Quit,
            _ => OutcomeView::Continue,
        }
    }
}

/// The views of the strings of `v`, in order.
pub open spec fn string_views(v: Seq<String>) -> Seq<Seq<char>> {
    Seq::new(v.len(), |i: int| v[i]@)
}

/// The views of the messages of `v`, in order.
pub open spec fn output_views(v: Seq<OutputLine>) -> Seq<(Seq<char>, Color)> {
    Seq::new(v.len(), |i: int| v[i]@)
}

/// The state of a console session.
pub struct Console {
    input_buffer: Vec<char>,
    command_history: Vec<String>,
    output_history: Vec<OutputLine>,
}

impl View for Console {
    type V = ConsoleView;

    closed spec fn view(&self) -> ConsoleView {
        ConsoleView {
            input: self.input_buffer@,
            commands: string_views(self.command_history@),
            output: output_views(self.output_history@),
        }
    }
}

impl Console {
    /// A session in which nothing was typed or shown.
    pub fn new() -> (r: Console)
        ensures
            r@ == (ConsoleView {
                input: Seq::empty(),
                commands: Seq::empty(),
                output: Seq::empty(),
            }),
    {
        let r = Console {
            input_buffer: Vec::new(),
            command_history: Vec::new(),
            output_history: Vec::new(),
        };
        assert(string_views(r.command_history@) =~= Seq::empty());
        assert(output_views(r.output_history@) =~= Seq::empty());
        r
    }

    /// The line being typed.
    pub fn input(&self) -> (r: String)
        ensures
            r@ == self@.input,
    {
        string_of(self.input_buffer.as_slice())
    }

    /// How many messages were shown.
    pub fn output_len(&self) -> (r: usize)
        ensures
            r == self@.output.len(),
    {
        self.output_history.len()
    }

    /// The message at `index`, counted from the oldest.
    pub fn output_line(&self, index: usize) -> (r: Option<&OutputLine>)
        ensures
            index < self@.output.len() ==> (r matches Some(line) && line@
                == self@.output[index as int]),
            index >= self@.output.len() ==> r is None,
    {
        if index < self.output_history.len() {
            Some(&self.output_history[index])
        } else {
            None
        }
    }

    /// How many lines were entered.
    pub fn command_count(&self) -> (r: usize)
        ensures
            r == self@.commands.len(),
    {
        self.command_history.len()
    }

    /// Notes a message as shown.
    pub fn display_output(&mut self, message: &str, color: Color)
        ensures
            final(self)@ == old(self)@.shown(message@, color),
    {
        let line = OutputLine { text: String::from_str(message), color };
        self.output_history.push(line);
        assert(output_views(self.output_history@) =~= output_views(old(self).output_history@).push(
            (message@, color),
        ));
    }

    /// Notes a chunk from the device as shown.
    pub fn show_received(&mut self, data: &ReceivedData)
        ensures
            final(self)@ == old(self)@.received(data@),
    {
        match data {
            ReceivedData::Text(text) => {
                self.display_output(text.as_str(), Color::White);
            },
            ReceivedData::Binary(bytes) => {
                let mut text = String::new();
                push_hex_list(&mut text, bytes.as_slice());
                assert(text@ =~= hex_list(bytes@));
                self.display_output(text.as_str(), Color::DarkYellow);
            },
        }
    }

    /// Acts on an entered line, and returns what it asks for.
    pub fn process_command(&mut self, command: &str) -> (r: ConsoleCommand)
        ensures
            r == meaning(command@),
            final(self)@ == old(self)@.after_command(command@),
    {
        let r = interpret(command);
        match r {
            ConsoleCommand::Clear => {
                self.output_history = Vec::new();
                assert(output_views(self.output_history@) =~= Seq::empty());
            },
            ConsoleCommand::Help => {
                self.display_output("available commands:", Color::White);
                self.display_output("  help", Color::White);
                self.display_output("  clear", Color::White);
                self.display_output("  exit", Color::White);
            },
            _ => {},
        }
        r
    }

    /// Takes a key, and returns what the caller does next.
    pub fn on_key(&mut self, key: Key) -> (r: KeyOutcome)
        ensures
            final(self)@ == old(self)@.after_key(key),
            r@ == old(self)@.key_outcome(key),
    {
        match key {
            Key::Enter => {
                let line = string_of(self.input_buffer.as_slice());
                self.input_buffer = Vec::new();
                self.command_history.push(line.clone());
                assert(string_views(self.command_history@) =~= string_views(
                    old(self).command_history@,
                ).push(line@));
                let mut echo = String::from_str("> ");
                echo.append(line.as_str());
                self.display_output(echo.as_str(), Color::DarkGrey);
                match self.process_command(line.as_str()) {
                    ConsoleCommand::Quit => KeyOutcome::Quit,
                    ConsoleCommand::Clear => KeyOutcome::ClearScreen,
                    ConsoleCommand::Send => KeyOutcome::Send(line),
                    _ => KeyOutcome::Continue,
                }
            },
            Key::Char(c) => {
                self.input_buffer.push(c);
                KeyOutcome::Continue
            },
            Key::Backspace => {
                if self.input_buffer.len() > 0 {
                    self.input_buffer.pop();
                }
                KeyOutcome::Continue
            },
            Key::Esc => KeyOutcome::Quit,
            Key::Other => KeyOutcome::Continue,
        }
    }
}

/// The rows that a message takes when the session is drawn: one for each of
/// its lines, and one more where it does not end with a line feed.
pub open spec fn message_rows(message: Seq<char>) -> nat {
    if ends_with(message, seq!['\n']) {
        lines(message).len()
    } else {
        lines(message).len() + 1
    }
}

/// The rows that the given messages take together.
pub open spec fn rows_used(output: Seq<(Seq<char>, Color)>) -> nat
    decreases output.len(),
{
    if output.len() == 0 {
        0
    } else {
        rows_used(output.drop_last()) + message_rows(output.last().0)
    }
}

/// A line of text at its place on the screen, as a mathematical value.
pub struct ScreenLineView {
    pub row: u16,
    pub color: Color,
    pub text: Seq<char>,
}

/// The lines of a message, on the rows from `first` on.
pub open spec fn placed(message: Seq<char>, color: Color, first: nat) -> Seq<ScreenLineView> {
    Seq::new(
        lines(message).len(),
        |i: int| ScreenLineView { row: capped((first + i) as nat), color, text: lines(message)[i] },
    )
}

/// The lines of the given messages, each message on the rows after those of
/// the messages before it.
pub open spec fn screen_of(output: Seq<(Seq<char>, Color)>) -> Seq<ScreenLineView>
    decreases output.len(),
{
    if output.len() == 0 {
        Seq::empty()
    } else {
        screen_of(output.drop_last()) + placed(
            output.last().0,
            output.last().1,
            rows_used(output.drop_last()),
        )
    }
}

/// A line of text at its place on the screen.
#[derive(Debug, PartialEq, Eq)]
pub struct ScreenLine {
    pub row: u16,
    pub color: Color,
    pub text: String,
}

impl View for ScreenLine {
    type V = ScreenLineView;

    open spec fn view(&self) -> ScreenLineView {
        ScreenLineView { row: self.row, color: self.color, text: self.text@ }
    }
}

/// The views of the screen lines of `v`, in order.
pub open spec fn screen_views(v: Seq<ScreenLine>) -> Seq<ScreenLineView> {
    Seq::new(v.len(), |i: int| v[i]@)
}

/// The row `n` rows after `row`, or the last row where there is none so far
/// down.
fn rows_after(row: u16, n: usize) -> (r: u16)
    ensures
        r == if row + n > u16::MAX {
            u16::MAX
        } else {
            (row + n) as u16
        },
{
    if n >= (u16::MAX - row) as usize {
        u16::MAX
    } else {
        row + n as u16
    }
}

impl Console {
    /// The lines of the session at their places on the screen, from the top.
    pub fn screen(&self) -> (r: Vec<ScreenLine>)
        ensures
            screen_views(r@) == screen_of(self@.output),
    {
        let mut r: Vec<ScreenLine> = Vec::new();
        let mut row: u16 = 0;
        let mut i: usize = 0;
        let ghost output = self@.output;
        while i < self.output_history.len()
            invariant
                i <= self.output_history.len(),
                output == output_views(self.output_history@),
                screen_views(r@) == screen_of(output.take(i as int)),
                row == capped(rows_used(output.take(i as int))),
            decreases self.output_history.len() - i,
        {
            let message = &self.output_history[i];
            let chars = chars_of(message.text.as_str());
            let message_lines = split_lines(chars.as_slice());
            let ghost first = rows_used(output.take(i as int));
            let ghost base = screen_views(r@);
            let ghost all = placed(message.text@, message.color, first);
            proof {
                let upto = output.take(i + 1);
                assert(upto.drop_last() == output.take(i as int));
                assert(upto.last() == message@);
            }
            let mut j: usize = 0;
            while j < message_lines.len()
                invariant
                    j <= message_lines.len(),
                    views(message_lines@) == lines(message.text@),
                    all == placed(message.text@, message.color, first),
                    screen_views(r@) == base + all.take(j as int),
                    row == capped(first + j as nat),
                decreases message_lines.len() - j,
            {
                let ghost before = r@;
                assert(views(message_lines@)[j as int] == message_lines@[j as int]@);
                let text = string_of(message_lines[j].as_slice());
                r.push(ScreenLine { row, color: message.color, text });
                assert(screen_views(r@) =~= screen_views(before).push(all[j as int]));
                assert(all.take(j + 1) == all.take(j as int).push(all[j as int]));
                row = rows_after(row, 1);
                j = j + 1;
            }
            assert(all.take(message_lines.len() as int) == all);
            let n: usize = chars.len();
            let ends: bool = n > 0 && chars[n - 1] == '\n';
            proof {
                if ends {
                    assert(chars@.subrange(n - 1, n as int) == seq!['\n']);
                } else if n > 0 {
                    assert(chars@.subrange(n - 1, n as int)[0] != seq!['\n'][0]);
                }
            }
            if !ends {
                row = rows_after(row, 1);
            }
            i = i + 1;
        }
        assert(output.take(self.output_history.len() as int) == output);
        r
    }

    /// The row of the prompt: the one after the messages.
    pub fn prompt_row(&self) -> (row: u16)
        ensures
            row == capped(rows_used(self@.output)),
    {
        let mut row: u16 = 0;
        let mut i: usize = 0;
        let ghost output = self@.output;
        while i < self.output_history.len()
            invariant
                i <= self.output_history.len(),
                output == output_views(self.output_history@),
                row == capped(rows_used(output.take(i as int))),
            decreases self.output_history.len() - i,
        {
            let message = &self.output_history[i];
            let chars = chars_of(message.text.as_str());
            let message_lines = split_lines(chars.as_slice());
            proof {
                let upto = output.take(i + 1);
                assert(upto.drop_last() == output.take(i as int));
                assert(upto.last() == message@);
            }
            row = rows_after(row, message_lines.len());
            let n: usize = chars.len();
            let ends: bool = n > 0 && chars[n - 1] == '\n';
            proof {
                if ends {
                    assert(chars@.subrange(n - 1, n as int) == seq!['\n']);
                } else if n > 0 {
                    assert(chars@.subrange(n - 1, n as int)[0] != seq!['\n'][0]);
                }
            }
            if !ends {
                row = rows_after(row, 1);
            }
            i = i + 1;
        }
        assert(output.take(self.output_history.len() as int) == output);
        row
    }

    /// The column of the cursor: after the prompt, which is two columns wide,
    /// and the bytes of the line being typed.
    pub fn cursor_column(&self) -> (column: u16)
        ensures
            column == capped(vstd::utf8::encode_utf8(self@.input).len() + 2),
    {
        let line = self.input();
        let len: usize = line.as_str().as_bytes().len();
        if len >= 0xFFFF - 2 {
            0xFFFF
        } else {
            (len + 2) as u16
        }
    }
}

} // verus!
