use vstd::prelude::*;
use vstd::utf8::encode_utf8;
use crate::hex::{HexDecodeError, decode_hex, decode_hex_line};
use crate::vm::{VM, VmError, VmState, initial_state, step};

verus! {

/// A character with the Unicode White_Space property, which is what
/// `char::is_whitespace` tests.
pub open spec fn is_white_space(c: char) -> bool {
    let n = c as u32;
    (0x9 <= n <= 0xd) || n == 0x20 || n == 0x85 || n == 0xa0 || n == 0x1680 || (0x2000 <= n
        <= 0x200a) || n == 0x2028 || n == 0x2029 || n == 0x202f || n == 0x205f || n == 0x3000
}

/// The line without its leading whitespace.
pub open spec fn trimmed_start(s: Seq<char>) -> Seq<char>
    decreases s.len(),
{
    if s.len() > 0 && is_white_space(s[0]) {
        trimmed_start(s.drop_first())
    } else {
        s
    }
}

/// The line without its trailing whitespace.
pub open spec fn trimmed_end(s: Seq<char>) -> Seq<char>
    decreases s.len(),
{
    if s.len() > 0 && is_white_space(s.last()) {
        trimmed_end(s.drop_last())
    } else {
        s
    }
}

/// The line without its leading and trailing whitespace.
pub open spec fn trimmed(s: Seq<char>) -> Seq<char> {
    trimmed_end(trimmed_start(s))
}

/// Relies on `str::trim`: the line with leading and trailing whitespace
/// removed, whitespace being what `char::is_whitespace` accepts.
#[verifier::external_body]
fn trim_input(s: &str) -> (r: &str)
    ensures
        r@ == trimmed(s@),
{
    s.trim()
}

/// What the shell does with a line.
#[derive(Debug)]
pub enum ReplAction {
    /// List the lines entered so far.
    ShowHistory,
    /// List the bytes in the machine's buffer.
    ShowProgram,
    /// List the registers.
    ShowRegisters,
    /// Leave the shell.
    Quit,
    /// The line's bytes were appended and one instruction ran, with this outcome.
    Executed(Result<bool, VmError>),
    /// The line was not a list of hexadecimal bytes; nothing ran.
    DecodeFailed(HexDecodeError),
}

/// The abstract state of the shell: the lines entered, and the machine.
pub struct ReplState {
    pub history: Seq<Seq<char>>,
    pub vm: VmState,
}

/// The shell's response to one trimmed line: the line joins the history; the
/// meta-commands `.history`, `.program`, `.register` and `.quit` change
/// nothing else; any other line is read as hexadecimal bytes, which are
/// appended to the buffer before one instruction runs.
pub open spec fn command_outcome(r: ReplState, line: Seq<char>) -> (ReplState, ReplAction) {
    let h = ReplState { history: r.history.push(line), ..r };
    if line == ".history"@ {
        (h, ReplAction::ShowHistory)
    } else if line == ".program"@ {
        (h, ReplAction::ShowProgram)
    } else if line == ".register"@ {
        (h, ReplAction::ShowRegisters)
    } else if line == ".quit"@ {
        (h, ReplAction::Quit)
    } else {
        match decode_hex_line(encode_utf8(line)) {
            Ok(bytes) => {
                let (vm, res) = step(VmState { program: r.vm.program + bytes, ..r.vm });
                (ReplState { history: h.history, vm }, ReplAction::Executed(res))
            },
            Err(e) => (h, ReplAction::DecodeFailed(e)),
        }
    }
}

/// A line that lists part of the state or leaves the shell.
pub open spec fn is_meta_command(line: Seq<char>) -> bool {
    line == ".history"@ || line == ".program"@ || line == ".register"@ || line == ".quit"@
}

/// A meta-command only joins the history: the machine, whose registers and
/// buffer the listings show, stays exactly as it was.
pub proof fn lemma_meta_command_keeps_machine(r: ReplState, line: Seq<char>)
    requires
        is_meta_command(line),
    ensures
        command_outcome(r, line).0.vm == r.vm,
        command_outcome(r, line).0.history == r.history.push(line),
{
}

/// Two meta-commands in a row, with no line of bytes between them, leave the
/// machine as it was, so the second listing shows what the first showed.
pub proof fn lemma_listings_repeat(r: ReplState, first: Seq<char>, second: Seq<char>)
    requires
        is_meta_command(first),
        is_meta_command(second),
    ensures
        command_outcome(command_outcome(r, first).0, second).0.vm == r.vm,
        command_outcome(command_outcome(r, first).0, second).0.vm == command_outcome(
            r,
            first,
        ).0.vm,
{
}

/// A line-oriented shell around a machine.
pub struct REPL {
    command_buffer: Vec<String>,
    vm: VM,
}

impl View for REPL {
    type V = ReplState;

    closed spec fn view(&self) -> ReplState {
        ReplState { history: self.command_buffer@.map_values(|s: String| s@), vm: self.vm@ }
    }
}

impl REPL {
    pub fn new() -> (r: REPL)
        ensures
            r@ == (ReplState { history: Seq::empty(), vm: initial_state() }),
    {
        let r = REPL { command_buffer: Vec::new(), vm: VM::new() };
        assert(r@.history =~= Seq::<Seq<char>>::empty());
        r
    }

    /// Reads a line of whitespace-separated hexadecimal bytes.
    pub fn parse_hex(&self, i: &str) -> (r: Result<Vec<u8>, HexDecodeError>)
        ensures
            match decode_hex_line(encode_utf8(i@)) {
                Ok(bytes) => r is Ok && r->Ok_0@ == bytes,
                Err(e) => r == Err::<Vec<u8>, HexDecodeError>(e),
            },
    {
        decode_hex(i.as_bytes())
    }

    /// Responds to one line as typed: surrounding whitespace is dropped first.
    pub fn handle_line(&mut self, line: &str) -> (r: ReplAction)
        ensures
            (final(self)@, r) == command_outcome(old(self)@, trimmed(line@)),
    {
        let command = trim_input(line);
        self.handle_command(command)
    }

    /// Responds to one line without surrounding whitespace.
    pub fn handle_command(&mut self, command: &str) -> (r: ReplAction)
        ensures
            (final(self)@, r) == command_outcome(old(self)@, command@),
    {
        let ghost before = self@;
        let owned = command.to_owned();
        self.command_buffer.push(command.to_owned());
        assert(self@.history =~= before.history.push(command@));
        if owned == ".history".to_owned() {
            ReplAction::ShowHistory
        } else if owned == ".program".to_owned() {
            ReplAction::ShowProgram
        } else if owned == ".register".to_owned() {
            ReplAction::ShowRegisters
        } else if owned == ".quit".to_owned() {
            ReplAction::Quit
        } else {
            match self.parse_hex(command) {
                Ok(bytes) => {
                    let mut i: usize = 0;
                    while i < bytes.len()
                        invariant
                            i <= bytes@.len(),
                            self@.history == before.history.push(command@),
                            self@.vm == (VmState {
                                program: before.vm.program + bytes@.take(i as int),
                                ..before.vm
                            }),
                        decreases bytes.len() - i,
                    {
                        self.vm.add_byte(bytes[i]);
                        i += 1;
                        assert(before.vm.program + bytes@.take(i as int) =~= (before.vm.program
                            + bytes@.take(i - 1)).push(bytes@[i - 1]));
                    }
                    assert(bytes@.take(i as int) =~= bytes@);
                    ReplAction::Executed(self.vm.run_once())
                },
                Err(e) => ReplAction::DecodeFailed(e),
            }
        }
    }

    /// The lines entered so far.
    pub fn history(&self) -> (r: &Vec<String>)
        ensures
            r@.map_values(|s: String| s@) == self@.history,
    {
        &self.command_buffer
    }

    /// The machine the shell drives.
    pub fn vm(&self) -> (r: &VM)
        ensures
            r@ == self@.vm,
    {
        &self.vm
    }
}

} // verus!
