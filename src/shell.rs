//! The user shell's command interpreter: what each input line prints and
//! whether the shell exits. Reading lines and writing the reply is left to
//! the caller.
use vstd::prelude::*;
use vstd::string::StringSliceAdditionalSpecFns;
pub use crate::bytes::streq;

verus! {

/// Space, newline or carriage return.
pub open spec fn is_blank(c: u8) -> bool {
    c == 0x20 || c == 0x0a || c == 0x0d
}

/// `s` without its leading blanks.
pub open spec fn trim_left(s: Seq<u8>) -> Seq<u8>
    decreases s.len(),
{
    if s.len() > 0 && is_blank(s[0]) {
        trim_left(s.drop_first())
    } else {
        s
    }
}

/// `s` without its trailing blanks.
pub open spec fn trim_right(s: Seq<u8>) -> Seq<u8>
    decreases s.len(),
{
    if s.len() > 0 && is_blank(s.last()) {
        trim_right(s.drop_last())
    } else {
        s
    }
}

/// `s` without its leading and trailing blanks.
pub open spec fn trimmed(s: Seq<u8>) -> Seq<u8> {
    trim_right(trim_left(s))
}

/// `s` without its leading and trailing spaces, newlines and carriage
/// returns.
pub fn trim(s: &[u8]) -> (r: Vec<u8>)
    ensures
        r@ == trimmed(s@),
{
    let len = s.len();
    let mut start: usize = 0;
    assert(s@.subrange(0, len as int) =~= s@);
    while start < len && (s[start] == 0x20 || s[start] == 0x0a || s[start] == 0x0d)
        invariant
            len == s@.len(),
            start <= len,
            trim_left(s@.subrange(start as int, len as int)) == trim_left(s@),
        decreases len - start,
    {
        assert(s@.subrange(start as int, len as int).drop_first() =~= s@.subrange(
            start + 1,
            len as int,
        ));
        start = start + 1;
    }
    assert(s@.subrange(0, len as int) =~= s@);
    let mut end: usize = len;
    while end > start && (s[end - 1] == 0x20 || s[end - 1] == 0x0a || s[end - 1] == 0x0d)
        invariant
            len == s@.len(),
            start <= end <= len,
            trim_left(s@) == s@.subrange(start as int, len as int),
            trim_right(s@.subrange(start as int, end as int)) == trimmed(s@),
        decreases end - start,
    {
        assert(s@.subrange(start as int, end as int).drop_last() =~= s@.subrange(
            start as int,
            end - 1,
        ));
        end = end - 1;
    }
    let mut out: Vec<u8> = Vec::new();
    let mut k: usize = start;
    while k < end
        invariant
            start <= k <= end,
            end <= s@.len(),
            out@ == s@.subrange(start as int, k as int),
        decreases end - k,
    {
        out.push(s[k]);
        k = k + 1;
        assert(out@ =~= s@.subrange(start as int, k as int));
    }
    out
}

/// Appends `b` to `out`.
fn push_all(out: &mut Vec<u8>, b: &[u8])
    ensures
        final(out)@ == old(out)@ + b@,
{
    let mut i: usize = 0;
    while i < b.len()
        invariant
            i <= b@.len(),
            out@ == old(out)@ + b@.subrange(0, i as int),
        decreases b@.len() - i,
    {
        out.push(b[i]);
        i = i + 1;
        assert(out@ =~= old(out)@ + b@.subrange(0, i as int));
    }
    assert(b@.subrange(0, b@.len() as int) =~= b@);
}

/// Whether `s` starts with `p`.
fn starts_with(s: &[u8], p: &[u8]) -> (r: bool)
    ensures
        r == (p@.len() <= s@.len() && s@.subrange(0, p@.len() as int) == p@),
{
    if p.len() > s.len() {
        return false;
    }
    let mut i: usize = 0;
    while i < p.len()
        invariant
            i <= p@.len(),
            p@.len() <= s@.len(),
            forall|j: int| 0 <= j < i ==> s@[j] == p@[j],
        decreases p@.len() - i,
    {
        if s[i] != p[i] {
            return false;
        }
        i = i + 1;
    }
    assert(s@.subrange(0, p@.len() as int) =~= p@);
    true
}

pub open spec fn cmd_exit() -> Seq<u8> {
    seq![0x65u8, 0x78, 0x69, 0x74]
}

pub open spec fn cmd_help() -> Seq<u8> {
    seq![0x68u8, 0x65, 0x6c, 0x70]
}

pub open spec fn cmd_echo() -> Seq<u8> {
    seq![0x65u8, 0x63, 0x68, 0x6f]
}

pub open spec fn cmd_pid() -> Seq<u8> {
    seq![0x70u8, 0x69, 0x64]
}

/// What the shell prints for one input line, and whether it then exits.
#[derive(Debug)]
pub struct ShellReply {
    pub output: Vec<u8>,
    pub exit: bool,
}

/// The digit the shell shows for a pid: one character, `'0'` plus the low
/// byte of the pid, wrapping.
pub open spec fn pid_digit(pid: isize) -> u8 {
    ((pid % 256 + 48) % 256) as u8
}

/// The bytes of the texts the shell prints.
pub open spec fn text(s: &str) -> Seq<u8> {
    s.spec_bytes()
}

/// What the shell prints for the trimmed command `cmd`, and whether it exits.
pub open spec fn reply_for(cmd: Seq<u8>, pid: isize) -> (Seq<u8>, bool) {
    if cmd.len() == 0 {
        (Seq::empty(), false)
    } else if cmd == cmd_exit() {
        (text("Goodbye!\n"), true)
    } else if cmd == cmd_help() {
        (
            text(
                "Built-in commands:\n  help  - Show this help\n  echo  - Echo arguments\n  pid   - Show process ID\n  exit  - Exit shell\n",
            ),
            false,
        )
    } else if cmd.len() >= 5 && cmd.subrange(0, 5) == cmd_echo().push(0x20) {
        (cmd.subrange(5, cmd.len() as int) + text("\n"), false)
    } else if cmd == cmd_echo() {
        (text("\n"), false)
    } else if cmd == cmd_pid() {
        (text("PID: ") + seq![pid_digit(pid)] + text("\n"), false)
    } else {
        (
            text("Unknown command: ") + cmd + text("\n") + text(
                "Type 'help' for available commands.\n",
            ),
            false,
        )
    }
}

/// Interprets one input line: blanks around it are ignored; `exit`, `help`,
/// `echo [text]` and `pid` are built in, anything else is reported unknown.
/// `pid` is the shell's own process id.
pub fn process_command(input: &[u8], pid: isize) -> (r: ShellReply)
    ensures
        (r.output@, r.exit) == reply_for(trimmed(input@), pid),
{
    let cmd = trim(input);
    let c = cmd.as_slice();
    let mut out: Vec<u8> = Vec::new();
    if c.len() == 0 {
        return ShellReply { output: out, exit: false };
    }
    let exit_word: Vec<u8> = vec![0x65u8, 0x78, 0x69, 0x74];
    let help_word: Vec<u8> = vec![0x68u8, 0x65, 0x6c, 0x70];
    let echo_word: Vec<u8> = vec![0x65u8, 0x63, 0x68, 0x6f];
    let echo_space: Vec<u8> = vec![0x65u8, 0x63, 0x68, 0x6f, 0x20];
    let pid_word: Vec<u8> = vec![0x70u8, 0x69, 0x64];
    proof {
        assert(exit_word@ =~= cmd_exit());
        assert(help_word@ =~= cmd_help());
        assert(echo_word@ =~= cmd_echo());
        assert(echo_space@ =~= cmd_echo().push(0x20));
        assert(pid_word@ =~= cmd_pid());
    }
    if streq(c, exit_word.as_slice()) {
        push_all(&mut out, "Goodbye!\n".as_bytes());
        return ShellReply { output: out, exit: true };
    }
    if streq(c, help_word.as_slice()) {
        push_all(
            &mut out,
            "Built-in commands:\n  help  - Show this help\n  echo  - Echo arguments\n  pid   - Show process ID\n  exit  - Exit shell\n".as_bytes(),
        );
        return ShellReply { output: out, exit: false };
    }
    if starts_with(c, echo_space.as_slice()) {
        let mut k: usize = 5;
        while k < c.len()
            invariant
                5 <= k <= c@.len(),
                out@ == c@.subrange(5, k as int),
            decreases c@.len() - k,
        {
            out.push(c[k]);
            k = k + 1;
            assert(out@ =~= c@.subrange(5, k as int));
        }
        push_all(&mut out, "\n".as_bytes());
        return ShellReply { output: out, exit: false };
    }
    if streq(c, echo_word.as_slice()) {
        push_all(&mut out, "\n".as_bytes());
        return ShellReply { output: out, exit: false };
    }
    if streq(c, pid_word.as_slice()) {
        push_all(&mut out, "PID: ".as_bytes());
        let low: isize = if pid >= 0 {
            pid % 256
        } else {
            255 - (-(pid + 1)) % 256
        };
        proof {
            if pid < 0 {
                let x = -(pid + 1);
                assert(pid == -x - 1);
                assert(low == pid % 256) by {
                    let q = x / 256;
                    let r = x % 256;
                    assert(x == 256 * q + r);
                    assert(pid == 256 * (-q - 1) + (255 - r));
                    vstd::arithmetic::div_mod::lemma_fundamental_div_mod_converse(
                        pid as int,
                        256,
                        -q - 1,
                        255 - r,
                    );
                }
            }
        }
        let digit: u8 = ((low + 48) % 256) as u8;
        out.push(digit);
        push_all(&mut out, "\n".as_bytes());
        return ShellReply { output: out, exit: false };
    }
    push_all(&mut out, "Unknown command: ".as_bytes());
    push_all(&mut out, c);
    push_all(&mut out, "\n".as_bytes());
    push_all(&mut out, "Type 'help' for available commands.\n".as_bytes());
    ShellReply { output: out, exit: false }
}

} // verus!
