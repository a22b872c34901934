//! Output formatting per mode: friendly text with emoji for Kids, a JSON
//! envelope for Agent, plain passthrough for Admin.

use vstd::prelude::*;
use vstd::utf8::encode_utf8;
use crate::profile::Mode;
use crate::text::{concat2, i64_to_string, int_decimal, nat_digits, push_char, trim, trim_str, u64_to_string};

verus! {

broadcast use vstd::string::group_string_axioms;

/// Structured output of a command execution.
#[derive(Debug, Clone)]
pub struct CommandOutput {
    pub command: String,
    pub stdout: String,
    pub stderr: String,
    pub exit_code: i32,
    pub duration_ms: u64,
}

/// The JSON envelope of Agent mode output.
#[derive(Debug, Clone)]
pub struct JsonEnvelope {
    /// `success` or `error`.
    pub result_type: String,
    pub command: String,
    pub stdout: String,
    pub stderr: String,
    pub exit_code: i32,
    pub duration_ms: u64,
}

/// A lower-case hexadecimal digit.
pub open spec fn hex_digit(n: int) -> char {
    if n < 10 { (48 + n) as char } else { (87 + n) as char }
}

/// How a JSON string literal writes one character: `"` and `\` behind a
/// backslash, backspace, tab, line feed, form feed and carriage return as
/// `\b`, `\t`, `\n`, `\f`, `\r`, the other control characters below
/// U+0020 as `\u00` and two lower-case hex digits, and every other
/// character as itself.
pub open spec fn json_escape(c: char) -> Seq<char> {
    if c == '"' {
        seq!['\\', '"']
    } else if c == '\\' {
        seq!['\\', '\\']
    } else if c == '\u{8}' {
        seq!['\\', 'b']
    } else if c == '\t' {
        seq!['\\', 't']
    } else if c == '\n' {
        seq!['\\', 'n']
    } else if c == '\u{c}' {
        seq!['\\', 'f']
    } else if c == '\r' {
        seq!['\\', 'r']
    } else if (c as int) < 32 {
        seq!['\\', 'u', '0', '0', hex_digit(c as int / 16), hex_digit(c as int % 16)]
    } else {
        seq![c]
    }
}

/// The characters of a string, each written as `json_escape` writes it.
pub open spec fn json_escaped(s: Seq<char>) -> Seq<char>
    decreases s.len(),
{
    if s.len() == 0 {
        Seq::empty()
    } else {
        json_escaped(s.drop_last()) + json_escape(s.last())
    }
}

/// A string as a JSON string literal: quoted and escaped.
pub open spec fn json_quoted(s: Seq<char>) -> Seq<char> {
    seq!['"'] + json_escaped(s) + seq!['"']
}

/// A string as a JSON string literal (`serde_json::to_string` on a `str`).
///
/// Trusted: serde_json writes `"`, then each character as its escape table
/// gives it (`json_escape`), then `"`. (Writing into a `Vec` cannot fail, so
/// the error arm, which yields an empty string, is never taken.)
#[verifier::external_body]
fn json_quote(s: &str) -> (r: String)
    ensures
        r@ == json_quoted(s@),
{
    match serde_json::to_string(s) {
        Ok(j) => j,
        Err(_) => String::new(),
    }
}

/// The envelope as compact JSON, fields in declaration order.
pub open spec fn envelope_json(e: JsonEnvelope) -> Seq<char> {
    "{\"type\":"@ + json_quoted(e.result_type@)
        + ",\"command\":"@ + json_quoted(e.command@)
        + ",\"stdout\":"@ + json_quoted(e.stdout@)
        + ",\"stderr\":"@ + json_quoted(e.stderr@)
        + ",\"exitCode\":"@ + int_decimal(e.exit_code as int)
        + ",\"durationMs\":"@ + nat_digits(e.duration_ms as nat)
        + "}"@
}

impl JsonEnvelope {
    /// The envelope as compact JSON.
    pub fn to_json(&self) -> (r: String)
        ensures
            r@ == envelope_json(*self),
    {
        let mut s = String::from_str("{\"type\":");
        s.append(json_quote(self.result_type.as_str()).as_str());
        s.append(",\"command\":");
        s.append(json_quote(self.command.as_str()).as_str());
        s.append(",\"stdout\":");
        s.append(json_quote(self.stdout.as_str()).as_str());
        s.append(",\"stderr\":");
        s.append(json_quote(self.stderr.as_str()).as_str());
        s.append(",\"exitCode\":");
        s.append(i64_to_string(self.exit_code as i64).as_str());
        s.append(",\"durationMs\":");
        s.append(u64_to_string(self.duration_ms).as_str());
        s.append("}");
        s
    }
}

/// Kids output: a check mark and the trimmed output on success, an apology
/// and the trimmed error output otherwise.
pub open spec fn kids_text(o: CommandOutput) -> Seq<char> {
    if o.exit_code == 0 {
        "✅ "@ + trim(o.stdout@) + "\n"@
    } else {
        "❌ Oops! Something went wrong:\n"@ + trim(o.stderr@) + "\n"@
    }
}

/// Agent output: the envelope of the output as JSON.
pub open spec fn agent_text(o: CommandOutput) -> Seq<char> {
    "{\"type\":"@ + json_quoted(if o.exit_code == 0 { "success"@ } else { "error"@ })
        + ",\"command\":"@ + json_quoted(o.command@)
        + ",\"stdout\":"@ + json_quoted(o.stdout@)
        + ",\"stderr\":"@ + json_quoted(o.stderr@)
        + ",\"exitCode\":"@ + int_decimal(o.exit_code as int)
        + ",\"durationMs\":"@ + nat_digits(o.duration_ms as nat)
        + "}"@
}

/// Admin output: standard output, then standard error.
pub open spec fn admin_text(o: CommandOutput) -> Seq<char> {
    o.stdout@ + o.stderr@
}

/// The formatted output of a mode.
pub open spec fn output_text(o: CommandOutput, mode: Mode) -> Seq<char> {
    match mode {
        Mode::Kids => kids_text(o),
        Mode::Agent => agent_text(o),
        Mode::Admin => admin_text(o),
    }
}

fn format_kids(output: &CommandOutput) -> (r: String)
    ensures
        r@ == kids_text(*output),
{
    if output.exit_code == 0 {
        let body = trim_str(output.stdout.as_str());
        let mut s = String::from_str("✅ ");
        s.append(body.as_str());
        push_char(&mut s, '\n');
        proof {
            reveal_strlit("\n");
        }
        assert(s@ =~= kids_text(*output));
        s
    } else {
        let body = trim_str(output.stderr.as_str());
        let mut s = String::from_str("❌ Oops! Something went wrong:\n");
        s.append(body.as_str());
        push_char(&mut s, '\n');
        proof {
            reveal_strlit("\n");
        }
        assert(s@ =~= kids_text(*output));
        s
    }
}

fn format_agent(output: &CommandOutput) -> (r: String)
    ensures
        r@ == agent_text(*output),
{
    let envelope = JsonEnvelope {
        result_type: if output.exit_code == 0 { String::from_str("success") } else { String::from_str("error") },
        command: output.command.clone(),
        stdout: output.stdout.clone(),
        stderr: output.stderr.clone(),
        exit_code: output.exit_code,
        duration_ms: output.duration_ms,
    };
    envelope.to_json()
}

fn format_admin(output: &CommandOutput) -> (r: String)
    ensures
        r@ == admin_text(*output),
{
    concat2(output.stdout.as_str(), output.stderr.as_str())
}

/// Formats command output for a mode.
pub fn format_output(output: &CommandOutput, mode: Mode) -> (r: String)
    ensures
        r@ == output_text(*output, mode),
{
    match mode {
        Mode::Kids => format_kids(output),
        Mode::Agent => format_agent(output),
        Mode::Admin => format_admin(output),
    }
}

/// The error text of a mode: a cross mark for Kids, an error envelope (exit
/// code 1, the message as standard error) for Agent, `error: ` for Admin.
pub open spec fn error_text(message: Seq<char>, mode: Mode) -> Seq<char> {
    match mode {
        Mode::Kids => "❌ "@ + message,
        Mode::Agent => "{\"type\":"@ + json_quoted("error"@)
            + ",\"command\":"@ + json_quoted(Seq::empty())
            + ",\"stdout\":"@ + json_quoted(Seq::empty())
            + ",\"stderr\":"@ + json_quoted(message)
            + ",\"exitCode\":"@ + int_decimal(1)
            + ",\"durationMs\":"@ + nat_digits(0)
            + "}"@,
        Mode::Admin => "error: "@ + message,
    }
}

/// Formats an error message for a mode.
pub fn format_error(message: &str, mode: Mode) -> (r: String)
    ensures
        r@ == error_text(message@, mode),
{
    match mode {
        Mode::Kids => concat2("❌ ", message),
        Mode::Agent => {
            let envelope = JsonEnvelope {
                result_type: String::from_str("error"),
                command: String::new(),
                stdout: String::new(),
                stderr: String::from_str(message),
                exit_code: 1,
                duration_ms: 0,
            };
            envelope.to_json()
        },
        Mode::Admin => concat2("error: ", message),
    }
}

/// The number of bytes of a string in UTF-8, as `str::len` gives it.
pub open spec fn byte_count(s: Seq<char>) -> nat {
    (encode_utf8(s).len() as usize) as nat
}

/// `[exit=N] stdout=B bytes, stderr=B bytes`.
pub open spec fn output_summary(o: CommandOutput) -> Seq<char> {
    "[exit="@ + int_decimal(o.exit_code as int) + "] stdout="@ + nat_digits(byte_count(o.stdout@))
        + " bytes, stderr="@ + nat_digits(byte_count(o.stderr@)) + " bytes"@
}

impl CommandOutput {
    /// A one-line summary: exit code and the byte sizes of both outputs.
    pub fn summary(&self) -> (r: String)
        ensures
            r@ == output_summary(*self),
    {
        let mut s = String::from_str("[exit=");
        s.append(i64_to_string(self.exit_code as i64).as_str());
        s.append("] stdout=");
        s.append(u64_to_string(self.stdout.as_str().len() as u64).as_str());
        s.append(" bytes, stderr=");
        s.append(u64_to_string(self.stderr.as_str().len() as u64).as_str());
        s.append(" bytes");
        s
    }
}

} // verus!
