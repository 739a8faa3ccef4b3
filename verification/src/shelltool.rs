//! The compute side of the shell tool: the command screen and the
//! assembly of a command's output, plus the size formatter the file
//! listing uses.
//!
//! The shell spawns the process; whether a command is allowed to run and
//! what the model gets to read of its output is decided here.

use vstd::prelude::*;

verus! {

use crate::text::{
    chars_contain,
    concat_str,
    dec_str,
    i64_to_string,
    lower_chars,
    lowered,
    push_char,
    spec_contains_seq,
    str_chars,
    u64_to_string,
};

/// The longest tool output kept, in characters.
pub const MAX_OUTPUT_SIZE: usize = 100000;

/// The command patterns that are refused outright, in screening order.
pub open spec fn dangerous_patterns() -> Seq<Seq<char>> {
    seq![
        "rm -rf /"@,
        "rm -rf ~"@,
        "mkfs"@,
        "dd if="@,
        ":(){:|:&};:"@,
        "chmod -R 777 /"@,
        "chown -R"@,
        "> /dev/sd"@,
        "curl | sh"@,
        "curl | bash"@,
        "wget | sh"@,
        "wget | bash"@,
    ]
}

/// The first screened pattern the lowered command contains, if any.
pub open spec fn first_dangerous(low: Seq<char>, i: int) -> Option<Seq<char>>
    decreases dangerous_patterns().len() - i,
{
    if i < 0 || i >= dangerous_patterns().len() {
        None
    } else if spec_contains_seq(low, dangerous_patterns()[i]) {
        Some(dangerous_patterns()[i])
    } else {
        first_dangerous(low, i + 1)
    }
}

/// Screens a command against the refused patterns, compared against the
/// lowered command text: the first hit blocks the command, naming the
/// pattern; a clean command passes.
pub fn check_command(command: &str) -> (r: Result<(), String>)
    ensures
        match first_dangerous(lowered(command@), 0) {
            None => r is Ok,
            Some(p) => r matches Err(e) && e@ == "Blocked potentially dangerous command pattern: "@
                + p,
        },
{
    let low = lower_chars(command);
    let mut patterns: Vec<&str> = Vec::new();
    patterns.push("rm -rf /");
    patterns.push("rm -rf ~");
    patterns.push("mkfs");
    patterns.push("dd if=");
    patterns.push(":(){:|:&};:");
    patterns.push("chmod -R 777 /");
    patterns.push("chown -R");
    patterns.push("> /dev/sd");
    patterns.push("curl | sh");
    patterns.push("curl | bash");
    patterns.push("wget | sh");
    patterns.push("wget | bash");
    proof {
        assert forall|k: int| 0 <= k < 12 implies (#[trigger] patterns@[k])@
            == dangerous_patterns()[k] by {}
    }
    let mut i: usize = 0;
    while i < patterns.len()
        invariant
            0 <= i <= 12,
            patterns@.len() == 12,
            dangerous_patterns().len() == 12,
            low@ == lowered(command@),
            forall|k: int| 0 <= k < 12 ==> (#[trigger] patterns@[k])@ == dangerous_patterns()[k],
            first_dangerous(low@, 0) == first_dangerous(low@, i as int),
        decreases 12 - i,
    {
        if chars_contain(&low, patterns[i]) {
            proof {
                assert(first_dangerous(low@, i as int) == Some(dangerous_patterns()[i as int]));
            }
            return Err(concat_str(
                "Blocked potentially dangerous command pattern: ",
                patterns[i],
            ));
        }
        i += 1;
    }
    Ok(())
}

/// The decimal text of a signed number.
pub open spec fn int_str(n: int) -> Seq<char> {
    if n >= 0 {
        dec_str(n as nat)
    } else {
        seq!['-'] + dec_str((-n) as nat)
    }
}

/// What the model reads of a finished command: the standard output, the
/// standard error after a divider when both are present, a completion
/// line when neither printed anything, the exit code when it was not
/// zero, and a truncation mark past the length limit.
pub open spec fn spec_shell_output(out_s: Seq<char>, err_s: Seq<char>, code: int) -> Seq<char> {
    let base = if err_s.len() == 0 {
        out_s
    } else if out_s.len() == 0 {
        err_s
    } else {
        out_s + "\n\n--- stderr ---\n"@ + err_s
    };
    let with_code = if base.len() == 0 {
        "Command completed with exit code "@ + int_str(code)
    } else if code != 0 {
        base + "\n\nExit code: "@ + int_str(code)
    } else {
        base
    };
    if with_code.len() > MAX_OUTPUT_SIZE as int {
        with_code.take(MAX_OUTPUT_SIZE as int) + "\n\n... (output truncated)"@
    } else {
        with_code
    }
}

/// Assembles what the model reads of a finished command.
pub fn assemble_shell_output(stdout: &str, stderr: &str, exit_code: i64) -> (r: String)
    ensures
        r@ == spec_shell_output(stdout@, stderr@, exit_code as int),
{
    let mut output = String::new();
    proof {
        reveal_strlit("");
    }
    if !stdout.is_empty() {
        output.append(stdout);
    }
    if !stderr.is_empty() {
        if !output.as_str().is_empty() {
            output.append("\n\n--- stderr ---\n");
        }
        output.append(stderr);
    }
    proof {
        let base = if stderr@.len() == 0 {
            stdout@
        } else if stdout@.len() == 0 {
            stderr@
        } else {
            stdout@ + "\n\n--- stderr ---\n"@ + stderr@
        };
        assert(output@ =~= base);
    }
    if output.as_str().is_empty() {
        output = concat_str(
            "Command completed with exit code ",
            i64_to_string(exit_code).as_str(),
        );
    } else if exit_code != 0 {
        output.append("\n\nExit code: ");
        output.append(i64_to_string(exit_code).as_str());
        proof {
            assert(output@ =~= (if stderr@.len() == 0 {
                stdout@
            } else if stdout@.len() == 0 {
                stderr@
            } else {
                stdout@ + "\n\n--- stderr ---\n"@ + stderr@
            }) + "\n\nExit code: "@ + int_str(exit_code as int));
        }
    }
    let t = str_chars(output.as_str());
    if t.len() > MAX_OUTPUT_SIZE {
        let mut cut = String::new();
        let mut i: usize = 0;
        proof {
            assert(cut@ =~= t@.take(0int));
        }
        while i < MAX_OUTPUT_SIZE
            invariant
                0 <= i <= MAX_OUTPUT_SIZE < t@.len(),
                cut@ == t@.take(i as int),
            decreases MAX_OUTPUT_SIZE as int - i,
        {
            push_char(&mut cut, t[i]);
            proof {
                assert(t@.take(i as int).push(t@[i as int]) =~= t@.take(i as int + 1));
            }
            i += 1;
        }
        cut.append("\n\n... (output truncated)");
        cut
    } else {
        output
    }
}

/// A byte count rendered for people: whole bytes below a kibibyte, and
/// one rounded decimal place of the matching binary unit above it.
pub open spec fn spec_format_size(bytes: nat) -> Seq<char> {
    let kb: nat = 1024;
    let mb: nat = 1048576;
    let gb: nat = 1073741824;
    if bytes >= gb {
        dec_str((bytes * 10 + gb / 2) / gb / 10) + "."@ + dec_str((bytes * 10 + gb / 2) / gb % 10)
            + " GB"@
    } else if bytes >= mb {
        dec_str((bytes * 10 + mb / 2) / mb / 10) + "."@ + dec_str((bytes * 10 + mb / 2) / mb % 10)
            + " MB"@
    } else if bytes >= kb {
        dec_str((bytes * 10 + kb / 2) / kb / 10) + "."@ + dec_str((bytes * 10 + kb / 2) / kb % 10)
            + " KB"@
    } else {
        dec_str(bytes) + " B"@
    }
}

fn format_scaled(bytes: u64, unit: u64, suffix: &str) -> (r: String)
    requires
        unit >= 2,
    ensures
        r@ == dec_str(((bytes as int * 10 + unit as int / 2) / unit as int / 10) as nat) + "."@
            + dec_str(((bytes as int * 10 + unit as int / 2) / unit as int % 10) as nat) + suffix@,
{
    let scaled: u128 = ((bytes as u128) * 10 + (unit / 2) as u128) / (unit as u128);
    let whole: u64 = (scaled / 10) as u64;
    let frac: u64 = (scaled % 10) as u64;
    proof {
        let x = bytes as int * 10 + unit as int / 2;
        assert(scaled as int == x / unit as int);
        vstd::arithmetic::div_mod::lemma_div_is_ordered_by_denominator(x, 2, unit as int);
        vstd::arithmetic::div_mod::lemma_div_is_ordered(scaled as int, x / 2, 10);
        vstd::arithmetic::div_mod::lemma_div_denominator(x, 2, 10);
        vstd::arithmetic::div_mod::lemma_div_is_ordered(
            x,
            0xffff_ffff_ffff_ffffint * 10 + 0x7fff_ffff_ffff_ffffint,
            20,
        );
        assert(scaled as int / 10 <= u64::MAX as int);
    }
    let mut r = u64_to_string(whole);
    r.append(".");
    let f = u64_to_string(frac);
    r.append(f.as_str());
    r.append(suffix);
    r
}

/// Renders a byte count for people.
pub fn format_size(bytes: u64) -> (r: String)
    ensures
        r@ == spec_format_size(bytes as nat),
{
    let kb: u64 = 1024;
    let mb: u64 = 1048576;
    let gb: u64 = 1073741824;
    if bytes >= gb {
        format_scaled(bytes, gb, " GB")
    } else if bytes >= mb {
        format_scaled(bytes, mb, " MB")
    } else if bytes >= kb {
        format_scaled(bytes, kb, " KB")
    } else {
        let mut r = u64_to_string(bytes);
        r.append(" B");
        r
    }
}

} // verus!
