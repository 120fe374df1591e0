//! Local system voice: no API key, works offline, by running each platform's
//! built-in speech tool.
//!
//! * Windows: PowerShell + `System.Speech.Synthesis`
//! * macOS:   `say`
//! * Linux:   `espeak-ng` (or `espeak`)
//!
//! The library builds the command lines, chooses which to try and in what
//! order, and reads the voice lists the tools print; starting the processes
//! is handed in by the caller as a closure.

use vstd::prelude::*;
use crate::platform::Os;
use crate::settings::Settings;
use crate::text::{
    concat_str, decimal, digits, field_end, lines, push_char, push_decimal, split_lines, split_words, to_string,
    trim, trimmed, before_double_space, views, words,
};
use vstd::utf8::{decode_utf8, valid_utf8};
use vstd::string::StrSliceExecFns;

verus! {

/// `v` limited to `lo..=hi`, as `Ord::clamp` does.
pub open spec fn clamp(v: int, lo: int, hi: int) -> int {
    if v < lo {
        lo
    } else if v > hi {
        hi
    } else {
        v
    }
}

fn clamp_i32(v: i32, lo: i32, hi: i32) -> (r: i32)
    requires
        lo <= hi,
    ensures
        r == clamp(v as int, lo as int, hi as int),
{
    if v < lo {
        lo
    } else if v > hi {
        hi
    } else {
        v
    }
}

/// What `c` becomes inside a single-quoted PowerShell string.
pub open spec fn quote_piece(c: char) -> Seq<char> {
    if c == '\'' {
        seq!['\'', '\'']
    } else {
        seq![c]
    }
}

/// `s` with each `'` doubled, for use inside a single-quoted PowerShell
/// string.
pub open spec fn escape_quotes(s: Seq<char>) -> Seq<char>
    decreases s.len(),
{
    if s.len() == 0 {
        Seq::empty()
    } else {
        escape_quotes(s.drop_last()) + quote_piece(s.last())
    }
}

/// The text a single-quoted PowerShell string stands for, reading from just
/// after its opening quote: `''` stands for `'`, and a lone `'` closes it.
pub open spec fn read_quoted(t: Seq<char>) -> Seq<char>
    decreases t.len(),
{
    if t.len() == 0 {
        Seq::empty()
    } else if t[0] == '\'' {
        if t.len() >= 2 && t[1] == '\'' {
            seq!['\''] + read_quoted(t.skip(2))
        } else {
            Seq::empty()
        }
    } else {
        seq![t[0]] + read_quoted(t.drop_first())
    }
}

proof fn lemma_escape_front(c: char, s: Seq<char>)
    ensures
        escape_quotes(seq![c] + s) == quote_piece(c) + escape_quotes(s),
    decreases s.len(),
{
    if s.len() == 0 {
        assert(seq![c] + s =~= seq![c]);
        let one = seq![c];
        assert(one.drop_last() =~= Seq::<char>::empty());
        assert(escape_quotes(one.drop_last()) == Seq::<char>::empty());
        assert(one.last() == c);
        assert(escape_quotes(one) == escape_quotes(one.drop_last()) + quote_piece(c));
        assert(escape_quotes(one) =~= quote_piece(c));
        assert(quote_piece(c) + escape_quotes(s) =~= quote_piece(c));
    } else {
        lemma_escape_front(c, s.drop_last());
        assert((seq![c] + s).drop_last() =~= seq![c] + s.drop_last());
        assert((seq![c] + s).last() == s.last());
        assert(escape_quotes(seq![c] + s) =~= quote_piece(c) + escape_quotes(s));
    }
}

/// A text put between single quotes with `escape_quotes` reads back as
/// exactly that text, when the closing quote is not followed by another
/// quote (in the speech script a `,` or `)` follows): a path or voice name
/// cannot end the PowerShell string early.
pub proof fn law_quoted_text_reads_back(s: Seq<char>, rest: Seq<char>)
    requires
        rest.len() == 0 || rest[0] != '\'',
    ensures
        read_quoted(escape_quotes(s) + seq!['\''] + rest) == s,
    decreases s.len(),
{
    let t = escape_quotes(s) + seq!['\''] + rest;
    if s.len() == 0 {
        assert(escape_quotes(s) =~= Seq::<char>::empty());
        assert(t =~= seq!['\''] + rest);
        assert(t[0] == '\'');
        if t.len() >= 2 {
            assert(t[1] == rest[0]);
        }
        assert(read_quoted(t) =~= s);
    } else {
        let c = s[0];
        let s2 = s.drop_first();
        assert(s =~= seq![c] + s2);
        lemma_escape_front(c, s2);
        law_quoted_text_reads_back(s2, rest);
        let t2 = escape_quotes(s2) + seq!['\''] + rest;
        if c == '\'' {
            assert(t =~= seq!['\'', '\''] + t2);
            assert(t.skip(2) =~= t2);
            assert(read_quoted(t) =~= seq!['\''] + s2);
        } else {
            assert(t =~= seq![c] + t2);
            assert(t.drop_first() =~= t2);
            assert(read_quoted(t) =~= seq![c] + s2);
        }
    }
}

/// Append `s` to `out` with each `'` doubled.
fn push_escaped(out: &mut String, s: &str)
    ensures
        final(out)@ == old(out)@ + escape_quotes(s@),
{
    let n = s.unicode_len();
    let mut i: usize = 0;
    while i < n
        invariant
            n == s@.len(),
            i <= n,
            out@ == old(out)@ + escape_quotes(s@.take(i as int)),
        decreases n - i,
    {
        let c = s.get_char(i);
        proof {
            assert(s@.take(i + 1).drop_last() =~= s@.take(i as int));
        }
        if c == '\'' {
            push_char(out, '\'');
            push_char(out, '\'');
        } else {
            push_char(out, c);
        }
        i = i + 1;
        assert(out@ =~= old(out)@ + escape_quotes(s@.take(i as int)));
    }
    assert(s@.take(n as int) =~= s@);
}

/// A command to run: the program, its arguments, and whether the text to
/// speak is written to its standard input.
pub struct Invocation {
    pub program: &'static str,
    pub args: Vec<String>,
    pub feeds_text: bool,
}

/// The arguments of a command, as character sequences.
pub open spec fn arg_views(args: Seq<String>) -> Seq<Seq<char>> {
    args.map_values(|a: String| a@)
}

impl View for Invocation {
    type V = (Seq<char>, Seq<Seq<char>>, bool);

    /// The command as plain values: program, arguments, standard input use.
    open spec fn view(&self) -> (Seq<char>, Seq<Seq<char>>, bool) {
        (self.program@, arg_views(self.args@), self.feeds_text)
    }
}

/// The statement that selects a voice in the Windows script, if one is set.
pub open spec fn voice_selection(voice: Seq<char>) -> Seq<char> {
    if voice.len() == 0 {
        Seq::empty()
    } else {
        "try { $s.SelectVoice('"@ + escape_quotes(voice) + "') } catch {};"@
    }
}

/// The PowerShell script that reads the text file at `path` aloud with
/// `voice` at `rate` (limited to -10..=10) and then deletes the file.
pub open spec fn windows_script(path: Seq<char>, voice: Seq<char>, rate: int) -> Seq<char> {
    "Add-Type -AssemblyName System.Speech; $s = New-Object System.Speech.Synthesis.SpeechSynthesizer; $s.Rate = "@
        + decimal(clamp(rate, -10, 10)) + "; "@ + voice_selection(voice)
        + " $t = [IO.File]::ReadAllText('"@ + escape_quotes(path)
        + "', [Text.Encoding]::UTF8); $s.Speak($t); Remove-Item -LiteralPath '"@ + escape_quotes(path)
        + "' -ErrorAction SilentlyContinue"@
}

/// The Windows script sets the speaking rate to the settings rate itself
/// when it lies in -10..=10, the range of `SpeechSynthesizer.Rate`, and to
/// -10 or 10 when the rate lies below or above it; that statement comes
/// right after the synthesizer is made.
pub proof fn law_windows_script_rate(path: Seq<char>, voice: Seq<char>, rate: int)
    ensures
        -10 <= rate <= 10 ==> ("Add-Type -AssemblyName System.Speech; $s = New-Object System.Speech.Synthesis.SpeechSynthesizer; $s.Rate = "@
            + decimal(rate) + ";"@).is_prefix_of(windows_script(path, voice, rate)),
        rate < -10 ==> ("Add-Type -AssemblyName System.Speech; $s = New-Object System.Speech.Synthesis.SpeechSynthesizer; $s.Rate = -10;"@).is_prefix_of(
            windows_script(path, voice, rate),
        ),
        rate > 10 ==> ("Add-Type -AssemblyName System.Speech; $s = New-Object System.Speech.Synthesis.SpeechSynthesizer; $s.Rate = 10;"@).is_prefix_of(
            windows_script(path, voice, rate),
        ),
{
    let head = "Add-Type -AssemblyName System.Speech; $s = New-Object System.Speech.Synthesis.SpeechSynthesizer; $s.Rate = "@;
    let w = clamp(rate, -10, 10);
    let script = windows_script(path, voice, rate);
    let rest = voice_selection(voice) + " $t = [IO.File]::ReadAllText('"@ + escape_quotes(path)
        + "', [Text.Encoding]::UTF8); $s.Speak($t); Remove-Item -LiteralPath '"@ + escape_quotes(path)
        + "' -ErrorAction SilentlyContinue"@;
    reveal_strlit("; ");
    reveal_strlit(";");
    let pre = head + decimal(w) + ";"@;
    assert(script =~= pre + (" "@ + rest)) by {
        reveal_strlit(" ");
    }
    assert(pre.is_prefix_of(script)) by {
        assert(pre =~= script.subrange(0, pre.len() as int));
    }
    if rate < -10 {
        reveal_strlit("Add-Type -AssemblyName System.Speech; $s = New-Object System.Speech.Synthesis.SpeechSynthesizer; $s.Rate = -10;");
        reveal_strlit("Add-Type -AssemblyName System.Speech; $s = New-Object System.Speech.Synthesis.SpeechSynthesizer; $s.Rate = ");
        assert(decimal(-10) =~= seq!['-', '1', '0']) by {
            assert(digits(1) =~= seq!['1']);
        }
        assert(pre =~= "Add-Type -AssemblyName System.Speech; $s = New-Object System.Speech.Synthesis.SpeechSynthesizer; $s.Rate = -10;"@);
    }
    if rate > 10 {
        reveal_strlit("Add-Type -AssemblyName System.Speech; $s = New-Object System.Speech.Synthesis.SpeechSynthesizer; $s.Rate = 10;");
        reveal_strlit("Add-Type -AssemblyName System.Speech; $s = New-Object System.Speech.Synthesis.SpeechSynthesizer; $s.Rate = ");
        assert(decimal(10) =~= seq!['1', '0']) by {
            assert(digits(1) =~= seq!['1']);
        }
        assert(pre =~= "Add-Type -AssemblyName System.Speech; $s = New-Object System.Speech.Synthesis.SpeechSynthesizer; $s.Rate = 10;"@);
    }
}

/// Build the Windows speech script.
pub fn build_windows_script(path: &str, voice: &str, rate: i32) -> (r: String)
    ensures
        r@ == windows_script(path@, voice@, rate as int),
{
    let rate = clamp_i32(rate, -10, 10);
    let mut s = to_string(
        "Add-Type -AssemblyName System.Speech; $s = New-Object System.Speech.Synthesis.SpeechSynthesizer; $s.Rate = ",
    );
    push_decimal(&mut s, rate);
    s.append("; ");
    if voice.unicode_len() > 0 {
        s.append("try { $s.SelectVoice('");
        push_escaped(&mut s, voice);
        s.append("') } catch {};");
    }
    s.append(" $t = [IO.File]::ReadAllText('");
    push_escaped(&mut s, path);
    s.append("', [Text.Encoding]::UTF8); $s.Speak($t); Remove-Item -LiteralPath '");
    push_escaped(&mut s, path);
    s.append("' -ErrorAction SilentlyContinue");
    proof {
        assert(s@ =~= windows_script(path@, voice@, rate as int));
    }
    s
}

/// Words per minute for `say` at a settings rate (rate 0 means the default).
pub open spec fn say_wpm(rate: int) -> int {
    clamp(180 + rate * 12, 80, 400)
}

/// Words per minute for espeak at a settings rate (rate 0 means the default).
pub open spec fn espeak_wpm(rate: int) -> int {
    clamp(175 + rate * 15, 80, 450)
}

/// Whether a rate can be turned into words per minute in `i32` arithmetic:
/// `base + rate * step` stays within `i32`.
pub open spec fn rate_in_range(rate: int, base: int, step: int) -> bool {
    rate == 0 || (i32::MIN <= rate * step <= i32::MAX && i32::MIN <= base + rate * step <= i32::MAX)
}

/// Arguments for a voice and a rate, before the input argument(s).
pub open spec fn voice_rate_args(voice: Seq<char>, rate: int, rate_flag: Seq<char>, wpm: int) -> Seq<Seq<char>> {
    (if voice.len() > 0 {
        seq!["-v"@, voice]
    } else {
        Seq::empty()
    }) + (if rate != 0 {
        seq![rate_flag, decimal(wpm)]
    } else {
        Seq::empty()
    })
}

/// The `say` command for a voice and rate; it reads the text from standard
/// input.
pub open spec fn say_command(voice: Seq<char>, rate: int) -> (Seq<char>, Seq<Seq<char>>, bool) {
    ("say"@, voice_rate_args(voice, rate, "-r"@, say_wpm(rate)) + seq!["-f"@, "-"@], true)
}

/// The espeak command (`exe` is `espeak-ng` or `espeak`) for a voice and
/// rate; it reads the text from standard input.
pub open spec fn espeak_command(exe: Seq<char>, voice: Seq<char>, rate: int) -> (Seq<char>, Seq<Seq<char>>, bool) {
    (exe, voice_rate_args(voice, rate, "-s"@, espeak_wpm(rate)) + seq!["--stdin"@], true)
}

/// `-v <voice>` when a voice is set, nothing otherwise.
pub open spec fn voice_flag(voice: Seq<char>) -> Seq<Seq<char>> {
    if voice.len() > 0 {
        seq!["-v"@, voice]
    } else {
        Seq::empty()
    }
}

/// espeak's speed: rate 0 leaves espeak at its default of 175 words per
/// minute and passes no `-s`; any other rate r asks for 175 + 15·r words per
/// minute after `-s`, held to 80..=450, so a negative rate always asks for
/// fewer than 175 and a positive one for more. The text comes on standard
/// input.
pub proof fn law_espeak_words_per_minute(exe: Seq<char>, voice: Seq<char>, rate: int)
    ensures
        espeak_command(exe, voice, rate).0 == exe,
        espeak_command(exe, voice, rate).2,
        rate == 0 ==> espeak_command(exe, voice, rate).1 == voice_flag(voice) + seq!["--stdin"@],
        rate != 0 && 80 <= 175 + 15 * rate <= 450 ==> espeak_command(exe, voice, rate).1 == voice_flag(voice)
            + seq!["-s"@, decimal(175 + 15 * rate), "--stdin"@],
        rate != 0 && 175 + 15 * rate < 80 ==> espeak_command(exe, voice, rate).1 == voice_flag(voice) + seq![
            "-s"@,
            decimal(80),
            "--stdin"@,
        ],
        175 + 15 * rate > 450 ==> espeak_command(exe, voice, rate).1 == voice_flag(voice) + seq![
            "-s"@,
            decimal(450),
            "--stdin"@,
        ],
        rate < 0 ==> exists|w: int|
            80 <= w < 175 && espeak_command(exe, voice, rate).1 == voice_flag(voice) + seq![
                "-s"@,
                decimal(w),
                "--stdin"@,
            ],
        rate > 0 ==> exists|w: int|
            175 < w <= 450 && espeak_command(exe, voice, rate).1 == voice_flag(voice) + seq![
                "-s"@,
                decimal(w),
                "--stdin"@,
            ],
{
    let args = espeak_command(exe, voice, rate).1;
    if rate == 0 {
        assert(args =~= voice_flag(voice) + seq!["--stdin"@]);
    } else {
        let w = espeak_wpm(rate);
        assert(args =~= voice_flag(voice) + seq!["-s"@, decimal(w), "--stdin"@]);
        if rate < 0 {
            assert(80 <= w < 175 && args == voice_flag(voice) + seq!["-s"@, decimal(w), "--stdin"@]);
        }
        if rate > 0 {
            assert(175 < w <= 450 && args == voice_flag(voice) + seq!["-s"@, decimal(w), "--stdin"@]);
        }
    }
}

/// `say`'s speed: rate 0 leaves `say` at its default of 180 words per minute
/// and passes no `-r`; any other rate r asks for 180 + 12·r words per minute
/// after `-r`, held to 80..=400, so a negative rate always asks for fewer than
/// 180 and a positive one for more. The text comes on standard input.
pub proof fn law_say_words_per_minute(voice: Seq<char>, rate: int)
    ensures
        say_command(voice, rate).0 == "say"@,
        say_command(voice, rate).2,
        rate == 0 ==> say_command(voice, rate).1 == voice_flag(voice) + seq!["-f"@, "-"@],
        rate != 0 && 80 <= 180 + 12 * rate <= 400 ==> say_command(voice, rate).1 == voice_flag(voice) + seq![
            "-r"@,
            decimal(180 + 12 * rate),
            "-f"@,
            "-"@,
        ],
        rate != 0 && 180 + 12 * rate < 80 ==> say_command(voice, rate).1 == voice_flag(voice) + seq![
            "-r"@,
            decimal(80),
            "-f"@,
            "-"@,
        ],
        180 + 12 * rate > 400 ==> say_command(voice, rate).1 == voice_flag(voice) + seq![
            "-r"@,
            decimal(400),
            "-f"@,
            "-"@,
        ],
        rate < 0 ==> exists|w: int|
            80 <= w < 180 && say_command(voice, rate).1 == voice_flag(voice) + seq![
                "-r"@,
                decimal(w),
                "-f"@,
                "-"@,
            ],
        rate > 0 ==> exists|w: int|
            180 < w <= 400 && say_command(voice, rate).1 == voice_flag(voice) + seq![
                "-r"@,
                decimal(w),
                "-f"@,
                "-"@,
            ],
{
    let args = say_command(voice, rate).1;
    if rate == 0 {
        assert(args =~= voice_flag(voice) + seq!["-f"@, "-"@]);
    } else {
        let w = say_wpm(rate);
        assert(args =~= voice_flag(voice) + seq!["-r"@, decimal(w), "-f"@, "-"@]);
        if rate < 0 {
            assert(80 <= w < 180 && args == voice_flag(voice) + seq!["-r"@, decimal(w), "-f"@, "-"@]);
        }
        if rate > 0 {
            assert(180 < w <= 400 && args == voice_flag(voice) + seq!["-r"@, decimal(w), "-f"@, "-"@]);
        }
    }
}

/// The PowerShell command that runs a script.
pub open spec fn powershell_command(script: Seq<char>) -> (Seq<char>, Seq<Seq<char>>, bool) {
    ("powershell"@, seq!["-NoProfile"@, "-NonInteractive"@, "-Command"@, script], false)
}

fn push_arg(args: &mut Vec<String>, a: String)
    ensures
        arg_views(final(args)@) == arg_views(old(args)@).push(a@),
{
    args.push(a);
    proof {
        assert(arg_views(final(args)@) =~= arg_views(old(args)@).push(a@));
    }
}

/// `-v <voice>` when a voice is set, then `<flag> <words per minute>` when the
/// rate is not 0.
fn voice_rate_arg_list(voice: &str, rate: i32, rate_flag: &str, base: i32, step: i32, lo: i32, hi: i32) -> (r: Vec<String>)
    requires
        rate_in_range(rate as int, base as int, step as int),
        lo <= hi,
    ensures
        arg_views(r@) == voice_rate_args(voice@, rate as int, rate_flag@, clamp(base + rate * step, lo as int, hi as int)),
{
    let mut args: Vec<String> = Vec::new();
    proof {
        assert(arg_views(args@) =~= Seq::<Seq<char>>::empty());
    }
    if voice.unicode_len() > 0 {
        push_arg(&mut args, to_string("-v"));
        push_arg(&mut args, to_string(voice));
    }
    if rate != 0 {
        let wpm = clamp_i32(base + rate * step, lo, hi);
        push_arg(&mut args, to_string(rate_flag));
        let mut w = String::new();
        push_decimal(&mut w, wpm);
        push_arg(&mut args, w);
    }
    proof {
        assert(arg_views(args@) =~= voice_rate_args(voice@, rate as int, rate_flag@, clamp(base + rate * step, lo as int, hi as int)));
    }
    args
}

/// The `say` command for a voice and rate.
pub fn say_invocation(voice: &str, rate: i32) -> (r: Invocation)
    requires
        rate_in_range(rate as int, 180, 12),
    ensures
        r.view() == say_command(voice@, rate as int),
{
    let mut args = voice_rate_arg_list(voice, rate, "-r", 180, 12, 80, 400);
    push_arg(&mut args, to_string("-f"));
    push_arg(&mut args, to_string("-"));
    let r = Invocation { program: "say", args, feeds_text: true };
    proof {
        assert(r.view().1 =~= say_command(voice@, rate as int).1);
    }
    r
}

/// The espeak command for a voice and rate.
pub fn espeak_invocation(exe: &'static str, voice: &str, rate: i32) -> (r: Invocation)
    requires
        rate_in_range(rate as int, 175, 15),
    ensures
        r.view() == espeak_command(exe@, voice@, rate as int),
{
    let mut args = voice_rate_arg_list(voice, rate, "-s", 175, 15, 80, 450);
    push_arg(&mut args, to_string("--stdin"));
    let r = Invocation { program: exe, args, feeds_text: true };
    proof {
        assert(r.view().1 =~= espeak_command(exe@, voice@, rate as int).1);
    }
    r
}

/// The PowerShell command that runs `script`.
pub fn powershell_invocation(script: String) -> (r: Invocation)
    ensures
        r.view() == powershell_command(script@),
{
    let mut args: Vec<String> = Vec::new();
    proof {
        assert(arg_views(args@) =~= Seq::<Seq<char>>::empty());
    }
    push_arg(&mut args, to_string("-NoProfile"));
    push_arg(&mut args, to_string("-NonInteractive"));
    push_arg(&mut args, to_string("-Command"));
    push_arg(&mut args, script);
    let r = Invocation { program: "powershell", args, feeds_text: false };
    proof {
        assert(r.view().1 =~= powershell_command(script@).1);
    }
    r
}

/// The message when no speech engine could be started on Linux.
pub open spec fn no_engine_message() -> Seq<char> {
    "No local speech engine found. Install `espeak-ng` (e.g. `sudo apt install espeak-ng`)."@
}

/// Whether the settings rate can be turned into the platform's speech rate
/// without overflowing `i32`.
pub open spec fn local_rate_ok(os: Os, rate: int) -> bool {
    match os {
        Os::Windows => true,
        Os::Macos => rate_in_range(rate, 180, 12),
        _ => rate_in_range(rate, 175, 15),
    }
}

/// `r` is what the start of a process gave back, with `prefix` put before
/// the message of a failure.
pub open spec fn passed_on<T>(r: Result<T, String>, out: Result<T, String>, prefix: Seq<char>) -> bool {
    match out {
        Ok(t) => r == Ok::<T, String>(t),
        Err(e) => r matches Err(m) && m@ == prefix + e@,
    }
}

fn pass_on<T>(out: Result<T, String>, prefix: &str) -> (r: Result<T, String>)
    ensures
        passed_on(r, out, prefix@),
{
    match out {
        Ok(t) => Ok(t),
        Err(e) => Err(concat_str(prefix, e.as_str())),
    }
}

/// What `speak` gives back on a Linux-like system: the first espeak that
/// starts, trying `espeak-ng` before `espeak`.
pub open spec fn espeak_outcome<T, S: Fn(&Invocation) -> Result<T, String>>(
    spawn: S,
    voice: Seq<char>,
    rate: int,
    r: Result<T, String>,
) -> bool {
    exists|inv1: &Invocation, out1: Result<T, String>|
        #![trigger call_ensures(spawn, (inv1,), out1)]
        inv1.view() == espeak_command("espeak-ng"@, voice, rate) && call_ensures(spawn, (inv1,), out1)
            && if out1 is Ok {
            r == out1
        } else {
            exists|inv2: &Invocation, out2: Result<T, String>|
                #![trigger call_ensures(spawn, (inv2,), out2)]
                inv2.view() == espeak_command("espeak"@, voice, rate) && call_ensures(
                    spawn,
                    (inv2,),
                    out2,
                ) && if out2 is Ok {
                    r == out2
                } else {
                    r matches Err(m) && m@ == no_engine_message()
                }
        }
}

/// Speak with the local voice, giving back what `spawn` gave for the command
/// that started.
///
/// The voice comes from the settings without surrounding white space. On
/// Windows the text has been written to the file `text_file`, which the
/// script reads and then deletes; elsewhere `spawn` writes the text to the
/// command's standard input. `spawn` starts a command and gives back the
/// running process, or the reason it could not be started.
pub fn speak<T, S: Fn(&Invocation) -> Result<T, String>>(
    os: Os,
    settings: &Settings,
    text_file: &str,
    spawn: S,
) -> (r: Result<T, String>)
    requires
        forall|inv: &Invocation| call_requires(spawn, (inv,)),
        local_rate_ok(os, settings.local_rate as int),
    ensures
        ({
            let voice = trimmed(settings.local_voice@);
            let rate = settings.local_rate as int;
            match os {
                Os::Windows => exists|inv: &Invocation, out: Result<T, String>|
                    #![trigger call_ensures(spawn, (inv,), out)]
                    inv.view() == powershell_command(windows_script(text_file@, voice, rate))
                        && call_ensures(spawn, (inv,), out) && passed_on(
                        r,
                        out,
                        "PowerShell speech failed: "@,
                    ),
                Os::Macos => exists|inv: &Invocation, out: Result<T, String>|
                    #![trigger call_ensures(spawn, (inv,), out)]
                    inv.view() == say_command(voice, rate) && call_ensures(spawn, (inv,), out)
                        && passed_on(r, out, "`say` failed: "@),
                _ => espeak_outcome(spawn, voice, rate, r),
            }
        }),
{
    let voice = trim(settings.local_voice.as_str());
    let rate = settings.local_rate;
    match os {
        Os::Windows => {
            let script = build_windows_script(text_file, voice, rate);
            let inv = powershell_invocation(script);
            let out = spawn(&inv);
            pass_on(out, "PowerShell speech failed: ")
        },
        Os::Macos => {
            let inv = say_invocation(voice, rate);
            let out = spawn(&inv);
            pass_on(out, "`say` failed: ")
        },
        _ => {
            let inv1 = espeak_invocation("espeak-ng", voice, rate);
            let out1 = spawn(&inv1);
            if out1.is_ok() {
                return out1;
            }
            let inv2 = espeak_invocation("espeak", voice, rate);
            let out2 = spawn(&inv2);
            if out2.is_ok() {
                return out2;
            }
            Err(
                to_string(
                    "No local speech engine found. Install `espeak-ng` (e.g. `sudo apt install espeak-ng`).",
                ),
            )
        },
    }
}

/// What `String::from_utf8_lossy` makes of a byte string.
pub uninterp spec fn utf8_lossy(bytes: Seq<u8>) -> Seq<char>;

/// `String::from_utf8_lossy`: the text of `bytes`, with U+FFFD in place of
/// each invalid sequence. Of the result the contract states its name and,
/// as the documentation says, that valid UTF-8 is decoded unchanged.
#[verifier::external_body]
pub fn from_utf8_lossy(bytes: &[u8]) -> (r: String)
    ensures
        r@ == utf8_lossy(bytes@),
        valid_utf8(bytes@) ==> r@ == decode_utf8(bytes@),
{
    String::from_utf8_lossy(bytes).into_owned()
}

/// The voice names in the lines PowerShell printed: each line without
/// surrounding white space, blank lines left out.
pub open spec fn windows_voice_names(ls: Seq<Seq<char>>) -> Seq<Seq<char>>
    decreases ls.len(),
{
    if ls.len() == 0 {
        Seq::empty()
    } else {
        let prev = windows_voice_names(ls.drop_last());
        let t = trimmed(ls.last());
        if t.len() > 0 {
            prev.push(t)
        } else {
            prev
        }
    }
}

/// The voice names in the lines `say -v ?` printed (`Alex    en_US    # ...`):
/// the part of each line before two consecutive spaces, without surrounding
/// white space, blank ones left out.
pub open spec fn macos_voice_names(ls: Seq<Seq<char>>) -> Seq<Seq<char>>
    decreases ls.len(),
{
    if ls.len() == 0 {
        Seq::empty()
    } else {
        let prev = macos_voice_names(ls.drop_last());
        let l = ls.last();
        let t = trimmed(l.take(field_end(l) as int));
        if t.len() > 0 {
            prev.push(t)
        } else {
            prev
        }
    }
}

/// The voice names in the rows `espeak --voices` printed: the fourth
/// white-space separated column of each row that has one.
pub open spec fn espeak_voice_names(ls: Seq<Seq<char>>) -> Seq<Seq<char>>
    decreases ls.len(),
{
    if ls.len() == 0 {
        Seq::empty()
    } else {
        let prev = espeak_voice_names(ls.drop_last());
        let w = words(ls.last());
        if w.len() > 3 {
            prev.push(w[3])
        } else {
            prev
        }
    }
}

/// The rows of a listing after its header row.
pub open spec fn after_header(ls: Seq<Seq<char>>) -> Seq<Seq<char>> {
    if ls.len() > 0 {
        ls.skip(1)
    } else {
        ls
    }
}

/// Voice names in PowerShell's output.
pub open spec fn windows_voices(out: Seq<char>) -> Seq<Seq<char>> {
    windows_voice_names(lines(out))
}

/// Voice names in the output of `say -v ?`.
pub open spec fn macos_voices(out: Seq<char>) -> Seq<Seq<char>> {
    macos_voice_names(lines(out))
}

/// Voice names in the output of `espeak --voices`.
pub open spec fn espeak_voices(out: Seq<char>) -> Seq<Seq<char>> {
    espeak_voice_names(after_header(lines(out)))
}

/// Read the voice names from PowerShell's output.
pub fn parse_windows_voices(out: &str) -> (r: Vec<String>)
    ensures
        views(r@) == windows_voices(out@),
{
    let ls = split_lines(out);
    let n = ls.len();
    let mut r: Vec<String> = Vec::new();
    let mut i: usize = 0;
    while i < n
        invariant
            n == ls@.len(),
            views(ls@) == lines(out@),
            i <= n,
            views(r@) == windows_voice_names(views(ls@).take(i as int)),
        decreases n - i,
    {
        let t = trim(ls[i].as_str());
        proof {
            assert(views(ls@).take(i + 1).drop_last() =~= views(ls@).take(i as int));
            assert(views(ls@).take(i + 1).last() == ls@[i as int]@);
        }
        if t.unicode_len() > 0 {
            let ghost before = r@;
            r.push(to_string(t));
            proof {
                assert(views(r@) =~= views(before).push(t@));
            }
        }
        i = i + 1;
    }
    proof {
        assert(views(ls@).take(n as int) =~= views(ls@));
    }
    r
}

/// Read the voice names from the output of `say -v ?`.
pub fn parse_macos_voices(out: &str) -> (r: Vec<String>)
    ensures
        views(r@) == macos_voices(out@),
{
    let ls = split_lines(out);
    let n = ls.len();
    let mut r: Vec<String> = Vec::new();
    let mut i: usize = 0;
    while i < n
        invariant
            n == ls@.len(),
            views(ls@) == lines(out@),
            i <= n,
            views(r@) == macos_voice_names(views(ls@).take(i as int)),
        decreases n - i,
    {
        let field = before_double_space(ls[i].as_str());
        let t = trim(field.as_str());
        proof {
            assert(views(ls@).take(i + 1).drop_last() =~= views(ls@).take(i as int));
            assert(views(ls@).take(i + 1).last() == ls@[i as int]@);
        }
        if t.unicode_len() > 0 {
            let ghost before = r@;
            r.push(to_string(t));
            proof {
                assert(views(r@) =~= views(before).push(t@));
            }
        }
        i = i + 1;
    }
    proof {
        assert(views(ls@).take(n as int) =~= views(ls@));
    }
    r
}

/// Read the voice names from the output of `espeak --voices`.
pub fn parse_espeak_voices(out: &str) -> (r: Vec<String>)
    ensures
        views(r@) == espeak_voices(out@),
{
    let ls = split_lines(out);
    let n = ls.len();
    let mut r: Vec<String> = Vec::new();
    if n == 0 {
        proof {
            assert(views(r@) =~= espeak_voices(out@));
        }
        return r;
    }
    let ghost rows = views(ls@).skip(1);
    let mut i: usize = 1;
    while i < n
        invariant
            n == ls@.len(),
            n > 0,
            views(ls@) == lines(out@),
            rows == views(ls@).skip(1),
            1 <= i <= n,
            views(r@) == espeak_voice_names(rows.take(i - 1)),
        decreases n - i,
    {
        let w = split_words(ls[i].as_str());
        proof {
            assert(rows.take(i as int).drop_last() =~= rows.take(i - 1));
            assert(rows.take(i as int).last() == ls@[i as int]@);
        }
        if w.len() > 3 {
            let ghost before = r@;
            r.push(w[3].clone());
            proof {
                assert(views(r@) =~= views(before).push(w@[3]@));
            }
        }
        i = i + 1;
    }
    proof {
        assert(rows.take(n - 1) =~= rows);
    }
    r
}

/// The PowerShell script that prints the installed voices, one per line.
pub const WINDOWS_LIST_SCRIPT: &'static str = "Add-Type -AssemblyName System.Speech; (New-Object System.Speech.Synthesis.SpeechSynthesizer).GetInstalledVoices() | ForEach-Object { $_.VoiceInfo.Name }";

/// The command that lists the voices of a tool that takes one flag and
/// argument list, for example `say -v ?` or `espeak --voices`.
pub open spec fn list_command(program: Seq<char>, args: Seq<Seq<char>>) -> (Seq<char>, Seq<Seq<char>>, bool) {
    (program, args, false)
}

/// The voice names the text printed by a listing command holds, for a
/// platform; a command that could not be run gives none.
pub open spec fn listed_voices(os: Os, out: Option<Vec<u8>>) -> Seq<Seq<char>> {
    match out {
        None => Seq::empty(),
        Some(b) => match os {
            Os::Windows => windows_voices(utf8_lossy(b@)),
            Os::Macos => macos_voices(utf8_lossy(b@)),
            _ => espeak_voices(utf8_lossy(b@)),
        },
    }
}

fn voices_from(os: Os, out: Option<Vec<u8>>) -> (r: Vec<String>)
    ensures
        views(r@) == listed_voices(os, out),
{
    match out {
        None => {
            let r: Vec<String> = Vec::new();
            proof {
                assert(views(r@) =~= Seq::<Seq<char>>::empty());
            }
            r
        },
        Some(b) => {
            let text = from_utf8_lossy(b.as_slice());
            match os {
                Os::Windows => parse_windows_voices(text.as_str()),
                Os::Macos => parse_macos_voices(text.as_str()),
                _ => parse_espeak_voices(text.as_str()),
            }
        },
    }
}

fn listing_invocation(program: &'static str, a: &'static str, b: Option<&'static str>) -> (r: Invocation)
    ensures
        r.view() == list_command(
            program@,
            match b {
                Some(x) => seq![a@, x@],
                None => seq![a@],
            },
        ),
{
    let mut args: Vec<String> = Vec::new();
    proof {
        assert(arg_views(args@) =~= Seq::<Seq<char>>::empty());
    }
    push_arg(&mut args, to_string(a));
    match b {
        Some(x) => push_arg(&mut args, to_string(x)),
        None => {},
    }
    let r = Invocation { program, args, feeds_text: false };
    proof {
        assert(r.view().1 =~= match b {
            Some(x) => seq![a@, x@],
            None => seq![a@],
        });
    }
    r
}

/// List the available local voice names (best effort; empty on failure).
///
/// `run` runs a command and gives back what it printed, or `None` where it
/// could not be run. On Linux-like systems `espeak-ng --voices` is tried
/// first and `espeak --voices` only when that gives no voice.
pub fn list_voices<R: Fn(&Invocation) -> Option<Vec<u8>>>(os: Os, run: R) -> (r: Vec<String>)
    requires
        forall|inv: &Invocation| call_requires(run, (inv,)),
    ensures
        match os {
            Os::Windows => exists|inv: &Invocation, out: Option<Vec<u8>>|
                #![trigger call_ensures(run, (inv,), out)]
                inv.view() == powershell_command(WINDOWS_LIST_SCRIPT@) && call_ensures(run, (inv,), out)
                    && views(r@) == listed_voices(os, out),
            Os::Macos => exists|inv: &Invocation, out: Option<Vec<u8>>|
                #![trigger call_ensures(run, (inv,), out)]
                inv.view() == list_command("say"@, seq!["-v"@, "?"@]) && call_ensures(run, (inv,), out)
                    && views(r@) == listed_voices(os, out),
            _ => exists|inv1: &Invocation, out1: Option<Vec<u8>>|
                #![trigger call_ensures(run, (inv1,), out1)]
                inv1.view() == list_command("espeak-ng"@, seq!["--voices"@]) && call_ensures(
                    run,
                    (inv1,),
                    out1,
                ) && if listed_voices(os, out1).len() > 0 {
                    views(r@) == listed_voices(os, out1)
                } else {
                    exists|inv2: &Invocation, out2: Option<Vec<u8>>|
                        #![trigger call_ensures(run, (inv2,), out2)]
                        inv2.view() == list_command("espeak"@, seq!["--voices"@]) && call_ensures(
                            run,
                            (inv2,),
                            out2,
                        ) && views(r@) == listed_voices(os, out2)
                },
        },
{
    match os {
        Os::Windows => {
            let inv = powershell_invocation(to_string(WINDOWS_LIST_SCRIPT));
            let out = run(&inv);
            voices_from(os, out)
        },
        Os::Macos => {
            let inv = listing_invocation("say", "-v", Some("?"));
            let out = run(&inv);
            voices_from(os, out)
        },
        _ => {
            let inv1 = listing_invocation("espeak-ng", "--voices", None);
            let out1 = run(&inv1);
            let v1 = voices_from(os, out1);
            if v1.len() > 0 {
                return v1;
            }
            let inv2 = listing_invocation("espeak", "--voices", None);
            let out2 = run(&inv2);
            voices_from(os, out2)
        },
    }
}

} // verus!
