use vstd::prelude::*;
use owo_colors::OwoColorize;

verus! {

/// The colouring of one value in the startup summary.
#[derive(Clone, Copy, Debug, PartialEq, Eq, Structural)]
pub enum ValueTone {
    Primary,
    Success,
    Warning,
    Danger,
    Accent,
    Muted,
}

/// The ANSI select-graphic-rendition sequence with parameter `code`.
pub open spec fn sgr(code: Seq<char>) -> Seq<char> {
    seq!['\x1b', '['] + code + seq!['m']
}

/// `s` between the opening sequence `code` and the closing one `close`.
pub open spec fn styled(code: Seq<char>, s: Seq<char>, close: Seq<char>) -> Seq<char> {
    sgr(code) + s + sgr(close)
}

/// Relies on owo_colors' `bold`: the text between `ESC[1m` and `ESC[0m`.
#[verifier::external_body]
fn bold(s: &str) -> (r: String)
    ensures
        r@ == styled(seq!['1'], s@, seq!['0']),
{
    s.bold().to_string()
}

/// Relies on owo_colors' `dimmed`: the text between `ESC[2m` and `ESC[0m`.
#[verifier::external_body]
fn dimmed(s: &str) -> (r: String)
    ensures
        r@ == styled(seq!['2'], s@, seq!['0']),
{
    s.dimmed().to_string()
}

/// Relies on owo_colors' `bright_red`: the text between `ESC[91m` and `ESC[39m`.
#[verifier::external_body]
fn bright_red(s: &str) -> (r: String)
    ensures
        r@ == styled(seq!['9', '1'], s@, seq!['3', '9']),
{
    s.bright_red().to_string()
}

/// Relies on owo_colors' `bright_green`: the text between `ESC[92m` and `ESC[39m`.
#[verifier::external_body]
fn bright_green(s: &str) -> (r: String)
    ensures
        r@ == styled(seq!['9', '2'], s@, seq!['3', '9']),
{
    s.bright_green().to_string()
}

/// Relies on owo_colors' `bright_yellow`: the text between `ESC[93m` and `ESC[39m`.
#[verifier::external_body]
fn bright_yellow(s: &str) -> (r: String)
    ensures
        r@ == styled(seq!['9', '3'], s@, seq!['3', '9']),
{
    s.bright_yellow().to_string()
}

/// Relies on owo_colors' `bright_cyan`: the text between `ESC[96m` and `ESC[39m`.
#[verifier::external_body]
fn bright_cyan(s: &str) -> (r: String)
    ensures
        r@ == styled(seq!['9', '6'], s@, seq!['3', '9']),
{
    s.bright_cyan().to_string()
}

/// Relies on owo_colors' `bright_white`: the text between `ESC[97m` and `ESC[39m`.
#[verifier::external_body]
fn bright_white(s: &str) -> (r: String)
    ensures
        r@ == styled(seq!['9', '7'], s@, seq!['3', '9']),
{
    s.bright_white().to_string()
}

/// The terminal text of `value` in the tone `tone`.
pub open spec fn toned(value: Seq<char>, tone: ValueTone) -> Seq<char> {
    let b = styled(seq!['1'], value, seq!['0']);
    match tone {
        ValueTone::Primary => styled(seq!['9', '7'], b, seq!['3', '9']),
        ValueTone::Success => styled(seq!['9', '2'], b, seq!['3', '9']),
        ValueTone::Warning => styled(seq!['9', '3'], value, seq!['3', '9']),
        ValueTone::Danger => styled(seq!['9', '1'], b, seq!['3', '9']),
        ValueTone::Accent => styled(seq!['9', '6'], value, seq!['3', '9']),
        ValueTone::Muted => styled(seq!['2'], value, seq!['0']),
    }
}

/// `value` coloured for the startup summary: bold and bright for primary,
/// success and danger values, bright for warnings and accents, dim for
/// muted ones.
pub fn colorize(value: &str, tone: ValueTone) -> (r: String)
    ensures
        r@ == toned(value@, tone),
{
    match tone {
        ValueTone::Primary => bright_white(bold(value).as_str()),
        ValueTone::Success => bright_green(bold(value).as_str()),
        ValueTone::Warning => bright_yellow(value),
        ValueTone::Danger => bright_red(bold(value).as_str()),
        ValueTone::Accent => bright_cyan(value),
        ValueTone::Muted => dimmed(value),
    }
}

} // verus!
