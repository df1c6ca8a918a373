//! Diagnostics, error values and credential redaction.
use vstd::prelude::*;
use regex::Regex;
use crate::sql::opt_view;
use crate::text::{
    contains_seq, join_seqs, lemma_join_push, lines_of, nat_decimal, owned, push_char,
    split_lines, str_contains, strings_view, u64_to_string, usize_to_string,
};

verus! {

/// Diagnostic severity level.
#[derive(Debug, Clone, Copy, PartialEq, Eq, Structural)]
pub enum DiagLevel {
    /// Informational message.
    Info,
    /// Warning — translation continued with a placeholder.
    Warn,
    /// Error — translation failed for this construct.
    Error,
    /// Security — credential redacted.
    Security,
}

/// Lower-case name of a level, as the JSON log writes it.
pub open spec fn level_name(l: DiagLevel) -> Seq<char> {
    match l {
        DiagLevel::Info => "info"@,
        DiagLevel::Warn => "warn"@,
        DiagLevel::Error => "error"@,
        DiagLevel::Security => "security"@,
    }
}

/// Column-aligned tag of a level, as the plain-text log writes it.
pub open spec fn level_tag(l: DiagLevel) -> Seq<char> {
    match l {
        DiagLevel::Info => "INFO "@,
        DiagLevel::Warn => "WARN "@,
        DiagLevel::Error => "ERROR"@,
        DiagLevel::Security => "WARN "@,
    }
}

impl DiagLevel {
    /// Lower-case name of the level.
    pub fn as_str(&self) -> (r: &'static str)
        ensures
            r@ == level_name(*self),
    {
        match self {
            DiagLevel::Info => "info",
            DiagLevel::Warn => "warn",
            DiagLevel::Error => "error",
            DiagLevel::Security => "security",
        }
    }
}

/// A single diagnostic message.
#[derive(Debug, Clone)]
pub struct Diagnostic {
    /// Severity level.
    pub level: DiagLevel,
    /// Source file name, if applicable.
    pub file: Option<String>,
    /// 1-indexed line number, if applicable.
    pub line: Option<usize>,
    /// Machine-readable code.
    pub code: String,
    /// Human-readable message.
    pub message: String,
    /// Original M fragment, if applicable.
    pub fragment: Option<String>,
}

/// Model of [`Diagnostic`].
pub struct DiagnosticV {
    pub level: DiagLevel,
    pub file: Option<Seq<char>>,
    pub line: Option<usize>,
    pub code: Seq<char>,
    pub message: Seq<char>,
    pub fragment: Option<Seq<char>>,
}

impl View for Diagnostic {
    type V = DiagnosticV;

    open spec fn view(&self) -> DiagnosticV {
        DiagnosticV {
            level: self.level,
            file: opt_view(self.file),
            line: self.line,
            code: self.code@,
            message: self.message@,
            fragment: opt_view(self.fragment),
        }
    }
}

/// Models of a sequence of diagnostics.
pub open spec fn diags_view(s: Seq<Diagnostic>) -> Seq<DiagnosticV> {
    Seq::new(s.len(), |i: int| s[i]@)
}

/// Plain-text form of a diagnostic.
pub open spec fn plain_text(d: DiagnosticV) -> Seq<char> {
    let location = match (d.file, d.line) {
        (Some(f), Some(l)) => " ["@ + f + ":"@ + nat_decimal(l as nat) + "]"@,
        (Some(f), None) => " ["@ + f + "]"@,
        _ => Seq::empty(),
    };
    level_tag(d.level) + location + " "@ + d.message
}

/// JSON string escape of one character.
pub open spec fn json_escape_char(c: char) -> Seq<char> {
    if c == '\\' {
        "\\\\"@
    } else if c == '"' {
        "\\\""@
    } else if c == '\n' {
        "\\n"@
    } else if c == '\r' {
        "\\r"@
    } else if c == '\t' {
        "\\t"@
    } else if (c as u32) < 0x20 {
        seq!['\\', 'u', '0', '0', hex_digit((c as u32) / 16), hex_digit((c as u32) % 16)]
    } else {
        seq![c]
    }
}

/// Lower-case hexadecimal digit of a value below 16.
pub open spec fn hex_digit(n: u32) -> char {
    if n < 10 {
        if n < 5 {
            if n == 0 { '0' } else if n == 1 { '1' } else if n == 2 { '2' } else if n == 3 { '3' } else { '4' }
        } else {
            if n == 5 { '5' } else if n == 6 { '6' } else if n == 7 { '7' } else if n == 8 { '8' } else { '9' }
        }
    } else {
        if n == 10 { 'a' } else if n == 11 { 'b' } else if n == 12 { 'c' } else if n == 13 { 'd' } else if n == 14 { 'e' } else { 'f' }
    }
}

/// Lower-case hexadecimal digit of a value below 16.
fn hex_digit_of(n: u32) -> (c: char)
    requires
        n < 16,
    ensures
        c == hex_digit(n),
{
    if n < 10 {
        if n < 5 {
            if n == 0 { '0' } else if n == 1 { '1' } else if n == 2 { '2' } else if n == 3 { '3' } else { '4' }
        } else {
            if n == 5 { '5' } else if n == 6 { '6' } else if n == 7 { '7' } else if n == 8 { '8' } else { '9' }
        }
    } else {
        if n == 10 { 'a' } else if n == 11 { 'b' } else if n == 12 { 'c' } else if n == 13 { 'd' } else if n == 14 { 'e' } else { 'f' }
    }
}

/// JSON string escape of a text: backslash, quote, newline, carriage return and tab by their
/// short escapes, every other character below U+0020 as `\u00XX`.
pub open spec fn json_escape(s: Seq<char>) -> Seq<char>
    decreases s.len(),
{
    if s.len() == 0 {
        Seq::empty()
    } else {
        json_escape(s.drop_last()) + json_escape_char(s.last())
    }
}

/// The value of a lower-case hexadecimal digit.
pub open spec fn hex_value(c: char) -> Option<u32> {
    if '0' <= c && c <= '9' {
        Some((c as u32 - '0' as u32) as u32)
    } else if 'a' <= c && c <= 'f' {
        Some((c as u32 - 'a' as u32 + 10) as u32)
    } else {
        None
    }
}

/// `c` in front of a decoded text, if it decoded.
pub open spec fn prepend(c: char, r: Option<Seq<char>>) -> Option<Seq<char>> {
    match r {
        Some(t) => Some(seq![c] + t),
        None => None,
    }
}

/// Decodes the body of a JSON string: `None` when it is not valid there (a raw `"`, a raw
/// character below U+0020, or a malformed escape), else the characters it stands for. The
/// escapes decoded are `\\`, `\"`, `\n`, `\r`, `\t` and `\u00XX`.
pub open spec fn json_unescape(s: Seq<char>) -> Option<Seq<char>>
    decreases s.len(),
{
    if s.len() == 0 {
        Some(Seq::empty())
    } else if s[0] == '\\' {
        if s.len() < 2 {
            None
        } else if s[1] == '\\' {
            prepend('\\', json_unescape(s.skip(2)))
        } else if s[1] == '"' {
            prepend('"', json_unescape(s.skip(2)))
        } else if s[1] == 'n' {
            prepend('\n', json_unescape(s.skip(2)))
        } else if s[1] == 'r' {
            prepend('\r', json_unescape(s.skip(2)))
        } else if s[1] == 't' {
            prepend('\t', json_unescape(s.skip(2)))
        } else if s[1] == 'u' && s.len() >= 6 && s[2] == '0' && s[3] == '0' && hex_value(s[4]) is Some
            && hex_value(s[5]) is Some {
            prepend(
                ((16 * hex_value(s[4])->0 + hex_value(s[5])->0) as u32) as char,
                json_unescape(s.skip(6)),
            )
        } else {
            None
        }
    } else if s[0] == '"' || (s[0] as u32) < 0x20 {
        None
    } else {
        prepend(s[0], json_unescape(s.skip(1)))
    }
}

/// Escaping a joined text escapes each part.
proof fn lemma_json_escape_append(a: Seq<char>, b: Seq<char>)
    ensures
        json_escape(a + b) == json_escape(a) + json_escape(b),
    decreases b.len(),
{
    if b.len() == 0 {
        assert(a + b =~= a);
        assert(json_escape(b) =~= Seq::<char>::empty());
        assert(json_escape(a) + json_escape(b) =~= json_escape(a));
    } else {
        lemma_json_escape_append(a, b.drop_last());
        assert((a + b).drop_last() =~= a + b.drop_last());
        assert((a + b).last() == b.last());
    }
}

/// Decoding the escape of one character and then a text gives the character in front.
proof fn lemma_json_unescape_char(c: char, t: Seq<char>)
    ensures
        json_unescape(json_escape_char(c) + t) == prepend(c, json_unescape(t)),
{
    let x = json_escape_char(c) + t;
    reveal_strlit("\\\\");
    reveal_strlit("\\\"");
    reveal_strlit("\\n");
    reveal_strlit("\\r");
    reveal_strlit("\\t");
    if c == '\\' || c == '"' || c == '\n' || c == '\r' || c == '\t' {
        assert(json_escape_char(c).len() == 2);
        assert(x.skip(2) =~= t);
    } else if (c as u32) < 0x20 {
        let n = c as u32;
        lemma_hex_digit_value(n / 16);
        lemma_hex_digit_value(n % 16);
        assert(x.skip(6) =~= t);
        assert(16 * (n / 16) + n % 16 == n);
        assert(((16 * (n / 16) + n % 16) as u32) as char == c);
    } else {
        assert(x[0] == c);
        assert(x.skip(1) =~= t);
    }
}

/// Each hexadecimal digit reads back as its value.
proof fn lemma_hex_digit_value(k: u32)
    requires
        k < 16,
    ensures
        hex_value(hex_digit(k)) == Some(k),
{
}

/// Escaping makes a valid JSON string body that decodes to the text: every `"`, `\` and
/// character below U+0020 is escaped, so `json_text` of a diagnostic is one line of JSON whose
/// string values decode to the diagnostic's fields.
pub proof fn law_json_escape_round_trip(s: Seq<char>)
    ensures
        json_unescape(json_escape(s)) == Some(s),
        !json_escape(s).contains('\n'),
    decreases s.len(),
{
    if s.len() == 0 {
        assert(json_escape(s) =~= Seq::<char>::empty());
    } else {
        let rest = s.skip(1);
        law_json_escape_round_trip(rest);
        assert(s =~= seq![s[0]] + rest);
        lemma_json_escape_append(seq![s[0]], rest);
        assert(json_escape(seq![s[0]]) =~= json_escape_char(s[0])) by {
            assert(seq![s[0]].drop_last() =~= Seq::<char>::empty());
            assert(json_escape(Seq::<char>::empty()) =~= Seq::<char>::empty());
        }
        lemma_json_unescape_char(s[0], json_escape(rest));
        assert(seq![s[0]] + rest == s);
        lemma_escape_char_no_newline(s[0]);
        assert forall|i: int| 0 <= i < json_escape(s).len() implies json_escape(s)[i] != '\n' by {
            let e = json_escape_char(s[0]);
            if i < e.len() {
                assert(json_escape(s)[i] == e[i]);
            } else {
                assert(json_escape(s)[i] == json_escape(rest)[i - e.len()]);
            }
        }
    }
}

/// The escape of a character holds no line feed.
proof fn lemma_escape_char_no_newline(c: char)
    ensures
        forall|i: int| 0 <= i < json_escape_char(c).len() ==> json_escape_char(c)[i] != '\n',
{
    reveal_strlit("\\\\");
    reveal_strlit("\\\"");
    reveal_strlit("\\n");
    reveal_strlit("\\r");
    reveal_strlit("\\t");
    if (c as u32) < 0x20 && !(c == '\n' || c == '\r' || c == '\t') {
        let n = c as u32;
        assert(hex_digit(n / 16) != '\n');
        assert(hex_digit(n % 16) != '\n');
    }
}

/// JSON value of an optional string: quoted and escaped, or `null`.
pub open spec fn json_opt(o: Option<Seq<char>>) -> Seq<char> {
    match o {
        Some(f) => "\""@ + json_escape(f) + "\""@,
        None => "null"@,
    }
}

/// JSON object form of a diagnostic.
pub open spec fn json_text(d: DiagnosticV) -> Seq<char> {
    "{\"level\":\""@ + level_name(d.level) + "\",\"file\":"@ + json_opt(d.file) + ",\"line\":"@ + (
    match d.line {
        Some(l) => nat_decimal(l as nat),
        None => "null"@,
    }) + ",\"code\":\""@ + json_escape(d.code) + "\",\"message\":\""@ + json_escape(d.message)
        + "\",\"fragment\":"@ + json_opt(d.fragment) + "}"@
}

/// Appends the JSON escape of a string.
pub fn push_json_escaped(out: &mut String, s: &str)
    ensures
        final(out)@ == old(out)@ + json_escape(s@),
{
    let v = crate::text::chars_of(s);
    let mut i: usize = 0;
    while i < v.len()
        invariant
            i <= v.len(),
            v@ == s@,
            out@ == old(out)@ + json_escape(v@.take(i as int)),
        decreases v.len() - i,
    {
        assert(v@.take(i + 1).drop_last() =~= v@.take(i as int));
        let c = v[i];
        if c == '\\' {
            out.append("\\\\");
        } else if c == '"' {
            out.append("\\\"");
        } else if c == '\n' {
            out.append("\\n");
        } else if c == '\r' {
            out.append("\\r");
        } else if c == '\t' {
            out.append("\\t");
        } else if (c as u32) < 0x20 {
            let code = c as u32;
            proof {
                reveal_strlit("\\u00");
            }
            out.append("\\u00");
            push_char(out, hex_digit_of(code / 16));
            push_char(out, hex_digit_of(code % 16));
        } else {
            push_char(out, c);
        }
        assert(out@ =~= old(out)@ + json_escape(v@.take(i + 1)));
        i += 1;
    }
    assert(v@.take(v.len() as int) =~= v@);
}

/// Escape a string for JSON output.
pub fn escape_json(s: &str) -> (r: String)
    ensures
        r@ == json_escape(s@),
{
    let mut out = String::new();
    push_json_escaped(&mut out, s);
    assert(out@ =~= json_escape(s@));
    out
}

fn push_json_opt(out: &mut String, o: &Option<String>)
    ensures
        final(out)@ == old(out)@ + json_opt(opt_view(*o)),
{
    match o {
        Some(f) => {
            out.append("\"");
            push_json_escaped(out, f.as_str());
            out.append("\"");
        },
        None => out.append("null"),
    }
    assert(out@ =~= old(out)@ + json_opt(opt_view(*o)));
}

impl Diagnostic {
    /// Format as plain text for stderr output.
    pub fn to_plain_text(&self) -> (r: String)
        ensures
            r@ == plain_text(self@),
    {
        let mut out = String::new();
        let level_str = match self.level {
            DiagLevel::Info => "INFO ",
            DiagLevel::Warn => "WARN ",
            DiagLevel::Error => "ERROR",
            DiagLevel::Security => "WARN ",
        };
        out.append(level_str);
        match (&self.file, self.line) {
            (Some(f), Some(l)) => {
                out.append(" [");
                out.append(f.as_str());
                out.append(":");
                let n = usize_to_string(l);
                out.append(n.as_str());
                out.append("]");
            },
            (Some(f), None) => {
                out.append(" [");
                out.append(f.as_str());
                out.append("]");
            },
            _ => {},
        }
        out.append(" ");
        out.append(self.message.as_str());
        assert(out@ =~= plain_text(self@));
        out
    }

    /// Format as a JSON object for `--log-json` output.
    pub fn to_json(&self) -> (r: String)
        ensures
            r@ == json_text(self@),
    {
        let mut out = String::new();
        out.append("{\"level\":\"");
        out.append(self.level.as_str());
        out.append("\",\"file\":");
        push_json_opt(&mut out, &self.file);
        out.append(",\"line\":");
        match self.line {
            Some(l) => {
                let n = usize_to_string(l);
                out.append(n.as_str());
            },
            None => out.append("null"),
        }
        out.append(",\"code\":\"");
        push_json_escaped(&mut out, self.code.as_str());
        out.append("\",\"message\":\"");
        push_json_escaped(&mut out, self.message.as_str());
        out.append("\",\"fragment\":");
        push_json_opt(&mut out, &self.fragment);
        out.append("}");
        assert(out@ =~= json_text(self@));
        out
    }
}

/// Error type for m2sql operations.
#[derive(Debug)]
pub enum M2SqlError {
    /// I/O error reading or writing files (its message).
    Io(String),
    /// Parse error in M source.
    Parse {
        /// Source file name.
        file: String,
        /// Line number.
        line: usize,
        /// Error description.
        message: String,
    },
    /// Translation error.
    Translation {
        /// Source file name.
        file: String,
        /// Line number.
        line: usize,
        /// Error description.
        message: String,
        /// Original M fragment.
        fragment: Option<String>,
    },
    /// CLI argument error.
    Cli(String),
    /// File too large.
    FileTooLarge(String, u64),
    /// Path traversal detected.
    PathTraversal(String),
}

/// Message text of an error.
pub open spec fn error_message(e: M2SqlError) -> Seq<char> {
    match e {
        M2SqlError::Io(m) => "IO error: "@ + m@,
        M2SqlError::Parse { file, line, message } => "Parse error in "@ + file@ + ":"@ + nat_decimal(
            line as nat,
        ) + ": "@ + message@,
        M2SqlError::Translation { file, line, message, .. } => "Translation error in "@ + file@ + ":"@
            + nat_decimal(line as nat) + ": "@ + message@,
        M2SqlError::Cli(m) => "CLI error: "@ + m@,
        M2SqlError::FileTooLarge(f, n) => "File too large: "@ + f@ + " ("@ + nat_decimal(n as nat)
            + " bytes, max 10 MB)"@,
        M2SqlError::PathTraversal(p) => "Path traversal detected: "@ + p@,
    }
}

impl M2SqlError {
    /// The error's message.
    pub fn message(&self) -> (r: String)
        ensures
            r@ == error_message(*self),
    {
        let mut out = String::new();
        match self {
            M2SqlError::Io(m) => {
                out.append("IO error: ");
                out.append(m.as_str());
            },
            M2SqlError::Parse { file, line, message } => {
                out.append("Parse error in ");
                out.append(file.as_str());
                out.append(":");
                let n = usize_to_string(*line);
                out.append(n.as_str());
                out.append(": ");
                out.append(message.as_str());
            },
            M2SqlError::Translation { file, line, message, .. } => {
                out.append("Translation error in ");
                out.append(file.as_str());
                out.append(":");
                let n = usize_to_string(*line);
                out.append(n.as_str());
                out.append(": ");
                out.append(message.as_str());
            },
            M2SqlError::Cli(m) => {
                out.append("CLI error: ");
                out.append(m.as_str());
            },
            M2SqlError::FileTooLarge(f, n) => {
                out.append("File too large: ");
                out.append(f.as_str());
                out.append(" (");
                let t = u64_to_string(*n);
                out.append(t.as_str());
                out.append(" bytes, max 10 MB)");
            },
            M2SqlError::PathTraversal(p) => {
                out.append("Path traversal detected: ");
                out.append(p.as_str());
            },
        }
        assert(out@ =~= error_message(*self));
        out
    }
}

// ---------------------------------------------------------------------------
// Regular expressions (the `regex` crate)
// ---------------------------------------------------------------------------

#[verifier::external_type_specification]
#[verifier::external_body]
pub struct ExRegex(regex::Regex);

/// What `Regex::new` gives for a pattern: the compiled regex, or `None` when the
/// pattern is rejected.
pub uninterp spec fn compiled_regex(pattern: Seq<char>) -> Option<Regex>;

/// Whether a compiled regex matches somewhere in a text (`Regex::is_match`).
pub uninterp spec fn regex_matches(re: Regex, haystack: Seq<char>) -> bool;

/// The text with every non-overlapping match replaced by the expansion of the
/// replacement template (`Regex::replace_all`).
pub uninterp spec fn regex_replacement(re: Regex, haystack: Seq<char>, rep: Seq<char>) -> Seq<char>;

/// Compiles a pattern.
///
/// Trusted: calls `regex::Regex::new`; its result depends on the pattern alone,
/// and is named `compiled_regex` (the error value is dropped).
#[verifier::external_body]
fn compile_regex(pattern: &str) -> (r: Option<Regex>)
    ensures
        r == compiled_regex(pattern@),
{
    Regex::new(pattern).ok()
}

/// Tests for a match.
///
/// Trusted: calls `regex::Regex::is_match`, which returns true if and only if the
/// regex matches somewhere in the haystack; named `regex_matches`.
#[verifier::external_body]
fn regex_is_match(re: &Regex, haystack: &str) -> (r: bool)
    ensures
        r == regex_matches(*re, haystack@),
{
    re.is_match(haystack)
}

/// Replaces every match.
///
/// Trusted: calls `regex::Regex::replace_all` with a `&str` replacement template
/// (where `${1}` stands for the first capture group); its result depends on the
/// arguments alone, and is named `regex_replacement`. The documentation promises
/// that without a match the haystack comes back unchanged.
#[verifier::external_body]
fn regex_replace_all(re: &Regex, haystack: &str, rep: &str) -> (r: String)
    ensures
        r@ == regex_replacement(*re, haystack@, rep@),
        !regex_matches(*re, haystack@) ==> r@ == haystack@,
{
    re.replace_all(haystack, rep).into_owned()
}

/// The credential patterns, in the order they are applied: key name, regex, replacement.
pub open spec fn credential_key(i: int) -> Seq<char> {
    if i == 0 { "password"@ }
    else if i == 1 { "accountkey"@ }
    else if i == 2 { "accesskey"@ }
    else if i == 3 { "secretkey"@ }
    else if i == 4 { "credentials"@ }
    else if i == 5 { "pwd"@ }
    else { "password"@ }
}

/// Regex of the `i`-th credential pattern.
pub open spec fn credential_pattern(i: int) -> Seq<char> {
    if i == 0 { "(?i)(Password\\s*=\\s*)\"[^\"]*\""@ }
    else if i == 1 { "(?i)(AccountKey\\s*=\\s*)\"[^\"]*\""@ }
    else if i == 2 { "(?i)(AccessKey\\s*=\\s*)\"[^\"]*\""@ }
    else if i == 3 { "(?i)(SecretKey\\s*=\\s*)\"[^\"]*\""@ }
    else if i == 4 { "(?i)(Credentials\\s*=\\s*)\\[[^\\]]*\\]"@ }
    else if i == 5 { "(?i)(pwd\\s*=\\s*)[^;]*;"@ }
    else { "(?i)(password\\s*=\\s*)[^\"/;\\s][^\";]*;"@ }
}

/// Replacement template of the `i`-th credential pattern.
pub open spec fn credential_replacement(i: int) -> Seq<char> {
    if i == 5 || i == 6 { "${1}***;"@ } else { "${1}/* REDACTED */"@ }
}

/// Number of credential patterns.
pub open spec fn num_credential_patterns() -> nat {
    7
}

/// Whether the `i`-th pattern fires on a text.
pub open spec fn pattern_fires(i: int, text: Seq<char>) -> bool {
    match compiled_regex(credential_pattern(i)) {
        Some(re) => regex_matches(re, text),
        None => false,
    }
}

/// The text after applying the first `k` credential patterns.
pub open spec fn redacted_after(input: Seq<char>, k: nat) -> Seq<char>
    decreases k,
{
    if k == 0 {
        input
    } else {
        let prev = redacted_after(input, (k - 1) as nat);
        match compiled_regex(credential_pattern(k - 1)) {
            Some(re) => if regex_matches(re, prev) {
                regex_replacement(re, prev, credential_replacement(k - 1))
            } else {
                prev
            },
            None => prev,
        }
    }
}

/// The security diagnostic for a redacted key.
pub open spec fn redaction_diag(key: Seq<char>, file: Option<Seq<char>>) -> DiagnosticV {
    DiagnosticV {
        level: DiagLevel::Security,
        file: file,
        line: None,
        code: "CREDENTIAL_REDACTED"@,
        message: "key '"@ + key + "' redacted"@,
        fragment: None,
    }
}

/// The diagnostics of the first `k` credential patterns.
pub open spec fn redaction_diags(input: Seq<char>, file: Option<Seq<char>>, k: nat) -> Seq<DiagnosticV>
    decreases k,
{
    if k == 0 {
        Seq::empty()
    } else {
        let prev = redacted_after(input, (k - 1) as nat);
        let before = redaction_diags(input, file, (k - 1) as nat);
        if pattern_fires(k - 1, prev) {
            before.push(redaction_diag(credential_key(k - 1), file))
        } else {
            before
        }
    }
}

/// The comment line inserted above a redacted line.
pub open spec fn security_comment() -> Seq<char> {
    "/* SECURITY: credential redacted by m2sql */"@
}

/// Whether a line carries a redaction.
pub open spec fn is_redacted_line(l: Seq<char>) -> bool {
    contains_seq(l, "/* REDACTED */"@) || contains_seq(l, "***"@)
}

/// The lines of a text, each redacted line preceded by the security comment.
pub open spec fn commented_lines(ls: Seq<Seq<char>>) -> Seq<Seq<char>>
    decreases ls.len(),
{
    if ls.len() == 0 {
        Seq::empty()
    } else {
        commented_lines(ls.drop_last()) + (if is_redacted_line(ls.last()) {
            seq![security_comment(), ls.last()]
        } else {
            seq![ls.last()]
        })
    }
}

/// Credential patterns for redaction.
pub struct CredentialRedactor;

impl CredentialRedactor {
    fn key_name(i: usize) -> (r: &'static str)
        requires
            i < 7,
        ensures
            r@ == credential_key(i as int),
    {
        if i == 0 { "password" }
        else if i == 1 { "accountkey" }
        else if i == 2 { "accesskey" }
        else if i == 3 { "secretkey" }
        else if i == 4 { "credentials" }
        else if i == 5 { "pwd" }
        else { "password" }
    }

    fn pattern(i: usize) -> (r: &'static str)
        requires
            i < 7,
        ensures
            r@ == credential_pattern(i as int),
    {
        if i == 0 { "(?i)(Password\\s*=\\s*)\"[^\"]*\"" }
        else if i == 1 { "(?i)(AccountKey\\s*=\\s*)\"[^\"]*\"" }
        else if i == 2 { "(?i)(AccessKey\\s*=\\s*)\"[^\"]*\"" }
        else if i == 3 { "(?i)(SecretKey\\s*=\\s*)\"[^\"]*\"" }
        else if i == 4 { "(?i)(Credentials\\s*=\\s*)\\[[^\\]]*\\]" }
        else if i == 5 { "(?i)(pwd\\s*=\\s*)[^;]*;" }
        else { "(?i)(password\\s*=\\s*)[^\"/;\\s][^\";]*;" }
    }

    fn replacement(i: usize) -> (r: &'static str)
        requires
            i < 7,
        ensures
            r@ == credential_replacement(i as int),
    {
        if i == 5 || i == 6 { "${1}***;" } else { "${1}/* REDACTED */" }
    }

    /// Redact credentials from SQL output, returning the redacted string and any diagnostics.
    pub fn redact(input: &str, file: Option<&str>) -> (r: (String, Vec<Diagnostic>))
        ensures
            r.0@ == redacted_after(input@, num_credential_patterns()),
            diags_view(r.1@) == redaction_diags(
                input@,
                match file {
                    Some(f) => Some(f@),
                    None => None,
                },
                num_credential_patterns(),
            ),
    {
        let ghost fv = match file {
            Some(f) => Some(f@),
            None => None,
        };
        let mut result = owned(input);
        let mut diagnostics: Vec<Diagnostic> = Vec::new();
        let mut i: usize = 0;
        while i < 7
            invariant
                i <= 7,
                fv == match file {
                    Some(f) => Some(f@),
                    None => None::<Seq<char>>,
                },
                result@ == redacted_after(input@, i as nat),
                diags_view(diagnostics@) == redaction_diags(input@, fv, i as nat),
            decreases 7 - i,
        {
            let pattern = Self::pattern(i);
            match compile_regex(pattern) {
                Some(re) => {
                    if regex_is_match(&re, result.as_str()) {
                        let mut message = String::new();
                        message.append("key '");
                        message.append(Self::key_name(i));
                        message.append("' redacted");
                        let diag = Diagnostic {
                            level: DiagLevel::Security,
                            file: match file {
                                Some(f) => Some(owned(f)),
                                None => None,
                            },
                            line: None,
                            code: owned("CREDENTIAL_REDACTED"),
                            message,
                            fragment: None,
                        };
                        let ghost old_d = diagnostics@;
                        diagnostics.push(diag);
                        assert(diags_view(diagnostics@) =~= diags_view(old_d).push(diag@));
                        assert(diag@ == redaction_diag(credential_key(i as int), fv));
                        result = regex_replace_all(&re, result.as_str(), Self::replacement(i));
                    }
                },
                None => {},
            }
            i += 1;
        }
        (result, diagnostics)
    }

    /// Insert security comments before redacted lines.
    pub fn insert_security_comments(sql: &str) -> (r: String)
        ensures
            r@ == join_seqs(commented_lines(lines_of(sql@)), "\n"@),
    {
        let lines = split_lines(sql);
        let ghost ls = lines_of(sql@);
        let mut out: Vec<String> = Vec::new();
        let mut i: usize = 0;
        while i < lines.len()
            invariant
                i <= lines.len(),
                strings_view(lines@) == ls,
                strings_view(out@) == commented_lines(ls.take(i as int)),
            decreases lines.len() - i,
        {
            assert(ls.take(i + 1).drop_last() =~= ls.take(i as int));
            assert(strings_view(lines@)[i as int] == lines@[i as int]@);
            let line = &lines[i];
            let ghost old_out = out@;
            if str_contains(line.as_str(), "/* REDACTED */") || str_contains(line.as_str(), "***") {
                out.push(owned("/* SECURITY: credential redacted by m2sql */"));
            }
            out.push(line.clone());
            assert(strings_view(out@) =~= commented_lines(ls.take(i + 1)));
            i += 1;
        }
        assert(ls.take(lines.len() as int) =~= ls);
        crate::text::join_strings(&out, "\n")
    }
}

} // verus!
