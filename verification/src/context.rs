//! Translation context: dialect, error mode, and accumulated diagnostics.
use vstd::prelude::*;
use indexmap::IndexMap;
use crate::dialect::DialectId;
use crate::error::{DiagLevel, Diagnostic, DiagnosticV, diags_view};
use crate::maps::{entry_keys, find_key, put};
use crate::resolver::{DetectedParameter, param_entries};
use crate::sql::{JoinType, opt_view};
use crate::text::{owned, strings_view, push_char, copy_string};

verus! {

/// Error handling mode.
#[derive(Debug, Clone, Copy, PartialEq, Eq, Structural)]
pub enum OnError {
    /// Report errors and exit with code 1 after processing all files.
    Fail,
    /// Replace untranslatable expressions with SQL comments.
    Comment,
    /// Same as Comment, plus print warnings to stderr.
    Warn,
}

/// Information about a nested join for ExpandTableColumn resolution.
#[derive(Debug, Clone)]
pub struct NestedJoinInfo {
    /// Left table reference name.
    pub left_table: String,
    /// Right table reference name.
    pub right_table: String,
    /// The new column name from NestedJoin.
    pub new_col: String,
    /// Left key columns.
    pub left_keys: Vec<String>,
    /// Right key columns.
    pub right_keys: Vec<String>,
    /// Join type.
    pub join_type: JoinType,
    /// Name of the binding that holds the NestedJoin result.
    pub join_binding: String,
}

/// Model of [`NestedJoinInfo`].
pub struct NestedJoinInfoV {
    pub left_table: Seq<char>,
    pub right_table: Seq<char>,
    pub new_col: Seq<char>,
    pub left_keys: Seq<Seq<char>>,
    pub right_keys: Seq<Seq<char>>,
    pub join_type: JoinType,
    pub join_binding: Seq<char>,
}

impl View for NestedJoinInfo {
    type V = NestedJoinInfoV;

    open spec fn view(&self) -> NestedJoinInfoV {
        NestedJoinInfoV {
            left_table: self.left_table@,
            right_table: self.right_table@,
            new_col: self.new_col@,
            left_keys: strings_view(self.left_keys@),
            right_keys: strings_view(self.right_keys@),
            join_type: self.join_type,
            join_binding: self.join_binding@,
        }
    }
}

/// A copy of a list of strings.
pub fn copy_strings(v: &Vec<String>) -> (r: Vec<String>)
    ensures
        strings_view(r@) == strings_view(v@),
{
    let mut r: Vec<String> = Vec::new();
    let mut i: usize = 0;
    while i < v.len()
        invariant
            i <= v.len(),
            strings_view(r@) == strings_view(v@).take(i as int),
        decreases v.len() - i,
    {
        let ghost before = strings_view(r@);
        r.push(copy_string(&v[i]));
        assert(strings_view(r@) =~= before.push(v@[i as int]@));
        assert(strings_view(r@) =~= strings_view(v@).take(i + 1));
        i += 1;
    }
    assert(strings_view(v@).take(v.len() as int) =~= strings_view(v@));
    r
}

// ---------------------------------------------------------------------------
// Known column lists (an insertion-ordered map)
// ---------------------------------------------------------------------------

/// The entries of a column-list map, in order.
pub uninterp spec fn column_entries(m: IndexMap<String, Vec<String>>) -> Seq<(Seq<char>, Seq<Seq<char>>)>;

/// An empty column-list map.
///
/// Trusted: calls `IndexMap::new`, which creates an empty map.
#[verifier::external_body]
pub(crate) fn columns_new() -> (m: IndexMap<String, Vec<String>>)
    ensures
        column_entries(m) == Seq::<(Seq<char>, Seq<Seq<char>>)>::empty(),
{
    IndexMap::new()
}

/// The column list stored under a key, if any.
///
/// Trusted: calls `IndexMap::get` and clones the list it finds.
#[verifier::external_body]
pub(crate) fn columns_get(m: &IndexMap<String, Vec<String>>, k: &str) -> (r: Option<Vec<String>>)
    ensures
        match r {
            Some(v) => find_key(column_entries(*m), k@) == Some(strings_view(v@)),
            None => find_key(column_entries(*m), k@) is None,
        },
{
    m.get(k).cloned()
}

/// Whether a key is present.
///
/// Trusted: calls `IndexMap::contains_key`.
#[verifier::external_body]
pub(crate) fn columns_contains(m: &IndexMap<String, Vec<String>>, k: &str) -> (r: bool)
    ensures
        r == (find_key(column_entries(*m), k@) is Some),
{
    m.contains_key(k)
}

/// Stores a column list under a key.
///
/// Trusted: calls `IndexMap::insert`, which replaces the value of a present key in its
/// place and puts a new key last.
#[verifier::external_body]
pub(crate) fn columns_insert(m: &mut IndexMap<String, Vec<String>>, k: String, v: Vec<String>)
    ensures
        column_entries(*final(m)) == put(column_entries(*old(m)), k@, strings_view(v@)),
{
    m.insert(k, v);
}

/// Appends a column to the list stored under a key, starting an empty list first when
/// the key is absent.
///
/// Trusted: calls `IndexMap::entry`, `Entry::or_insert_with(Vec::new)` and `Vec::push`.
#[verifier::external_body]
pub(crate) fn columns_push_to(m: &mut IndexMap<String, Vec<String>>, k: String, col: String)
    ensures
        column_entries(*final(m)) == put(
            column_entries(*old(m)),
            k@,
            (match find_key(column_entries(*old(m)), k@) {
                Some(cols) => cols,
                None => Seq::<Seq<char>>::empty(),
            }).push(col@),
        ),
{
    m.entry(k).or_insert_with(Vec::new).push(col);
}

// ---------------------------------------------------------------------------
// The context
// ---------------------------------------------------------------------------

/// Translation context.
pub struct TranslationContext {
    /// The target SQL dialect.
    pub dialect: DialectId,
    /// Error handling mode.
    pub on_error: OnError,
    /// Whether to inline single-use CTEs.
    pub inline_singles: bool,
    /// Source file name.
    pub file_name: String,
    /// Accumulated diagnostics.
    pub diagnostics: Vec<Diagnostic>,
    /// Whether any translation errors occurred.
    pub has_errors: bool,
    /// Known columns for the current scope (table name -> column list).
    pub known_columns: IndexMap<String, Vec<String>>,
    /// Nested join info, by the new column's name.
    pub nested_joins: IndexMap<String, NestedJoinInfo>,
    /// Power Query parameters detected in the current file.
    pub detected_params: IndexMap<String, DetectedParameter>,
    /// Stems of the input files of the run.
    pub input_file_stems: Vec<String>,
    /// Names bound by the `let` being translated, for `Table.Combine` validation.
    pub combine_bindings: Vec<String>,
}

// ---------------------------------------------------------------------------
// Nested joins (an insertion-ordered map)
// ---------------------------------------------------------------------------

/// The entries of a nested-join map, in order.
pub uninterp spec fn join_entries(m: IndexMap<String, NestedJoinInfo>) -> Seq<(Seq<char>, NestedJoinInfoV)>;

/// An empty nested-join map.
///
/// Trusted: calls `IndexMap::new`, which creates an empty map.
#[verifier::external_body]
pub(crate) fn joins_new() -> (m: IndexMap<String, NestedJoinInfo>)
    ensures
        join_entries(m) == Seq::<(Seq<char>, NestedJoinInfoV)>::empty(),
{
    IndexMap::new()
}

/// The nested join stored under a name, if any.
///
/// Trusted: calls `IndexMap::get` and clones what it finds (the derived `Clone` copies each
/// field).
#[verifier::external_body]
pub(crate) fn joins_get(m: &IndexMap<String, NestedJoinInfo>, k: &str) -> (r: Option<NestedJoinInfo>)
    ensures
        match r {
            Some(v) => find_key(join_entries(*m), k@) == Some(v@),
            None => find_key(join_entries(*m), k@) is None,
        },
{
    m.get(k).cloned()
}

/// Stores a nested join under a name.
///
/// Trusted: calls `IndexMap::insert`, which replaces the value of a present key in its
/// place and puts a new key last.
#[verifier::external_body]
pub(crate) fn joins_insert(m: &mut IndexMap<String, NestedJoinInfo>, k: String, v: NestedJoinInfo)
    ensures
        join_entries(*final(m)) == put(join_entries(*old(m)), k@, v@),
{
    m.insert(k, v);
}

/// The diagnostics and error flag of a translation, as they accumulate.
pub struct LogV {
    pub diags: Seq<DiagnosticV>,
    pub has_errors: bool,
}

/// What a translation reads and does not change.
pub struct EnvV {
    pub dialect: DialectId,
    pub on_error: OnError,
    pub inline_singles: bool,
    pub file: Seq<char>,
    pub params: Set<Seq<char>>,
    pub stems: Seq<Seq<char>>,
}

impl TranslationContext {
    /// What the context gives a translation to read.
    pub open spec fn env(&self) -> EnvV {
        EnvV {
            dialect: self.dialect,
            on_error: self.on_error,
            inline_singles: self.inline_singles,
            file: self.file_name@,
            params: entry_keys(param_entries(self.detected_params)),
            stems: strings_view(self.input_file_stems@),
        }
    }

    /// The diagnostics so far.
    pub open spec fn log(&self) -> LogV {
        LogV { diags: diags_view(self.diagnostics@), has_errors: self.has_errors }
    }

    /// The known column lists.
    pub open spec fn known(&self) -> Seq<(Seq<char>, Seq<Seq<char>>)> {
        column_entries(self.known_columns)
    }

    /// The nested joins.
    pub open spec fn joins(&self) -> Seq<(Seq<char>, NestedJoinInfoV)> {
        join_entries(self.nested_joins)
    }

    /// The names bound by the `let` being translated.
    pub open spec fn combine(&self) -> Seq<Seq<char>> {
        strings_view(self.combine_bindings@)
    }

    /// Whether two contexts agree on everything but the diagnostics.
    pub open spec fn same_tables(&self, other: &Self) -> bool {
        &&& self.env() == other.env()
        &&& self.known() == other.known()
        &&& self.joins() == other.joins()
        &&& self.combine() == other.combine()
    }

    /// Create a new translation context.
    pub fn new(dialect: DialectId, on_error: OnError, file_name: &str, inline_singles: bool) -> (c: Self)
        ensures
            c.env() == (EnvV {
                dialect,
                on_error,
                inline_singles,
                file: file_name@,
                params: Set::empty(),
                stems: Seq::empty(),
            }),
            c.log() == (LogV { diags: Seq::empty(), has_errors: false }),
            c.known() == Seq::<(Seq<char>, Seq<Seq<char>>)>::empty(),
            c.joins() == Seq::<(Seq<char>, NestedJoinInfoV)>::empty(),
            c.combine() == Seq::<Seq<char>>::empty(),
    {
        let c = TranslationContext {
            dialect,
            on_error,
            inline_singles,
            file_name: owned(file_name),
            diagnostics: Vec::new(),
            has_errors: false,
            known_columns: columns_new(),
            nested_joins: joins_new(),
            detected_params: crate::resolver::params_new(),
            input_file_stems: Vec::new(),
            combine_bindings: Vec::new(),
        };
        assert(c.env().params =~= Set::<Seq<char>>::empty());
        assert(c.env().stems =~= Seq::<Seq<char>>::empty());
        assert(c.log().diags =~= Seq::<DiagnosticV>::empty());
        assert(c.joins() =~= Seq::<(Seq<char>, NestedJoinInfoV)>::empty());
        assert(c.combine() =~= Seq::<Seq<char>>::empty());
        c
    }

    /// Record a warning diagnostic.
    pub fn warn(&mut self, line: usize, code: &str, message: &str, fragment: Option<&str>)
        ensures
            final(self).same_tables(old(self)),
            final(self).log() == log_warn(old(self).log(), old(self).env(), line, code@, message@, opt_str(fragment)),
    {
        let d = Diagnostic {
            level: DiagLevel::Warn,
            file: Some(copy_string(&self.file_name)),
            line: Some(line),
            code: owned(code),
            message: owned(message),
            fragment: match fragment {
                Some(s) => Some(truncate(s, 120)),
                None => None,
            },
        };
        let ghost before = diags_view(self.diagnostics@);
        self.diagnostics.push(d);
        assert(diags_view(self.diagnostics@) =~= before.push(d@));
    }

    /// Record an error diagnostic.
    pub fn error(&mut self, line: usize, code: &str, message: &str, fragment: Option<&str>)
        ensures
            final(self).same_tables(old(self)),
            final(self).log() == log_error(old(self).log(), old(self).env(), line, code@, message@, opt_str(fragment)),
    {
        self.has_errors = true;
        let d = Diagnostic {
            level: DiagLevel::Error,
            file: Some(copy_string(&self.file_name)),
            line: Some(line),
            code: owned(code),
            message: owned(message),
            fragment: match fragment {
                Some(s) => Some(truncate(s, 120)),
                None => None,
            },
        };
        let ghost before = diags_view(self.diagnostics@);
        self.diagnostics.push(d);
        assert(diags_view(self.diagnostics@) =~= before.push(d@));
    }

    /// Generate a placeholder for untranslatable expressions based on error mode.
    pub fn untranslatable(&mut self, line: usize, m_fragment: &str, reason: &str) -> (r: String)
        ensures
            final(self).same_tables(old(self)),
            (r@, final(self).log()) == untranslatable_log(old(self).log(), old(self).env(), line, m_fragment@, reason@),
    {
        let truncated = truncate(m_fragment, 120);
        let mut placeholder = owned("/* UNTRANSLATABLE: ");
        placeholder.append(truncated.as_str());
        placeholder.append(" */");
        match self.on_error {
            OnError::Fail => {
                self.error(line, "UNTRANSLATABLE", reason, Some(truncated.as_str()));
            },
            OnError::Comment => {},
            OnError::Warn => {
                self.warn(line, "UNTRANSLATABLE", reason, Some(truncated.as_str()));
            },
        }
        placeholder
    }
}

/// The model of an optional text.
pub open spec fn opt_str(s: Option<&str>) -> Option<Seq<char>> {
    match s {
        Some(t) => Some(t@),
        None => None,
    }
}

/// A text cut to at most `max` characters: longer texts keep their first `max - 3`
/// characters and end with `...`.
pub open spec fn truncated(s: Seq<char>, max: nat) -> Seq<char> {
    if s.len() <= max {
        s
    } else {
        s.take(max - 3) + "..."@
    }
}

/// A diagnostic of the current file.
pub open spec fn diag(env: EnvV, level: DiagLevel, line: usize, code: Seq<char>, message: Seq<char>, fragment: Option<Seq<char>>) -> DiagnosticV {
    DiagnosticV {
        level,
        file: Some(env.file),
        line: Some(line),
        code,
        message,
        fragment: match fragment {
            Some(f) => Some(truncated(f, 120)),
            None => None,
        },
    }
}

/// The log after a warning.
pub open spec fn log_warn(log: LogV, env: EnvV, line: usize, code: Seq<char>, message: Seq<char>, fragment: Option<Seq<char>>) -> LogV {
    LogV { diags: log.diags.push(diag(env, DiagLevel::Warn, line, code, message, fragment)), has_errors: log.has_errors }
}

/// The log after an error.
pub open spec fn log_error(log: LogV, env: EnvV, line: usize, code: Seq<char>, message: Seq<char>, fragment: Option<Seq<char>>) -> LogV {
    LogV { diags: log.diags.push(diag(env, DiagLevel::Error, line, code, message, fragment)), has_errors: true }
}

/// The placeholder for an untranslatable fragment, and the log after reporting it as the
/// error mode asks: an error (`fail`), nothing (`comment`), or a warning (`warn`).
pub open spec fn untranslatable_log(log: LogV, env: EnvV, line: usize, fragment: Seq<char>, reason: Seq<char>) -> (Seq<char>, LogV) {
    let t = truncated(fragment, 120);
    let placeholder = "/* UNTRANSLATABLE: "@ + t + " */"@;
    (placeholder, match env.on_error {
        OnError::Fail => log_error(log, env, line, "UNTRANSLATABLE"@, reason, Some(t)),
        OnError::Comment => log,
        OnError::Warn => log_warn(log, env, line, "UNTRANSLATABLE"@, reason, Some(t)),
    })
}


/// Truncate a string to at most `max_len` characters: a longer string keeps its first
/// `max_len - 3` characters, followed by `...`.
fn truncate(s: &str, max_len: usize) -> (r: String)
    requires
        3 <= max_len,
    ensures
        r@ == truncated(s@, max_len as nat),
        r@.len() <= max_len || r@ == s@,
{
    let cs = crate::text::chars_of(s);
    if cs.len() <= max_len {
        return owned(s);
    }
    let mut out = crate::text::string_of_range(&cs, 0, max_len - 3);
    proof {
        reveal_strlit("...");
    }
    out.append("...");
    assert(cs@.subrange(0, max_len - 3) =~= cs@.take(max_len - 3));
    out
}

} // verus!
