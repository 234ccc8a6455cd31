//! The on-disk text format of the configuration document: a TOML-style
//! layout of `key = value` lines, comment lines, and one `[providers.NAME]`
//! section per provider entry.  Rendering and parsing are inverse on
//! well-formed documents.

use vstd::prelude::*;

use crate::configs::config_file::{
    table_contains, table_lookup, table_unique_keys, table_view, ConfigFile, DocView,
};
use crate::configs::types::{str_eq, ProviderConfig, ProviderConfigView};
use crate::persona::{spec_persona_name, spec_persona_of_name, Persona};
use crate::provider::{spec_provider_name, spec_provider_of_name, Provider};

verus! {

// ---------------------------------------------------------------------------
// String values: quoting and escaping
// ---------------------------------------------------------------------------
/// Characters that are written as a two-character escape inside a quoted
/// value: the quote and backslash because they delimit, and the line breaks
/// and tab so a value stays on its line, unambiguous character by character.
pub open spec fn spec_needs_escape(c: char) -> bool {
    c == '"' || c == '\\' || c == '\n' || c == '\r' || c == '\t'
}

/// The escape code a character is written as after a backslash.
pub open spec fn spec_escape_code(c: char) -> char {
    if c == '\n' {
        'n'
    } else if c == '\r' {
        'r'
    } else if c == '\t' {
        't'
    } else {
        c
    }
}

/// The character an escape code stands for.
pub open spec fn spec_unescape_code(c: char) -> char {
    if c == 'n' {
        '\n'
    } else if c == 'r' {
        '\r'
    } else if c == 't' {
        '\t'
    } else {
        c
    }
}

/// Whether `c` is a valid escape code.
pub open spec fn spec_is_escape_code(c: char) -> bool {
    c == '"' || c == '\\' || c == 'n' || c == 'r' || c == 't'
}

/// What one character contributes to an escaped value.
pub open spec fn spec_escape_char(c: char) -> Seq<char> {
    if spec_needs_escape(c) {
        seq!['\\', spec_escape_code(c)]
    } else {
        seq![c]
    }
}

/// A value as written between quotes.
pub open spec fn spec_escape(s: Seq<char>) -> Seq<char>
    decreases s.len(),
{
    if s.len() == 0 {
        Seq::empty()
    } else {
        spec_escape_char(s[0]) + spec_escape(s.drop_first())
    }
}

/// A value as written in a document line: quoted and escaped.
pub open spec fn spec_quote(s: Seq<char>) -> Seq<char> {
    seq!['"'] + spec_escape(s) + seq!['"']
}

/// The value the rest of a line holds after its opening quote: unescaped up
/// to a closing quote, which must end the line.
pub open spec fn spec_unescape_rest(v: Seq<char>) -> Option<Seq<char>>
    decreases v.len(),
{
    if v.len() == 0 {
        None
    } else if v[0] == '"' {
        if v.len() == 1 {
            Some(Seq::empty())
        } else {
            None
        }
    } else if v[0] == '\\' {
        if v.len() >= 2 && spec_is_escape_code(v[1]) {
            match spec_unescape_rest(v.skip(2)) {
                Some(r) => Some(seq![spec_unescape_code(v[1])] + r),
                None => None,
            }
        } else {
            None
        }
    } else {
        match spec_unescape_rest(v.drop_first()) {
            Some(r) => Some(seq![v[0]] + r),
            None => None,
        }
    }
}

/// The value a whole token holds: an opening quote, then the escaped value
/// and the closing quote.
pub open spec fn spec_parse_string_token(v: Seq<char>) -> Option<Seq<char>> {
    if v.len() >= 1 && v[0] == '"' {
        spec_unescape_rest(v.skip(1))
    } else {
        None
    }
}

/// An escaped value never holds a raw line break, so a quoted value stays
/// within its line.
pub proof fn lemma_escape_line_free(s: Seq<char>)
    ensures
        forall|i: int| 0 <= i < spec_escape(s).len() ==> spec_escape(s)[i] != '\n',
    decreases s.len(),
{
    if s.len() > 0 {
        lemma_escape_line_free(s.drop_first());
        assert forall|i: int| 0 <= i < spec_escape(s).len() implies spec_escape(s)[i] != '\n' by {
            let head = spec_escape_char(s[0]);
            if i < head.len() {
                assert(spec_escape(s)[i] == head[i]);
            } else {
                assert(spec_escape(s)[i] == spec_escape(s.drop_first())[i - head.len()]);
            }
        }
    }
}

/// Unescaping inverts escaping: the escaped value followed by the closing
/// quote reads back as the value.
pub proof fn lemma_unescape_escape(s: Seq<char>)
    ensures
        spec_unescape_rest(spec_escape(s) + seq!['"']) == Some(s),
    decreases s.len(),
{
    let v = spec_escape(s) + seq!['"'];
    if s.len() == 0 {
        assert(v =~= seq!['"']);
    } else {
        lemma_unescape_escape(s.drop_first());
        let tail = spec_escape(s.drop_first()) + seq!['"'];
        let c = s[0];
        if spec_needs_escape(c) {
            assert(v[0] == '\\');
            assert(v[1] == spec_escape_code(c));
            assert(spec_is_escape_code(spec_escape_code(c)));
            assert(spec_unescape_code(spec_escape_code(c)) == c);
            assert(v.skip(2) =~= tail);
            assert(seq![c] + s.drop_first() =~= s);
        } else {
            assert(v[0] == c);
            assert(c != '"' && c != '\\');
            assert(v.len() > 1);
            assert(v.drop_first() =~= tail);
            assert(seq![c] + s.drop_first() =~= s);
        }
    }
}

// ---------------------------------------------------------------------------
// Lines
// ---------------------------------------------------------------------------
/// The index of the first line break, or the length when there is none.
pub open spec fn spec_first_newline(s: Seq<char>) -> int
    decreases s.len(),
{
    if s.len() == 0 {
        0
    } else if s[0] == '\n' {
        0
    } else {
        1 + spec_first_newline(s.drop_first())
    }
}

pub proof fn lemma_first_newline_bounds(s: Seq<char>)
    ensures
        0 <= spec_first_newline(s) <= s.len(),
        spec_first_newline(s) < s.len() ==> s[spec_first_newline(s)] == '\n',
        forall|j: int| 0 <= j < spec_first_newline(s) ==> s[j] != '\n',
    decreases s.len(),
{
    if s.len() > 0 && s[0] != '\n' {
        lemma_first_newline_bounds(s.drop_first());
        assert forall|j: int| 0 <= j < spec_first_newline(s) implies s[j] != '\n' by {
            if j > 0 {
                assert(s.drop_first()[j - 1] != '\n');
            }
        }
    }
}

/// The text split at line breaks.  A final line without a trailing break is
/// still a line; a trailing break adds no empty line.
pub open spec fn spec_split_lines(s: Seq<char>) -> Seq<Seq<char>>
    decreases s.len(),
    via spec_split_lines_decreases
{
    if s.len() == 0 {
        Seq::empty()
    } else {
        let i = spec_first_newline(s);
        if i == s.len() {
            seq![s]
        } else {
            seq![s.take(i)] + spec_split_lines(s.skip(i + 1))
        }
    }
}

#[via_fn]
proof fn spec_split_lines_decreases(s: Seq<char>) {
    lemma_first_newline_bounds(s);
}

/// Lines joined back into a text, each line followed by one line break.
pub open spec fn spec_unlines(ls: Seq<Seq<char>>) -> Seq<char>
    decreases ls.len(),
{
    if ls.len() == 0 {
        Seq::empty()
    } else {
        ls[0] + seq!['\n'] + spec_unlines(ls.drop_first())
    }
}

/// A line holds no line break.
pub open spec fn spec_line_free(l: Seq<char>) -> bool {
    forall|i: int| 0 <= i < l.len() ==> l[i] != '\n'
}

/// Joining line-break-free lines concatenates them.
pub proof fn lemma_unlines_app(a: Seq<Seq<char>>, b: Seq<Seq<char>>)
    ensures
        spec_unlines(a + b) == spec_unlines(a) + spec_unlines(b),
    decreases a.len(),
{
    if a.len() == 0 {
        assert(a + b =~= b);
        assert(spec_unlines(a) + spec_unlines(b) =~= spec_unlines(b));
    } else {
        lemma_unlines_app(a.drop_first(), b);
        assert((a + b).drop_first() =~= a.drop_first() + b);
        assert((a + b)[0] == a[0]);
        assert(a[0] + seq!['\n'] + (spec_unlines(a.drop_first()) + spec_unlines(b)) =~= (a[0]
            + seq!['\n'] + spec_unlines(a.drop_first())) + spec_unlines(b));
    }
}

/// The first line break of a joined text comes at the end of its first line.
proof fn lemma_first_newline_of_joined(l: Seq<char>, rest: Seq<char>)
    requires
        spec_line_free(l),
    ensures
        spec_first_newline(l + seq!['\n'] + rest) == l.len(),
    decreases l.len(),
{
    let s = l + seq!['\n'] + rest;
    if l.len() == 0 {
        assert(s[0] == '\n');
    } else {
        assert(s[0] == l[0]);
        assert(s[0] != '\n');
        lemma_first_newline_of_joined(l.drop_first(), rest);
        assert(s.drop_first() =~= l.drop_first() + seq!['\n'] + rest);
    }
}

/// Splitting inverts joining on line-break-free lines.
pub proof fn lemma_split_unlines(ls: Seq<Seq<char>>)
    requires
        forall|k: int| 0 <= k < ls.len() ==> spec_line_free(#[trigger] ls[k]),
    ensures
        spec_split_lines(spec_unlines(ls)) == ls,
    decreases ls.len(),
{
    if ls.len() > 0 {
        let l = ls[0];
        let rest = spec_unlines(ls.drop_first());
        let s = spec_unlines(ls);
        assert(s =~= l + seq!['\n'] + rest);
        lemma_first_newline_of_joined(l, rest);
        assert(s.len() == l.len() + 1 + rest.len());
        assert(spec_first_newline(s) == l.len());
        assert(s.take(l.len() as int) =~= l);
        assert(s.skip(l.len() as int + 1) =~= rest);
        assert forall|k: int| 0 <= k < ls.drop_first().len() implies spec_line_free(
            #[trigger] ls.drop_first()[k],
        ) by {
            assert(ls.drop_first()[k] == ls[k + 1]);
        }
        lemma_split_unlines(ls.drop_first());
        assert(seq![l] + ls.drop_first() =~= ls);
    }
}

} // verus!

// The line grammar: what one line does to the parser state.
verus! {

/// Whether `p` is a prefix of `s`.
pub open spec fn spec_starts_with(s: Seq<char>, p: Seq<char>) -> bool {
    s.len() >= p.len() && s.take(p.len() as int) == p
}

/// The parser state after some prefix of the lines: each top-level key at
/// most once, the provider entries closed so far, and the section still
/// open, if any.
#[verifier::ext_equal]
pub ghost struct ParseStateView {
    pub provider: Option<Provider>,
    pub persona: Option<Persona>,
    pub auto_copy: Option<bool>,
    pub log_file: Option<Seq<char>>,
    pub providers_present: bool,
    pub entries: Seq<(Provider, ProviderConfigView)>,
    pub cur: Option<CurSectionView>,
}

/// A provider section whose lines are still being read.
#[verifier::ext_equal]
pub ghost struct CurSectionView {
    pub provider: Provider,
    pub api_key: Option<Seq<char>>,
    pub model: Option<Seq<char>>,
}

/// The state before any line.
pub open spec fn spec_init_state() -> ParseStateView {
    ParseStateView {
        provider: None,
        persona: None,
        auto_copy: None,
        log_file: None,
        providers_present: false,
        entries: Seq::empty(),
        cur: None,
    }
}

/// Closes the open section, if any: both of its keys must have appeared.
pub open spec fn spec_close_cur(st: ParseStateView) -> Option<ParseStateView> {
    match st.cur {
        None => Some(st),
        Some(c) => match (c.api_key, c.model) {
            (Some(k), Some(m)) => Some(
                ParseStateView {
                    entries: st.entries.push(
                        (c.provider, ProviderConfigView { api_key: k, model: m }),
                    ),
                    cur: None,
                    ..st
                },
            ),
            _ => None,
        },
    }
}

/// A section header: `[providers]` announces the table, `[providers.NAME]`
/// closes the open section and opens one for a provider not yet seen.
pub open spec fn spec_step_header(st: ParseStateView, line: Seq<char>) -> Option<ParseStateView> {
    if line == "[providers]"@ {
        if st.providers_present {
            None
        } else {
            Some(ParseStateView { providers_present: true, ..st })
        }
    } else if spec_starts_with(line, "[providers."@) && line.len() > "[providers."@.len() + 1
        && line.last() == ']' {
        let name = line.subrange("[providers."@.len() as int, line.len() - 1);
        match spec_provider_of_name(name) {
            None => None,
            Some(p) => match spec_close_cur(st) {
                None => None,
                Some(stc) => if table_contains(stc.entries, p) {
                    None
                } else {
                    Some(
                        ParseStateView {
                            cur: Some(
                                CurSectionView { provider: p, api_key: None, model: None },
                            ),
                            providers_present: true,
                            ..stc
                        },
                    )
                },
            },
        }
    } else {
        None
    }
}

/// A `key = value` line inside a provider section: `api_key` or `model`,
/// each at most once.
pub open spec fn spec_step_section_kv(st: ParseStateView, line: Seq<char>) -> Option<
    ParseStateView,
> {
    let c = st.cur->0;
    if spec_starts_with(line, "api_key = "@) {
        match spec_parse_string_token(line.skip("api_key = "@.len() as int)) {
            None => None,
            Some(v) => if c.api_key is Some {
                None
            } else {
                Some(
                    ParseStateView {
                        cur: Some(CurSectionView { api_key: Some(v), ..c }),
                        ..st
                    },
                )
            },
        }
    } else if spec_starts_with(line, "model = "@) {
        match spec_parse_string_token(line.skip("model = "@.len() as int)) {
            None => None,
            Some(v) => if c.model is Some {
                None
            } else {
                Some(
                    ParseStateView { cur: Some(CurSectionView { model: Some(v), ..c }), ..st },
                )
            },
        }
    } else {
        None
    }
}

/// A top-level `key = value` line: one of the four document keys, each at
/// most once, with its value of the right shape.
pub open spec fn spec_step_top_kv(st: ParseStateView, line: Seq<char>) -> Option<ParseStateView> {
    if spec_starts_with(line, "provider = "@) {
        match spec_parse_string_token(line.skip("provider = "@.len() as int)) {
            None => None,
            Some(name) => match spec_provider_of_name(name) {
                None => None,
                Some(p) => if st.provider is Some {
                    None
                } else {
                    Some(ParseStateView { provider: Some(p), ..st })
                },
            },
        }
    } else if spec_starts_with(line, "persona = "@) {
        match spec_parse_string_token(line.skip("persona = "@.len() as int)) {
            None => None,
            Some(name) => match spec_persona_of_name(name) {
                None => None,
                Some(pe) => if st.persona is Some {
                    None
                } else {
                    Some(ParseStateView { persona: Some(pe), ..st })
                },
            },
        }
    } else if spec_starts_with(line, "auto_copy = "@) {
        let v = line.skip("auto_copy = "@.len() as int);
        if st.auto_copy is Some {
            None
        } else if v == "true"@ {
            Some(ParseStateView { auto_copy: Some(true), ..st })
        } else if v == "false"@ {
            Some(ParseStateView { auto_copy: Some(false), ..st })
        } else {
            None
        }
    } else if spec_starts_with(line, "log_file = "@) {
        match spec_parse_string_token(line.skip("log_file = "@.len() as int)) {
            None => None,
            Some(v) => if st.log_file is Some {
                None
            } else {
                Some(ParseStateView { log_file: Some(v), ..st })
            },
        }
    } else {
        None
    }
}

/// What one line does to the state: blank and comment lines are skipped,
/// bracket lines are section headers, anything else is a `key = value` line
/// of the open section or of the document.
pub open spec fn spec_step(st: ParseStateView, line: Seq<char>) -> Option<ParseStateView> {
    if line.len() == 0 || line[0] == '#' {
        Some(st)
    } else if line[0] == '[' {
        spec_step_header(st, line)
    } else if st.cur is Some {
        spec_step_section_kv(st, line)
    } else {
        spec_step_top_kv(st, line)
    }
}

/// The state after a sequence of lines; a failed line fails the rest.
pub open spec fn spec_parse_fold(st: Option<ParseStateView>, lines: Seq<Seq<char>>) -> Option<
    ParseStateView,
>
    decreases lines.len(),
{
    if lines.len() == 0 {
        st
    } else {
        let next = match st {
            None => None,
            Some(s) => spec_step(s, lines[0]),
        };
        spec_parse_fold(next, lines.drop_first())
    }
}

/// The document a final state denotes: the open section is closed, a missing
/// `auto_copy` defaults to false, and the provider table exists exactly when
/// a providers header or section appeared.
pub open spec fn spec_finish(st: ParseStateView) -> Option<DocView> {
    match spec_close_cur(st) {
        None => None,
        Some(stc) => Some(
            DocView {
                provider: stc.provider,
                providers: if stc.providers_present {
                    Some(stc.entries)
                } else {
                    None
                },
                persona: stc.persona,
                auto_copy: match stc.auto_copy {
                    Some(b) => b,
                    None => false,
                },
                log_file: stc.log_file,
            },
        ),
    }
}

/// The document a text holds, if it parses.
pub open spec fn spec_parse_doc(s: Seq<char>) -> Option<DocView> {
    match spec_parse_fold(Some(spec_init_state()), spec_split_lines(s)) {
        None => None,
        Some(st) => spec_finish(st),
    }
}

/// A failed fold stays failed.
pub proof fn lemma_fold_none(lines: Seq<Seq<char>>)
    ensures
        spec_parse_fold(None, lines) is None,
    decreases lines.len(),
{
    if lines.len() > 0 {
        lemma_fold_none(lines.drop_first());
    }
}

/// Folding a concatenation folds the parts in turn.
pub proof fn lemma_fold_app(st: Option<ParseStateView>, a: Seq<Seq<char>>, b: Seq<Seq<char>>)
    ensures
        spec_parse_fold(st, a + b) == spec_parse_fold(spec_parse_fold(st, a), b),
    decreases a.len(),
{
    if a.len() == 0 {
        assert(a + b =~= b);
    } else {
        assert((a + b)[0] == a[0]);
        assert((a + b).drop_first() =~= a.drop_first() + b);
        let next = match st {
            None => None,
            Some(s) => spec_step(s, a[0]),
        };
        lemma_fold_app(next, a.drop_first(), b);
    }
}

} // verus!

// Executable text helpers.
verus! {

/// Relies on std's `String::push`: appends the given character to the end
/// of this `String`.
pub assume_specification[ String::push ](s: &mut String, c: char)
    ensures
        final(s)@ == old(s)@.push(c),
;

/// The characters of a string slice, as an indexable vector.
fn to_char_vec(s: &str) -> (r: Vec<char>)
    ensures
        r@ == s@,
{
    let n = s.unicode_len();
    let mut v: Vec<char> = Vec::new();
    let mut i: usize = 0;
    while i < n
        invariant
            n == s@.len(),
            0 <= i <= n,
            v@ == s@.take(i as int),
        decreases n - i,
    {
        v.push(s.get_char(i));
        assert(v@ =~= s@.take(i + 1));
        i = i + 1;
    }
    assert(s@.take(n as int) =~= s@);
    v
}

/// Whether `lit` is a prefix of the line.
fn chars_starts_with(line: &Vec<char>, lit: &str) -> (r: bool)
    ensures
        r == spec_starts_with(line@, lit@),
{
    let m = lit.unicode_len();
    if line.len() < m {
        return false;
    }
    let mut i: usize = 0;
    while i < m
        invariant
            m == lit@.len(),
            line@.len() >= m,
            0 <= i <= m,
            forall|j: int| 0 <= j < i ==> line@[j] == lit@[j],
        decreases m - i,
    {
        if line[i] != lit.get_char(i) {
            assert(line@.take(m as int)[i as int] != lit@[i as int]);
            return false;
        }
        i = i + 1;
    }
    assert(line@.take(m as int) =~= lit@);
    true
}

/// Whether the line from `from` onward holds exactly `lit`.
fn chars_eq_from(line: &Vec<char>, from: usize, lit: &str) -> (r: bool)
    requires
        from <= line@.len(),
    ensures
        r == (line@.skip(from as int) == lit@),
{
    let m = lit.unicode_len();
    let n = line.len();
    assert(line@.skip(from as int).len() == line@.len() - from);
    if n - from != m {
        return false;
    }
    let mut i: usize = 0;
    while i < m
        invariant
            m == lit@.len(),
            n == line@.len(),
            from + m == n,
            0 <= i <= m,
            forall|j: int| 0 <= j < i ==> line@[from + j] == lit@[j],
        decreases m - i,
    {
        if line[from + i] != lit.get_char(i) {
            assert(line@.skip(from as int)[i as int] != lit@[i as int]);
            return false;
        }
        i = i + 1;
    }
    assert(line@.skip(from as int) =~= lit@);
    true
}

/// Whether the characters of the line between `from` and `to` hold exactly
/// `lit`.
fn chars_eq_range(line: &Vec<char>, from: usize, to: usize, lit: &str) -> (r: bool)
    requires
        from <= to <= line@.len(),
    ensures
        r == (line@.subrange(from as int, to as int) == lit@),
{
    let m = lit.unicode_len();
    let n = line.len();
    if to - from != m {
        assert(line@.subrange(from as int, to as int).len() != lit@.len());
        return false;
    }
    let mut i: usize = 0;
    while i < m
        invariant
            m == lit@.len(),
            n == line@.len(),
            from + m == to <= n,
            0 <= i <= m,
            forall|j: int| 0 <= j < i ==> line@[from + j] == lit@[j],
        decreases m - i,
    {
        if line[from + i] != lit.get_char(i) {
            assert(line@.subrange(from as int, to as int)[i as int] != lit@[i as int]);
            return false;
        }
        i = i + 1;
    }
    assert(line@.subrange(from as int, to as int) =~= lit@);
    true
}

/// The provider a runtime identifier names, if any.
pub fn provider_of_name(s: &str) -> (r: Option<Provider>)
    ensures
        r == spec_provider_of_name(s@),
{
    if str_eq(s, "openrouter") {
        Some(Provider::OpenRouter)
    } else if str_eq(s, "openai") {
        Some(Provider::OpenAI)
    } else {
        None
    }
}

/// The persona a runtime identifier names, if any.
fn persona_of_name(s: &str) -> (r: Option<Persona>)
    ensures
        r == spec_persona_of_name(s@),
{
    if str_eq(s, "default") {
        Some(Persona::Default)
    } else {
        None
    }
}

/// Reads the quoted value that starts at `from` and must reach the end of
/// the line.
fn parse_quoted(line: &Vec<char>, from: usize) -> (r: Option<String>)
    requires
        from <= line@.len(),
    ensures
        (match r {
            Some(s) => spec_parse_string_token(line@.skip(from as int)) == Some(s@),
            None => spec_parse_string_token(line@.skip(from as int)) is None,
        }),
{
    let n = line.len();
    let ghost tok = line@.skip(from as int);
    if from == n || line[from] != '"' {
        return None;
    }
    proof {
        assert(tok[0] == '"');
        assert(tok.skip(1) =~= line@.skip(from + 1));
    }
    let mut out = String::new();
    let mut i: usize = from + 1;
    loop
        invariant
            from + 1 <= i <= n,
            n == line@.len(),
            tok == line@.skip(from as int),
            tok.len() >= 1 && tok[0] == '"',
            spec_parse_string_token(tok) == spec_unescape_rest(line@.skip(from + 1)),
            (match spec_unescape_rest(line@.skip(i as int)) {
                Some(rest) => spec_unescape_rest(line@.skip(from + 1)) == Some(out@ + rest),
                None => spec_unescape_rest(line@.skip(from + 1)) is None,
            }),
        decreases n - i,
    {
        if i == n {
            proof {
                assert(line@.skip(i as int) =~= Seq::<char>::empty());
            }
            return None;
        }
        let c = line[i];
        proof {
            assert(line@.skip(i as int)[0] == c);
            assert(line@.skip(i as int).len() == n - i);
        }
        if c == '"' {
            if i + 1 == n {
                proof {
                    assert(line@.skip(i as int) =~= seq!['"']);
                    assert(spec_unescape_rest(line@.skip(i as int)) == Some(Seq::<char>::empty()));
                    assert(out@ + Seq::<char>::empty() =~= out@);
                }
                return Some(out);
            } else {
                return None;
            }
        } else if c == '\\' {
            if i + 1 == n {
                return None;
            }
            let e = line[i + 1];
            proof {
                assert(line@.skip(i as int)[1] == e);
            }
            if e == '"' || e == '\\' || e == 'n' || e == 'r' || e == 't' {
                let u: char = if e == 'n' {
                    '\n'
                } else if e == 'r' {
                    '\r'
                } else if e == 't' {
                    '\t'
                } else {
                    e
                };
                proof {
                    assert(u == spec_unescape_code(e));
                }
                out.push(u);
                proof {
                    assert(line@.skip(i as int).skip(2) =~= line@.skip(i + 2));
                    assert forall|rest: Seq<char>|
                        spec_unescape_rest(line@.skip(i + 2)) == Some(rest) implies out@ + rest
                        == (out@.drop_last() + (seq![u] + rest)) by {
                        assert(out@ + rest =~= out@.drop_last() + (seq![u] + rest));
                    }
                }
                i = i + 2;
            } else {
                return None;
            }
        } else {
            out.push(c);
            proof {
                assert(line@.skip(i as int).drop_first() =~= line@.skip(i + 1));
                assert forall|rest: Seq<char>|
                    spec_unescape_rest(line@.skip(i + 1)) == Some(rest) implies out@ + rest == (
                    out@.drop_last() + (seq![c] + rest)) by {
                    assert(out@ + rest =~= out@.drop_last() + (seq![c] + rest));
                }
            }
            i = i + 1;
        }
    }
}

} // verus!

// The executable parser.
verus! {

/// The views of a vector of lines.
pub open spec fn lines_views(ls: Seq<Vec<char>>) -> Seq<Seq<char>> {
    ls.map_values(|l: Vec<char>| l@)
}

proof fn lemma_first_newline_at(s: Seq<char>, i: int)
    requires
        0 <= i <= s.len(),
        forall|j: int| 0 <= j < i ==> s[j] != '\n',
        i < s.len() ==> s[i] == '\n',
    ensures
        spec_first_newline(s) == i,
    decreases i,
{
    if i > 0 {
        assert(s[0] != '\n');
        assert forall|j: int| 0 <= j < i - 1 implies s.drop_first()[j] != '\n' by {
            assert(s.drop_first()[j] == s[j + 1]);
        }
        if i - 1 < s.drop_first().len() {
            assert(s.drop_first()[i - 1] == s[i]);
        }
        lemma_first_newline_at(s.drop_first(), i - 1);
    }
}

/// The text split at line breaks, as [`spec_split_lines`] describes.
fn split_lines(chars: &Vec<char>) -> (r: Vec<Vec<char>>)
    ensures
        lines_views(r@) == spec_split_lines(chars@),
{
    let n = chars.len();
    let mut res: Vec<Vec<char>> = Vec::new();
    let mut pos: usize = 0;
    proof {
        assert(chars@.skip(0) =~= chars@);
        assert(lines_views(res@) + spec_split_lines(chars@) =~= spec_split_lines(chars@));
    }
    while pos < n
        invariant
            n == chars@.len(),
            0 <= pos <= n,
            spec_split_lines(chars@) == lines_views(res@) + spec_split_lines(
                chars@.skip(pos as int),
            ),
        decreases n - pos,
    {
        let mut j: usize = pos;
        while j < n && chars[j] != '\n'
            invariant
                n == chars@.len(),
                pos <= j <= n,
                forall|k: int| pos <= k < j ==> chars@[k] != '\n',
            decreases n - j,
        {
            j = j + 1;
        }
        let mut line: Vec<char> = Vec::new();
        let mut k: usize = pos;
        while k < j
            invariant
                n == chars@.len(),
                pos <= k <= j <= n,
                line@ == chars@.subrange(pos as int, k as int),
            decreases j - k,
        {
            line.push(chars[k]);
            assert(line@ =~= chars@.subrange(pos as int, k + 1));
            k = k + 1;
        }
        proof {
            let suf = chars@.skip(pos as int);
            assert forall|q: int| 0 <= q < (j - pos) implies suf[q] != '\n' by {
                assert(suf[q] == chars@[pos + q]);
            }
            if j < n {
                assert(suf[j - pos] == chars@[j as int]);
            }
            lemma_first_newline_at(suf, j - pos);
            assert(lines_views(res@.push(line)) =~= lines_views(res@) + seq![line@]);
            if j == n {
                assert(spec_split_lines(suf) =~= seq![suf]);
                assert(line@ =~= suf);
                assert(chars@.skip(n as int) =~= Seq::<char>::empty());
                assert((lines_views(res@) + seq![line@]) + spec_split_lines(
                    chars@.skip(n as int),
                ) =~= lines_views(res@) + spec_split_lines(suf));
            } else {
                assert(spec_split_lines(suf) == seq![suf.take((j - pos) as int)]
                    + spec_split_lines(suf.skip(j - pos + 1)));
                assert(suf.take((j - pos) as int) =~= line@);
                assert(suf.skip(j - pos + 1) =~= chars@.skip(j + 1));
                assert((lines_views(res@) + seq![line@]) + spec_split_lines(chars@.skip(j + 1))
                    =~= lines_views(res@) + spec_split_lines(suf));
            }
        }
        res.push(line);
        pos = if j < n {
            j + 1
        } else {
            n
        };
    }
    proof {
        assert(chars@.skip(n as int) =~= Seq::<char>::empty());
        assert(lines_views(res@) + spec_split_lines(chars@.skip(n as int)) =~= lines_views(res@));
    }
    res
}

/// The parser state: each top-level key at most once, the entries closed so
/// far, and the open section, if any.
struct ParseState {
    provider: Option<Provider>,
    persona: Option<Persona>,
    auto_copy: Option<bool>,
    log_file: Option<String>,
    providers_present: bool,
    entries: Vec<(Provider, ProviderConfig)>,
    cur: Option<CurSection>,
}

/// A provider section whose lines are still being read.
struct CurSection {
    provider: Provider,
    api_key: Option<String>,
    model: Option<String>,
}

impl View for CurSection {
    type V = CurSectionView;

    closed spec fn view(&self) -> CurSectionView {
        CurSectionView {
            provider: self.provider,
            api_key: match self.api_key {
                Some(k) => Some(k@),
                None => None,
            },
            model: match self.model {
                Some(m) => Some(m@),
                None => None,
            },
        }
    }
}

impl View for ParseState {
    type V = ParseStateView;

    closed spec fn view(&self) -> ParseStateView {
        ParseStateView {
            provider: self.provider,
            persona: self.persona,
            auto_copy: self.auto_copy,
            log_file: match self.log_file {
                Some(p) => Some(p@),
                None => None,
            },
            providers_present: self.providers_present,
            entries: table_view(self.entries@),
            cur: match self.cur {
                Some(c) => Some(c@),
                None => None,
            },
        }
    }
}

impl ParseState {
    fn new() -> (r: ParseState)
        ensures
            r@ == spec_init_state(),
    {
        let r = ParseState {
            provider: None,
            persona: None,
            auto_copy: None,
            log_file: None,
            providers_present: false,
            entries: Vec::new(),
            cur: None,
        };
        proof {
            assert(r@ =~~= spec_init_state());
        }
        r
    }

    /// Closes the open section, if any, as [`spec_close_cur`] describes.
    fn close_cur(&mut self) -> (r: bool)
        ensures
            r ==> spec_close_cur(old(self)@) == Some(final(self)@),
            !r ==> spec_close_cur(old(self)@) is None,
    {
        let c = match self.cur.take() {
            None => {
                return true;
            },
            Some(c) => c,
        };
        let api_key = match c.api_key {
            Some(k) => k,
            None => {
                return false;
            },
        };
        let model = match c.model {
            Some(m) => m,
            None => {
                return false;
            },
        };
        let ghost before = table_view(self.entries@);
        self.entries.push((c.provider, ProviderConfig { api_key, model }));
        proof {
            assert(table_view(self.entries@) =~= before.push(
                (c.provider, self.entries@.last().1@),
            ));
            assert(spec_close_cur(old(self)@) matches Some(st) && st =~~= final(self)@);
        }
        true
    }
}

} // verus!

// Applying one line to the state, and the whole parse.
verus! {

/// A section header line, as [`spec_step_header`] describes.
fn apply_header(st: &mut ParseState, line: &Vec<char>) -> (r: bool)
    requires
        line@.len() > 0,
        line@[0] == '[',
    ensures
        r ==> spec_step_header(old(st)@, line@) == Some(final(st)@),
        !r ==> spec_step_header(old(st)@, line@) is None,
{
    let n = line.len();
    proof {
        assert(line@.skip(0) =~= line@);
    }
    if chars_eq_from(line, 0, "[providers]") {
        if st.providers_present {
            return false;
        }
        st.providers_present = true;
        proof {
            assert(spec_step_header(old(st)@, line@) matches Some(s) && s =~~= final(st)@);
        }
        return true;
    }
    if !chars_starts_with(line, "[providers.") {
        return false;
    }
    proof {
        reveal_strlit("[providers.");
        assert("[providers."@.len() == 11);
    }
    if n <= 12 {
        return false;
    }
    if line[n - 1] != ']' {
        return false;
    }
    proof {
        assert(line@.last() == ']');
    }
    let p: Provider;
    if chars_eq_range(line, 11, n - 1, "openrouter") {
        p = Provider::OpenRouter;
    } else if chars_eq_range(line, 11, n - 1, "openai") {
        p = Provider::OpenAI;
    } else {
        proof {
            assert(spec_provider_of_name(line@.subrange(11, n - 1)) is None);
        }
        return false;
    }
    proof {
        assert(spec_provider_of_name(line@.subrange(11, n - 1)) == Some(p));
    }
    if !st.close_cur() {
        return false;
    }
    if table_lookup(&st.entries, p).is_some() {
        return false;
    }
    st.cur = Some(CurSection { provider: p, api_key: None, model: None });
    st.providers_present = true;
    proof {
        assert(spec_step_header(old(st)@, line@) matches Some(s) && s =~~= final(st)@);
    }
    true
}

/// A `key = value` line of the open section, as [`spec_step_section_kv`]
/// describes.
fn apply_section_kv(st: &mut ParseState, line: &Vec<char>) -> (r: bool)
    requires
        old(st)@.cur is Some,
    ensures
        r ==> spec_step_section_kv(old(st)@, line@) == Some(final(st)@),
        !r ==> spec_step_section_kv(old(st)@, line@) is None,
{
    if chars_starts_with(line, "api_key = ") {
        proof {
            reveal_strlit("api_key = ");
            assert("api_key = "@.len() == 10);
        }
        let v = match parse_quoted(line, 10) {
            Some(v) => v,
            None => {
                return false;
            },
        };
        match &mut st.cur {
            Some(c) => {
                if c.api_key.is_some() {
                    return false;
                }
                c.api_key = Some(v);
                proof {
                    assert(spec_step_section_kv(old(st)@, line@) matches Some(s)
                        && (s =~~= final(st)@));
                }
                true
            },
            None => {
                proof {
                    assert(false);
                }
                false
            },
        }
    } else if chars_starts_with(line, "model = ") {
        proof {
            reveal_strlit("model = ");
            assert("model = "@.len() == 8);
        }
        let v = match parse_quoted(line, 8) {
            Some(v) => v,
            None => {
                return false;
            },
        };
        match &mut st.cur {
            Some(c) => {
                if c.model.is_some() {
                    return false;
                }
                c.model = Some(v);
                proof {
                    assert(spec_step_section_kv(old(st)@, line@) matches Some(s)
                        && (s =~~= final(st)@));
                }
                true
            },
            None => {
                proof {
                    assert(false);
                }
                false
            },
        }
    } else {
        false
    }
}

/// A top-level `key = value` line, as [`spec_step_top_kv`] describes.
fn apply_top_kv(st: &mut ParseState, line: &Vec<char>) -> (r: bool)
    ensures
        r ==> spec_step_top_kv(old(st)@, line@) == Some(final(st)@),
        !r ==> spec_step_top_kv(old(st)@, line@) is None,
{
    if chars_starts_with(line, "provider = ") {
        proof {
            reveal_strlit("provider = ");
            assert("provider = "@.len() == 11);
        }
        let name = match parse_quoted(line, 11) {
            Some(v) => v,
            None => {
                return false;
            },
        };
        let p = match provider_of_name(name.as_str()) {
            Some(p) => p,
            None => {
                return false;
            },
        };
        if st.provider.is_some() {
            return false;
        }
        st.provider = Some(p);
        proof {
            assert(spec_step_top_kv(old(st)@, line@) matches Some(s) && s =~~= final(st)@);
        }
        true
    } else if chars_starts_with(line, "persona = ") {
        proof {
            reveal_strlit("persona = ");
            assert("persona = "@.len() == 10);
        }
        let name = match parse_quoted(line, 10) {
            Some(v) => v,
            None => {
                return false;
            },
        };
        let pe = match persona_of_name(name.as_str()) {
            Some(pe) => pe,
            None => {
                return false;
            },
        };
        if st.persona.is_some() {
            return false;
        }
        st.persona = Some(pe);
        proof {
            assert(spec_step_top_kv(old(st)@, line@) matches Some(s) && s =~~= final(st)@);
        }
        true
    } else if chars_starts_with(line, "auto_copy = ") {
        proof {
            reveal_strlit("auto_copy = ");
            assert("auto_copy = "@.len() == 12);
        }
        if st.auto_copy.is_some() {
            return false;
        }
        let b: bool;
        if chars_eq_from(line, 12, "true") {
            b = true;
        } else if chars_eq_from(line, 12, "false") {
            b = false;
        } else {
            return false;
        }
        st.auto_copy = Some(b);
        proof {
            assert(spec_step_top_kv(old(st)@, line@) matches Some(s) && s =~~= final(st)@);
        }
        true
    } else if chars_starts_with(line, "log_file = ") {
        proof {
            reveal_strlit("log_file = ");
            assert("log_file = "@.len() == 11);
        }
        let v = match parse_quoted(line, 11) {
            Some(v) => v,
            None => {
                return false;
            },
        };
        if st.log_file.is_some() {
            return false;
        }
        st.log_file = Some(v);
        proof {
            assert(spec_step_top_kv(old(st)@, line@) matches Some(s) && s =~~= final(st)@);
        }
        true
    } else {
        false
    }
}

/// One line applied to the state, as [`spec_step`] describes.
fn apply_line(st: &mut ParseState, line: &Vec<char>) -> (r: bool)
    ensures
        r ==> spec_step(old(st)@, line@) == Some(final(st)@),
        !r ==> spec_step(old(st)@, line@) is None,
{
    let n = line.len();
    if n == 0 {
        return true;
    }
    let c0 = line[0];
    if c0 == '#' {
        return true;
    }
    if c0 == '[' {
        return apply_header(st, line);
    }
    if st.cur.is_some() {
        return apply_section_kv(st, line);
    }
    apply_top_kv(st, line)
}

/// The invariant the state keeps over the lines: closed entries are uniquely
/// keyed and the open section's provider has no closed entry yet.
pub open spec fn spec_state_inv(st: ParseStateView) -> bool {
    &&& table_unique_keys(st.entries)
    &&& match st.cur {
        Some(c) => !table_contains(st.entries, c.provider),
        None => true,
    }
}

/// A table holds a key exactly when some entry is keyed by it.
pub proof fn lemma_table_contains_exists(t: Seq<(Provider, ProviderConfigView)>, p: Provider)
    ensures
        table_contains(t, p) <==> (exists|i: int| 0 <= i < t.len() && t[i].0 == p),
    decreases t.len(),
{
    if t.len() > 0 {
        lemma_table_contains_exists(t.drop_first(), p);
        if t[0].0 == p {
        } else {
            if exists|i: int| 0 <= i < t.len() && t[i].0 == p {
                let i = choose|i: int| 0 <= i < t.len() && t[i].0 == p;
                assert(t.drop_first()[i - 1] == t[i]);
            }
            if exists|i: int| 0 <= i < t.drop_first().len() && t.drop_first()[i].0 == p {
                let i = choose|i: int|
                    0 <= i < t.drop_first().len() && t.drop_first()[i].0 == p;
                assert(t[i + 1] == t.drop_first()[i]);
            }
        }
    }
}

/// Appending an entry under a fresh key keeps the keys unique.
proof fn lemma_unique_push(
    t: Seq<(Provider, ProviderConfigView)>,
    p: Provider,
    v: ProviderConfigView,
)
    requires
        table_unique_keys(t),
        !table_contains(t, p),
    ensures
        table_unique_keys(t.push((p, v))),
{
    lemma_table_contains_exists(t, p);
    let t2 = t.push((p, v));
    assert forall|i: int, j: int| 0 <= i < j < t2.len() implies t2[i].0 != t2[j].0 by {
        if j < t.len() {
            assert(t2[i] == t[i] && t2[j] == t[j]);
        } else {
            assert(t2[i] == t[i] && t2[j].0 == p);
        }
    }
}

/// One line preserves the state invariant.
proof fn lemma_step_inv(st: ParseStateView, line: Seq<char>)
    requires
        spec_state_inv(st),
    ensures
        spec_step(st, line) matches Some(s2) ==> spec_state_inv(s2),
{
    if spec_step(st, line) matches Some(s2) {
        if line.len() == 0 || line[0] == '#' {
        } else if line[0] == '[' {
            if line == "[providers]"@ {
            } else {
                let stc = spec_close_cur(st)->0;
                match st.cur {
                    Some(c) => {
                        lemma_unique_push(
                            st.entries,
                            c.provider,
                            (stc.entries.last()).1,
                        );
                    },
                    None => {},
                }
            }
        } else {
        }
    }
}

/// The whole fold preserves the state invariant.
proof fn lemma_fold_inv(st: ParseStateView, lines: Seq<Seq<char>>)
    requires
        spec_state_inv(st),
    ensures
        spec_parse_fold(Some(st), lines) matches Some(s2) ==> spec_state_inv(s2),
    decreases lines.len(),
{
    if lines.len() > 0 {
        lemma_step_inv(st, lines[0]);
        match spec_step(st, lines[0]) {
            Some(s1) => {
                lemma_fold_inv(s1, lines.drop_first());
            },
            None => {
                lemma_fold_none(lines.drop_first());
            },
        }
    }
}

/// A parsed document is well-formed: its provider table keys each provider
/// at most once.
pub proof fn lemma_parse_doc_wf(s: Seq<char>)
    ensures
        spec_parse_doc(s) matches Some(d) ==> d.wf(),
{
    if spec_parse_doc(s) matches Some(d) {
        let st = spec_parse_fold(Some(spec_init_state()), spec_split_lines(s))->0;
        lemma_fold_inv(spec_init_state(), spec_split_lines(s));
        match st.cur {
            Some(c) => {
                let stc = spec_close_cur(st)->0;
                lemma_unique_push(st.entries, c.provider, (stc.entries.last()).1);
            },
            None => {},
        }
    }
}

/// Parses a document text, as [`spec_parse_doc`] describes.  A parsed
/// document is well-formed.  On failure the error carries the one-based
/// number of the line the parser rejected (the last line, when the document
/// ends inside an incomplete provider section), so the failure can be
/// surfaced with its place.
pub fn parse_document(text: &str) -> (r: Result<ConfigFile, usize>)
    ensures
        (match r {
            Ok(d) => spec_parse_doc(text@) == Some(d@) && d@.wf(),
            Err(line) => spec_parse_doc(text@) is None && line >= 1,
        }),
{
    let chars = to_char_vec(text);
    let lines = split_lines(&chars);
    let ghost lvs = lines_views(lines@);
    let mut st = ParseState::new();
    let n = lines.len();
    let mut k: usize = 0;
    proof {
        assert(lvs.take(0) =~= Seq::<Seq<char>>::empty());
    }
    while k < n
        invariant
            n == lines@.len(),
            0 <= k <= n,
            lvs == lines_views(lines@),
            lvs == spec_split_lines(text@),
            spec_parse_fold(Some(spec_init_state()), lvs.take(k as int)) == Some(st@),
        decreases n - k,
    {
        let ghost st_before = st@;
        let ok = apply_line(&mut st, &lines[k]);
        proof {
            assert(lvs.take(k + 1) =~= lvs.take(k as int) + seq![lvs[k as int]]);
            lemma_fold_app(Some(spec_init_state()), lvs.take(k as int), seq![lvs[k as int]]);
            assert(lvs[k as int] == lines@[k as int]@);
            assert(seq![lvs[k as int]].drop_first() =~= Seq::<Seq<char>>::empty());
            assert(seq![lvs[k as int]][0] == lvs[k as int]);
            assert(spec_parse_fold(Some(st_before), seq![lvs[k as int]]) == spec_parse_fold(
                spec_step(st_before, lvs[k as int]),
                seq![lvs[k as int]].drop_first(),
            ));
            assert(spec_parse_fold(
                spec_step(st_before, lvs[k as int]),
                seq![lvs[k as int]].drop_first(),
            ) == spec_step(st_before, lvs[k as int]));
        }
        if !ok {
            proof {
                assert(spec_parse_fold(Some(spec_init_state()), lvs.take(k + 1)) is None);
                assert(lvs =~= lvs.take(k + 1) + lvs.skip(k + 1));
                lemma_fold_app(Some(spec_init_state()), lvs.take(k + 1), lvs.skip(k + 1));
                lemma_fold_none(lvs.skip(k + 1));
            }
            return Err(k + 1);
        }
        k = k + 1;
    }
    proof {
        assert(lvs.take(n as int) =~= lvs);
        lemma_parse_doc_wf(text@);
    }
    let ghost st_folded = st@;
    if !st.close_cur() {
        proof {
            // An incomplete section implies at least one header line.
            assert(st_folded.cur is Some);
            assert(n >= 1) by {
                if n == 0 {
                    assert(lvs.take(0) =~= lvs);
                }
            }
        }
        return Err(n);
    }
    let auto_copy = match st.auto_copy {
        Some(b) => b,
        None => false,
    };
    let providers = if st.providers_present {
        Some(st.entries)
    } else {
        None
    };
    let doc = ConfigFile {
        provider: st.provider,
        providers,
        persona: st.persona,
        auto_copy,
        log_file: st.log_file,
    };
    proof {
        assert(spec_parse_doc(text@) matches Some(d) && d =~~= doc@);
    }
    Ok(doc)
}

} // verus!

// Rendering: the canonical text of a document.
verus! {

pub open spec fn spec_provider_line(p: Provider) -> Seq<char> {
    "provider = "@ + spec_quote(spec_provider_name(p))
}

pub open spec fn spec_persona_line(pe: Persona) -> Seq<char> {
    "persona = "@ + spec_quote(spec_persona_name(pe))
}

pub open spec fn spec_auto_copy_line(b: bool) -> Seq<char> {
    "auto_copy = "@ + (if b {
        "true"@
    } else {
        "false"@
    })
}

pub open spec fn spec_log_file_line(s: Seq<char>) -> Seq<char> {
    "log_file = "@ + spec_quote(s)
}

pub open spec fn spec_section_header_line(p: Provider) -> Seq<char> {
    "[providers."@ + spec_provider_name(p) + "]"@
}

pub open spec fn spec_api_key_line(s: Seq<char>) -> Seq<char> {
    "api_key = "@ + spec_quote(s)
}

pub open spec fn spec_model_line(s: Seq<char>) -> Seq<char> {
    "model = "@ + spec_quote(s)
}

/// The three lines of one provider section.
pub open spec fn spec_entry_lines(e: (Provider, ProviderConfigView)) -> Seq<Seq<char>> {
    seq![
        spec_section_header_line(e.0),
        spec_api_key_line(e.1.api_key),
        spec_model_line(e.1.model),
    ]
}

/// The sections of the provider table, in document order.
pub open spec fn spec_entries_lines(t: Seq<(Provider, ProviderConfigView)>) -> Seq<Seq<char>>
    decreases t.len(),
{
    if t.len() == 0 {
        Seq::empty()
    } else {
        spec_entry_lines(t[0]) + spec_entries_lines(t.drop_first())
    }
}

pub open spec fn spec_seg_persona(d: DocView) -> Seq<Seq<char>> {
    match d.persona {
        Some(pe) => seq![spec_persona_line(pe)],
        None => Seq::empty(),
    }
}

pub open spec fn spec_seg_auto_copy(d: DocView) -> Seq<Seq<char>> {
    seq![spec_auto_copy_line(d.auto_copy)]
}

pub open spec fn spec_seg_log_file(d: DocView) -> Seq<Seq<char>> {
    match d.log_file {
        Some(s) => seq![spec_log_file_line(s)],
        None => Seq::empty(),
    }
}

pub open spec fn spec_seg_provider(d: DocView) -> Seq<Seq<char>> {
    match d.provider {
        Some(p) => seq![spec_provider_line(p)],
        None => Seq::empty(),
    }
}

pub open spec fn spec_seg_table(d: DocView) -> Seq<Seq<char>> {
    match d.providers {
        Some(t) => seq!["[providers]"@] + spec_entries_lines(t),
        None => Seq::empty(),
    }
}

/// The lines of a document: each optional top-level key when present,
/// `auto_copy` always, then the providers header and one section per entry
/// when the table exists.
pub open spec fn spec_render_lines(d: DocView) -> Seq<Seq<char>> {
    spec_seg_persona(d) + spec_seg_auto_copy(d) + spec_seg_log_file(d) + spec_seg_provider(d)
        + spec_seg_table(d)
}

/// The canonical text of a document.
pub open spec fn spec_render_doc(d: DocView) -> Seq<char> {
    spec_unlines(spec_render_lines(d))
}

/// Escaping distributes over concatenation.
pub proof fn lemma_escape_app(a: Seq<char>, b: Seq<char>)
    ensures
        spec_escape(a + b) == spec_escape(a) + spec_escape(b),
    decreases a.len(),
{
    if a.len() == 0 {
        assert(a + b =~= b);
        assert(spec_escape(a) + spec_escape(b) =~= spec_escape(b));
    } else {
        lemma_escape_app(a.drop_first(), b);
        assert((a + b).drop_first() =~= a.drop_first() + b);
        assert((a + b)[0] == a[0]);
        assert(spec_escape_char(a[0]) + (spec_escape(a.drop_first()) + spec_escape(b)) =~= (
        spec_escape_char(a[0]) + spec_escape(a.drop_first())) + spec_escape(b));
    }
}

/// Appends the escaped characters of `s`.
fn push_escaped(out: &mut String, s: &str)
    ensures
        final(out)@ == old(out)@ + spec_escape(s@),
{
    let n = s.unicode_len();
    let mut i: usize = 0;
    proof {
        assert(s@.take(0) =~= Seq::<char>::empty());
        assert(old(out)@ + spec_escape(s@.take(0)) =~= old(out)@);
    }
    while i < n
        invariant
            n == s@.len(),
            0 <= i <= n,
            after_borrow(*out)@ == *&old(out)@ + spec_escape(s@.take(i as int)),
        decreases n - i,
    {
        let c = s.get_char(i);
        proof {
            assert(s@.take(i + 1) =~= s@.take(i as int) + seq![c]);
            lemma_escape_app(s@.take(i as int), seq![c]);
            assert(seq![c].drop_first() =~= Seq::<char>::empty());
            assert(spec_escape(seq![c]) == spec_escape_char(c) + spec_escape(
                seq![c].drop_first(),
            ));
            assert(spec_escape_char(c) + Seq::<char>::empty() =~= spec_escape_char(c));
        }
        if c == '"' || c == '\\' || c == '\n' || c == '\r' || c == '\t' {
            out.push('\\');
            let e: char = if c == '\n' {
                'n'
            } else if c == '\r' {
                'r'
            } else if c == '\t' {
                't'
            } else {
                c
            };
            out.push(e);
            proof {
                assert(spec_escape_char(c) =~= seq!['\\', spec_escape_code(c)]);
                assert(out@ =~= old(out)@ + spec_escape(s@.take(i + 1)));
            }
        } else {
            out.push(c);
            proof {
                assert(spec_escape_char(c) =~= seq![c]);
                assert(out@ =~= old(out)@ + spec_escape(s@.take(i + 1)));
            }
        }
        i = i + 1;
    }
    proof {
        assert(s@.take(n as int) =~= s@);
    }
}

/// Appends the quoted, escaped form of `s`.
fn push_quoted(out: &mut String, s: &str)
    ensures
        final(out)@ == old(out)@ + spec_quote(s@),
{
    out.push('"');
    push_escaped(out, s);
    out.push('"');
    proof {
        assert(out@ =~= old(out)@ + spec_quote(s@));
    }
}

} // verus!

// The executable renderer.
verus! {

/// Joining one more line appends it and its line break.
proof fn lemma_unlines_snoc(a: Seq<Seq<char>>, l: Seq<char>)
    ensures
        spec_unlines(a.push(l)) == spec_unlines(a) + l + seq!['\n'],
{
    assert(a.push(l) =~= a + seq![l]);
    lemma_unlines_app(a, seq![l]);
    assert(seq![l].drop_first() =~= Seq::<Seq<char>>::empty());
    assert(spec_unlines(seq![l]) == l + seq!['\n'] + spec_unlines(seq![l].drop_first()));
    assert(l + seq!['\n'] + Seq::<char>::empty() =~= l + seq!['\n']);
    assert(spec_unlines(a) + (l + seq!['\n']) =~= spec_unlines(a) + l + seq!['\n']);
}

/// Section lines distribute over concatenation of the table.
proof fn lemma_entries_lines_app(
    a: Seq<(Provider, ProviderConfigView)>,
    b: Seq<(Provider, ProviderConfigView)>,
)
    ensures
        spec_entries_lines(a + b) == spec_entries_lines(a) + spec_entries_lines(b),
    decreases a.len(),
{
    if a.len() == 0 {
        assert(a + b =~= b);
        assert(spec_entries_lines(a) + spec_entries_lines(b) =~= spec_entries_lines(b));
    } else {
        lemma_entries_lines_app(a.drop_first(), b);
        assert((a + b).drop_first() =~= a.drop_first() + b);
        assert((a + b)[0] == a[0]);
        assert(spec_entry_lines(a[0]) + (spec_entries_lines(a.drop_first())
            + spec_entries_lines(b)) =~= (spec_entry_lines(a[0]) + spec_entries_lines(
            a.drop_first(),
        )) + spec_entries_lines(b));
    }
}

/// The lines of a one-entry table suffix.
proof fn lemma_entries_lines_one(e: (Provider, ProviderConfigView))
    ensures
        spec_entries_lines(seq![e]) == spec_entry_lines(e),
{
    assert(seq![e].drop_first() =~= Seq::<(Provider, ProviderConfigView)>::empty());
    assert(seq![e][0] == e);
    assert(spec_entries_lines(seq![e]) == spec_entry_lines(e) + spec_entries_lines(
        seq![e].drop_first(),
    ));
    assert(spec_entry_lines(e) + Seq::<Seq<char>>::empty() =~= spec_entry_lines(e));
}

/// Appends one `key = "value"` line: the given prefix, the quoted value,
/// and a line break.
fn push_quoted_line(out: &mut String, prefix: &str, value: &str)
    ensures
        final(out)@ == old(out)@ + (prefix@ + spec_quote(value@)) + seq!['\n'],
{
    out.append(prefix);
    push_quoted(out, value);
    out.push('\n');
    proof {
        assert(out@ =~= old(out)@ + (prefix@ + spec_quote(value@)) + seq!['\n']);
    }
}

/// Appends a line of fixed text and a line break.
fn push_plain_line(out: &mut String, text: &str)
    ensures
        final(out)@ == old(out)@ + text@ + seq!['\n'],
{
    out.append(text);
    out.push('\n');
}

/// Renders a document into its canonical text, as [`spec_render_doc`]
/// describes.
pub fn render_document(d: &ConfigFile) -> (r: String)
    ensures
        r@ == spec_render_doc(d@),
{
    let mut out = String::new();
    let ghost mut done: Seq<Seq<char>> = Seq::empty();
    proof {
        assert(out@ =~= spec_unlines(done));
    }
    if let Some(pe) = &d.persona {
        push_quoted_line(&mut out, "persona = ", pe.name());
        proof {
            lemma_unlines_snoc(done, spec_persona_line(*pe));
            done = done.push(spec_persona_line(*pe));
            assert(out@ =~= spec_unlines(done));
        }
    }
    proof {
        assert(done =~= spec_seg_persona(d@));
    }
    if d.auto_copy {
        push_plain_line(&mut out, "auto_copy = true");
        proof {
            reveal_strlit("auto_copy = true");
            reveal_strlit("auto_copy = ");
            reveal_strlit("true");
            assert("auto_copy = true"@ =~= spec_auto_copy_line(true));
        }
    } else {
        push_plain_line(&mut out, "auto_copy = false");
        proof {
            reveal_strlit("auto_copy = false");
            reveal_strlit("auto_copy = ");
            reveal_strlit("false");
            assert("auto_copy = false"@ =~= spec_auto_copy_line(false));
        }
    }
    proof {
        lemma_unlines_snoc(done, spec_auto_copy_line(d@.auto_copy));
        done = done.push(spec_auto_copy_line(d@.auto_copy));
        assert(out@ =~= spec_unlines(done));
        assert(done =~= spec_seg_persona(d@) + spec_seg_auto_copy(d@));
    }
    if let Some(lf) = &d.log_file {
        push_quoted_line(&mut out, "log_file = ", lf.as_str());
        proof {
            lemma_unlines_snoc(done, spec_log_file_line(lf@));
            done = done.push(spec_log_file_line(lf@));
            assert(out@ =~= spec_unlines(done));
        }
    }
    proof {
        assert(done =~= spec_seg_persona(d@) + spec_seg_auto_copy(d@) + spec_seg_log_file(d@));
    }
    if let Some(p) = &d.provider {
        push_quoted_line(&mut out, "provider = ", p.name());
        proof {
            lemma_unlines_snoc(done, spec_provider_line(*p));
            done = done.push(spec_provider_line(*p));
            assert(out@ =~= spec_unlines(done));
        }
    }
    proof {
        assert(done =~= spec_seg_persona(d@) + spec_seg_auto_copy(d@) + spec_seg_log_file(d@)
            + spec_seg_provider(d@));
    }
    let ghost base = done;
    if let Some(t) = &d.providers {
        push_plain_line(&mut out, "[providers]");
        proof {
            lemma_unlines_snoc(done, "[providers]"@);
            done = done.push("[providers]"@);
            assert(out@ =~= spec_unlines(done));
        }
        let ghost tv = table_view(t@);
        let n = t.len();
        let mut i: usize = 0;
        proof {
            assert(tv.take(0) =~= Seq::<(Provider, ProviderConfigView)>::empty());
            assert(done + spec_entries_lines(tv.take(0)) =~= done);
        }
        let ghost done0 = done;
        while i < n
            invariant
                n == t@.len(),
                0 <= i <= n,
                tv == table_view(t@),
                done == done0 + spec_entries_lines(tv.take(i as int)),
                after_borrow(out)@ == spec_unlines(done),
            decreases n - i,
        {
            let ghost e = tv[i as int];
            out.append("[providers.");
            out.append(t[i].0.name());
            push_plain_line(&mut out, "]");
            proof {
                assert(out@ =~= spec_unlines(done) + spec_section_header_line(e.0) + seq!['\n']);
                lemma_unlines_snoc(done, spec_section_header_line(e.0));
                done = done.push(spec_section_header_line(e.0));
                assert(out@ =~= spec_unlines(done));
            }
            push_quoted_line(&mut out, "api_key = ", t[i].1.api_key.as_str());
            proof {
                lemma_unlines_snoc(done, spec_api_key_line(e.1.api_key));
                done = done.push(spec_api_key_line(e.1.api_key));
                assert(out@ =~= spec_unlines(done));
            }
            push_quoted_line(&mut out, "model = ", t[i].1.model.as_str());
            proof {
                lemma_unlines_snoc(done, spec_model_line(e.1.model));
                done = done.push(spec_model_line(e.1.model));
                assert(out@ =~= spec_unlines(done));
                assert(tv.take(i + 1) =~= tv.take(i as int) + seq![e]);
                lemma_entries_lines_app(tv.take(i as int), seq![e]);
                lemma_entries_lines_one(e);
                assert(done =~= done0 + spec_entries_lines(tv.take(i + 1)));
            }
            i = i + 1;
        }
        proof {
            assert(tv.take(n as int) =~= tv);
            assert(done =~= base + (seq!["[providers]"@] + spec_entries_lines(tv)));
        }
    }
    proof {
        assert(done =~= spec_render_lines(d@));
    }
    out
}

} // verus!

// Rendering and parsing are inverse: each rendered line steps the parser
// state exactly as intended, and the whole rendered text parses back to the
// document.
verus! {

/// A prefixed sequence starts with its prefix, and the rest follows it.
proof fn lemma_starts_with_prefix(p: Seq<char>, rest: Seq<char>)
    ensures
        spec_starts_with(p + rest, p),
        (p + rest).skip(p.len() as int) == rest,
{
    assert((p + rest).take(p.len() as int) =~= p);
    assert((p + rest).skip(p.len() as int) =~= rest);
}

/// A sequence does not start with a prefix it differs from at some index.
proof fn lemma_not_starts_with(p: Seq<char>, rest: Seq<char>, q: Seq<char>, k: int)
    requires
        0 <= k < q.len(),
        k < p.len(),
        p[k] != q[k],
    ensures
        !spec_starts_with(p + rest, q),
{
    if spec_starts_with(p + rest, q) {
        assert((p + rest).take(q.len() as int)[k] == q[k]);
        assert((p + rest)[k] == p[k]);
    }
}

/// A quoted value reads back as the value.
proof fn lemma_parse_quote(s: Seq<char>)
    ensures
        spec_parse_string_token(spec_quote(s)) == Some(s),
{
    let q = spec_quote(s);
    assert(q[0] == '"');
    assert(q.skip(1) =~= spec_escape(s) + seq!['"']);
    lemma_unescape_escape(s);
}

/// Folding a single line steps once.
proof fn lemma_fold_one(st: ParseStateView, l: Seq<char>)
    ensures
        spec_parse_fold(Some(st), seq![l]) == spec_step(st, l),
{
    assert(seq![l].drop_first() =~= Seq::<Seq<char>>::empty());
    assert(seq![l][0] == l);
    assert(spec_parse_fold(Some(st), seq![l]) == spec_parse_fold(
        spec_step(st, l),
        seq![l].drop_first(),
    ));
    assert(spec_parse_fold(spec_step(st, l), seq![l].drop_first()) == spec_step(st, l));
}

/// A rendered `provider` line selects the provider.
proof fn lemma_step_provider_line(st: ParseStateView, p: Provider)
    requires
        st.cur is None,
        st.provider is None,
    ensures
        spec_step(st, spec_provider_line(p)) == Some(ParseStateView { provider: Some(p), ..st }),
{
    reveal_strlit("provider = ");
    let key = "provider = "@;
    let tok = spec_quote(spec_provider_name(p));
    let line = spec_provider_line(p);
    assert(line[0] == key[0]);
    assert(line[0] == 'p');
    lemma_starts_with_prefix(key, tok);
    lemma_parse_quote(spec_provider_name(p));
    crate::provider::lemma_provider_names_injective();
}

/// A rendered `persona` line selects the persona.
proof fn lemma_step_persona_line(st: ParseStateView, pe: Persona)
    requires
        st.cur is None,
        st.persona is None,
    ensures
        spec_step(st, spec_persona_line(pe)) == Some(ParseStateView { persona: Some(pe), ..st }),
{
    reveal_strlit("persona = ");
    reveal_strlit("provider = ");
    reveal_strlit("default");
    let key = "persona = "@;
    let tok = spec_quote(spec_persona_name(pe));
    let line = spec_persona_line(pe);
    assert(line[0] == key[0]);
    assert(line[0] == 'p');
    lemma_starts_with_prefix(key, tok);
    lemma_not_starts_with(key, tok, "provider = "@, 1);
    lemma_parse_quote(spec_persona_name(pe));
    match pe {
        Persona::Default => {},
    }
}

/// A rendered `auto_copy` line sets the flag.
proof fn lemma_step_auto_copy_line(st: ParseStateView, b: bool)
    requires
        st.cur is None,
        st.auto_copy is None,
    ensures
        spec_step(st, spec_auto_copy_line(b)) == Some(
            ParseStateView { auto_copy: Some(b), ..st },
        ),
{
    reveal_strlit("auto_copy = ");
    reveal_strlit("provider = ");
    reveal_strlit("persona = ");
    reveal_strlit("true");
    reveal_strlit("false");
    let key = "auto_copy = "@;
    let tok: Seq<char> = if b {
        "true"@
    } else {
        "false"@
    };
    let line = spec_auto_copy_line(b);
    assert(line[0] == key[0]);
    assert(line[0] == 'a');
    lemma_starts_with_prefix(key, tok);
    lemma_not_starts_with(key, tok, "provider = "@, 0);
    lemma_not_starts_with(key, tok, "persona = "@, 0);
    if !b {
        assert("false"@.len() != "true"@.len());
    }
}

/// A rendered `log_file` line sets the path.
proof fn lemma_step_log_file_line(st: ParseStateView, s: Seq<char>)
    requires
        st.cur is None,
        st.log_file is None,
    ensures
        spec_step(st, spec_log_file_line(s)) == Some(ParseStateView { log_file: Some(s), ..st }),
{
    reveal_strlit("log_file = ");
    reveal_strlit("provider = ");
    reveal_strlit("persona = ");
    reveal_strlit("auto_copy = ");
    let key = "log_file = "@;
    let tok = spec_quote(s);
    let line = spec_log_file_line(s);
    assert(line[0] == key[0]);
    assert(line[0] == 'l');
    lemma_starts_with_prefix(key, tok);
    lemma_not_starts_with(key, tok, "provider = "@, 0);
    lemma_not_starts_with(key, tok, "persona = "@, 0);
    lemma_not_starts_with(key, tok, "auto_copy = "@, 0);
    lemma_parse_quote(s);
}

/// The bare providers header announces the table.
proof fn lemma_step_providers_header(st: ParseStateView)
    requires
        !st.providers_present,
    ensures
        spec_step(st, "[providers]"@) == Some(
            ParseStateView { providers_present: true, ..st },
        ),
{
    reveal_strlit("[providers]");
    assert("[providers]"@[0] == '[');
}

/// A rendered section header closes the open section and opens one for the
/// named provider.
proof fn lemma_step_section_header(st: ParseStateView, p: Provider)
    requires
        spec_close_cur(st) is Some,
        !table_contains(spec_close_cur(st)->0.entries, p),
    ensures
        spec_step(st, spec_section_header_line(p)) == Some(
            ParseStateView {
                cur: Some(CurSectionView { provider: p, api_key: None, model: None }),
                providers_present: true,
                ..spec_close_cur(st)->0
            },
        ),
{
    reveal_strlit("[providers.");
    reveal_strlit("[providers]");
    reveal_strlit("]");
    reveal_strlit("openrouter");
    reveal_strlit("openai");
    let name = spec_provider_name(p);
    let line = spec_section_header_line(p);
    match p {
        Provider::OpenRouter => {
            assert(name.len() == 10);
        },
        Provider::OpenAI => {
            assert(name.len() == 6);
        },
    }
    assert(line.len() == 12 + name.len());
    assert(line[0] == '[');
    assert(line.len() != "[providers]"@.len());
    assert(line != "[providers]"@);
    assert(line.take(11) =~= "[providers."@);
    assert(spec_starts_with(line, "[providers."@));
    assert(line[line.len() - 1] == ']');
    assert(line.subrange(11, line.len() - 1) =~= name);
    crate::provider::lemma_provider_names_injective();
}

/// A rendered `api_key` line stores the key in the open section.
proof fn lemma_step_api_key_line(st: ParseStateView, s: Seq<char>)
    requires
        st.cur matches Some(c) && c.api_key is None,
    ensures
        spec_step(st, spec_api_key_line(s)) == Some(
            ParseStateView {
                cur: Some(CurSectionView { api_key: Some(s), ..st.cur->0 }),
                ..st
            },
        ),
{
    reveal_strlit("api_key = ");
    let key = "api_key = "@;
    let tok = spec_quote(s);
    let line = spec_api_key_line(s);
    assert(line[0] == key[0]);
    assert(line[0] == 'a');
    lemma_starts_with_prefix(key, tok);
    lemma_parse_quote(s);
}

/// A rendered `model` line stores the model in the open section.
proof fn lemma_step_model_line(st: ParseStateView, s: Seq<char>)
    requires
        st.cur matches Some(c) && c.model is None,
    ensures
        spec_step(st, spec_model_line(s)) == Some(
            ParseStateView { cur: Some(CurSectionView { model: Some(s), ..st.cur->0 }), ..st },
        ),
{
    reveal_strlit("model = ");
    reveal_strlit("api_key = ");
    let key = "model = "@;
    let tok = spec_quote(s);
    let line = spec_model_line(s);
    assert(line[0] == key[0]);
    assert(line[0] == 'm');
    lemma_starts_with_prefix(key, tok);
    lemma_not_starts_with(key, tok, "api_key = "@, 0);
    lemma_parse_quote(s);
}

} // verus!

// The round trip itself.
verus! {

/// A quoted value stays within its line.
proof fn lemma_quote_line_free(s: Seq<char>)
    ensures
        spec_line_free(spec_quote(s)),
{
    lemma_escape_line_free(s);
    let q = spec_quote(s);
    assert forall|i: int| 0 <= i < q.len() implies q[i] != '\n' by {
        if i == 0 {
            assert(q[i] == '"');
        } else if i == q.len() - 1 {
            assert(q[i] == '"');
        } else {
            assert(q[i] == spec_escape(s)[i - 1]);
        }
    }
}

/// Concatenating break-free pieces stays break-free.
proof fn lemma_line_free_concat(a: Seq<char>, b: Seq<char>)
    requires
        spec_line_free(a),
        spec_line_free(b),
    ensures
        spec_line_free(a + b),
{
    assert forall|i: int| 0 <= i < (a + b).len() implies (a + b)[i] != '\n' by {
        if i < a.len() {
            assert((a + b)[i] == a[i]);
        } else {
            assert((a + b)[i] == b[i - a.len()]);
        }
    }
}

/// Every rendered line is free of line breaks.
proof fn lemma_render_lines_free(d: DocView)
    ensures
        forall|k: int| 0 <= k < spec_render_lines(d).len() ==> spec_line_free(
            #[trigger] spec_render_lines(d)[k],
        ),
{
    reveal_strlit("provider = ");
    reveal_strlit("persona = ");
    reveal_strlit("auto_copy = ");
    reveal_strlit("log_file = ");
    reveal_strlit("true");
    reveal_strlit("false");
    reveal_strlit("[providers]");
    reveal_strlit("[providers.");
    reveal_strlit("]");
    reveal_strlit("api_key = ");
    reveal_strlit("model = ");
    reveal_strlit("openrouter");
    reveal_strlit("openai");
    reveal_strlit("default");
    assert(spec_line_free("provider = "@));
    assert(spec_line_free("persona = "@));
    assert(spec_line_free("auto_copy = "@));
    assert(spec_line_free("log_file = "@));
    assert(spec_line_free("true"@));
    assert(spec_line_free("false"@));
    assert(spec_line_free("[providers]"@));
    assert(spec_line_free("[providers."@));
    assert(spec_line_free("]"@));
    assert(spec_line_free("api_key = "@));
    assert(spec_line_free("model = "@));
    assert(spec_line_free("openrouter"@));
    assert(spec_line_free("openai"@));
    assert(spec_line_free("default"@));
    let ls = spec_render_lines(d);
    assert forall|k: int| 0 <= k < ls.len() implies spec_line_free(#[trigger] ls[k]) by {
        lemma_line_free_of_line(d, ls[k], k);
    }
}

/// Helper: a named line of the rendering is break-free.  The index only
/// serves to name which segment the line belongs to.
proof fn lemma_line_free_of_line(d: DocView, l: Seq<char>, k: int)
    requires
        0 <= k < spec_render_lines(d).len(),
        l == spec_render_lines(d)[k],
    ensures
        spec_line_free(l),
{
    reveal_strlit("provider = ");
    reveal_strlit("persona = ");
    reveal_strlit("auto_copy = ");
    reveal_strlit("log_file = ");
    reveal_strlit("true");
    reveal_strlit("false");
    reveal_strlit("[providers]");
    reveal_strlit("[providers.");
    reveal_strlit("]");
    reveal_strlit("api_key = ");
    reveal_strlit("model = ");
    reveal_strlit("openrouter");
    reveal_strlit("openai");
    reveal_strlit("default");
    let s1 = spec_seg_persona(d);
    let s2 = spec_seg_auto_copy(d);
    let s3 = spec_seg_log_file(d);
    let s4 = spec_seg_provider(d);
    let s5 = spec_seg_table(d);
    let ls = spec_render_lines(d);
    if k < s1.len() + s2.len() + s3.len() + s4.len() {
        if k < s1.len() {
            assert(l == s1[k]);
            let pe = d.persona->0;
            lemma_quote_line_free(spec_persona_name(pe));
            assert(spec_line_free("persona = "@));
            lemma_line_free_concat("persona = "@, spec_quote(spec_persona_name(pe)));
        } else if k < s1.len() + s2.len() {
            assert(l == s2[k - s1.len()]);
            assert(spec_line_free("auto_copy = "@));
            if d.auto_copy {
                lemma_line_free_concat("auto_copy = "@, "true"@);
            } else {
                lemma_line_free_concat("auto_copy = "@, "false"@);
            }
        } else if k < s1.len() + s2.len() + s3.len() {
            assert(l == s3[k - s1.len() - s2.len()]);
            let s = d.log_file->0;
            lemma_quote_line_free(s);
            lemma_line_free_concat("log_file = "@, spec_quote(s));
        } else {
            assert(l == s4[k - s1.len() - s2.len() - s3.len()]);
            let p = d.provider->0;
            lemma_quote_line_free(spec_provider_name(p));
            lemma_line_free_concat("provider = "@, spec_quote(spec_provider_name(p)));
        }
    } else {
        let k5 = k - (s1.len() + s2.len() + s3.len() + s4.len());
        assert(l == s5[k5]);
        let t = d.providers->0;
        if k5 == 0 {
            assert(l == "[providers]"@);
        } else {
            assert(l == spec_entries_lines(t)[k5 - 1]);
            lemma_entries_lines_free(t, k5 - 1);
        }
    }
}

/// Helper: every section line is break-free.
proof fn lemma_entries_lines_free(t: Seq<(Provider, ProviderConfigView)>, k: int)
    requires
        0 <= k < spec_entries_lines(t).len(),
    ensures
        spec_line_free(spec_entries_lines(t)[k]),
    decreases t.len(),
{
    reveal_strlit("[providers.");
    reveal_strlit("]");
    reveal_strlit("api_key = ");
    reveal_strlit("model = ");
    reveal_strlit("openrouter");
    reveal_strlit("openai");
    let e = t[0];
    let head = spec_entry_lines(e);
    if k < head.len() {
        assert(spec_entries_lines(t)[k] == head[k]);
        assert(spec_line_free("[providers."@));
        assert(spec_line_free("]"@));
        match e.0 {
            Provider::OpenRouter => {
                assert(spec_line_free("openrouter"@));
                lemma_line_free_concat("[providers."@, spec_provider_name(e.0));
            },
            Provider::OpenAI => {
                assert(spec_line_free("openai"@));
                lemma_line_free_concat("[providers."@, spec_provider_name(e.0));
            },
        }
        lemma_line_free_concat("[providers."@ + spec_provider_name(e.0), "]"@);
        lemma_quote_line_free(e.1.api_key);
        lemma_line_free_concat("api_key = "@, spec_quote(e.1.api_key));
        lemma_quote_line_free(e.1.model);
        lemma_line_free_concat("model = "@, spec_quote(e.1.model));
    } else {
        assert(spec_entries_lines(t)[k] == spec_entries_lines(t.drop_first())[k - head.len()]);
        lemma_entries_lines_free(t.drop_first(), k - head.len());
    }
}

/// Folding the rendered sections of a table extends the closed entries by
/// exactly that table.
proof fn lemma_fold_entries(st: ParseStateView, rem: Seq<(Provider, ProviderConfigView)>)
    requires
        st.providers_present,
        spec_close_cur(st) is Some,
        table_unique_keys(spec_close_cur(st)->0.entries + rem),
    ensures
        ({
            let stc = spec_close_cur(st)->0;
            let r = spec_parse_fold(Some(st), spec_entries_lines(rem));
            r is Some && spec_close_cur(r->0) == Some(
                ParseStateView { entries: stc.entries + rem, cur: None, ..stc },
            )
        }),
    decreases rem.len(),
{
    let stc = spec_close_cur(st)->0;
    if rem.len() == 0 {
        assert(stc.cur is None);
        assert(stc.entries + rem =~= stc.entries);
        assert(ParseStateView { entries: stc.entries + rem, cur: None, ..stc } =~~= stc);
    } else {
        let e = rem[0];
        let h = spec_section_header_line(e.0);
        let a = spec_api_key_line(e.1.api_key);
        let m = spec_model_line(e.1.model);
        let rest = rem.drop_first();
        let all = stc.entries + rem;
        lemma_table_contains_exists(stc.entries, e.0);
        assert(!table_contains(stc.entries, e.0)) by {
            if table_contains(stc.entries, e.0) {
                let i = choose|i: int| 0 <= i < stc.entries.len() && stc.entries[i].0 == e.0;
                assert(all[i] == stc.entries[i]);
                assert(all[stc.entries.len() as int] == e);
            }
        }
        lemma_step_section_header(st, e.0);
        let st1 = ParseStateView {
            cur: Some(CurSectionView { provider: e.0, api_key: None, model: None }),
            providers_present: true,
            ..stc
        };
        lemma_step_api_key_line(st1, e.1.api_key);
        let st2 = ParseStateView {
            cur: Some(
                CurSectionView { provider: e.0, api_key: Some(e.1.api_key), model: None },
            ),
            ..st1
        };
        lemma_step_model_line(st2, e.1.model);
        let st3 = ParseStateView {
            cur: Some(
                CurSectionView {
                    provider: e.0,
                    api_key: Some(e.1.api_key),
                    model: Some(e.1.model),
                },
            ),
            ..st2
        };
        assert(spec_step(st, h) == Some(st1));
        assert(spec_step(st1, a) == Some(st2)) by {
            assert(CurSectionView { api_key: Some(e.1.api_key), ..st1.cur->0 } =~= st2.cur->0);
        }
        assert(spec_step(st2, m) == Some(st3)) by {
            assert(CurSectionView { model: Some(e.1.model), ..st2.cur->0 } =~= st3.cur->0);
        }
        assert(spec_entries_lines(rem) =~= seq![h] + (seq![a] + (seq![m]
            + spec_entries_lines(rest))));
        lemma_fold_app(Some(st), seq![h], seq![a] + (seq![m] + spec_entries_lines(rest)));
        lemma_fold_one(st, h);
        lemma_fold_app(Some(st1), seq![a], seq![m] + spec_entries_lines(rest));
        lemma_fold_one(st1, a);
        lemma_fold_app(Some(st2), seq![m], spec_entries_lines(rest));
        lemma_fold_one(st2, m);
        let stc3 = spec_close_cur(st3)->0;
        assert(ProviderConfigView { api_key: e.1.api_key, model: e.1.model } =~= e.1);
        assert(stc3.entries =~= stc.entries + seq![e]);
        assert(seq![e] + rest =~= rem);
        assert(stc3.entries + rest =~= stc.entries + rem);
        lemma_fold_entries(st3, rest);
        let r = spec_parse_fold(Some(st3), spec_entries_lines(rest));
        assert(spec_parse_fold(Some(st), spec_entries_lines(rem)) == r);
        assert(spec_close_cur(r->0) == Some(
            ParseStateView { entries: stc3.entries + rest, cur: None, ..stc3 },
        ));
        assert(ParseStateView { entries: stc3.entries + rest, cur: None, ..stc3 } =~~=
        ParseStateView { entries: stc.entries + rem, cur: None, ..stc });
    }
}

/// Rendering and parsing are inverse: the canonical text of a well-formed
/// document parses back to exactly that document.
pub proof fn lemma_parse_render_round_trip(d: DocView)
    requires
        d.wf(),
    ensures
        spec_parse_doc(spec_render_doc(d)) == Some(d),
{
    let ls = spec_render_lines(d);
    lemma_render_lines_free(d);
    lemma_split_unlines(ls);
    let st0 = spec_init_state();
    let s1 = spec_seg_persona(d);
    let s2 = spec_seg_auto_copy(d);
    let s3 = spec_seg_log_file(d);
    let s4 = spec_seg_provider(d);
    let s5 = spec_seg_table(d);
    assert(ls =~= s1 + (s2 + (s3 + (s4 + s5))));
    let st1 = ParseStateView { persona: d.persona, ..st0 };
    lemma_fold_app(Some(st0), s1, s2 + (s3 + (s4 + s5)));
    match d.persona {
        Some(pe) => {
            lemma_fold_one(st0, spec_persona_line(pe));
            lemma_step_persona_line(st0, pe);
        },
        None => {
            assert(st1 =~~= st0);
        },
    }
    assert(spec_parse_fold(Some(st0), s1) == Some(st1));
    let st2 = ParseStateView { auto_copy: Some(d.auto_copy), ..st1 };
    lemma_fold_app(Some(st1), s2, s3 + (s4 + s5));
    lemma_fold_one(st1, spec_auto_copy_line(d.auto_copy));
    lemma_step_auto_copy_line(st1, d.auto_copy);
    assert(spec_parse_fold(Some(st1), s2) == Some(st2));
    let st3 = ParseStateView { log_file: d.log_file, ..st2 };
    lemma_fold_app(Some(st2), s3, s4 + s5);
    match d.log_file {
        Some(s) => {
            lemma_fold_one(st2, spec_log_file_line(s));
            lemma_step_log_file_line(st2, s);
        },
        None => {
            assert(st3 =~~= st2);
        },
    }
    assert(spec_parse_fold(Some(st2), s3) == Some(st3));
    let st4 = ParseStateView { provider: d.provider, ..st3 };
    lemma_fold_app(Some(st3), s4, s5);
    match d.provider {
        Some(p) => {
            lemma_fold_one(st3, spec_provider_line(p));
            lemma_step_provider_line(st3, p);
        },
        None => {
            assert(st4 =~~= st3);
        },
    }
    assert(spec_parse_fold(Some(st3), s4) == Some(st4));
    match d.providers {
        None => {
            assert(spec_parse_fold(Some(st4), s5) == Some(st4));
            assert(spec_finish(st4) matches Some(d2) && d2 =~~= d);
        },
        Some(t) => {
            assert(s5 =~= seq!["[providers]"@] + spec_entries_lines(t));
            lemma_fold_app(Some(st4), seq!["[providers]"@], spec_entries_lines(t));
            lemma_fold_one(st4, "[providers]"@);
            lemma_step_providers_header(st4);
            let st5 = ParseStateView { providers_present: true, ..st4 };
            assert(spec_close_cur(st5) == Some(st5));
            assert(st5.entries + t =~= t);
            lemma_fold_entries(st5, t);
            let r = spec_parse_fold(Some(st5), spec_entries_lines(t));
            let stf = r->0;
            let stc = spec_close_cur(stf)->0;
            assert(stc =~~= ParseStateView { entries: t, cur: None, ..st5 });
            assert(spec_finish(stf) matches Some(d2) && d2 =~~= d);
        },
    }
}

} // verus!
