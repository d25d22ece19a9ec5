//! Originate command builder with endpoint configuration, variable scoping,
//! and quoting of application arguments.

use super::endpoint::{endpoint_outcome, endpoint_text, endpoint_view, Endpoint, EndpointView};
use super::{
    escape_quotes, fault_is, lemma_escape_front, lemma_unescape_escape, quoted, replace_pair, replace_pair_str, split_outcome, target_outcome, target_view,
    unquoted, OriginateFault, TargetView,
};
use crate::numeric::decimal;
use crate::header_map::{
    insert_entry, keys_distinct, lookup, map_entries, map_get_index, map_get_str, map_len, map_new, map_set, Entry,
    HeaderMap,
};
use crate::text::{
    ascii_lower_seq, concat2, concat3, eq_ignore_ascii_case, from_char_range, has_char, owned, push_char, push_str,
    split_once, split_once_char, str_eq_ignore_ascii_case, str_has_char, strip_prefix, to_chars, trim,
    trimmed,
};
use vstd::prelude::*;

verus! {

/// Errors from originate command parsing or construction.
#[derive(Debug, Clone, PartialEq, Eq)]
pub enum OriginateError {
    /// A single-quoted token was never closed.
    UnclosedQuote(String),
    /// General parse failure with a description.
    ParseError(String),
    /// Inline originate requires at least one application.
    EmptyInlineApplications,
    /// Extension target cannot use inline dialplan.
    ExtensionWithInlineDialplan,
}

impl OriginateError {
    /// The error's message.
    pub open spec fn text_view(self) -> Seq<char> {
        match self {
            OriginateError::UnclosedQuote(s) => "unclosed quote at: "@ + s@,
            OriginateError::ParseError(s) => "parse error: "@ + s@,
            OriginateError::EmptyInlineApplications => "inline originate requires at least one application"@,
            OriginateError::ExtensionWithInlineDialplan => "extension target is incompatible with inline dialplan"@,
        }
    }

    /// Human-readable message.
    pub fn to_string(&self) -> (r: String)
        ensures
            r@ == self.text_view(),
    {
        match self {
            OriginateError::UnclosedQuote(s) => concat2("unclosed quote at: ", s.as_str()),
            OriginateError::ParseError(s) => concat2("parse error: ", s.as_str()),
            OriginateError::EmptyInlineApplications => owned("inline originate requires at least one application"),
            OriginateError::ExtensionWithInlineDialplan => owned("extension target is incompatible with inline dialplan"),
        }
    }
}

// ---------------------------------------------------------------------------
// Dialplan and variable scope
// ---------------------------------------------------------------------------

/// FreeSWITCH dialplan type for originate commands.
#[derive(Debug, Clone, Copy, PartialEq, Eq, Hash, Structural)]
pub enum DialplanType {
    /// Inline dialplan: applications execute directly without XML lookup.
    Inline,
    /// XML dialplan: route through the XML dialplan engine.
    Xml,
}

/// Error returned when parsing an invalid dialplan type string.
#[derive(Debug, Clone, PartialEq, Eq)]
pub struct ParseDialplanTypeError(pub String);

impl ParseDialplanTypeError {
    /// Human-readable message: `unknown dialplan type: <input>`.
    pub fn to_string(&self) -> (r: String)
        ensures
            r@ == "unknown dialplan type: "@ + self.0@,
    {
        concat2("unknown dialplan type: ", self.0.as_str())
    }
}

impl DialplanType {
    /// Wire name.
    pub open spec fn spec_name(self) -> Seq<char> {
        match self {
            DialplanType::Inline => "inline"@,
            DialplanType::Xml => "XML"@,
        }
    }

    /// The type a name stands for, ignoring ASCII case.
    pub open spec fn from_name(s: Seq<char>) -> Option<DialplanType> {
        if eq_ignore_ascii_case(s, "inline"@) {
            Some(DialplanType::Inline)
        } else if eq_ignore_ascii_case(s, "xml"@) {
            Some(DialplanType::Xml)
        } else {
            None
        }
    }

    /// Wire name: `inline` or `XML`.
    pub fn to_string(&self) -> (r: String)
        ensures
            r@ == self.spec_name(),
    {
        match self {
            DialplanType::Inline => owned("inline"),
            DialplanType::Xml => owned("XML"),
        }
    }

    /// Parse a dialplan type, ignoring ASCII case.
    pub fn parse(s: &str) -> (r: Result<DialplanType, ParseDialplanTypeError>)
        ensures
            match DialplanType::from_name(s@) {
                Some(d) => r == Ok::<DialplanType, ParseDialplanTypeError>(d),
                None => r matches Err(e) && e.0@ == s@,
            },
    {
        if str_eq_ignore_ascii_case(s, "inline") {
            Ok(DialplanType::Inline)
        } else if str_eq_ignore_ascii_case(s, "xml") {
            Ok(DialplanType::Xml)
        } else {
            Err(ParseDialplanTypeError(owned(s)))
        }
    }
}

/// Every dialplan type reads back from the name `to_string` writes for it.
pub proof fn lemma_dialplan_type_name_round_trip(d: DialplanType)
    ensures
        DialplanType::from_name(d.spec_name()) == Some(d),
{
    reveal_strlit("inline");
    reveal_strlit("XML");
    reveal_strlit("xml");
    assert(ascii_lower_seq("inline"@) =~= "inline"@);
    assert(ascii_lower_seq("XML"@) =~= "xml"@);
    assert(ascii_lower_seq("xml"@) =~= "xml"@);
    assert(ascii_lower_seq("XML"@).len() != ascii_lower_seq("inline"@).len());
}

impl std::str::FromStr for DialplanType {
    type Err = ParseDialplanTypeError;

    /// The same as [`DialplanType::parse`].
    fn from_str(s: &str) -> (r: Result<DialplanType, ParseDialplanTypeError>)
        ensures
            match DialplanType::from_name(s@) {
                Some(d) => r == Ok::<DialplanType, ParseDialplanTypeError>(d),
                None => r matches Err(e) && e.0@ == s@,
            },
    {
        DialplanType::parse(s)
    }
}

/// Scope for channel variables in an originate command.
#[derive(Debug, Clone, Copy, PartialEq, Eq, Structural)]
pub enum VariablesType {
    /// `<>` scope: applies across all `:_:` separated threads.
    Enterprise,
    /// `{}` scope: applies to all channels in this originate.
    Default,
    /// `[]` scope: applies to one specific channel.
    Channel,
}

impl VariablesType {
    /// The opening and closing delimiters of the scope.
    pub open spec fn spec_delimiters(self) -> (char, char) {
        match self {
            VariablesType::Enterprise => ('<', '>'),
            VariablesType::Default => ('{', '}'),
            VariablesType::Channel => ('[', ']'),
        }
    }

    /// The opening and closing delimiters of the scope.
    pub fn delimiters(self) -> (r: (char, char))
        ensures
            r == self.spec_delimiters(),
    {
        match self {
            VariablesType::Enterprise => ('<', '>'),
            VariablesType::Default => ('{', '}'),
            VariablesType::Channel => ('[', ']'),
        }
    }
}

// ---------------------------------------------------------------------------
// Applications and targets
// ---------------------------------------------------------------------------

/// A single dialplan application with optional arguments.
#[derive(Debug, Clone, PartialEq, Eq)]
pub struct Application {
    /// Application name (e.g. `park`, `conference`, `socket`).
    pub name: String,
    /// Application arguments, if any.
    pub args: Option<String>,
}

/// An application written for a dialplan: `name` or `name:args` inline,
/// `&name(args)` otherwise.
pub open spec fn app_text(name: Seq<char>, args: Option<Seq<char>>, dialplan: DialplanType) -> Seq<char> {
    match dialplan {
        DialplanType::Inline => match args {
            Some(a) => name + ":"@ + a,
            None => name,
        },
        DialplanType::Xml => "&"@ + name + "("@ + match args {
            Some(a) => a,
            None => Seq::empty(),
        } + ")"@,
    }
}

impl Application {
    /// Create an application with optional arguments.
    pub fn new(name: &str, args: Option<&str>) -> (r: Application)
        ensures
            r.name@ == name@,
            crate::channel::opt_view(r.args) == crate::event::opt_str_view(args),
    {
        let args = match args {
            Some(a) => Some(owned(a)),
            None => None,
        };
        Application { name: owned(name), args }
    }

    /// Create an application with no arguments.
    pub fn simple(name: &str) -> (r: Application)
        ensures
            r.name@ == name@,
            r.args is None,
    {
        Application { name: owned(name), args: None }
    }

    /// Format as inline (`name:args`) or XML (`&name(args)`) syntax.
    pub fn to_string_with_dialplan(&self, dialplan: &DialplanType) -> (r: String)
        ensures
            r@ == app_text(self.name@, crate::channel::opt_view(self.args), *dialplan),
    {
        match dialplan {
            DialplanType::Inline => match &self.args {
                Some(args) => concat3(self.name.as_str(), ":", args.as_str()),
                None => self.name.clone(),
            },
            DialplanType::Xml => {
                let mut r = concat2("&", self.name.as_str());
                push_str(&mut r, "(");
                match &self.args {
                    Some(args) => push_str(&mut r, args.as_str()),
                    None => {},
                }
                push_str(&mut r, ")");
                r
            },
        }
    }
}

/// The target of an originate command: a dialplan extension, or
/// application(s) to execute directly.
#[derive(Debug, Clone, PartialEq, Eq)]
pub enum OriginateTarget {
    /// Route through the dialplan engine to this extension.
    Extension(String),
    /// Single application for XML dialplan: `&app(args)`.
    Application(Application),
    /// One or more applications for inline dialplan: `app:args,app:args`.
    InlineApplications(Vec<Application>),
}

impl From<Application> for OriginateTarget {
    fn from(app: Application) -> (r: OriginateTarget) {
        OriginateTarget::Application(app)
    }
}

impl vstd::std_specs::convert::FromSpecImpl<Application> for OriginateTarget {
    open spec fn obeys_from_spec() -> bool {
        true
    }

    open spec fn from_spec(app: Application) -> OriginateTarget {
        OriginateTarget::Application(app)
    }
}

impl From<Vec<Application>> for OriginateTarget {
    fn from(apps: Vec<Application>) -> (r: OriginateTarget) {
        OriginateTarget::InlineApplications(apps)
    }
}

impl vstd::std_specs::convert::FromSpecImpl<Vec<Application>> for OriginateTarget {
    open spec fn obeys_from_spec() -> bool {
        true
    }

    open spec fn from_spec(apps: Vec<Application>) -> OriginateTarget {
        OriginateTarget::InlineApplications(apps)
    }
}

// ---------------------------------------------------------------------------
// Variables
// ---------------------------------------------------------------------------

/// Each `'` and `,` of a value preceded by a backslash.
pub open spec fn escape_var_chars(s: Seq<char>) -> Seq<char>
    decreases s.len(),
{
    if s.len() == 0 {
        Seq::empty()
    } else {
        escape_var_chars(s.drop_last()) + if s.last() == '\'' {
            seq!['\\', '\'']
        } else if s.last() == ',' {
            seq!['\\', ',']
        } else {
            seq![s.last()]
        }
    }
}

/// A variable value as written: escaped, and wrapped in `'...'` when it
/// holds a space.
pub open spec fn escaped_value(v: Seq<char>) -> Seq<char> {
    let e = escape_var_chars(v);
    if has_char(e, ' ') {
        seq!['\''] + e + seq!['\'']
    } else {
        e
    }
}

/// One character of a value as [`escape_var_chars`] writes it.
pub open spec fn escape_var_one(c: char) -> Seq<char> {
    if c == '\'' {
        seq!['\\', '\'']
    } else if c == ',' {
        seq!['\\', ',']
    } else {
        seq![c]
    }
}

/// Escaping a value is escaping its first character, then the rest.
proof fn lemma_escape_var_front(c: char, r: Seq<char>)
    ensures
        escape_var_chars(seq![c] + r) == escape_var_one(c) + escape_var_chars(r),
    decreases r.len(),
{
    if r.len() == 0 {
        assert(seq![c] + r =~= seq![c]);
        assert(seq![c].drop_last() =~= Seq::<char>::empty());
        assert(seq![c].last() == c);
        assert(escape_var_chars(Seq::<char>::empty()) =~= Seq::<char>::empty());
        assert(escape_var_chars(seq![c]) =~= escape_var_chars(Seq::<char>::empty()) + escape_var_one(c));
        assert(escape_var_chars(r) =~= Seq::<char>::empty());
        assert(escape_var_one(c) + escape_var_chars(r) =~= escape_var_one(c));
    } else {
        let s = seq![c] + r;
        assert(s.drop_last() =~= seq![c] + r.drop_last());
        assert(s.last() == r.last());
        lemma_escape_var_front(c, r.drop_last());
        assert(escape_var_chars(s) =~= escape_var_one(c) + escape_var_chars(r));
    }
}

/// An escaped value never starts with a bare quote or a bare comma.
proof fn lemma_escape_var_head(r: Seq<char>)
    requires
        r.len() > 0,
    ensures
        escape_var_chars(r).len() > 0,
        escape_var_chars(r)[0] != '\'',
        escape_var_chars(r)[0] != ',',
{
    assert(r =~= seq![r[0]] + r.skip(1));
    lemma_escape_var_front(r[0], r.skip(1));
}

/// Unescaping the commas of an escaped value leaves its quotes escaped.
proof fn lemma_unescape_commas(t: Seq<char>)
    ensures
        replace_pair(escape_var_chars(t), '\\', ',', ',') == escape_quotes(t),
    decreases t.len(),
{
    if t.len() == 0 {
        assert(escape_var_chars(t) =~= Seq::<char>::empty());
        assert(escape_quotes(t) =~= Seq::<char>::empty());
    } else {
        let c = t[0];
        let r = t.skip(1);
        assert(t =~= seq![c] + r);
        lemma_escape_var_front(c, r);
        lemma_escape_front(c, r);
        lemma_unescape_commas(r);
        let e = escape_var_chars(t);
        if r.len() > 0 {
            lemma_escape_var_head(r);
        }
        if c == ',' {
            assert(e.skip(2) =~= escape_var_chars(r));
        } else if c == '\'' {
            assert(e.skip(1) =~= seq!['\''] + escape_var_chars(r));
            assert((seq!['\''] + escape_var_chars(r)).skip(1) =~= escape_var_chars(r));
            assert(replace_pair(e.skip(1), '\\', ',', ',') =~= seq!['\''] + escape_quotes(r));
        } else {
            assert(e.skip(1) =~= escape_var_chars(r));
        }
    }
}

/// Reading back a written variable value gives the value.
pub proof fn lemma_unescape_escape_value(v: Seq<char>)
    ensures
        unescaped_value(escaped_value(v)) == v,
{
    let e = escape_var_chars(v);
    lemma_unescape_commas(v);
    lemma_unescape_escape(v);
    if has_char(e, ' ') {
        let w = escaped_value(v);
        assert(w.subrange(1, w.len() - 1) =~= e);
    } else if v.len() > 0 {
        lemma_escape_var_head(v);
    }
}

/// A written value read back: outer quotes dropped, then `\,` and `\'`
/// unescaped.
pub open spec fn unescaped_value(v: Seq<char>) -> Seq<char> {
    let s = if v.len() >= 2 && v[0] == '\'' && v.last() == '\'' {
        v.subrange(1, v.len() - 1)
    } else {
        v
    };
    replace_pair(replace_pair(s, '\\', ',', ','), '\\', '\'', '\'')
}

/// Escape a variable value (see [`escaped_value`]).
pub fn escape_value(value: &str) -> (r: String)
    ensures
        r@ == escaped_value(value@),
{
    let v = to_chars(value);
    let mut e = String::new();
    let mut i: usize = 0;
    while i < v.len()
        invariant
            v@ == value@,
            i <= v.len(),
            e@ == escape_var_chars(value@.take(i as int)),
        decreases v.len() - i,
    {
        assert(value@.take(i + 1).drop_last() =~= value@.take(i as int));
        if v[i] == '\'' {
            push_char(&mut e, '\\');
            push_char(&mut e, '\'');
        } else if v[i] == ',' {
            push_char(&mut e, '\\');
            push_char(&mut e, ',');
        } else {
            push_char(&mut e, v[i]);
        }
        i += 1;
    }
    assert(value@.take(v.len() as int) =~= value@);
    if str_has_char(e.as_str(), ' ') {
        let mut r = String::new();
        push_char(&mut r, '\'');
        push_str(&mut r, e.as_str());
        push_char(&mut r, '\'');
        r
    } else {
        e
    }
}

/// Unescape a variable value (see [`unescaped_value`]).
pub fn unescape_value(value: &str) -> (r: String)
    ensures
        r@ == unescaped_value(value@),
{
    let v = to_chars(value);
    let n = v.len();
    let core = if n >= 2 && v[0] == '\'' && v[n - 1] == '\'' {
        from_char_range(&v, 1, n - 1)
    } else {
        owned(value)
    };
    let first = replace_pair_str(core.as_str(), '\\', ',', ',');
    replace_pair_str(first.as_str(), '\\', '\'', '\'')
}

/// Number of backslashes right before position `i`.
pub open spec fn backslashes_before(s: Seq<char>, i: int) -> nat
    decreases i,
{
    if i <= 0 || s[i - 1] != '\\' {
        0
    } else {
        1 + backslashes_before(s, i - 1)
    }
}

/// `s[i]` is a comma no odd run of backslashes escapes.
pub open spec fn is_split_comma(s: Seq<char>, i: int) -> bool {
    s[i] == ',' && backslashes_before(s, i) % 2 == 0
}

/// The parts before the first `k` characters' split commas, and where the
/// current part starts.
pub open spec fn comma_parts(s: Seq<char>, k: int) -> (Seq<Seq<char>>, int)
    decreases k,
{
    if k <= 0 {
        (Seq::empty(), 0)
    } else {
        let (ps, st) = comma_parts(s, k - 1);
        if is_split_comma(s, k - 1) {
            (ps.push(s.subrange(st, k - 1)), k)
        } else {
            (ps, st)
        }
    }
}

/// `s` split at its unescaped commas.
pub open spec fn split_unescaped(s: Seq<char>) -> Seq<Seq<char>> {
    let (ps, st) = comma_parts(s, s.len() as int);
    ps.push(s.skip(st))
}

/// Split on commas that are not escaped by an odd run of backslashes.
pub fn split_unescaped_commas(s: &str) -> (r: Vec<String>)
    ensures
        r@.len() == split_unescaped(s@).len(),
        forall|k: int| 0 <= k < r@.len() ==> #[trigger] r@[k]@ == split_unescaped(s@)[k],
{
    let v = to_chars(s);
    let mut parts: Vec<String> = Vec::new();
    let mut start: usize = 0;
    let mut i: usize = 0;
    while i < v.len()
        invariant
            v@ == s@,
            i <= v.len(),
            ({
                let (ps, st) = comma_parts(s@, i as int);
                &&& parts@.len() == ps.len()
                &&& forall|k: int| 0 <= k < ps.len() ==> #[trigger] parts@[k]@ == ps[k]
                &&& start == st
                &&& 0 <= st <= i
            }),
        decreases v.len() - i,
    {
        if v[i] == ',' {
            let mut backslashes: usize = 0;
            let mut j = i;
            while j > 0 && v[j - 1] == '\\'
                invariant
                    v@ == s@,
                    j <= i < v.len(),
                    backslashes == i - j,
                    backslashes_before(s@, i as int) == backslashes + backslashes_before(s@, j as int),
                decreases j,
            {
                backslashes += 1;
                j -= 1;
            }
            if backslashes % 2 == 0 {
                let piece = from_char_range(&v, start, i);
                parts.push(piece);
                start = i + 1;
            }
        }
        i += 1;
    }
    let last = from_char_range(&v, start, v.len());
    assert(last@ =~= s@.skip(start as int));
    parts.push(last);
    parts
}

/// Ordered set of channel variables with FreeSWITCH escaping.
#[derive(Debug, Clone, PartialEq, Eq)]
pub struct Variables {
    vars_type: VariablesType,
    inner: HeaderMap,
}

/// The body of a variable block: `key=value` pairs joined by `,`.
pub open spec fn vars_body(e: Seq<Entry>) -> Seq<char>
    decreases e.len(),
{
    if e.len() == 0 {
        Seq::empty()
    } else {
        vars_body(e.drop_last()) + (if e.len() > 1 { ","@ } else { Seq::empty() }) + e.last().0 + "="@
            + escaped_value(e.last().1)
    }
}

/// A variable block: the scope's delimiters around its body.
pub open spec fn vars_text(t: VariablesType, e: Seq<Entry>) -> Seq<char> {
    seq![t.spec_delimiters().0] + vars_body(e) + seq![t.spec_delimiters().1]
}

impl Variables {
    /// The variable scope.
    pub closed spec fn scope_view(self) -> VariablesType {
        self.vars_type
    }

    /// The variables, in order.
    pub closed spec fn entries(self) -> Seq<Entry> {
        map_entries(self.inner)
    }

    /// Create an empty variable set with the given scope.
    pub fn new(vars_type: VariablesType) -> (r: Variables)
        ensures
            r.scope_view() == vars_type,
            r.entries() == Seq::<Entry>::empty(),
    {
        Variables { vars_type, inner: map_new() }
    }

    /// Create from an existing ordered map.
    pub fn with_vars(vars_type: VariablesType, vars: HeaderMap) -> (r: Variables)
        ensures
            r.scope_view() == vars_type,
            r.entries() == map_entries(vars),
    {
        Variables { vars_type, inner: vars }
    }

    /// Insert or overwrite a variable.
    pub fn insert(&mut self, key: &str, value: &str)
        ensures
            final(self).scope_view() == old(self).scope_view(),
            final(self).entries() == insert_entry(old(self).entries(), key@, value@),
    {
        map_set(&mut self.inner, key, value);
    }

    /// Look up a variable by name.
    pub fn get(&self, key: &str) -> (r: Option<&str>)
        ensures
            crate::event::opt_str_view(r) == lookup(self.entries(), key@),
    {
        map_get_str(&self.inner, key)
    }

    /// Whether the set contains no variables.
    pub fn is_empty(&self) -> (r: bool)
        ensures
            r == (self.entries().len() == 0),
    {
        map_len(&self.inner) == 0
    }

    /// Number of variables.
    pub fn len(&self) -> (r: usize)
        ensures
            r == self.entries().len(),
    {
        map_len(&self.inner)
    }

    /// Variable scope (Enterprise, Default, or Channel).
    pub fn scope(&self) -> (r: VariablesType)
        ensures
            r == self.scope_view(),
    {
        self.vars_type
    }

    /// The variable at position `i`, in insertion order.
    pub fn get_index(&self, i: usize) -> (r: Option<(&str, &str)>)
        ensures
            i < self.entries().len() ==> (r matches Some(p) && (p.0@, p.1@) == self.entries()[i as int]),
            i >= self.entries().len() ==> r is None,
    {
        if i < map_len(&self.inner) {
            let (k, v) = map_get_index(&self.inner, i);
            Some((k.as_str(), v.as_str()))
        } else {
            None
        }
    }

    /// The variable block: `{k=v,...}`, `<...>` or `[...]` by scope.
    pub fn to_string(&self) -> (r: String)
        ensures
            r@ == vars_text(self.scope_view(), self.entries()),
    {
        let (open, close) = self.vars_type.delimiters();
        let mut r = String::new();
        push_char(&mut r, open);
        let n = map_len(&self.inner);
        let ghost e = map_entries(self.inner);
        let mut i: usize = 0;
        while i < n
            invariant
                n == e.len(),
                e == map_entries(self.inner),
                i <= n,
                r@ == seq![open] + vars_body(e.take(i as int)),
            decreases n - i,
        {
            let (k, v) = map_get_index(&self.inner, i);
            if i > 0 {
                push_str(&mut r, ",");
            }
            push_str(&mut r, k.as_str());
            push_str(&mut r, "=");
            let ev = escape_value(v.as_str());
            push_str(&mut r, ev.as_str());
            proof {
                assert(e.take(i + 1).drop_last() =~= e.take(i as int));
                if i == 0 {
                    assert(vars_body(e.take(0)) =~= Seq::<char>::empty());
                }
            }
            i += 1;
        }
        assert(e.take(n as int) =~= e);
        push_char(&mut r, close);
        r
    }
}

/// What parsing a variable block gives: its scope and entries, or the
/// failure's text.
#[verifier::opaque]
pub open spec fn vars_outcome(s: Seq<char>) -> Result<(VariablesType, Seq<Entry>), Seq<char>> {
    let t = trimmed(s);
    if vstd::utf8::encode_utf8(t).len() < 2 {
        Err("variable block too short"@)
    } else {
        let scope = if t[0] == '{' && t.last() == '}' {
            Some(VariablesType::Default)
        } else if t[0] == '<' && t.last() == '>' {
            Some(VariablesType::Enterprise)
        } else if t[0] == '[' && t.last() == ']' {
            Some(VariablesType::Channel)
        } else {
            None
        };
        match scope {
            None => Err("unknown variable delimiters: "@ + t),
            Some(vt) => {
                let inner = t.subrange(1, t.len() - 1);
                if inner.len() == 0 {
                    Ok((vt, Seq::empty()))
                } else {
                    match vars_fold(Seq::empty(), split_unescaped(inner)) {
                        Ok(e) => Ok((vt, e)),
                        Err(m) => Err(m),
                    }
                }
            },
        }
    }
}

/// The entries after adding each `key=value` part in order, or the text of
/// the error for the first part without `=`.
pub open spec fn vars_fold(e: Seq<Entry>, parts: Seq<Seq<char>>) -> Result<Seq<Entry>, Seq<char>>
    decreases parts.len(),
{
    if parts.len() == 0 {
        Ok(e)
    } else {
        match split_once_char(parts[0], '=') {
            None => Err("missing = in variable: "@ + parts[0]),
            Some((k, v)) => vars_fold(insert_entry(e, k, unescaped_value(v)), parts.skip(1)),
        }
    }
}

/// One `key=value` part of a variable block, as written.
pub open spec fn var_part(en: Entry) -> Seq<char> {
    en.0 + "="@ + escaped_value(en.1)
}

/// The written parts of a block's entries, in order.
pub open spec fn var_parts(e: Seq<Entry>) -> Seq<Seq<char>> {
    Seq::new(e.len(), |i: int| var_part(e[i]))
}

/// No comma of `s` splits it.
pub open spec fn no_split_comma(s: Seq<char>) -> bool {
    forall|j: int| 0 <= j < s.len() ==> !#[trigger] is_split_comma(s, j)
}

/// Entry `i` of `e` reads back from its written part: its key holds no `=`,
/// no comma of its part splits it, and, unless it is the last, its part
/// ends in an even run of backslashes (so the comma behind it splits).
pub open spec fn entry_reads_back(e: Seq<Entry>, i: int) -> bool {
    &&& !has_char(e[i].0, '=')
    &&& no_split_comma(var_part(e[i]))
    &&& (i < e.len() - 1 ==> backslashes_before(var_part(e[i]), var_part(e[i]).len() as int) % 2 == 0)
}

/// The backslashes before a position in `x` are those before it in `x + y`.
proof fn lemma_backslashes_prefix(x: Seq<char>, y: Seq<char>, i: int)
    requires
        0 <= i <= x.len(),
    ensures
        backslashes_before(x + y, i) == backslashes_before(x, i),
    decreases i,
{
    if i > 0 {
        assert((x + y)[i - 1] == x[i - 1]);
        lemma_backslashes_prefix(x, y, i - 1);
    }
}

/// Behind a text that does not end in a backslash, the backslashes before a
/// position of `y` are those before it in `y`.
proof fn lemma_backslashes_shift(x: Seq<char>, y: Seq<char>, j: int)
    requires
        x.len() > 0,
        x.last() != '\\',
        0 <= j <= y.len(),
    ensures
        backslashes_before(x + y, x.len() + j) == backslashes_before(y, j),
    decreases j,
{
    if j == 0 {
        assert((x + y)[x.len() - 1] == x.last());
    } else {
        assert((x + y)[x.len() + j - 1] == y[j - 1]);
        lemma_backslashes_shift(x, y, j - 1);
    }
}

/// Where the current part starts lies between 0 and `k`, just behind a
/// splitting comma when not at 0.
proof fn lemma_comma_parts_start(s: Seq<char>, k: int)
    requires
        0 <= k <= s.len(),
    ensures
        0 <= comma_parts(s, k).1 <= k,
        comma_parts(s, k).1 == 0 || s[comma_parts(s, k).1 - 1] == ',',
    decreases k,
{
    if k > 0 {
        lemma_comma_parts_start(s, k - 1);
    }
}

/// The parts of the first `k` characters of `x + y`, `k` within `x`, are
/// those of `x`.
proof fn lemma_comma_parts_prefix(x: Seq<char>, y: Seq<char>, k: int)
    requires
        0 <= k <= x.len(),
    ensures
        comma_parts(x + y, k) == comma_parts(x, k),
    decreases k,
{
    if k > 0 {
        lemma_comma_parts_prefix(x, y, k - 1);
        lemma_comma_parts_start(x, k - 1);
        lemma_backslashes_prefix(x, y, k - 1);
        assert((x + y)[k - 1] == x[k - 1]);
        let st = comma_parts(x, k - 1).1;
        assert((x + y).subrange(st, k - 1) =~= x.subrange(st, k - 1));
    }
}

/// A text no comma splits is, up to any point, one part still open.
proof fn lemma_comma_parts_none(x: Seq<char>, k: int)
    requires
        no_split_comma(x),
        0 <= k <= x.len(),
    ensures
        comma_parts(x, k) == (Seq::<Seq<char>>::empty(), 0int),
    decreases k,
{
    if k > 0 {
        lemma_comma_parts_none(x, k - 1);
        assert(!is_split_comma(x, k - 1));
    }
}

/// Behind a text `x` that ends at a splitting comma, the parts of `x + y`
/// are those of `x`, then those of `y`.
proof fn lemma_comma_parts_shift(x: Seq<char>, y: Seq<char>, k: int)
    requires
        x.len() > 0,
        x.last() == ',',
        comma_parts(x, x.len() as int).1 == x.len(),
        0 <= k <= y.len(),
    ensures
        comma_parts(x + y, x.len() + k) == (
            comma_parts(x, x.len() as int).0 + comma_parts(y, k).0,
            x.len() + comma_parts(y, k).1,
        ),
    decreases k,
{
    let n = x.len() as int;
    if k == 0 {
        lemma_comma_parts_prefix(x, y, n);
        assert(comma_parts(x, n).0 + Seq::<Seq<char>>::empty() =~= comma_parts(x, n).0);
    } else {
        lemma_comma_parts_shift(x, y, k - 1);
        lemma_comma_parts_start(y, k - 1);
        lemma_backslashes_shift(x, y, k - 1);
        assert((x + y)[n + k - 1] == y[k - 1]);
        let (q, st) = comma_parts(y, k - 1);
        assert((x + y).subrange(n + st, n + k - 1) =~= y.subrange(st, k - 1));
        assert(comma_parts(x, n).0 + q.push(y.subrange(st, k - 1)) =~= (comma_parts(x, n).0 + q).push(
            y.subrange(st, k - 1),
        ));
    }
}

/// A written block body splits at its unescaped commas into the parts of
/// its entries, when each entry reads back.
proof fn lemma_split_vars_body(e: Seq<Entry>)
    requires
        e.len() > 0,
        forall|i: int| 0 <= i < e.len() ==> #[trigger] entry_reads_back(e, i),
    ensures
        split_unescaped(vars_body(e)) == var_parts(e),
    decreases e.len(),
{
    reveal_strlit(",");
    let pl = var_part(e.last());
    let b = vars_body(e);
    assert(entry_reads_back(e, e.len() - 1));
    if e.len() == 1 {
        assert(vars_body(e.drop_last()) =~= Seq::<char>::empty());
        assert(b =~= pl);
        lemma_comma_parts_none(b, b.len() as int);
        assert(b.skip(0) =~= b);
        assert(var_parts(e) =~= seq![pl]);
    } else {
        let d = e.drop_last();
        assert forall|i: int| 0 <= i < d.len() implies #[trigger] entry_reads_back(d, i) by {
            assert(entry_reads_back(e, i));
        }
        lemma_split_vars_body(d);
        let bd = vars_body(d);
        let x = bd + seq![','];
        assert(b =~= x + pl);
        let bl = bd.len() as int;
        lemma_comma_parts_start(bd, bl);
        let (ps, st) = comma_parts(bd, bl);
        // The last part of `bd` is the part of `d`'s last entry.
        assert(ps.push(bd.skip(st)) == var_parts(d));
        assert(ps.push(bd.skip(st)).len() == d.len());
        assert(ps.push(bd.skip(st))[d.len() - 1] == bd.skip(st));
        assert(var_parts(d)[d.len() - 1] == var_part(d[d.len() - 1]));
        assert(bd.skip(st) == var_part(d.last()));
        assert(entry_reads_back(e, d.len() - 1));
        assert(var_part(e[d.len() - 1]) == var_part(d.last()));
        // The comma behind `bd` splits.
        lemma_backslashes_prefix(bd, seq![','], bl);
        if st > 0 {
            assert(bd =~= bd.take(st) + bd.skip(st));
            lemma_backslashes_shift(bd.take(st), bd.skip(st), bl - st);
        } else {
            assert(bd.skip(0) =~= bd);
        }
        lemma_comma_parts_prefix(bd, seq![','], bl);
        assert(x[bl] == ',');
        assert(x.subrange(st, bl) =~= bd.skip(st));
        assert(comma_parts(x, x.len() as int) == (var_parts(d), x.len() as int));
        lemma_comma_parts_shift(x, pl, pl.len() as int);
        lemma_comma_parts_none(pl, pl.len() as int);
        assert(var_parts(d) + Seq::<Seq<char>>::empty() =~= var_parts(d));
        assert(b.skip(x.len() as int) =~= pl);
        assert(var_parts(d).push(pl) =~= var_parts(e));
    }
}

/// Adding the written parts of `e` from position `m` on to its first `m`
/// entries gives back `e`, when its keys are distinct and hold no `=`.
proof fn lemma_vars_fold_parts(e: Seq<Entry>, m: int)
    requires
        0 <= m <= e.len(),
        keys_distinct(e),
        forall|i: int| 0 <= i < e.len() ==> !has_char(#[trigger] e[i].0, '='),
    ensures
        vars_fold(e.take(m), var_parts(e).skip(m)) == Ok::<Seq<Entry>, Seq<char>>(e),
    decreases e.len() - m,
{
    reveal_strlit("=");
    if m == e.len() {
        assert(e.take(m) =~= e);
    } else {
        let ps = var_parts(e).skip(m);
        let (k, v) = e[m];
        assert(ps[0] == var_part(e[m]));
        assert(var_part(e[m]) =~= k + seq!['='] + escaped_value(v));
        assert(!has_char(k, '='));
        lemma_split_eq(k, escaped_value(v));
        lemma_unescape_escape_value(v);
        assert forall|j: int| 0 <= j < e.take(m).len() implies e.take(m)[j].0 != k by {
            assert(e[j].0 != e[m].0);
        }
        crate::header_map::lemma_key_index_absent(e.take(m), k);
        assert(e.take(m).push((k, v)) =~= e.take(m + 1));
        assert(ps.skip(1) =~= var_parts(e).skip(m + 1));
        lemma_vars_fold_parts(e, m + 1);
    }
}

/// `k`, `=`, `rest` splits once at `=` into `k` and `rest` when `k` holds
/// no `=`.
proof fn lemma_split_eq(k: Seq<char>, rest: Seq<char>)
    requires
        !has_char(k, '='),
    ensures
        split_once_char(k + seq!['='] + rest, '=') == Some((k, rest)),
{
    let t = k + seq!['='] + rest;
    assert(crate::text::is_first_index(t, '=', k.len() as int)) by {
        assert forall|j: int| 0 <= j < k.len() implies t[j] != '=' by {
            assert(t[j] == k[j]);
        }
    }
    crate::text::lemma_first_index(t, '=', k.len() as int);
    assert(t.take(k.len() as int) =~= k);
    assert(t.skip(k.len() as int + 1) =~= rest);
}

/// Reading the written body of `e` back gives `e`, when each entry reads
/// back; the body is empty exactly when `e` is.
proof fn lemma_vars_body_reads_back(e: Seq<Entry>)
    requires
        keys_distinct(e),
        forall|i: int| 0 <= i < e.len() ==> #[trigger] entry_reads_back(e, i),
    ensures
        (vars_body(e).len() == 0) == (e.len() == 0),
        e.len() > 0 ==> vars_fold(Seq::empty(), split_unescaped(vars_body(e))) == Ok::<Seq<Entry>, Seq<char>>(e),
{
    reveal_strlit("=");
    reveal_strlit(",");
    if e.len() == 0 {
        assert(vars_body(e) =~= Seq::<char>::empty());
    } else {
        lemma_split_vars_body(e);
        assert forall|i: int| 0 <= i < e.len() implies !has_char(#[trigger] e[i].0, '=') by {
            assert(entry_reads_back(e, i));
        }
        lemma_vars_fold_parts(e, 0);
        assert(e.take(0) =~= Seq::<Entry>::empty());
        assert(var_parts(e).skip(0) =~= var_parts(e));
    }
}

/// A variable block reads back from its own text: parsing what
/// [`Variables::to_string`] writes gives the same scope and entries, when
/// each entry reads back (see [`entry_reads_back`]).
#[verifier::spinoff_prover]
pub proof fn lemma_variables_round_trip(t: VariablesType, e: Seq<Entry>)
    requires
        keys_distinct(e),
        forall|i: int| 0 <= i < e.len() ==> #[trigger] entry_reads_back(e, i),
    ensures
        vars_outcome(vars_text(t, e)) == Ok::<(VariablesType, Seq<Entry>), Seq<char>>((t, e)),
{
    reveal(vars_outcome);
    let s = vars_text(t, e);
    let (o, c) = t.spec_delimiters();
    let body = vars_body(e);
    assert(s =~= seq![o] + body + seq![c]);
    assert(s[0] == o && s.last() == c);
    assert(!crate::text::is_white_space(o) && !crate::text::is_white_space(c));
    crate::text::lemma_trimmed_unchanged(s);
    assert(vstd::utf8::encode_utf8(s).len() >= 2) by {
        reveal_with_fuel(vstd::utf8::encode_utf8, 3);
        assert(s.drop_first()[0] == s[1]);
    }
    assert(s.subrange(1, s.len() - 1) =~= body);
    lemma_vars_body_reads_back(e);
    if e.len() == 0 {
        assert(e =~= Seq::<Entry>::empty());
    }
    match t {
        VariablesType::Enterprise => assert(s[0] == '<' && s.last() == '>'),
        VariablesType::Default => assert(s[0] == '{' && s.last() == '}'),
        VariablesType::Channel => assert(s[0] == '[' && s.last() == ']'),
    }
}

impl Variables {
    /// Parse a variable block (see [`vars_outcome`]).
    pub fn parse(s: &str) -> (r: Result<Variables, OriginateError>)
        ensures
            match vars_outcome(s@) {
                Ok((vt, e)) => r matches Ok(x) && x.scope_view() == vt && x.entries() == e,
                Err(m) => r matches Err(OriginateError::ParseError(t)) && t@ == m,
            },
    {
        reveal(vars_outcome);
        let t = trim(s);
        if t.as_bytes().len() < 2 {
            return Err(OriginateError::ParseError(owned("variable block too short")));
        }
        let v = to_chars(t);
        let n = v.len();
        if n < 2 {
            proof {
                assert(n == 1) by {
                    if n == 0 {
                        assert(t@ =~= Seq::<char>::empty());
                        assert(vstd::utf8::encode_utf8(t@) =~= Seq::<u8>::empty()) by {
                            reveal_with_fuel(vstd::utf8::encode_utf8, 2);
                        }
                    }
                }
            }
            return Err(OriginateError::ParseError(concat2("unknown variable delimiters: ", t)));
        }
        let vars_type = if v[0] == '{' && v[n - 1] == '}' {
            VariablesType::Default
        } else if v[0] == '<' && v[n - 1] == '>' {
            VariablesType::Enterprise
        } else if v[0] == '[' && v[n - 1] == ']' {
            VariablesType::Channel
        } else {
            return Err(OriginateError::ParseError(concat2("unknown variable delimiters: ", t)));
        };
        let inner = from_char_range(&v, 1, n - 1);
        let mut map = map_new();
        if inner.unicode_len() > 0 {
            let parts = split_unescaped_commas(inner.as_str());
            let ghost ps = split_unescaped(inner@);
            let mut i: usize = 0;
            assert(ps.skip(0) =~= ps);
            assert(inner@ =~= t@.subrange(1, t@.len() - 1));
            assert(vars_outcome(s@) == match vars_fold(Seq::empty(), ps) {
                Ok(e) => Ok((vars_type, e)),
                Err(m) => Err(m),
            });
            while i < parts.len()
                invariant
                    vars_outcome(s@) == match vars_fold(Seq::empty(), ps) {
                        Ok(e) => Ok((vars_type, e)),
                        Err(m) => Err(m),
                    },
                    i <= parts.len(),
                    parts@.len() == ps.len(),
                    forall|k: int| 0 <= k < ps.len() ==> #[trigger] parts@[k]@ == ps[k],
                    vars_fold(map_entries(map), ps.skip(i as int)) == vars_fold(Seq::empty(), ps),
                decreases parts.len() - i,
            {
                proof {
                    assert(ps.skip(i as int)[0] == parts@[i as int]@);
                    assert(ps.skip(i as int).skip(1) =~= ps.skip(i + 1));
                }
                match split_once(parts[i].as_str(), '=') {
                    None => {
                        return Err(OriginateError::ParseError(concat2("missing = in variable: ", parts[i].as_str())));
                    },
                    Some((k, val)) => {
                        let u = unescape_value(val.as_str());
                        crate::header_map::map_insert(&mut map, k, u);
                    },
                }
                i += 1;
            }
            assert(ps.skip(parts.len() as int) =~= Seq::<Seq<char>>::empty());
        }
        Ok(Variables { vars_type, inner: map })
    }
}

impl std::str::FromStr for Variables {
    type Err = OriginateError;

    /// The same as [`Variables::parse`].
    fn from_str(s: &str) -> (r: Result<Variables, OriginateError>)
        ensures
            match vars_outcome(s@) {
                Ok((vt, e)) => r matches Ok(x) && x.scope_view() == vt && x.entries() == e,
                Err(m) => r matches Err(OriginateError::ParseError(t)) && t@ == m,
            },
    {
        Variables::parse(s)
    }
}

// ---------------------------------------------------------------------------
// Originate
// ---------------------------------------------------------------------------

/// FreeSWITCH keyword for omitted positional arguments.
pub open spec fn undef_text() -> Seq<char> {
    "undef"@
}

/// Originate command builder:
/// `originate <endpoint> <target> [dialplan] [context] [cid_name] [cid_num] [timeout]`.
#[derive(Debug, Clone, PartialEq, Eq)]
pub struct Originate {
    endpoint: Endpoint,
    target: OriginateTarget,
    dialplan: Option<DialplanType>,
    context: Option<String>,
    cid_name: Option<String>,
    cid_num: Option<String>,
    timeout: Option<u32>,
}

/// Texts joined by `,`.
pub open spec fn join_comma(parts: Seq<Seq<char>>) -> Seq<char>
    decreases parts.len(),
{
    if parts.len() == 0 {
        Seq::empty()
    } else if parts.len() == 1 {
        parts[0]
    } else {
        join_comma(parts.drop_last()) + ","@ + parts.last()
    }
}

/// How a target is written in an originate command (before quoting).
pub open spec fn target_text(t: TargetView) -> Seq<char> {
    match t {
        TargetView::Extension(e) => e,
        TargetView::App(n, a) => app_text(n, a, DialplanType::Xml),
        TargetView::Inline(apps) => join_comma(apps.map_values(|p: (Seq<char>, Option<Seq<char>>)| app_text(p.0, p.1, DialplanType::Inline))),
    }
}

/// An originate command by its parts as text.
pub struct OriginateView {
    pub endpoint: EndpointView,
    pub target: TargetView,
    pub dialplan: Option<DialplanType>,
    pub context: Option<Seq<char>>,
    pub cid_name: Option<Seq<char>>,
    pub cid_num: Option<Seq<char>>,
    pub timeout: Option<u32>,
}

/// The command text: the endpoint and the quoted target, then the
/// positional arguments up to the last one set, earlier ones filled with
/// their defaults (`XML`, `default`, `undef`); inline applications always
/// name their dialplan.
pub open spec fn originate_text(o: OriginateView) -> Seq<char> {
    let dp = match o.target {
        TargetView::Inline(_) => Some(
            match o.dialplan {
                Some(d) => d,
                None => DialplanType::Inline,
            },
        ),
        _ => o.dialplan,
    };
    "originate "@ + endpoint_text(o.endpoint) + " "@ + quoted(target_text(o.target)) + tail_text(
        dp,
        o.context,
        o.cid_name,
        o.cid_num,
        o.timeout,
    )
}

impl Originate {
    /// An extension target never runs under the inline dialplan, and inline
    /// applications are never empty.
    pub closed spec fn wf(self) -> bool {
        &&& !(self.target is Extension && self.dialplan == Some(DialplanType::Inline))
        &&& (self.target matches OriginateTarget::InlineApplications(apps) ==> apps@.len() > 0)
    }

    /// The command's parts.
    pub closed spec fn view(self) -> OriginateView {
        OriginateView {
            endpoint: endpoint_view(self.endpoint),
            target: target_view(self.target),
            dialplan: self.dialplan,
            context: crate::channel::opt_view(self.context),
            cid_name: crate::channel::opt_view(self.cid_name),
            cid_num: crate::channel::opt_view(self.cid_num),
            timeout: self.timeout,
        }
    }

    /// The endpoint value.
    pub closed spec fn endpoint_value(self) -> Endpoint {
        self.endpoint
    }

    /// The target value.
    pub closed spec fn target_value(self) -> OriginateTarget {
        self.target
    }

    /// Route through the dialplan engine to an extension.
    pub fn extension(endpoint: Endpoint, extension: &str) -> (r: Originate)
        ensures
            r.view() == (OriginateView {
                endpoint: endpoint_view(endpoint),
                target: TargetView::Extension(extension@),
                dialplan: None,
                context: None,
                cid_name: None,
                cid_num: None,
                timeout: None,
            }),
            r.endpoint_value() == endpoint,
            r.wf(),
    {
        Originate {
            endpoint,
            target: OriginateTarget::Extension(owned(extension)),
            dialplan: None,
            context: None,
            cid_name: None,
            cid_num: None,
            timeout: None,
        }
    }

    /// Execute a single XML-format application on the answered channel.
    pub fn application(endpoint: Endpoint, app: Application) -> (r: Originate)
        ensures
            r.view() == (OriginateView {
                endpoint: endpoint_view(endpoint),
                target: TargetView::App(app.name@, crate::channel::opt_view(app.args)),
                dialplan: None,
                context: None,
                cid_name: None,
                cid_num: None,
                timeout: None,
            }),
            r.endpoint_value() == endpoint,
            r.target_value() == OriginateTarget::Application(app),
            r.wf(),
    {
        Originate {
            endpoint,
            target: OriginateTarget::Application(app),
            dialplan: None,
            context: None,
            cid_name: None,
            cid_num: None,
            timeout: None,
        }
    }

    /// Execute inline applications on the answered channel; an error when
    /// there are none.
    pub fn inline(endpoint: Endpoint, apps: Vec<Application>) -> (r: Result<Originate, OriginateError>)
        ensures
            apps@.len() == 0 ==> r matches Err(OriginateError::EmptyInlineApplications),
            apps@.len() > 0 ==> (r matches Ok(o) && o.view() == (OriginateView {
                endpoint: endpoint_view(endpoint),
                target: target_view(OriginateTarget::InlineApplications(apps)),
                dialplan: None,
                context: None,
                cid_name: None,
                cid_num: None,
                timeout: None,
            }) && o.endpoint_value() == endpoint && o.target_value() == OriginateTarget::InlineApplications(
                apps,
            ) && o.wf()),
    {
        if apps.len() == 0 {
            return Err(OriginateError::EmptyInlineApplications);
        }
        Ok(
            Originate {
                endpoint,
                target: OriginateTarget::InlineApplications(apps),
                dialplan: None,
                context: None,
                cid_name: None,
                cid_num: None,
                timeout: None,
            },
        )
    }

    /// Set the dialplan type; an error when setting `Inline` on an extension
    /// target.
    pub fn dialplan(self, dp: DialplanType) -> (r: Result<Originate, OriginateError>)
        ensures
            (self.view().target is Extension && dp == DialplanType::Inline) ==> r matches Err(
                OriginateError::ExtensionWithInlineDialplan,
            ),
            !(self.view().target is Extension && dp == DialplanType::Inline) ==> (r matches Ok(o)
                && o.view() == (OriginateView { dialplan: Some(dp), ..self.view() }) && (self.wf() ==> o.wf())),
    {
        let is_ext = match &self.target {
            OriginateTarget::Extension(_) => true,
            _ => false,
        };
        if is_ext && dp == DialplanType::Inline {
            return Err(OriginateError::ExtensionWithInlineDialplan);
        }
        Ok(Originate { dialplan: Some(dp), ..self })
    }

    /// Set the dialplan context.
    pub fn context(self, ctx: &str) -> (r: Originate)
        ensures
            r.view() == (OriginateView { context: Some(ctx@), ..self.view() }),
            self.wf() ==> r.wf(),
    {
        Originate { context: Some(owned(ctx)), ..self }
    }

    /// Set the caller ID name.
    pub fn cid_name(self, name: &str) -> (r: Originate)
        ensures
            r.view() == (OriginateView { cid_name: Some(name@), ..self.view() }),
            self.wf() ==> r.wf(),
    {
        Originate { cid_name: Some(owned(name)), ..self }
    }

    /// Set the caller ID number.
    pub fn cid_num(self, num: &str) -> (r: Originate)
        ensures
            r.view() == (OriginateView { cid_num: Some(num@), ..self.view() }),
            self.wf() ==> r.wf(),
    {
        Originate { cid_num: Some(owned(num)), ..self }
    }

    /// Set the originate timeout in seconds.
    pub fn timeout(self, seconds: u32) -> (r: Originate)
        ensures
            r.view() == (OriginateView { timeout: Some(seconds), ..self.view() }),
            self.wf() ==> r.wf(),
    {
        Originate { timeout: Some(seconds), ..self }
    }

    /// The dial endpoint.
    pub fn endpoint(&self) -> (r: &Endpoint)
        ensures
            *r == self.endpoint_value(),
    {
        &self.endpoint
    }

    /// The originate target.
    pub fn target(&self) -> (r: &OriginateTarget)
        ensures
            *r == self.target_value(),
    {
        &self.target
    }

    /// The dialplan type, if explicitly set.
    pub fn dialplan_type(&self) -> (r: Option<&DialplanType>)
        ensures
            match r {
                Some(d) => self.view().dialplan == Some(*d),
                None => self.view().dialplan is None,
            },
    {
        self.dialplan.as_ref()
    }

    /// The dialplan context, if set.
    pub fn context_str(&self) -> (r: Option<&str>)
        ensures
            crate::event::opt_str_view(r) == self.view().context,
    {
        match &self.context {
            Some(c) => Some(c.as_str()),
            None => None,
        }
    }

    /// The caller ID name, if set.
    pub fn caller_id_name(&self) -> (r: Option<&str>)
        ensures
            crate::event::opt_str_view(r) == self.view().cid_name,
    {
        match &self.cid_name {
            Some(c) => Some(c.as_str()),
            None => None,
        }
    }

    /// The caller ID number, if set.
    pub fn caller_id_number(&self) -> (r: Option<&str>)
        ensures
            crate::event::opt_str_view(r) == self.view().cid_num,
    {
        match &self.cid_num {
            Some(c) => Some(c.as_str()),
            None => None,
        }
    }

    /// The timeout in seconds, if set.
    pub fn timeout_seconds(&self) -> (r: Option<u32>)
        ensures
            r == self.view().timeout,
    {
        self.timeout
    }
}

/// The inline applications joined by `,`.
fn inline_text(apps: &Vec<Application>) -> (r: String)
    ensures
        r@ == join_comma(apps@.map_values(|a: Application| app_text(a.name@, crate::channel::opt_view(a.args), DialplanType::Inline))),
{
    let ghost texts = apps@.map_values(|a: Application| app_text(a.name@, crate::channel::opt_view(a.args), DialplanType::Inline));
    let mut r = String::new();
    let mut i: usize = 0;
    while i < apps.len()
        invariant
            i <= apps.len(),
            texts == apps@.map_values(|a: Application| app_text(a.name@, crate::channel::opt_view(a.args), DialplanType::Inline)),
            r@ == join_comma(texts.take(i as int)),
        decreases apps.len() - i,
    {
        if i > 0 {
            push_str(&mut r, ",");
        }
        let t = apps[i].to_string_with_dialplan(&DialplanType::Inline);
        push_str(&mut r, t.as_str());
        proof {
            assert(texts.take(i + 1).drop_last() =~= texts.take(i as int));
            if i == 0 {
                assert(texts.take(1) =~= seq![texts[0]]);
            }
        }
        i += 1;
    }
    assert(texts.take(apps.len() as int) =~= texts);
    r
}

impl Originate {
    /// The target as written, before quoting.
    fn target_string(&self) -> (r: String)
        ensures
            r@ == target_text(self.view().target),
    {
        match &self.target {
            OriginateTarget::Extension(ext) => ext.clone(),
            OriginateTarget::Application(app) => app.to_string_with_dialplan(&DialplanType::Xml),
            OriginateTarget::InlineApplications(apps) => {
                let t = inline_text(apps);
                proof {
                    let a = apps@.map_values(|a: Application| app_text(a.name@, crate::channel::opt_view(a.args), DialplanType::Inline));
                    let b = apps@.map_values(|a: Application| (a.name@, crate::channel::opt_view(a.args))).map_values(
                        |p: (Seq<char>, Option<Seq<char>>)| app_text(p.0, p.1, DialplanType::Inline));
                    assert(a =~= b);
                }
                t
            },
        }
    }

    /// The command text (see [`originate_text`]).
    pub fn to_string(&self) -> (r: String)
        ensures
            r@ == originate_text(self.view()),
    {
        let target_str = self.target_string();
        let mut r = owned("originate ");
        let ep = self.endpoint.to_string();
        push_str(&mut r, ep.as_str());
        push_str(&mut r, " ");
        let q = super::originate_quote(target_str.as_str());
        push_str(&mut r, q.as_str());
        let dialplan = match &self.target {
            OriginateTarget::InlineApplications(_) => match self.dialplan {
                Some(d) => Some(d),
                None => Some(DialplanType::Inline),
            },
            _ => self.dialplan,
        };
        let tail = positional_tail(
            dialplan,
            &self.context,
            &self.cid_name,
            &self.cid_num,
            self.timeout,
        );
        push_str(&mut r, tail.as_str());
        r
    }
}

/// The positional arguments after the target (see [`originate_text`]).
pub open spec fn tail_text(
    dp: Option<DialplanType>,
    context: Option<Seq<char>>,
    cid_name: Option<Seq<char>>,
    cid_num: Option<Seq<char>>,
    timeout: Option<u32>,
) -> Seq<char> {
    let has_timeout = timeout is Some;
    let has_num = cid_num is Some || has_timeout;
    let has_name = cid_name is Some || has_num;
    let has_ctx = context is Some || has_name;
    (if dp is Some || has_ctx {
        " "@ + match dp {
            Some(d) => d.spec_name(),
            None => "XML"@,
        }
    } else {
        Seq::empty()
    }) + (if has_ctx {
        " "@ + match context {
            Some(c) => c,
            None => "default"@,
        }
    } else {
        Seq::empty()
    }) + (if has_name {
        " "@ + quoted(
            match cid_name {
                Some(c) => c,
                None => undef_text(),
            },
        )
    } else {
        Seq::empty()
    }) + (if has_num {
        " "@ + quoted(
            match cid_num {
                Some(c) => c,
                None => undef_text(),
            },
        )
    } else {
        Seq::empty()
    }) + match timeout {
        Some(t) => " "@ + decimal(t as nat),
        None => Seq::empty(),
    }
}

/// Write the positional arguments after the target.
fn positional_tail(
    dialplan: Option<DialplanType>,
    context: &Option<String>,
    cid_name: &Option<String>,
    cid_num: &Option<String>,
    timeout: Option<u32>,
) -> (r: String)
    ensures
        r@ == tail_text(
            dialplan,
            crate::channel::opt_view(*context),
            crate::channel::opt_view(*cid_name),
            crate::channel::opt_view(*cid_num),
            timeout,
        ),
{
    let has_timeout = timeout.is_some();
    let has_num = cid_num.is_some() || has_timeout;
    let has_name = cid_name.is_some() || has_num;
    let has_ctx = context.is_some() || has_name;
    let mut a = String::new();
    if dialplan.is_some() || has_ctx {
        let dp = match dialplan {
            Some(d) => d,
            None => DialplanType::Xml,
        };
        push_str(&mut a, " ");
        let t = dp.to_string();
        push_str(&mut a, t.as_str());
    }
    let mut b = String::new();
    if has_ctx {
        push_str(&mut b, " ");
        match context {
            Some(c) => push_str(&mut b, c.as_str()),
            None => push_str(&mut b, "default"),
        }
    }
    let mut c = String::new();
    if has_name {
        push_str(&mut c, " ");
        let q = match cid_name {
            Some(x) => super::originate_quote(x.as_str()),
            None => super::originate_quote("undef"),
        };
        push_str(&mut c, q.as_str());
    }
    let mut d = String::new();
    if has_num {
        push_str(&mut d, " ");
        let q = match cid_num {
            Some(x) => super::originate_quote(x.as_str()),
            None => super::originate_quote("undef"),
        };
        push_str(&mut d, q.as_str());
    }
    let mut e = String::new();
    match timeout {
        Some(t) => {
            push_str(&mut e, " ");
            let n = crate::numeric::u64_to_string(t as u64);
            push_str(&mut e, n.as_str());
        },
        None => {},
    }
    let mut r = a;
    push_str(&mut r, b.as_str());
    push_str(&mut r, c.as_str());
    push_str(&mut r, d.as_str());
    push_str(&mut r, e.as_str());
    r
}

/// The `i`-th element, if any.
pub open spec fn nth(v: Seq<Seq<char>>, i: int) -> Option<Seq<char>> {
    if 0 <= i < v.len() {
        Some(v[i])
    } else {
        None
    }
}

/// A caller-ID argument: `undef` (any case) stands for none.
pub open spec fn cid_arg(v: Option<Seq<char>>) -> Option<Seq<char>> {
    match v {
        Some(x) => if eq_ignore_ascii_case(x, undef_text()) {
            None
        } else {
            Some(x)
        },
        None => None,
    }
}

/// The message `u32` parsing gives for a token it refuses.
pub open spec fn int_error_text(t: Seq<char>) -> Seq<char> {
    if crate::numeric::parse_unsigned(t) is Some {
        "number too large to fit in target type"@
    } else {
        "invalid digit found in string"@
    }
}

/// The timeout argument.
pub open spec fn timeout_arg(v: Option<Seq<char>>) -> Result<Option<u32>, OriginateFault> {
    match v {
        None => Ok(None),
        Some(t) => match crate::numeric::parse_unsigned(t) {
            Some(n) => if n <= u32::MAX {
                Ok(Some(n as u32))
            } else {
                Err(OriginateFault::Parse("invalid timeout: "@ + int_error_text(t)))
            },
            None => Err(OriginateFault::Parse("invalid timeout: "@ + int_error_text(t))),
        },
    }
}

/// What parsing an originate command gives.
pub open spec fn originate_outcome(s: Seq<char>) -> Result<OriginateView, OriginateFault> {
    let s1 = match strip_prefix(s, "originate"@) {
        Some(r) => r,
        None => s,
    };
    match split_outcome(trimmed(s1), ' ') {
        Err(tok) => Err(OriginateFault::Unclosed(tok)),
        Ok(args) => if args.len() == 0 {
            Err(OriginateFault::Parse("empty originate"@))
        } else {
            match endpoint_outcome(args[0]) {
                Err(m) => Err(OriginateFault::Parse(m)),
                Ok(ep) => if args.len() < 2 {
                    Err(OriginateFault::Parse("missing target in originate"@))
                } else {
                    let rest = args.skip(2);
                    let dp = if rest.len() > 0 { DialplanType::from_name(rest[0]) } else { None };
                    let rest2 = if dp is Some { rest.skip(1) } else { rest };
                    match target_outcome(unquoted(args[1]), dp == Some(DialplanType::Inline)) {
                        Err(f) => Err(f),
                        Ok(t) => match timeout_arg(nth(rest2, 3)) {
                            Err(f) => Err(f),
                            Ok(timeout) => if t matches TargetView::Inline(apps) && apps.len() == 0 {
                                Err(OriginateFault::EmptyInline)
                            } else {
                                Ok(
                                    OriginateView {
                                        endpoint: ep,
                                        target: t,
                                        dialplan: dp,
                                        context: nth(rest2, 0),
                                        cid_name: cid_arg(nth(rest2, 1)),
                                        cid_num: cid_arg(nth(rest2, 2)),
                                        timeout,
                                    },
                                )
                            },
                        },
                    }
                },
            }
        },
    }
}

/// The caller-ID argument at `i`, `undef` read as none.
fn cid_at(args: &Vec<String>, i: usize) -> (r: Option<String>)
    ensures
        crate::channel::opt_view(r) == cid_arg(nth(args@.map_values(|x: String| x@), i as int)),
{
    if i < args.len() {
        if str_eq_ignore_ascii_case(args[i].as_str(), "undef") {
            None
        } else {
            Some(args[i].clone())
        }
    } else {
        None
    }
}

/// The timeout argument at `i`.
fn timeout_at(args: &Vec<String>, i: usize) -> (r: Result<Option<u32>, OriginateError>)
    ensures
        match timeout_arg(nth(args@.map_values(|x: String| x@), i as int)) {
            Ok(t) => r == Ok::<Option<u32>, OriginateError>(t),
            Err(f) => r matches Err(e) && fault_is(e, f),
        },
{
    if i >= args.len() {
        return Ok(None);
    }
    let t = args[i].as_str();
    match crate::numeric::parse_u32(t) {
        Some(n) => Ok(Some(n)),
        None => {
            let detail = if crate::numeric::is_unsigned_number(t) {
                "number too large to fit in target type"
            } else {
                "invalid digit found in string"
            };
            Err(OriginateError::ParseError(concat2("invalid timeout: ", detail)))
        },
    }
}

impl Originate {
    /// Parse an originate command (see [`originate_outcome`]).
    pub fn parse(s: &str) -> (r: Result<Originate, OriginateError>)
        ensures
            match originate_outcome(s@) {
                Ok(v) => r matches Ok(o) && o.view() == v && o.wf(),
                Err(f) => r matches Err(e) && fault_is(e, f),
            },
    {
        let s1 = match crate::text::strip_prefix_str(s, "originate") {
            Some(r) => r,
            None => owned(s),
        };
        let args = super::originate_split(trim(s1.as_str()), ' ')?;
        let ghost av = args@.map_values(|x: String| x@);
        proof {
            let ts = match split_outcome(trimmed(s1@), ' ') {
                Ok(ts) => ts,
                Err(_) => Seq::empty(),
            };
            assert(av =~= ts);
        }
        if args.len() == 0 {
            return Err(OriginateError::ParseError(owned("empty originate")));
        }
        let endpoint = match Endpoint::parse(args[0].as_str()) {
            Ok(e) => e,
            Err(e) => {
                return Err(e);
            },
        };
        if args.len() < 2 {
            return Err(OriginateError::ParseError(owned("missing target in originate")));
        }
        let target_str = super::originate_unquote(args[1].as_str());
        let dialplan = if args.len() > 2 {
            match DialplanType::parse(args[2].as_str()) {
                Ok(d) => Some(d),
                Err(_) => None,
            }
        } else {
            None
        };
        let base: usize = if dialplan.is_some() {
            3
        } else {
            2
        };
        proof {
            let rest = av.skip(2);
            let rest2 = if dialplan is Some { rest.skip(1) } else { rest };
            assert(rest2 =~= av.skip(base as int));
            assert forall|k: int| 0 <= k < 4 implies nth(rest2, k) == nth(av, base + k) by {}
        }
        let target = super::parse_originate_target(target_str.as_str(), dialplan.as_ref())?;
        let context = if base < args.len() {
            Some(args[base].clone())
        } else {
            None
        };
        let cid_name = cid_at(&args, base + 1);
        let cid_num = cid_at(&args, base + 2);
        let timeout = timeout_at(&args, base + 3)?;
        let mut orig = match target {
            OriginateTarget::Extension(ext) => Originate::extension(endpoint, ext.as_str()),
            OriginateTarget::Application(app) => Originate::application(endpoint, app),
            OriginateTarget::InlineApplications(apps) => Originate::inline(endpoint, apps)?,
        };
        orig.dialplan = dialplan;
        orig.context = context;
        orig.cid_name = cid_name;
        orig.cid_num = cid_num;
        orig.timeout = timeout;
        Ok(orig)
    }
}

impl std::str::FromStr for Originate {
    type Err = OriginateError;

    /// The same as [`Originate::parse`].
    fn from_str(s: &str) -> (r: Result<Originate, OriginateError>)
        ensures
            match originate_outcome(s@) {
                Ok(v) => r matches Ok(o) && o.view() == v && o.wf(),
                Err(f) => r matches Err(e) && fault_is(e, f),
            },
    {
        Originate::parse(s)
    }
}

// ---------------------------------------------------------------------------
// Reading a command back
// ---------------------------------------------------------------------------

/// An inline application reads back from its text: the text is one token
/// between commas, the name holds no `:`, and an argument is not empty.
pub open spec fn inline_app_reads_back(p: (Seq<char>, Option<Seq<char>>)) -> bool {
    &&& super::plain_token(app_text(p.0, p.1, DialplanType::Inline), ',')
    &&& !has_char(p.0, ':')
    &&& p.1 != Some(Seq::<char>::empty())
}

/// A target reads back from its text under dialplan `dp`: the text is one
/// token between spaces, an extension does not start with `&` and does not
/// run inline, an application's name holds no `(` and its argument is not
/// empty, and inline applications run inline, are not none, and each reads
/// back.
pub open spec fn target_reads_back(t: TargetView, dp: Option<DialplanType>) -> bool {
    &&& super::plain_token(target_text(t), ' ')
    &&& match t {
        TargetView::Extension(x) => x[0] != '&' && dp != Some(DialplanType::Inline),
        TargetView::App(n, a) => dp != Some(DialplanType::Inline) && !has_char(n, '(') && a != Some(
            Seq::<char>::empty(),
        ),
        TargetView::Inline(apps) => dp == Some(DialplanType::Inline) && apps.len() > 0 && forall|i: int|
            0 <= i < apps.len() ==> inline_app_reads_back(#[trigger] apps[i]),
    }
}

/// Texts joined by `,` as [`join_comma`] and as `join_with` are the same.
proof fn lemma_join_comma(parts: Seq<Seq<char>>)
    ensures
        join_comma(parts) == crate::text::join_with(parts, ','),
    decreases parts.len(),
{
    reveal_strlit(",");
    if parts.len() > 1 {
        lemma_join_comma(parts.drop_last());
    }
}

/// An inline application's text reads back as the application.
proof fn lemma_inline_app_reads_back(p: (Seq<char>, Option<Seq<char>>))
    requires
        inline_app_reads_back(p),
    ensures
        super::inline_app(app_text(p.0, p.1, DialplanType::Inline)) == p,
{
    reveal_strlit(":");
    match p.1 {
        Some(a) => {
            let t = p.0 + seq![':'] + a;
            assert(app_text(p.0, p.1, DialplanType::Inline) =~= t);
            assert(crate::text::is_first_index(t, ':', p.0.len() as int)) by {
                assert forall|j: int| 0 <= j < p.0.len() implies t[j] != ':' by {
                    assert(t[j] == p.0[j]);
                }
            }
            crate::text::lemma_first_index(t, ':', p.0.len() as int);
            assert(t.take(p.0.len() as int) =~= p.0);
            assert(t.skip(p.0.len() as int + 1) =~= a);
            if a.len() == 0 {
                assert(a =~= Seq::<char>::empty());
            }
        },
        None => {
            crate::text::lemma_no_index(p.0, ':');
        },
    }
}

/// A token without a space or a quote is its own quoting and unquoting.
pub proof fn lemma_plain_quoting(t: Seq<char>)
    requires
        super::plain_token(t, ' '),
    ensures
        quoted(t) == t,
        unquoted(t) == t,
{
    assert(t[0] != '\'');
}

/// A target that reads back (see [`target_reads_back`]) is written as one
/// token that the target parser reads back as the target.
pub proof fn lemma_target_round_trip(t: TargetView, dp: Option<DialplanType>)
    requires
        target_reads_back(t, dp),
    ensures
        quoted(target_text(t)) == target_text(t),
        unquoted(target_text(t)) == target_text(t),
        target_outcome(target_text(t), dp == Some(DialplanType::Inline)) == Ok::<TargetView, OriginateFault>(t),
{
    lemma_plain_quoting(target_text(t));
    match t {
        TargetView::Extension(x) => {
            assert(target_text(t) == x);
            assert(x.len() > 0 && x[0] != '&');
            assert(dp != Some(DialplanType::Inline));
            assert(!(dp == Some(DialplanType::Inline)));
            assert(target_outcome(x, false) == Ok::<TargetView, OriginateFault>(TargetView::Extension(x)));
        },
        TargetView::App(n, a) => {
            reveal_strlit("&");
            reveal_strlit("(");
            reveal_strlit(")");
            let a2 = match a {
                Some(x) => x,
                None => Seq::<char>::empty(),
            };
            let s = target_text(t);
            assert(s =~= seq!['&'] + n + seq!['('] + a2 + seq![')']);
            let rest = s.skip(1);
            assert(rest =~= n + seq!['('] + a2 + seq![')']);
            assert(rest.drop_last() =~= n + seq!['('] + a2);
            let r = rest.drop_last();
            assert(crate::text::is_first_index(r, '(', n.len() as int)) by {
                assert forall|j: int| 0 <= j < n.len() implies r[j] != '(' by {
                    assert(r[j] == n[j]);
                }
            }
            crate::text::lemma_first_index(r, '(', n.len() as int);
            assert(r.take(n.len() as int) =~= n);
            assert(r.skip(n.len() as int + 1) =~= a2);
            if a2.len() == 0 {
                if let Some(x) = a {
                    assert(x =~= Seq::<char>::empty());
                }
            }
            assert(target_outcome(s, false) == Ok::<TargetView, OriginateFault>(t));
        },
        TargetView::Inline(apps) => {
            let texts = apps.map_values(|p: (Seq<char>, Option<Seq<char>>)| app_text(p.0, p.1, DialplanType::Inline));
            assert forall|i: int| 0 <= i < texts.len() implies super::plain_token(#[trigger] texts[i], ',') by {
                assert(inline_app_reads_back(apps[i]));
            }
            lemma_join_comma(texts);
            super::lemma_split_outcome_join(texts, ',');
            assert forall|i: int| 0 <= i < texts.len() implies super::inline_app(#[trigger] texts[i]) == apps[i] by {
                assert(inline_app_reads_back(apps[i]));
                lemma_inline_app_reads_back(apps[i]);
            }
            assert(texts.map_values(|p: Seq<char>| super::inline_app(p)) =~= apps);
            assert(target_text(t) == join_comma(texts));
            assert(target_outcome(target_text(t), true) == Ok::<TargetView, OriginateFault>(t));
        },
    }
}

} // verus!
