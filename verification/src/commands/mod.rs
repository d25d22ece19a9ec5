//! Command string builders for `api` and `bgapi`: quoting, tokenizing and
//! parsing of originate command strings.

pub mod bridge;
pub mod channel;
pub mod endpoint;
pub mod originate;
pub mod reading;

use crate::text::{
    from_char_range, has_char, owned, push_char, str_has_char, to_chars, trim, trimmed,
};
use originate::{Application, DialplanType, OriginateError, OriginateTarget};
use vstd::prelude::*;

verus! {

broadcast use vstd::string::group_string_axioms;

// ---------------------------------------------------------------------------
// Bracket matching
// ---------------------------------------------------------------------------

/// Nesting depth after `s`: one up for each `open`, one down for each
/// `close` (a character that is both counts as `open`).
pub open spec fn bracket_depth(s: Seq<char>, open: char, close: char) -> int
    decreases s.len(),
{
    if s.len() == 0 {
        0
    } else {
        bracket_depth(s.drop_last(), open, close) + if s.last() == open {
            1int
        } else if s.last() == close {
            -1int
        } else {
            0int
        }
    }
}

/// `s[i]` is a `close` that brings the depth back to zero.
pub open spec fn closes_at(s: Seq<char>, open: char, close: char, i: int) -> bool {
    0 <= i < s.len() && s[i] != open && s[i] == close && bracket_depth(s.take(i + 1), open, close) == 0
}

/// Find the index of the closing bracket matching the opener at position 0:
/// the first `close` at which the nesting depth is back to zero.
pub fn matching_close(v: &Vec<char>, open: char, close: char) -> (r: Option<usize>)
    ensures
        match r {
            Some(i) => closes_at(v@, open, close, i as int) && forall|j: int|
                0 <= j < i ==> !closes_at(v@, open, close, j),
            None => forall|j: int| !closes_at(v@, open, close, j),
        },
{
    let mut depth: i128 = 0;
    let mut i: usize = 0;
    while i < v.len()
        invariant
            i <= v.len(),
            depth == bracket_depth(v@.take(i as int), open, close),
            -(i as int) <= depth <= i,
            forall|j: int| 0 <= j < i ==> !closes_at(v@, open, close, j),
        decreases v.len() - i,
    {
        let ch = v[i];
        assert(v@.take(i + 1).drop_last() =~= v@.take(i as int));
        if ch == open {
            depth = depth + 1;
        } else if ch == close {
            depth = depth - 1;
            if depth == 0 {
                return Some(i);
            }
        }
        i += 1;
    }
    proof {
        assert forall|j: int| !closes_at(v@, open, close, j) by {
            if 0 <= j < v@.len() {
            }
        }
    }
    None
}

/// Find the byte index of the closing bracket matching the opener at
/// position 0: the first `close` at which the nesting depth is back to zero.
pub fn find_matching_bracket(s: &str, open: char, close: char) -> (r: Option<usize>)
    ensures
        match r {
            Some(b) => exists|i: int|
                closes_at(s@, open, close, i) && (forall|j: int| 0 <= j < i ==> !closes_at(s@, open, close, j))
                    && b == vstd::utf8::encode_utf8(#[trigger] s@.take(i)).len(),
            None => forall|j: int| !closes_at(s@, open, close, j),
        },
{
    let v = to_chars(s);
    match matching_close(&v, open, close) {
        Some(i) => {
            let prefix = from_char_range(&v, 0, i);
            assert(prefix@ =~= s@.take(i as int));
            Some(prefix.as_str().as_bytes().len())
        },
        None => None,
    }
}

// ---------------------------------------------------------------------------
// Quoting
// ---------------------------------------------------------------------------

/// Each `'` preceded by a backslash.
pub open spec fn escape_quotes(s: Seq<char>) -> Seq<char>
    decreases s.len(),
{
    if s.len() == 0 {
        Seq::empty()
    } else {
        escape_quotes(s.drop_last()) + if s.last() == '\'' {
            seq!['\\', '\'']
        } else {
            seq![s.last()]
        }
    }
}

/// Every non-overlapping `a b` pair, left to right, replaced by `out`.
pub open spec fn replace_pair(s: Seq<char>, a: char, b: char, out: char) -> Seq<char>
    decreases s.len(),
{
    if s.len() == 0 {
        Seq::empty()
    } else if s.len() >= 2 && s[0] == a && s[1] == b {
        seq![out] + replace_pair(s.skip(2), a, b, out)
    } else {
        seq![s[0]] + replace_pair(s.skip(1), a, b, out)
    }
}

/// A token quoted for an originate command: wrapped in `'...'` with inner
/// quotes escaped when it holds a space, as it is otherwise.
pub open spec fn quoted(token: Seq<char>) -> Seq<char> {
    if has_char(token, ' ') {
        seq!['\''] + escape_quotes(token) + seq!['\'']
    } else {
        token
    }
}

/// A token with the quoting of [`quoted`] undone: when it starts and ends
/// with `'`, the inside with `\'` turned back into `'`.
pub open spec fn unquoted(token: Seq<char>) -> Seq<char> {
    if token.len() >= 2 && token[0] == '\'' && token.last() == '\'' {
        replace_pair(token.subrange(1, token.len() - 1), '\\', '\'', '\'')
    } else {
        token
    }
}

/// One character as [`escape_quotes`] writes it.
pub open spec fn escape_one(c: char) -> Seq<char> {
    if c == '\'' {
        seq!['\\', '\'']
    } else {
        seq![c]
    }
}

/// Escaping a text is escaping its first character, then the rest.
pub proof fn lemma_escape_front(c: char, r: Seq<char>)
    ensures
        escape_quotes(seq![c] + r) == escape_one(c) + escape_quotes(r),
    decreases r.len(),
{
    if r.len() == 0 {
        assert(seq![c] + r =~= seq![c]);
        assert(seq![c].drop_last() =~= Seq::<char>::empty());
        assert(seq![c].last() == c);
        assert(escape_quotes(Seq::<char>::empty()) =~= Seq::<char>::empty());
        assert(escape_quotes(seq![c]) =~= escape_quotes(Seq::<char>::empty()) + escape_one(c));
        assert(escape_quotes(seq![c]) =~= escape_one(c));
        assert(escape_quotes(r) =~= Seq::<char>::empty());
        assert(escape_one(c) + escape_quotes(r) =~= escape_one(c));
    } else {
        let s = seq![c] + r;
        assert(s.drop_last() =~= seq![c] + r.drop_last());
        assert(s.last() == r.last());
        lemma_escape_front(c, r.drop_last());
        assert(escape_quotes(s) =~= escape_one(c) + escape_quotes(r));
    }
}

/// An escaped text never starts with a bare quote.
proof fn lemma_escape_head(r: Seq<char>)
    requires
        r.len() > 0,
    ensures
        escape_quotes(r).len() > 0,
        escape_quotes(r)[0] != '\'',
{
    assert(r =~= seq![r[0]] + r.skip(1));
    lemma_escape_front(r[0], r.skip(1));
}

/// Turning each `\'` back into `'` undoes [`escape_quotes`].
pub proof fn lemma_unescape_escape(t: Seq<char>)
    ensures
        replace_pair(escape_quotes(t), '\\', '\'', '\'') == t,
    decreases t.len(),
{
    if t.len() == 0 {
        assert(escape_quotes(t) =~= Seq::<char>::empty());
    } else {
        let c = t[0];
        let r = t.skip(1);
        assert(t =~= seq![c] + r);
        lemma_escape_front(c, r);
        let e = escape_quotes(t);
        lemma_unescape_escape(r);
        if c == '\'' {
            assert(e.skip(2) =~= escape_quotes(r));
        } else {
            if r.len() > 0 {
                lemma_escape_head(r);
            }
            assert(e.skip(1) =~= escape_quotes(r));
        }
    }
}

/// Unquoting a quoted token gives the token back, for every token that holds
/// a space (those are the ones quoting changes) and every token that is not
/// already wrapped in single quotes.
pub proof fn lemma_unquote_quote(token: Seq<char>)
    requires
        has_char(token, ' ') || !(token.len() >= 2 && token[0] == '\'' && token.last() == '\''),
    ensures
        unquoted(quoted(token)) == token,
{
    if has_char(token, ' ') {
        let q = quoted(token);
        lemma_unescape_escape(token);
        assert(q.subrange(1, q.len() - 1) =~= escape_quotes(token));
    }
}

/// Replace each non-overlapping `a b` pair of `s`, left to right, by `out`.
pub fn replace_pair_str(s: &str, a: char, b: char, out: char) -> (r: String)
    ensures
        r@ == replace_pair(s@, a, b, out),
{
    let v = to_chars(s);
    let mut r = String::new();
    let mut i: usize = 0;
    assert(s@.skip(0) =~= s@);
    assert(r@ + replace_pair(s@.skip(0), a, b, out) =~= replace_pair(s@, a, b, out));
    while i < v.len()
        invariant
            v@ == s@,
            i <= v.len(),
            r@ + replace_pair(s@.skip(i as int), a, b, out) == replace_pair(s@, a, b, out),
        decreases v.len() - i,
    {
        let ghost rest = s@.skip(i as int);
        let ghost before = r@;
        if i + 1 < v.len() && v[i] == a && v[i + 1] == b {
            push_char(&mut r, out);
            assert(rest.skip(2) =~= s@.skip(i + 2));
            assert(r@ + replace_pair(s@.skip(i + 2), a, b, out) =~= before + replace_pair(rest, a, b, out));
            i = i + 2;
        } else {
            push_char(&mut r, v[i]);
            assert(rest.skip(1) =~= s@.skip(i + 1));
            assert(r@ + replace_pair(s@.skip(i + 1), a, b, out) =~= before + replace_pair(rest, a, b, out));
            i = i + 1;
        }
    }
    assert(s@.skip(v.len() as int) =~= Seq::<char>::empty());
    r
}

/// Wrap a token in single quotes for originate command strings: a token with
/// a space is wrapped in `'...'` with inner quotes escaped as `\'`; others
/// are returned as they are.
pub fn originate_quote(token: &str) -> (r: String)
    ensures
        r@ == quoted(token@),
{
    if !str_has_char(token, ' ') {
        return owned(token);
    }
    let v = to_chars(token);
    let mut r = String::new();
    push_char(&mut r, '\'');
    let mut i: usize = 0;
    while i < v.len()
        invariant
            v@ == token@,
            i <= v.len(),
            r@ == seq!['\''] + escape_quotes(token@.take(i as int)),
        decreases v.len() - i,
    {
        assert(token@.take(i + 1).drop_last() =~= token@.take(i as int));
        if v[i] == '\'' {
            push_char(&mut r, '\\');
            push_char(&mut r, '\'');
        } else {
            push_char(&mut r, v[i]);
        }
        i += 1;
    }
    assert(token@.take(v.len() as int) =~= token@);
    push_char(&mut r, '\'');
    r
}

/// Strip single-quote wrapping added by [`originate_quote`].
pub fn originate_unquote(token: &str) -> (r: String)
    ensures
        r@ == unquoted(token@),
{
    let v = to_chars(token);
    let n = v.len();
    if n >= 2 && v[0] == '\'' && v[n - 1] == '\'' {
        let inner = from_char_range(&v, 1, n - 1);
        replace_pair_str(inner.as_str(), '\\', '\'', '\'')
    } else {
        owned(token)
    }
}

// ---------------------------------------------------------------------------
// Tokenizing
// ---------------------------------------------------------------------------

/// The tokenizer's state after the first `k` characters of `c`: the tokens
/// so far, the current token and whether a quote is open.
#[verifier::opaque]
pub open spec fn split_state(c: Seq<char>, split_at: char, k: int) -> (Seq<Seq<char>>, Seq<char>, bool)
    decreases k,
{
    if k <= 0 {
        (Seq::empty(), Seq::empty(), false)
    } else {
        let (ts, tok, q) = split_state(c, split_at, k - 1);
        let i = k - 1;
        let ch = c[i];
        if ch == split_at && !q && trimmed(tok).len() > 0 {
            (ts.push(trimmed(tok)), Seq::empty(), q)
        } else {
            let q2 = if ch == '\'' && !(i > 0 && c[i - 1] == '\\') {
                !q
            } else {
                q
            };
            (ts, tok.push(ch), q2)
        }
    }
}

/// One step of [`split_state`].
pub proof fn lemma_split_state_step(c: Seq<char>, split_at: char, k: int)
    requires
        k > 0,
    ensures
        split_state(c, split_at, k) == ({
            let (ts, tok, q) = split_state(c, split_at, k - 1);
            let i = k - 1;
            let ch = c[i];
            if ch == split_at && !q && trimmed(tok).len() > 0 {
                (ts.push(trimmed(tok)), Seq::empty(), q)
            } else {
                let q2 = if ch == '\'' && !(i > 0 && c[i - 1] == '\\') {
                    !q
                } else {
                    q
                };
                (ts, tok.push(ch), q2)
            }
        }),
{
    reveal(split_state);
}

/// The tokens of `line` split at `split_at` outside single quotes, each
/// trimmed, blank ones dropped; or the unfinished token when a quote is
/// left open.
pub open spec fn split_outcome(line: Seq<char>, split_at: char) -> Result<Seq<Seq<char>>, Seq<char>> {
    let (ts, tok, q) = split_state(line, split_at, line.len() as int);
    if q {
        Err(tok)
    } else if trimmed(tok).len() > 0 {
        Ok(ts.push(trimmed(tok)))
    } else {
        Ok(ts)
    }
}

/// A token that splitting at `sep` keeps whole: not empty, without `sep`
/// or a quote, and neither starting nor ending with whitespace.
pub open spec fn plain_token(t: Seq<char>, sep: char) -> bool {
    &&& t.len() > 0
    &&& !has_char(t, sep)
    &&& !has_char(t, '\'')
    &&& !crate::text::is_white_space(t[0])
    &&& !crate::text::is_white_space(t.last())
}

/// The tokenizer reads the first `k` characters of `x + y`, `k` within `x`,
/// as it reads them in `x`.
proof fn lemma_split_state_prefix(x: Seq<char>, y: Seq<char>, sep: char, k: int)
    requires
        0 <= k <= x.len(),
    ensures
        split_state(x + y, sep, k) == split_state(x, sep, k),
    decreases k,
{
    if k == 0 {
        reveal(split_state);
    } else {
        lemma_split_state_prefix(x, y, sep, k - 1);
        lemma_split_state_step(x + y, sep, k);
        lemma_split_state_step(x, sep, k);
        assert((x + y)[k - 1] == x[k - 1]);
        if k >= 2 {
            assert((x + y)[k - 2] == x[k - 2]);
        }
    }
}

/// From a fresh token outside quotes at `m`, reading a token `y` without
/// `sep` or quotes only collects its characters.
proof fn lemma_split_state_token(
    c: Seq<char>,
    sep: char,
    m: int,
    y: Seq<char>,
    ts: Seq<Seq<char>>,
    k: int,
)
    requires
        0 <= m,
        m + y.len() <= c.len(),
        c.subrange(m, m + y.len()) == y,
        !has_char(y, sep),
        !has_char(y, '\''),
        split_state(c, sep, m) == (ts, Seq::<char>::empty(), false),
        0 <= k <= y.len(),
    ensures
        split_state(c, sep, m + k) == (ts, y.take(k), false),
    decreases k,
{
    if k == 0 {
        assert(y.take(0) =~= Seq::<char>::empty());
    } else {
        lemma_split_state_token(c, sep, m, y, ts, k - 1);
        lemma_split_state_step(c, sep, m + k);
        assert(c[m + k - 1] == c.subrange(m, m + y.len())[k - 1]);
        assert(c[m + k - 1] == y[k - 1]);
        assert(y.take(k - 1).push(y[k - 1]) =~= y.take(k));
    }
}

/// Tokens that splitting at `sep` keeps whole, joined by `sep`, split back
/// into the same tokens.
pub proof fn lemma_split_outcome_join(ts: Seq<Seq<char>>, sep: char)
    requires
        ts.len() > 0,
        forall|i: int| 0 <= i < ts.len() ==> plain_token(#[trigger] ts[i], sep),
    ensures
        split_state(crate::text::join_with(ts, sep), sep, crate::text::join_with(ts, sep).len() as int)
            == (ts.drop_last(), ts.last(), false),
        split_outcome(crate::text::join_with(ts, sep), sep) == Ok::<Seq<Seq<char>>, Seq<char>>(ts),
    decreases ts.len(),
{
    let c = crate::text::join_with(ts, sep);
    let y = ts.last();
    assert(plain_token(ts[ts.len() - 1], sep));
    if ts.len() == 1 {
        assert(c == y);
        reveal(split_state);
        assert(split_state(c, sep, 0) == (Seq::<Seq<char>>::empty(), Seq::<char>::empty(), false));
        assert(c.subrange(0, y.len() as int) =~= y);
        lemma_split_state_token(c, sep, 0, y, Seq::empty(), y.len() as int);
        assert(y.take(y.len() as int) =~= y);
        assert(ts.drop_last() =~= Seq::<Seq<char>>::empty());
    } else {
        let d = ts.drop_last();
        assert forall|i: int| 0 <= i < d.len() implies plain_token(#[trigger] d[i], sep) by {
            assert(plain_token(ts[i], sep));
        }
        lemma_split_outcome_join(d, sep);
        let x = crate::text::join_with(d, sep);
        let n = x.len() as int;
        assert(c == x + seq![sep] + y);
        assert(c =~= x + (seq![sep] + y));
        lemma_split_state_prefix(x, seq![sep] + y, sep, n);
        assert(plain_token(d.last(), sep) && d.last() == d[d.len() - 1]);
        crate::text::lemma_trimmed_unchanged(d.last());
        lemma_split_state_step(c, sep, n + 1);
        assert(c[n] == sep);
        assert(d.drop_last().push(d.last()) =~= d);
        assert(split_state(c, sep, n + 1) == (d, Seq::<char>::empty(), false));
        assert(c.subrange(n + 1, n + 1 + y.len()) =~= y);
        lemma_split_state_token(c, sep, n + 1, y, d, y.len() as int);
        assert(y.take(y.len() as int) =~= y);
    }
    crate::text::lemma_trimmed_unchanged(y);
    assert(ts.drop_last().push(y) =~= ts);
}

/// Quote-aware tokenizer for originate command strings: splits `line` on
/// `split_at` outside single quotes; a backslash-escaped quote is no quote
/// boundary.
pub fn originate_split(line: &str, split_at: char) -> (r: Result<Vec<String>, OriginateError>)
    ensures
        match split_outcome(line@, split_at) {
            Ok(ts) => r matches Ok(v) && v@.len() == ts.len() && forall|k: int|
                0 <= k < ts.len() ==> #[trigger] v@[k]@ == ts[k],
            Err(tok) => r matches Err(OriginateError::UnclosedQuote(t)) && t@ == tok,
        },
{
    let chars = to_chars(line);
    let mut tokens: Vec<String> = Vec::new();
    let mut token = String::new();
    let mut in_quote = false;
    let mut i: usize = 0;
    proof {
        reveal(split_state);
    }
    while i < chars.len()
        invariant
            chars@ == line@,
            i <= chars.len(),
            ({
                let (ts, tok, q) = split_state(line@, split_at, i as int);
                &&& tokens@.len() == ts.len()
                &&& forall|k: int| 0 <= k < ts.len() ==> #[trigger] tokens@[k]@ == ts[k]
                &&& token@ == tok
                &&& in_quote == q
            }),
        decreases chars.len() - i,
    {
        proof {
            lemma_split_state_step(line@, split_at, i + 1);
        }
        let ch = chars[i];
        let t = trim(token.as_str());
        if ch == split_at && !in_quote && t.unicode_len() > 0 {
            let piece = owned(t);
            tokens.push(piece);
            token = String::new();
        } else {
            if ch == '\'' && !(i > 0 && chars[i - 1] == '\\') {
                in_quote = !in_quote;
            }
            push_char(&mut token, ch);
        }
        i += 1;
    }
    if in_quote {
        return Err(OriginateError::UnclosedQuote(token));
    }
    let t = trim(token.as_str());
    if t.unicode_len() > 0 {
        tokens.push(owned(t));
    }
    Ok(tokens)
}

// ---------------------------------------------------------------------------
// Originate targets
// ---------------------------------------------------------------------------

/// An inline application written `name[:args]`: an empty argument part is
/// no argument.
pub open spec fn inline_app(part: Seq<char>) -> (Seq<char>, Option<Seq<char>>) {
    match crate::text::split_once_char(part, ':') {
        Some((n, a)) => (n, if a.len() == 0 { None } else { Some(a) }),
        None => (part, None),
    }
}

/// A failure of originate parsing, by its text.
pub enum OriginateFault {
    Unclosed(Seq<char>),
    Parse(Seq<char>),
    EmptyInline,
}

/// `e` is the error that `f` describes.
pub open spec fn fault_is(e: OriginateError, f: OriginateFault) -> bool {
    match f {
        OriginateFault::Unclosed(t) => e matches OriginateError::UnclosedQuote(x) && x@ == t,
        OriginateFault::Parse(t) => e matches OriginateError::ParseError(x) && x@ == t,
        OriginateFault::EmptyInline => e is EmptyInlineApplications,
    }
}

/// An originate target by its text.
pub enum TargetView {
    Extension(Seq<char>),
    App(Seq<char>, Option<Seq<char>>),
    Inline(Seq<(Seq<char>, Option<Seq<char>>)>),
}

/// The text of a target.
pub open spec fn target_view(t: OriginateTarget) -> TargetView {
    match t {
        OriginateTarget::Extension(e) => TargetView::Extension(e@),
        OriginateTarget::Application(a) => TargetView::App(a.name@, crate::channel::opt_view(a.args)),
        OriginateTarget::InlineApplications(v) => TargetView::Inline(
            v@.map_values(|a: Application| (a.name@, crate::channel::opt_view(a.args))),
        ),
    }
}

/// The target a string names: inline applications under the inline
/// dialplan, `&name(args)` for one application, else an extension.
pub open spec fn target_outcome(s: Seq<char>, inline: bool) -> Result<TargetView, OriginateFault> {
    if inline {
        match split_outcome(s, ',') {
            Err(tok) => Err(OriginateFault::Unclosed(tok)),
            Ok(parts) => Ok(TargetView::Inline(parts.map_values(|p: Seq<char>| inline_app(p)))),
        }
    } else if s.len() > 0 && s[0] == '&' {
        let rest = s.skip(1);
        if !(rest.len() > 0 && rest.last() == ')') {
            Err(OriginateFault::Parse("missing closing paren"@))
        } else {
            match crate::text::split_once_char(rest.drop_last(), '(') {
                None => Err(OriginateFault::Parse("missing opening paren"@)),
                Some((n, a)) => Ok(TargetView::App(n, if a.len() == 0 { None } else { Some(a) })),
            }
        }
    } else {
        Ok(TargetView::Extension(s))
    }
}

/// The inline applications written by `parts`.
fn apps_from_parts(parts: &Vec<String>) -> (apps: Vec<Application>)
    ensures
        apps@.len() == parts@.len(),
        forall|k: int| 0 <= k < parts@.len() ==> (#[trigger] apps@[k]).name@ == inline_app(parts@[k]@).0
            && crate::channel::opt_view(apps@[k].args) == inline_app(parts@[k]@).1,
{
    let mut apps: Vec<Application> = Vec::new();
    let mut i: usize = 0;
    while i < parts.len()
        invariant
            i <= parts.len(),
            apps@.len() == i,
            forall|k: int| 0 <= k < i ==> (#[trigger] apps@[k]).name@ == inline_app(parts@[k]@).0
                && crate::channel::opt_view(apps@[k].args) == inline_app(parts@[k]@).1,
        decreases parts.len() - i,
    {
        let part = &parts[i];
        let app = match crate::text::split_once(part.as_str(), ':') {
            Some((n, a)) => {
                if a.unicode_len() == 0 {
                    Application { name: n, args: None }
                } else {
                    Application { name: n, args: Some(a) }
                }
            },
            None => Application { name: part.clone(), args: None },
        };
        apps.push(app);
        i += 1;
    }
    apps
}

/// Parse inline applications `name[:args],...`.
fn parse_inline_target(s: &str) -> (r: Result<OriginateTarget, OriginateError>)
    ensures
        match target_outcome(s@, true) {
            Ok(t) => r matches Ok(x) && target_view(x) == t,
            Err(f) => r matches Err(e) && fault_is(e, f),
        },
{
    let parts = originate_split(s, ',')?;
    let apps = apps_from_parts(&parts);
    proof {
        let ps = match split_outcome(s@, ',') {
            Ok(ts) => ts,
            Err(_) => Seq::empty(),
        };
        let want = ps.map_values(|p: Seq<char>| inline_app(p));
        let got = apps@.map_values(|a: Application| (a.name@, crate::channel::opt_view(a.args)));
        assert(got =~= want) by {
            assert forall|k: int| 0 <= k < got.len() implies got[k] == want[k] by {
                assert(parts@[k]@ == ps[k]);
            }
        }
    }
    Ok(OriginateTarget::InlineApplications(apps))
}

/// Parse `&name(args)` or a bare extension.
fn parse_plain_target(s: &str) -> (r: Result<OriginateTarget, OriginateError>)
    ensures
        match target_outcome(s@, false) {
            Ok(t) => r matches Ok(x) && target_view(x) == t,
            Err(f) => r matches Err(e) && fault_is(e, f),
        },
{
    let v = to_chars(s);
    if v.len() > 0 && v[0] == '&' {
        let n = v.len();
        if !(n > 1 && v[n - 1] == ')') {
            return Err(OriginateError::ParseError(owned("missing closing paren")));
        }
        let body = from_char_range(&v, 1, n - 1);
        assert(body@ =~= s@.skip(1).drop_last());
        match crate::text::split_once(body.as_str(), '(') {
            None => Err(OriginateError::ParseError(owned("missing opening paren"))),
            Some((name, args)) => {
                let args = if args.unicode_len() == 0 {
                    None
                } else {
                    Some(args)
                };
                Ok(OriginateTarget::Application(Application { name, args }))
            },
        }
    } else {
        Ok(OriginateTarget::Extension(owned(s)))
    }
}

/// Parse the target argument of an originate command (see
/// [`target_outcome`]).
pub fn parse_originate_target(s: &str, dialplan: Option<&DialplanType>) -> (r: Result<OriginateTarget, OriginateError>)
    ensures
        match target_outcome(s@, dialplan == Some(&DialplanType::Inline)) {
            Ok(t) => r matches Ok(x) && target_view(x) == t,
            Err(f) => r matches Err(e) && fault_is(e, f),
        },
{
    match dialplan {
        Some(DialplanType::Inline) => parse_inline_target(s),
        _ => parse_plain_target(s),
    }
}

} // verus!
