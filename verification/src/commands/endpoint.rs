//! FreeSWITCH endpoint types for originate and bridge dial strings: each
//! formats as its dial string and parses back from one.

use super::originate::{vars_outcome, vars_text, OriginateError, Variables, VariablesType};
use crate::header_map::Entry;
use crate::text::{
    concat2, first_index_of, find_char, has_char, is_first_index, from_char_range, lemma_first_index, lemma_no_index, owned,
    push_str, split_once, split_once_char, split_once_seq, split_once_str, starts_with,
    str_starts_with, strip_prefix, strip_prefix_str, strip_suffix, strip_suffix_str, to_chars, trim,
    trimmed,
};
use vstd::prelude::*;

verus! {

broadcast use vstd::string::group_string_axioms;

// ---------------------------------------------------------------------------
// Variable blocks
// ---------------------------------------------------------------------------

/// A variable block by its scope and entries.
pub type VarsView = (VariablesType, Seq<Entry>);

/// The block of an optional variable set.
pub open spec fn vars_view(v: Option<Variables>) -> Option<VarsView> {
    match v {
        Some(x) => Some((x.scope_view(), x.entries())),
        None => None,
    }
}

/// What an endpoint writes before its dial string: its variable block, when
/// it has a non-empty one.
pub open spec fn vars_prefix(v: Option<VarsView>) -> Seq<char> {
    match v {
        Some((t, e)) => if e.len() > 0 {
            vars_text(t, e)
        } else {
            Seq::empty()
        },
        None => Seq::empty(),
    }
}

/// Write the variable block of `vars`, if any and non-empty.
pub(crate) fn write_variables(out: &mut String, vars: &Option<Variables>)
    ensures
        final(out)@ == old(out)@ + vars_prefix(vars_view(*vars)),
{
    match vars {
        Some(v) => {
            if !v.is_empty() {
                let t = v.to_string();
                push_str(out, t.as_str());
            }
        },
        None => {},
    }
}

/// The closing delimiter for an opening one.
pub open spec fn closer(c: char) -> Option<char> {
    if c == '{' {
        Some('}')
    } else if c == '[' {
        Some(']')
    } else if c == '<' {
        Some('>')
    } else {
        None
    }
}

/// A leading variable block split off a dial string: its block (none when
/// empty) and the trimmed rest; the string itself when it has none.
pub open spec fn extract_outcome(s: Seq<char>) -> Result<(Option<VarsView>, Seq<char>), Seq<char>> {
    match if s.len() > 0 { closer(s[0]) } else { None } {
        None => Ok((None, s)),
        Some(close) => match first_index_of(s, close) {
            None => Err("unclosed "@ + seq![s[0]] + " in endpoint"@),
            Some(c) => match vars_outcome(s.take(c + 1)) {
                Err(m) => Err(m),
                Ok((t, e)) => Ok((if e.len() == 0 { None } else { Some((t, e)) }, trimmed(s.skip(c + 1)))),
            },
        },
    }
}

/// Split a leading variable block (`{...}`, `[...]` or `<...>`) off a dial
/// string.
fn extract_variables(s: &str) -> (r: Result<(Option<Variables>, String), OriginateError>)
    ensures
        match extract_outcome(s@) {
            Ok((v, rest)) => r matches Ok(x) && vars_view(x.0) == v && x.1@ == rest,
            Err(m) => r matches Err(OriginateError::ParseError(t)) && t@ == m,
        },
{
    let v = to_chars(s);
    if v.len() == 0 {
        return Ok((None, owned(s)));
    }
    let open = v[0];
    let close = if open == '{' {
        '}'
    } else if open == '[' {
        ']'
    } else if open == '<' {
        '>'
    } else {
        return Ok((None, owned(s)));
    };
    let c = match find_char(&v, close) {
        Some(c) => {
            proof {
                lemma_first_index(s@, close, c as int);
            }
            c
        },
        None => {
            proof {
                lemma_no_index(s@, close);
            }
            let mut m = owned("unclosed ");
            crate::text::push_char(&mut m, open);
            push_str(&mut m, " in endpoint");
            return Err(OriginateError::ParseError(m));
        },
    };
    let block = from_char_range(&v, 0, c + 1);
    assert(block@ =~= s@.take(c + 1));
    let vars = Variables::parse(block.as_str())?;
    let rest = from_char_range(&v, c + 1, v.len());
    assert(rest@ =~= s@.skip(c + 1));
    let trimmed_rest = owned(trim(rest.as_str()));
    if vars.is_empty() {
        Ok((None, trimmed_rest))
    } else {
        Ok((Some(vars), trimmed_rest))
    }
}

// ---------------------------------------------------------------------------
// Endpoint types
// ---------------------------------------------------------------------------

/// SIP endpoint via a named profile: `sofia/{profile}/{destination}`.
#[derive(Debug, Clone, PartialEq, Eq)]
pub struct SofiaEndpoint {
    /// SIP profile name (e.g. `internal`, `external`).
    pub profile: String,
    /// SIP URI or destination number.
    pub destination: String,
    /// Per-channel variables prepended as `{key=value}`.
    pub variables: Option<Variables>,
}

/// SIP endpoint via a configured gateway:
/// `sofia/gateway/[{profile}::]{gateway}/{destination}`.
#[derive(Debug, Clone, PartialEq, Eq)]
pub struct SofiaGateway {
    /// Gateway name as configured in the SIP profile.
    pub gateway: String,
    /// Destination number or SIP user part.
    pub destination: String,
    /// SIP profile name to qualify the gateway lookup.
    pub profile: Option<String>,
    /// Per-channel variables prepended as `{key=value}`.
    pub variables: Option<Variables>,
}

/// Internal loopback endpoint: `loopback/{extension}[/{context}]`.
#[derive(Debug, Clone, PartialEq, Eq)]
pub struct LoopbackEndpoint {
    /// Extension number or pattern.
    pub extension: String,
    /// Dialplan context (defaults to `"default"`).
    pub context: String,
    /// Per-channel variables prepended as `{key=value}`.
    pub variables: Option<Variables>,
}

/// Directory-based endpoint: `user/{name}[@{domain}]`.
#[derive(Debug, Clone, PartialEq, Eq)]
pub struct UserEndpoint {
    /// User name from the directory.
    pub name: String,
    /// Domain name (optional, uses default domain if absent).
    pub domain: Option<String>,
    /// Per-channel variables prepended as `{key=value}`.
    pub variables: Option<Variables>,
}

/// Runtime expression resolving registered SIP contacts:
/// `${sofia_contact([profile/]user@domain)}`.
#[derive(Debug, Clone, PartialEq, Eq)]
pub struct SofiaContact {
    /// User part of the contact lookup.
    pub user: String,
    /// Domain for the contact lookup.
    pub domain: String,
    /// SIP profile name, or `"*"` for all profiles.
    pub profile: Option<String>,
    /// Per-channel variables prepended as `{key=value}`.
    pub variables: Option<Variables>,
}

/// Runtime expression resolving directory group members:
/// `${group_call(group@domain[+order])}`.
#[derive(Debug, Clone, PartialEq, Eq)]
pub struct GroupCall {
    /// Group name from the directory.
    pub group: String,
    /// Domain for the group lookup.
    pub domain: String,
    /// Distribution order: `A` (all), `E` (enterprise), `F` (first).
    pub order: Option<String>,
    /// Per-channel variables prepended as `{key=value}`.
    pub variables: Option<Variables>,
}

/// Bridge to a specific hangup cause: `error/{cause}`.
#[derive(Debug, Clone, PartialEq, Eq)]
pub struct ErrorEndpoint {
    /// Hangup cause string (e.g. `user_busy`, `no_answer`).
    pub cause: String,
}

/// Polymorphic endpoint wrapping all concrete types.
#[derive(Debug, Clone, PartialEq, Eq)]
pub enum Endpoint {
    /// `sofia/{profile}/{destination}`
    Sofia(SofiaEndpoint),
    /// `sofia/gateway/[{profile}::]{gateway}/{destination}`
    SofiaGateway(SofiaGateway),
    /// `loopback/{extension}[/{context}]`
    Loopback(LoopbackEndpoint),
    /// `user/{name}[@{domain}]`
    User(UserEndpoint),
    /// `${sofia_contact([profile/]user@domain)}`
    SofiaContact(SofiaContact),
    /// `${group_call(group@domain[+order])}`
    GroupCall(GroupCall),
    /// `error/{cause}`
    Error(ErrorEndpoint),
}

/// An endpoint by its parts as text.
pub enum EndpointView {
    Sofia { profile: Seq<char>, destination: Seq<char>, vars: Option<VarsView> },
    Gateway { gateway: Seq<char>, destination: Seq<char>, profile: Option<Seq<char>>, vars: Option<VarsView> },
    Loopback { extension: Seq<char>, context: Seq<char>, vars: Option<VarsView> },
    User { name: Seq<char>, domain: Option<Seq<char>>, vars: Option<VarsView> },
    Contact { user: Seq<char>, domain: Seq<char>, profile: Option<Seq<char>>, vars: Option<VarsView> },
    Group { group: Seq<char>, domain: Seq<char>, order: Option<Seq<char>>, vars: Option<VarsView> },
    Error { cause: Seq<char> },
}

/// The dial string of an endpoint.
pub open spec fn endpoint_text(e: EndpointView) -> Seq<char> {
    match e {
        EndpointView::Sofia { profile, destination, vars } => vars_prefix(vars) + "sofia/"@ + profile + "/"@
            + destination,
        EndpointView::Gateway { gateway, destination, profile, vars } => vars_prefix(vars) + match profile {
            Some(p) => "sofia/gateway/"@ + p + "::"@ + gateway + "/"@ + destination,
            None => "sofia/gateway/"@ + gateway + "/"@ + destination,
        },
        EndpointView::Loopback { extension, context, vars } => vars_prefix(vars) + "loopback/"@ + extension
            + "/"@ + context,
        EndpointView::User { name, domain, vars } => vars_prefix(vars) + match domain {
            Some(d) => "user/"@ + name + "@"@ + d,
            None => "user/"@ + name,
        },
        EndpointView::Contact { user, domain, profile, vars } => vars_prefix(vars) + match profile {
            Some(p) => "${sofia_contact("@ + p + "/"@ + user + "@"@ + domain + ")}"@,
            None => "${sofia_contact("@ + user + "@"@ + domain + ")}"@,
        },
        EndpointView::Group { group, domain, order, vars } => vars_prefix(vars) + match order {
            Some(o) => "${group_call("@ + group + "@"@ + domain + "+"@ + o + ")}"@,
            None => "${group_call("@ + group + "@"@ + domain + ")}"@,
        },
        EndpointView::Error { cause } => "error/"@ + cause,
    }
}

/// An endpoint's parts as text.
pub open spec fn endpoint_view(e: Endpoint) -> EndpointView {
    match e {
        Endpoint::Sofia(x) => sofia_view(x),
        Endpoint::SofiaGateway(x) => gateway_view(x),
        Endpoint::Loopback(x) => loopback_view(x),
        Endpoint::User(x) => user_view(x),
        Endpoint::SofiaContact(x) => contact_view(x),
        Endpoint::GroupCall(x) => group_view(x),
        Endpoint::Error(x) => EndpointView::Error { cause: x.cause@ },
    }
}

pub open spec fn sofia_view(x: SofiaEndpoint) -> EndpointView {
    EndpointView::Sofia { profile: x.profile@, destination: x.destination@, vars: vars_view(x.variables) }
}

pub open spec fn gateway_view(x: SofiaGateway) -> EndpointView {
    EndpointView::Gateway {
        gateway: x.gateway@,
        destination: x.destination@,
        profile: crate::channel::opt_view(x.profile),
        vars: vars_view(x.variables),
    }
}

pub open spec fn loopback_view(x: LoopbackEndpoint) -> EndpointView {
    EndpointView::Loopback { extension: x.extension@, context: x.context@, vars: vars_view(x.variables) }
}

pub open spec fn user_view(x: UserEndpoint) -> EndpointView {
    EndpointView::User { name: x.name@, domain: crate::channel::opt_view(x.domain), vars: vars_view(x.variables) }
}

pub open spec fn contact_view(x: SofiaContact) -> EndpointView {
    EndpointView::Contact {
        user: x.user@,
        domain: x.domain@,
        profile: crate::channel::opt_view(x.profile),
        vars: vars_view(x.variables),
    }
}

pub open spec fn group_view(x: GroupCall) -> EndpointView {
    EndpointView::Group {
        group: x.group@,
        domain: x.domain@,
        order: crate::channel::opt_view(x.order),
        vars: vars_view(x.variables),
    }
}

// ---------------------------------------------------------------------------
// Parsing specifications
// ---------------------------------------------------------------------------

/// A dial string with its variable block parsed, then the rest read by `f`.
pub open spec fn with_vars(
    s: Seq<char>,
    f: spec_fn(Seq<char>, Option<VarsView>) -> Result<EndpointView, Seq<char>>,
) -> Result<EndpointView, Seq<char>> {
    match extract_outcome(s) {
        Err(m) => Err(m),
        Ok((v, uri)) => f(uri, v),
    }
}

#[verifier::opaque]
pub open spec fn sofia_uri(uri: Seq<char>, v: Option<VarsView>) -> Result<EndpointView, Seq<char>> {
    match strip_prefix(uri, "sofia/"@) {
        None => Err("not a sofia endpoint"@),
        Some(rest) => match split_once_char(rest, '/') {
            None => Err("sofia endpoint needs profile/destination"@),
            Some((p, d)) => Ok(EndpointView::Sofia { profile: p, destination: d, vars: v }),
        },
    }
}

#[verifier::opaque]
pub open spec fn gateway_uri(uri: Seq<char>, v: Option<VarsView>) -> Result<EndpointView, Seq<char>> {
    match strip_prefix(uri, "sofia/gateway/"@) {
        None => Err("not a sofia gateway endpoint"@),
        Some(rest) => match split_once_char(rest, '/') {
            None => Err("sofia gateway needs gateway/destination"@),
            Some((g, d)) => Ok(
                match split_once_seq(g, "::"@) {
                    Some((p, gw)) => EndpointView::Gateway { gateway: gw, destination: d, profile: Some(p), vars: v },
                    None => EndpointView::Gateway { gateway: g, destination: d, profile: None, vars: v },
                },
            ),
        },
    }
}

#[verifier::opaque]
pub open spec fn loopback_uri(uri: Seq<char>, v: Option<VarsView>) -> Result<EndpointView, Seq<char>> {
    match strip_prefix(uri, "loopback/"@) {
        None => Err("not a loopback endpoint"@),
        Some(rest) => Ok(
            match split_once_char(rest, '/') {
                Some((e, c)) => EndpointView::Loopback { extension: e, context: c, vars: v },
                None => EndpointView::Loopback { extension: rest, context: "default"@, vars: v },
            },
        ),
    }
}

#[verifier::opaque]
pub open spec fn user_uri(uri: Seq<char>, v: Option<VarsView>) -> Result<EndpointView, Seq<char>> {
    match strip_prefix(uri, "user/"@) {
        None => Err("not a user endpoint"@),
        Some(rest) => Ok(
            match split_once_char(rest, '@') {
                Some((n, d)) => EndpointView::User { name: n, domain: Some(d), vars: v },
                None => EndpointView::User { name: rest, domain: None, vars: v },
            },
        ),
    }
}

/// The inside of `${name(...)}`.
pub open spec fn expression_inner(uri: Seq<char>, head: Seq<char>) -> Option<Seq<char>> {
    match strip_prefix(uri, head) {
        Some(r) => strip_suffix(r, ")}"@),
        None => None,
    }
}

#[verifier::opaque]
pub open spec fn contact_uri(uri: Seq<char>, v: Option<VarsView>) -> Result<EndpointView, Seq<char>> {
    match expression_inner(uri, "${sofia_contact("@) {
        None => Err("not a sofia_contact expression"@),
        Some(inner) => {
            let (profile, ud) = match split_once_char(inner, '/') {
                Some((p, rest)) => (Some(p), rest),
                None => (None, inner),
            };
            match split_once_char(ud, '@') {
                None => Err("sofia_contact needs user@domain"@),
                Some((u, d)) => Ok(EndpointView::Contact { user: u, domain: d, profile, vars: v }),
            }
        },
    }
}

#[verifier::opaque]
pub open spec fn group_uri(uri: Seq<char>, v: Option<VarsView>) -> Result<EndpointView, Seq<char>> {
    match expression_inner(uri, "${group_call("@) {
        None => Err("not a group_call expression"@),
        Some(inner) => {
            let (gd, order) = match split_once_char(inner, '+') {
                Some((gd, o)) => (gd, Some(o)),
                None => (inner, None),
            };
            match split_once_char(gd, '@') {
                None => Err("group_call needs group@domain"@),
                Some((g, d)) => Ok(EndpointView::Group { group: g, domain: d, order, vars: v }),
            }
        },
    }
}

pub open spec fn error_text_outcome(s: Seq<char>) -> Result<EndpointView, Seq<char>> {
    match strip_prefix(s, "error/"@) {
        None => Err("not an error endpoint"@),
        Some(c) => Ok(EndpointView::Error { cause: c }),
    }
}

/// What parsing a dial string as any endpoint gives: the kind is chosen by
/// the prefix of the string after its variable block, and that kind's parser
/// reads the whole string (the rest alone when the block was empty).
pub open spec fn endpoint_outcome(s: Seq<char>) -> Result<EndpointView, Seq<char>> {
    match extract_outcome(s) {
        Err(m) => Err(m),
        Ok((v, uri)) => {
            let full = if v is Some { s } else { uri };
            if starts_with(uri, "${sofia_contact("@) {
                with_vars(full, |u: Seq<char>, w: Option<VarsView>| contact_uri(u, w))
            } else if starts_with(uri, "${group_call("@) {
                with_vars(full, |u: Seq<char>, w: Option<VarsView>| group_uri(u, w))
            } else if starts_with(uri, "error/"@) {
                error_text_outcome(full)
            } else if starts_with(uri, "loopback/"@) {
                with_vars(full, |u: Seq<char>, w: Option<VarsView>| loopback_uri(u, w))
            } else if starts_with(uri, "sofia/gateway/"@) {
                with_vars(full, |u: Seq<char>, w: Option<VarsView>| gateway_uri(u, w))
            } else if starts_with(uri, "sofia/"@) {
                with_vars(full, |u: Seq<char>, w: Option<VarsView>| sofia_uri(u, w))
            } else if starts_with(uri, "user/"@) {
                with_vars(full, |u: Seq<char>, w: Option<VarsView>| user_uri(u, w))
            } else {
                Err("unknown endpoint type: "@ + uri)
            }
        },
    }
}

/// An error endpoint reads back from its own dial string, whatever its cause.
pub proof fn lemma_error_endpoint_round_trip(ep: ErrorEndpoint)
    ensures
        error_text_outcome(endpoint_text(EndpointView::Error { cause: ep.cause@ })) == Ok::<
            EndpointView,
            Seq<char>,
        >(EndpointView::Error { cause: ep.cause@ }),
{
    reveal_strlit("error/");
    let t = endpoint_text(EndpointView::Error { cause: ep.cause@ });
    assert(t.take(6) =~= "error/"@);
    assert(t.skip(6) =~= ep.cause@);
}

/// Splitting `p`, `c`, `rest` once at `c` gives `p` and `rest` when `p` holds
/// no `c`.
proof fn lemma_split_after(p: Seq<char>, c: char, rest: Seq<char>)
    requires
        !has_char(p, c),
    ensures
        split_once_char(p + seq![c] + rest, c) == Some((p, rest)),
{
    let t = p + seq![c] + rest;
    assert(is_first_index(t, c, p.len() as int)) by {
        assert forall|j: int| 0 <= j < p.len() implies t[j] != c by {
            assert(t[j] == p[j]);
        }
    }
    lemma_first_index(t, c, p.len() as int);
    assert(t.take(p.len() as int) =~= p);
    assert(t.skip(p.len() as int + 1) =~= rest);
}

/// `head + rest` with its prefix `head` stripped is `rest`.
proof fn lemma_strip_head(head: Seq<char>, rest: Seq<char>)
    ensures
        strip_prefix(head + rest, head) == Some(rest),
{
    assert((head + rest).take(head.len() as int) =~= head);
    assert((head + rest).skip(head.len() as int) =~= rest);
}

/// A sofia endpoint without variables reads back from its own dial string
/// when its profile holds no `/` (the first `/` after `sofia/` ends the
/// profile).
#[verifier::spinoff_prover]
pub proof fn lemma_sofia_endpoint_round_trip(ep: SofiaEndpoint)
    requires
        ep.variables is None,
        !has_char(ep.profile@, '/'),
    ensures
        with_vars(endpoint_text(sofia_view(ep)), |u: Seq<char>, w: Option<VarsView>| sofia_uri(u, w))
            == Ok::<EndpointView, Seq<char>>(sofia_view(ep)),
{
    reveal(sofia_uri);
    reveal_strlit("sofia/");
    reveal_strlit("/");
    let t = endpoint_text(sofia_view(ep));
    assert(vars_prefix(None) =~= Seq::<char>::empty());
    assert(t =~= "sofia/"@ + (ep.profile@ + seq!['/'] + ep.destination@));
    assert(t[0] == 's' && closer(t[0]) is None);
    assert(extract_outcome(t) == Ok::<(Option<VarsView>, Seq<char>), Seq<char>>((None, t)));
    lemma_strip_head("sofia/"@, ep.profile@ + seq!['/'] + ep.destination@);
    lemma_split_after(ep.profile@, '/', ep.destination@);
}

/// A loopback endpoint without variables reads back from its own dial
/// string when its extension holds no `/`.
#[verifier::spinoff_prover]
pub proof fn lemma_loopback_endpoint_round_trip(ep: LoopbackEndpoint)
    requires
        ep.variables is None,
        !has_char(ep.extension@, '/'),
    ensures
        with_vars(endpoint_text(loopback_view(ep)), |u: Seq<char>, w: Option<VarsView>| loopback_uri(u, w))
            == Ok::<EndpointView, Seq<char>>(loopback_view(ep)),
{
    reveal(loopback_uri);
    reveal_strlit("loopback/");
    reveal_strlit("/");
    let t = endpoint_text(loopback_view(ep));
    assert(vars_prefix(None) =~= Seq::<char>::empty());
    assert(t =~= "loopback/"@ + (ep.extension@ + seq!['/'] + ep.context@));
    assert(t[0] == 'l' && closer(t[0]) is None);
    assert(extract_outcome(t) == Ok::<(Option<VarsView>, Seq<char>), Seq<char>>((None, t)));
    lemma_strip_head("loopback/"@, ep.extension@ + seq!['/'] + ep.context@);
    lemma_split_after(ep.extension@, '/', ep.context@);
}

/// A user endpoint without variables reads back from its own dial string
/// when its name holds no `@`.
pub proof fn lemma_user_endpoint_round_trip(ep: UserEndpoint)
    requires
        ep.variables is None,
        !has_char(ep.name@, '@'),
    ensures
        with_vars(endpoint_text(user_view(ep)), |u: Seq<char>, w: Option<VarsView>| user_uri(u, w))
            == Ok::<EndpointView, Seq<char>>(user_view(ep)),
{
    let t = endpoint_text(user_view(ep));
    assert(vars_prefix(None) =~= Seq::<char>::empty());
    lemma_user_uri_round_trip(ep);
    reveal_strlit("user/");
    assert(t.take(5) =~= "user/"@);
    assert(t[0] == 'u' && closer(t[0]) is None);
    assert(extract_outcome(t) == Ok::<(Option<VarsView>, Seq<char>), Seq<char>>((None, t)));
}

/// The user part of [`lemma_user_endpoint_round_trip`], once the (empty)
/// variable block is split off.
proof fn lemma_user_uri_round_trip(ep: UserEndpoint)
    requires
        ep.variables is None,
        !has_char(ep.name@, '@'),
    ensures
        user_uri(endpoint_text(user_view(ep)), None) == Ok::<EndpointView, Seq<char>>(user_view(ep)),
{
    reveal(user_uri);
    reveal_strlit("user/");
    reveal_strlit("@");
    let t = endpoint_text(user_view(ep));
    assert(vars_prefix(None) =~= Seq::<char>::empty());
    match ep.domain {
        Some(d) => {
            assert(t =~= "user/"@ + (ep.name@ + seq!['@'] + d@));
            lemma_strip_head("user/"@, ep.name@ + seq!['@'] + d@);
            lemma_split_after(ep.name@, '@', d@);
        },
        None => {
            assert(t =~= "user/"@ + ep.name@);
            lemma_strip_head("user/"@, ep.name@);
            lemma_no_index(ep.name@, '@');
        },
    }
}

/// `p`, `::`, `rest` splits once at `::` into `p` and `rest` when `p`
/// followed by one `:` holds no `::`.
proof fn lemma_split_after_double_colon(p: Seq<char>, rest: Seq<char>)
    requires
        crate::buffer::find_seq(p + seq![':'], "::"@) is None,
    ensures
        split_once_seq(p + "::"@ + rest, "::"@) == Some((p, rest)),
{
    reveal_strlit("::");
    let g = p + "::"@ + rest;
    let q = p + seq![':'];
    let n = p.len() as int;
    assert(g.subrange(n, n + 2) =~= "::"@);
    assert forall|j: int| 0 <= j < n implies #[trigger] g.subrange(j, j + 2) != "::"@ by {
        assert(g.subrange(j, j + 2) =~= q.subrange(j, j + 2));
        if q.subrange(j, j + 2) == "::"@ {
            assert(0 <= j <= q.len() - 2);
        }
    }
    assert(crate::buffer::is_first_match(g, "::"@, n));
    crate::buffer::lemma_find_seq_first(g, "::"@, n);
    assert(g.take(n) =~= p);
    assert(g.skip(n + 2) =~= rest);
}

/// `a` and `b` hold no `c`, so neither does `a + b`.
proof fn lemma_no_char_concat(a: Seq<char>, b: Seq<char>, c: char)
    requires
        !has_char(a, c),
        !has_char(b, c),
    ensures
        !has_char(a + b, c),
{
    assert forall|i: int| 0 <= i < (a + b).len() implies (a + b)[i] != c by {
        if i < a.len() {
            assert((a + b)[i] == a[i]);
        } else {
            assert((a + b)[i] == b[i - a.len()]);
        }
    }
}

/// A gateway endpoint without variables reads back from its own dial string
/// when its gateway holds no `/`, and either its profile holds no `/` and,
/// followed by one `:`, no `::`, or it has no profile and its gateway holds
/// no `::` (the first `/` ends the gateway part, and the first `::` in it
/// ends the profile).
pub proof fn lemma_gateway_endpoint_round_trip(ep: SofiaGateway)
    requires
        ep.variables is None,
        !has_char(ep.gateway@, '/'),
        match ep.profile {
            Some(p) => !has_char(p@, '/') && crate::buffer::find_seq(p@ + seq![':'], "::"@) is None,
            None => crate::buffer::find_seq(ep.gateway@, "::"@) is None,
        },
    ensures
        with_vars(endpoint_text(gateway_view(ep)), |u: Seq<char>, w: Option<VarsView>| gateway_uri(u, w))
            == Ok::<EndpointView, Seq<char>>(gateway_view(ep)),
{
    let t = endpoint_text(gateway_view(ep));
    assert(vars_prefix(None) =~= Seq::<char>::empty());
    lemma_gateway_uri_round_trip(ep);
    reveal_strlit("sofia/gateway/");
    assert(t.take(14) =~= "sofia/gateway/"@);
    assert(t[0] == 's' && closer(t[0]) is None);
    assert(extract_outcome(t) == Ok::<(Option<VarsView>, Seq<char>), Seq<char>>((None, t)));
}

/// The gateway part of [`lemma_gateway_endpoint_round_trip`], once the
/// (empty) variable block is split off.
proof fn lemma_gateway_uri_round_trip(ep: SofiaGateway)
    requires
        ep.variables is None,
        !has_char(ep.gateway@, '/'),
        match ep.profile {
            Some(p) => !has_char(p@, '/') && crate::buffer::find_seq(p@ + seq![':'], "::"@) is None,
            None => crate::buffer::find_seq(ep.gateway@, "::"@) is None,
        },
    ensures
        gateway_uri(endpoint_text(gateway_view(ep)), None) == Ok::<EndpointView, Seq<char>>(gateway_view(ep)),
{
    reveal(gateway_uri);
    reveal_strlit("sofia/gateway/");
    reveal_strlit("::");
    reveal_strlit("/");
    let t = endpoint_text(gateway_view(ep));
    assert(vars_prefix(None) =~= Seq::<char>::empty());
    let gw = ep.gateway@;
    let d = ep.destination@;
    match ep.profile {
        Some(p) => {
            let g = p@ + "::"@ + gw;
            assert(t =~= "sofia/gateway/"@ + (g + seq!['/'] + d));
            lemma_strip_head("sofia/gateway/"@, g + seq!['/'] + d);
            assert(!has_char("::"@, '/'));
            lemma_no_char_concat(p@, "::"@, '/');
            lemma_no_char_concat(p@ + "::"@, gw, '/');
            lemma_split_after(g, '/', d);
            lemma_split_after_double_colon(p@, gw);
        },
        None => {
            assert(t =~= "sofia/gateway/"@ + (gw + seq!['/'] + d));
            lemma_strip_head("sofia/gateway/"@, gw + seq!['/'] + d);
            lemma_split_after(gw, '/', d);
        },
    }
}

/// The inside of `head + inner + ")}"` is `inner`.
proof fn lemma_expression_inner(head: Seq<char>, inner: Seq<char>)
    ensures
        expression_inner(head + inner + ")}"@, head) == Some(inner),
{
    reveal_strlit(")}");
    let s = head + inner + ")}"@;
    assert(s =~= head + (inner + ")}"@));
    lemma_strip_head(head, inner + ")}"@);
    let r = inner + ")}"@;
    assert(r.skip(r.len() - 2) =~= ")}"@);
    assert(r.take(r.len() - 2) =~= inner);
}

/// A sofia_contact expression without variables reads back from its own
/// dial string when its user holds no `@`, and either it has a profile
/// holding no `/`, or it has none and its user and domain hold no `/` (the
/// first `/` ends the profile, the first `@` after it the user).
pub proof fn lemma_contact_endpoint_round_trip(ep: SofiaContact)
    requires
        ep.variables is None,
        !has_char(ep.user@, '@'),
        match ep.profile {
            Some(p) => !has_char(p@, '/'),
            None => !has_char(ep.user@, '/') && !has_char(ep.domain@, '/'),
        },
    ensures
        with_vars(endpoint_text(contact_view(ep)), |u: Seq<char>, w: Option<VarsView>| contact_uri(u, w))
            == Ok::<EndpointView, Seq<char>>(contact_view(ep)),
{
    let t = endpoint_text(contact_view(ep));
    assert(vars_prefix(None) =~= Seq::<char>::empty());
    lemma_contact_uri_round_trip(ep);
    reveal_strlit("${sofia_contact(");
    assert(t.take(16) =~= "${sofia_contact("@);
    assert(t[0] == '$' && closer(t[0]) is None);
    assert(extract_outcome(t) == Ok::<(Option<VarsView>, Seq<char>), Seq<char>>((None, t)));
}

proof fn lemma_contact_uri_round_trip(ep: SofiaContact)
    requires
        ep.variables is None,
        !has_char(ep.user@, '@'),
        match ep.profile {
            Some(p) => !has_char(p@, '/'),
            None => !has_char(ep.user@, '/') && !has_char(ep.domain@, '/'),
        },
    ensures
        contact_uri(endpoint_text(contact_view(ep)), None) == Ok::<EndpointView, Seq<char>>(contact_view(ep)),
{
    reveal(contact_uri);
    reveal_strlit("/");
    reveal_strlit("@");
    let t = endpoint_text(contact_view(ep));
    assert(vars_prefix(None) =~= Seq::<char>::empty());
    let u = ep.user@;
    let d = ep.domain@;
    let ud = u + seq!['@'] + d;
    match ep.profile {
        Some(p) => {
            let inner = p@ + seq!['/'] + ud;
            assert(t =~= "${sofia_contact("@ + inner + ")}"@);
            lemma_expression_inner("${sofia_contact("@, inner);
            lemma_split_after(p@, '/', ud);
            lemma_split_after(u, '@', d);
        },
        None => {
            assert(t =~= "${sofia_contact("@ + ud + ")}"@);
            lemma_expression_inner("${sofia_contact("@, ud);
            assert(!has_char(seq!['@'], '/'));
            lemma_no_char_concat(u, seq!['@'], '/');
            lemma_no_char_concat(u + seq!['@'], d, '/');
            lemma_no_index(ud, '/');
            lemma_split_after(u, '@', d);
        },
    }
}

/// A group_call expression without variables reads back from its own dial
/// string when its group holds no `@`, and its group and domain hold no `+`
/// (the first `+` starts the order, the first `@` before it the domain).
pub proof fn lemma_group_endpoint_round_trip(ep: GroupCall)
    requires
        ep.variables is None,
        !has_char(ep.group@, '@'),
        !has_char(ep.group@, '+'),
        !has_char(ep.domain@, '+'),
    ensures
        with_vars(endpoint_text(group_view(ep)), |u: Seq<char>, w: Option<VarsView>| group_uri(u, w))
            == Ok::<EndpointView, Seq<char>>(group_view(ep)),
{
    let t = endpoint_text(group_view(ep));
    assert(vars_prefix(None) =~= Seq::<char>::empty());
    lemma_group_uri_round_trip(ep);
    reveal_strlit("${group_call(");
    assert(t.take(13) =~= "${group_call("@);
    assert(t[0] == '$' && closer(t[0]) is None);
    assert(extract_outcome(t) == Ok::<(Option<VarsView>, Seq<char>), Seq<char>>((None, t)));
}

proof fn lemma_group_uri_round_trip(ep: GroupCall)
    requires
        ep.variables is None,
        !has_char(ep.group@, '@'),
        !has_char(ep.group@, '+'),
        !has_char(ep.domain@, '+'),
    ensures
        group_uri(endpoint_text(group_view(ep)), None) == Ok::<EndpointView, Seq<char>>(group_view(ep)),
{
    reveal(group_uri);
    reveal_strlit("+");
    reveal_strlit("@");
    let t = endpoint_text(group_view(ep));
    assert(vars_prefix(None) =~= Seq::<char>::empty());
    let g = ep.group@;
    let d = ep.domain@;
    let gd = g + seq!['@'] + d;
    assert(!has_char(seq!['@'], '+'));
    lemma_no_char_concat(g, seq!['@'], '+');
    lemma_no_char_concat(g + seq!['@'], d, '+');
    match ep.order {
        Some(o) => {
            let inner = gd + seq!['+'] + o@;
            assert(t =~= "${group_call("@ + inner + ")}"@);
            lemma_expression_inner("${group_call("@, inner);
            lemma_split_after(gd, '+', o@);
            lemma_split_after(g, '@', d);
        },
        None => {
            assert(t =~= "${group_call("@ + gd + ")}"@);
            lemma_expression_inner("${group_call("@, gd);
            lemma_no_index(gd, '+');
            lemma_split_after(g, '@', d);
        },
    }
}

/// `r` is the result that `o` describes, as seen through `view`.
pub open spec fn parsed_as<T>(r: Result<T, OriginateError>, o: Result<EndpointView, Seq<char>>, view: spec_fn(T) -> EndpointView) -> bool {
    match o {
        Ok(e) => r matches Ok(x) && view(x) == e,
        Err(m) => r matches Err(OriginateError::ParseError(t)) && t@ == m,
    }
}

// ---------------------------------------------------------------------------
// Formatting and parsing
// ---------------------------------------------------------------------------

/// Anything that formats as a dial string and may carry per-endpoint
/// variables. Implemented by each endpoint type and by [`Endpoint`]; other
/// crates can implement it on endpoint types of their own.
pub trait DialString {
    /// Per-endpoint variables, if any.
    fn variables(&self) -> Option<&Variables>;

    /// Replace per-endpoint variables.
    fn set_variables(&mut self, vars: Option<Variables>);
}

impl SofiaEndpoint {
    /// The dial string.
    pub fn to_string(&self) -> (r: String)
        ensures
            r@ == endpoint_text(sofia_view(*self)),
    {
        let mut r = String::new();
        write_variables(&mut r, &self.variables);
        push_str(&mut r, "sofia/");
        push_str(&mut r, self.profile.as_str());
        push_str(&mut r, "/");
        push_str(&mut r, self.destination.as_str());
        r
    }

    /// Parse `[vars]sofia/{profile}/{destination}`.
    pub fn parse(s: &str) -> (r: Result<SofiaEndpoint, OriginateError>)
        ensures
            parsed_as(r, with_vars(s@, |u: Seq<char>, w: Option<VarsView>| sofia_uri(u, w)), |x: SofiaEndpoint| sofia_view(x)),
    {
        reveal(sofia_uri);
        let (variables, uri) = extract_variables(s)?;
        let rest = match strip_prefix_str(uri.as_str(), "sofia/") {
            Some(r) => r,
            None => {
                return Err(OriginateError::ParseError(owned("not a sofia endpoint")));
            },
        };
        match split_once(rest.as_str(), '/') {
            Some((profile, destination)) => Ok(SofiaEndpoint { profile, destination, variables }),
            None => Err(OriginateError::ParseError(owned("sofia endpoint needs profile/destination"))),
        }
    }
}

impl SofiaGateway {
    /// The dial string.
    pub fn to_string(&self) -> (r: String)
        ensures
            r@ == endpoint_text(gateway_view(*self)),
    {
        let mut r = String::new();
        write_variables(&mut r, &self.variables);
        push_str(&mut r, "sofia/gateway/");
        match &self.profile {
            Some(p) => {
                push_str(&mut r, p.as_str());
                push_str(&mut r, "::");
            },
            None => {},
        }
        push_str(&mut r, self.gateway.as_str());
        push_str(&mut r, "/");
        push_str(&mut r, self.destination.as_str());
        r
    }

    /// Parse `[vars]sofia/gateway/[{profile}::]{gateway}/{destination}`.
    pub fn parse(s: &str) -> (r: Result<SofiaGateway, OriginateError>)
        ensures
            parsed_as(r, with_vars(s@, |u: Seq<char>, w: Option<VarsView>| gateway_uri(u, w)), |x: SofiaGateway| gateway_view(x)),
    {
        reveal(gateway_uri);
        let (variables, uri) = extract_variables(s)?;
        let rest = match strip_prefix_str(uri.as_str(), "sofia/gateway/") {
            Some(r) => r,
            None => {
                return Err(OriginateError::ParseError(owned("not a sofia gateway endpoint")));
            },
        };
        let (gateway_part, destination) = match split_once(rest.as_str(), '/') {
            Some(p) => p,
            None => {
                return Err(OriginateError::ParseError(owned("sofia gateway needs gateway/destination")));
            },
        };
        proof {
            reveal_strlit("::");
        }
        match split_once_str(gateway_part.as_str(), "::") {
            Some((p, g)) => Ok(SofiaGateway { gateway: g, destination, profile: Some(p), variables }),
            None => Ok(SofiaGateway { gateway: gateway_part, destination, profile: None, variables }),
        }
    }
}

impl LoopbackEndpoint {
    /// Create a new loopback endpoint.
    pub fn new(extension: &str, context: &str) -> (r: LoopbackEndpoint)
        ensures
            r.extension@ == extension@,
            r.context@ == context@,
            r.variables is None,
    {
        LoopbackEndpoint { extension: owned(extension), context: owned(context), variables: None }
    }

    /// Set per-channel variables.
    pub fn with_variables(self, variables: Variables) -> (r: LoopbackEndpoint)
        ensures
            r.extension == self.extension,
            r.context == self.context,
            r.variables == Some(variables),
    {
        LoopbackEndpoint { variables: Some(variables), ..self }
    }

    /// The dial string.
    pub fn to_string(&self) -> (r: String)
        ensures
            r@ == endpoint_text(loopback_view(*self)),
    {
        let mut r = String::new();
        write_variables(&mut r, &self.variables);
        push_str(&mut r, "loopback/");
        push_str(&mut r, self.extension.as_str());
        push_str(&mut r, "/");
        push_str(&mut r, self.context.as_str());
        r
    }

    /// Parse `[vars]loopback/{extension}[/{context}]`.
    pub fn parse(s: &str) -> (r: Result<LoopbackEndpoint, OriginateError>)
        ensures
            parsed_as(r, with_vars(s@, |u: Seq<char>, w: Option<VarsView>| loopback_uri(u, w)), |x: LoopbackEndpoint| loopback_view(x)),
    {
        reveal(loopback_uri);
        let (variables, uri) = extract_variables(s)?;
        let rest = match strip_prefix_str(uri.as_str(), "loopback/") {
            Some(r) => r,
            None => {
                return Err(OriginateError::ParseError(owned("not a loopback endpoint")));
            },
        };
        match split_once(rest.as_str(), '/') {
            Some((extension, context)) => Ok(LoopbackEndpoint { extension, context, variables }),
            None => Ok(LoopbackEndpoint { extension: rest, context: owned("default"), variables }),
        }
    }
}

impl UserEndpoint {
    /// The dial string.
    pub fn to_string(&self) -> (r: String)
        ensures
            r@ == endpoint_text(user_view(*self)),
    {
        let mut r = String::new();
        write_variables(&mut r, &self.variables);
        push_str(&mut r, "user/");
        push_str(&mut r, self.name.as_str());
        match &self.domain {
            Some(d) => {
                push_str(&mut r, "@");
                push_str(&mut r, d.as_str());
            },
            None => {},
        }
        r
    }

    /// Parse `[vars]user/{name}[@{domain}]`.
    pub fn parse(s: &str) -> (r: Result<UserEndpoint, OriginateError>)
        ensures
            parsed_as(r, with_vars(s@, |u: Seq<char>, w: Option<VarsView>| user_uri(u, w)), |x: UserEndpoint| user_view(x)),
    {
        reveal(user_uri);
        let (variables, uri) = extract_variables(s)?;
        let rest = match strip_prefix_str(uri.as_str(), "user/") {
            Some(r) => r,
            None => {
                return Err(OriginateError::ParseError(owned("not a user endpoint")));
            },
        };
        match split_once(rest.as_str(), '@') {
            Some((name, domain)) => Ok(UserEndpoint { name, domain: Some(domain), variables }),
            None => Ok(UserEndpoint { name: rest, domain: None, variables }),
        }
    }
}

/// The inside of `${name(...)}`.
fn inner_expression(uri: &str, head: &str) -> (r: Option<String>)
    ensures
        match expression_inner(uri@, head@) {
            Some(t) => r matches Some(x) && x@ == t,
            None => r is None,
        },
{
    match strip_prefix_str(uri, head) {
        Some(rest) => strip_suffix_str(rest.as_str(), ")}"),
        None => None,
    }
}

impl SofiaContact {
    /// The dial string.
    pub fn to_string(&self) -> (r: String)
        ensures
            r@ == endpoint_text(contact_view(*self)),
    {
        let mut r = String::new();
        write_variables(&mut r, &self.variables);
        push_str(&mut r, "${sofia_contact(");
        match &self.profile {
            Some(p) => {
                push_str(&mut r, p.as_str());
                push_str(&mut r, "/");
            },
            None => {},
        }
        push_str(&mut r, self.user.as_str());
        push_str(&mut r, "@");
        push_str(&mut r, self.domain.as_str());
        push_str(&mut r, ")}");
        r
    }

    /// Parse `[vars]${sofia_contact([profile/]user@domain)}`.
    #[verifier::rlimit(40)]
    pub fn parse(s: &str) -> (r: Result<SofiaContact, OriginateError>)
        ensures
            parsed_as(r, with_vars(s@, |u: Seq<char>, w: Option<VarsView>| contact_uri(u, w)), |x: SofiaContact| contact_view(x)),
    {
        reveal(contact_uri);
        let (variables, uri) = extract_variables(s)?;
        let inner = match inner_expression(uri.as_str(), "${sofia_contact(") {
            Some(i) => i,
            None => {
                return Err(OriginateError::ParseError(owned("not a sofia_contact expression")));
            },
        };
        let (profile, ud) = match split_once(inner.as_str(), '/') {
            Some((p, rest)) => (Some(p), rest),
            None => (None, inner),
        };
        match split_once(ud.as_str(), '@') {
            Some((user, domain)) => Ok(SofiaContact { user, domain, profile, variables }),
            None => Err(OriginateError::ParseError(owned("sofia_contact needs user@domain"))),
        }
    }
}

impl GroupCall {
    /// Create a new group_call expression.
    pub fn new(group: &str, domain: &str) -> (r: GroupCall)
        ensures
            r.group@ == group@,
            r.domain@ == domain@,
            r.order is None,
            r.variables is None,
    {
        GroupCall { group: owned(group), domain: owned(domain), order: None, variables: None }
    }

    /// Set the distribution order (A=all, E=enterprise, F=first).
    pub fn with_order(self, order: &str) -> (r: GroupCall)
        ensures
            r.group == self.group,
            r.domain == self.domain,
            r.order matches Some(o) && o@ == order@,
            r.variables == self.variables,
    {
        GroupCall { order: Some(owned(order)), ..self }
    }

    /// Set per-channel variables.
    pub fn with_variables(self, variables: Variables) -> (r: GroupCall)
        ensures
            r.group == self.group,
            r.domain == self.domain,
            r.order == self.order,
            r.variables == Some(variables),
    {
        GroupCall { variables: Some(variables), ..self }
    }

    /// The dial string.
    pub fn to_string(&self) -> (r: String)
        ensures
            r@ == endpoint_text(group_view(*self)),
    {
        let mut r = String::new();
        write_variables(&mut r, &self.variables);
        push_str(&mut r, "${group_call(");
        push_str(&mut r, self.group.as_str());
        push_str(&mut r, "@");
        push_str(&mut r, self.domain.as_str());
        match &self.order {
            Some(o) => {
                push_str(&mut r, "+");
                push_str(&mut r, o.as_str());
            },
            None => {},
        }
        push_str(&mut r, ")}");
        r
    }

    /// Parse `[vars]${group_call(group@domain[+order])}`.
    #[verifier::rlimit(40)]
    pub fn parse(s: &str) -> (r: Result<GroupCall, OriginateError>)
        ensures
            parsed_as(r, with_vars(s@, |u: Seq<char>, w: Option<VarsView>| group_uri(u, w)), |x: GroupCall| group_view(x)),
    {
        reveal(group_uri);
        let (variables, uri) = extract_variables(s)?;
        let inner = match inner_expression(uri.as_str(), "${group_call(") {
            Some(i) => i,
            None => {
                return Err(OriginateError::ParseError(owned("not a group_call expression")));
            },
        };
        let (gd, order) = match split_once(inner.as_str(), '+') {
            Some((gd, o)) => (gd, Some(o)),
            None => (inner, None),
        };
        match split_once(gd.as_str(), '@') {
            Some((group, domain)) => Ok(GroupCall { group, domain, order, variables }),
            None => Err(OriginateError::ParseError(owned("group_call needs group@domain"))),
        }
    }
}

impl ErrorEndpoint {
    /// The dial string: `error/{cause}`.
    pub fn to_string(&self) -> (r: String)
        ensures
            r@ == "error/"@ + self.cause@,
    {
        concat2("error/", self.cause.as_str())
    }

    /// Parse `error/{cause}`.
    pub fn parse(s: &str) -> (r: Result<ErrorEndpoint, OriginateError>)
        ensures
            parsed_as(r, error_text_outcome(s@), |x: ErrorEndpoint| EndpointView::Error { cause: x.cause@ }),
    {
        match strip_prefix_str(s, "error/") {
            Some(cause) => Ok(ErrorEndpoint { cause }),
            None => Err(OriginateError::ParseError(owned("not an error endpoint"))),
        }
    }
}

/// The variables an endpoint carries.
pub open spec fn endpoint_vars(e: Endpoint) -> Option<Variables> {
    match e {
        Endpoint::Sofia(x) => x.variables,
        Endpoint::SofiaGateway(x) => x.variables,
        Endpoint::Loopback(x) => x.variables,
        Endpoint::User(x) => x.variables,
        Endpoint::SofiaContact(x) => x.variables,
        Endpoint::GroupCall(x) => x.variables,
        Endpoint::Error(_) => None,
    }
}

impl Endpoint {
    /// The dial string.
    pub fn to_string(&self) -> (r: String)
        ensures
            r@ == endpoint_text(endpoint_view(*self)),
    {
        match self {
            Endpoint::Sofia(x) => x.to_string(),
            Endpoint::SofiaGateway(x) => x.to_string(),
            Endpoint::Loopback(x) => x.to_string(),
            Endpoint::User(x) => x.to_string(),
            Endpoint::SofiaContact(x) => x.to_string(),
            Endpoint::GroupCall(x) => x.to_string(),
            Endpoint::Error(x) => x.to_string(),
        }
    }

    /// Parse any endpoint (see [`endpoint_outcome`]).
    pub fn parse(s: &str) -> (r: Result<Endpoint, OriginateError>)
        ensures
            parsed_as(r, endpoint_outcome(s@), |x: Endpoint| endpoint_view(x)),
    {
        let (variables, uri) = extract_variables(s)?;
        let full = match variables {
            Some(_) => owned(s),
            None => uri.clone(),
        };
        let f = full.as_str();
        let u = uri.as_str();
        if str_starts_with(u, "${sofia_contact(") {
            Ok(Endpoint::SofiaContact(SofiaContact::parse(f)?))
        } else if str_starts_with(u, "${group_call(") {
            Ok(Endpoint::GroupCall(GroupCall::parse(f)?))
        } else if str_starts_with(u, "error/") {
            Ok(Endpoint::Error(ErrorEndpoint::parse(f)?))
        } else if str_starts_with(u, "loopback/") {
            Ok(Endpoint::Loopback(LoopbackEndpoint::parse(f)?))
        } else if str_starts_with(u, "sofia/gateway/") {
            Ok(Endpoint::SofiaGateway(SofiaGateway::parse(f)?))
        } else if str_starts_with(u, "sofia/") {
            Ok(Endpoint::Sofia(SofiaEndpoint::parse(f)?))
        } else if str_starts_with(u, "user/") {
            Ok(Endpoint::User(UserEndpoint::parse(f)?))
        } else {
            Err(OriginateError::ParseError(concat2("unknown endpoint type: ", u)))
        }
    }
}

impl DialString for SofiaEndpoint {
    fn variables(&self) -> (r: Option<&Variables>)
        ensures
            match r {
                Some(v) => self.variables == Some(*v),
                None => self.variables is None,
            },
    {
        self.variables.as_ref()
    }

    fn set_variables(&mut self, vars: Option<Variables>)
        ensures
            *final(self) == (SofiaEndpoint { variables: vars, ..*old(self) }),
    {
        self.variables = vars;
    }
}

impl DialString for SofiaGateway {
    fn variables(&self) -> (r: Option<&Variables>)
        ensures
            match r {
                Some(v) => self.variables == Some(*v),
                None => self.variables is None,
            },
    {
        self.variables.as_ref()
    }

    fn set_variables(&mut self, vars: Option<Variables>)
        ensures
            *final(self) == (SofiaGateway { variables: vars, ..*old(self) }),
    {
        self.variables = vars;
    }
}

impl DialString for LoopbackEndpoint {
    fn variables(&self) -> (r: Option<&Variables>)
        ensures
            match r {
                Some(v) => self.variables == Some(*v),
                None => self.variables is None,
            },
    {
        self.variables.as_ref()
    }

    fn set_variables(&mut self, vars: Option<Variables>)
        ensures
            *final(self) == (LoopbackEndpoint { variables: vars, ..*old(self) }),
    {
        self.variables = vars;
    }
}

impl DialString for UserEndpoint {
    fn variables(&self) -> (r: Option<&Variables>)
        ensures
            match r {
                Some(v) => self.variables == Some(*v),
                None => self.variables is None,
            },
    {
        self.variables.as_ref()
    }

    fn set_variables(&mut self, vars: Option<Variables>)
        ensures
            *final(self) == (UserEndpoint { variables: vars, ..*old(self) }),
    {
        self.variables = vars;
    }
}

impl DialString for SofiaContact {
    fn variables(&self) -> (r: Option<&Variables>)
        ensures
            match r {
                Some(v) => self.variables == Some(*v),
                None => self.variables is None,
            },
    {
        self.variables.as_ref()
    }

    fn set_variables(&mut self, vars: Option<Variables>)
        ensures
            *final(self) == (SofiaContact { variables: vars, ..*old(self) }),
    {
        self.variables = vars;
    }
}

impl DialString for GroupCall {
    fn variables(&self) -> (r: Option<&Variables>)
        ensures
            match r {
                Some(v) => self.variables == Some(*v),
                None => self.variables is None,
            },
    {
        self.variables.as_ref()
    }

    fn set_variables(&mut self, vars: Option<Variables>)
        ensures
            *final(self) == (GroupCall { variables: vars, ..*old(self) }),
    {
        self.variables = vars;
    }
}

impl DialString for ErrorEndpoint {
    /// An error endpoint carries no variables.
    fn variables(&self) -> (r: Option<&Variables>)
        ensures
            r is None,
    {
        None
    }

    /// An error endpoint carries no variables: this leaves it unchanged.
    fn set_variables(&mut self, vars: Option<Variables>)
        ensures
            *final(self) == *old(self),
    {
    }
}

impl DialString for Endpoint {
    /// Per-endpoint variables, if any.
    fn variables(&self) -> (r: Option<&Variables>)
        ensures
            match r {
                Some(v) => endpoint_vars(*self) == Some(*v),
                None => endpoint_vars(*self) is None,
            },
    {
        match self {
            Endpoint::Sofia(x) => x.variables.as_ref(),
            Endpoint::SofiaGateway(x) => x.variables.as_ref(),
            Endpoint::Loopback(x) => x.variables.as_ref(),
            Endpoint::User(x) => x.variables.as_ref(),
            Endpoint::SofiaContact(x) => x.variables.as_ref(),
            Endpoint::GroupCall(x) => x.variables.as_ref(),
            Endpoint::Error(_) => None,
        }
    }

    /// Replace per-endpoint variables (an error endpoint has none).
    fn set_variables(&mut self, vars: Option<Variables>)
        ensures
            match (*old(self), *final(self)) {
                (Endpoint::Sofia(a), Endpoint::Sofia(b)) => b == SofiaEndpoint { variables: vars, ..a },
                (Endpoint::SofiaGateway(a), Endpoint::SofiaGateway(b)) => b == SofiaGateway { variables: vars, ..a },
                (Endpoint::Loopback(a), Endpoint::Loopback(b)) => b == LoopbackEndpoint { variables: vars, ..a },
                (Endpoint::User(a), Endpoint::User(b)) => b == UserEndpoint { variables: vars, ..a },
                (Endpoint::SofiaContact(a), Endpoint::SofiaContact(b)) => b == SofiaContact { variables: vars, ..a },
                (Endpoint::GroupCall(a), Endpoint::GroupCall(b)) => b == GroupCall { variables: vars, ..a },
                (Endpoint::Error(a), Endpoint::Error(b)) => b == a,
                _ => false,
            },
    {
        match self {
            Endpoint::Sofia(x) => x.variables = vars,
            Endpoint::SofiaGateway(x) => x.variables = vars,
            Endpoint::Loopback(x) => x.variables = vars,
            Endpoint::User(x) => x.variables = vars,
            Endpoint::SofiaContact(x) => x.variables = vars,
            Endpoint::GroupCall(x) => x.variables = vars,
            Endpoint::Error(_) => {},
        }
    }
}

impl std::str::FromStr for Endpoint {
    type Err = OriginateError;

    /// The same as [`Endpoint::parse`].
    fn from_str(s: &str) -> (r: Result<Endpoint, OriginateError>)
        ensures
            parsed_as(r, endpoint_outcome(s@), |x: Endpoint| endpoint_view(x)),
    {
        Endpoint::parse(s)
    }
}

impl std::str::FromStr for ErrorEndpoint {
    type Err = OriginateError;

    /// The same as [`ErrorEndpoint::parse`].
    fn from_str(s: &str) -> (r: Result<ErrorEndpoint, OriginateError>)
        ensures
            parsed_as(r, error_text_outcome(s@), |x: ErrorEndpoint| EndpointView::Error { cause: x.cause@ }),
    {
        ErrorEndpoint::parse(s)
    }
}

impl std::str::FromStr for SofiaEndpoint {
    type Err = OriginateError;

    /// The same as [`SofiaEndpoint::parse`].
    fn from_str(s: &str) -> (r: Result<SofiaEndpoint, OriginateError>)
        ensures
            parsed_as(r, with_vars(s@, |u: Seq<char>, w: Option<VarsView>| sofia_uri(u, w)), |x: SofiaEndpoint| sofia_view(x)),
    {
        SofiaEndpoint::parse(s)
    }
}

impl std::str::FromStr for SofiaGateway {
    type Err = OriginateError;

    /// The same as [`SofiaGateway::parse`].
    fn from_str(s: &str) -> (r: Result<SofiaGateway, OriginateError>)
        ensures
            parsed_as(r, with_vars(s@, |u: Seq<char>, w: Option<VarsView>| gateway_uri(u, w)), |x: SofiaGateway| gateway_view(x)),
    {
        SofiaGateway::parse(s)
    }
}

impl std::str::FromStr for LoopbackEndpoint {
    type Err = OriginateError;

    /// The same as [`LoopbackEndpoint::parse`].
    fn from_str(s: &str) -> (r: Result<LoopbackEndpoint, OriginateError>)
        ensures
            parsed_as(r, with_vars(s@, |u: Seq<char>, w: Option<VarsView>| loopback_uri(u, w)), |x: LoopbackEndpoint| loopback_view(x)),
    {
        LoopbackEndpoint::parse(s)
    }
}

impl std::str::FromStr for UserEndpoint {
    type Err = OriginateError;

    /// The same as [`UserEndpoint::parse`].
    fn from_str(s: &str) -> (r: Result<UserEndpoint, OriginateError>)
        ensures
            parsed_as(r, with_vars(s@, |u: Seq<char>, w: Option<VarsView>| user_uri(u, w)), |x: UserEndpoint| user_view(x)),
    {
        UserEndpoint::parse(s)
    }
}

impl std::str::FromStr for SofiaContact {
    type Err = OriginateError;

    /// The same as [`SofiaContact::parse`].
    fn from_str(s: &str) -> (r: Result<SofiaContact, OriginateError>)
        ensures
            parsed_as(r, with_vars(s@, |u: Seq<char>, w: Option<VarsView>| contact_uri(u, w)), |x: SofiaContact| contact_view(x)),
    {
        SofiaContact::parse(s)
    }
}

impl std::str::FromStr for GroupCall {
    type Err = OriginateError;

    /// The same as [`GroupCall::parse`].
    fn from_str(s: &str) -> (r: Result<GroupCall, OriginateError>)
        ensures
            parsed_as(r, with_vars(s@, |u: Seq<char>, w: Option<VarsView>| group_uri(u, w)), |x: GroupCall| group_view(x)),
    {
        GroupCall::parse(s)
    }
}

} // verus!
