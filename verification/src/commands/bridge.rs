//! Bridge dial strings: endpoints rung at once (`,`) inside groups tried one
//! after another (`|`), with optional default variables for all of them.

use super::endpoint::{
    endpoint_outcome, endpoint_text, endpoint_view, vars_prefix, vars_view, write_variables,
    Endpoint, EndpointView, VarsView,
};
use super::originate::{vars_outcome, OriginateError, Variables};
use super::{closes_at, matching_close};
use crate::text::{from_char_range, join_with, owned, push_char, push_str, to_chars, trim, trimmed};
use vstd::prelude::*;

verus! {

broadcast use vstd::string::group_string_axioms;

/// `c` opens a bracketed block inside which separators do not split.
pub open spec fn is_opener(c: char) -> bool {
    c == '{' || c == '[' || c == '<' || c == '('
}

/// `c` closes a bracketed block.
pub open spec fn is_closer(c: char) -> bool {
    c == '}' || c == ']' || c == '>' || c == ')'
}

/// Scanning `s` for `sep` outside brackets: the finished parts, the part
/// being read and the nesting depth (never below zero).
pub open spec fn split_scan(s: Seq<char>, sep: char) -> (Seq<Seq<char>>, Seq<char>, int)
    decreases s.len(),
{
    if s.len() == 0 {
        (Seq::empty(), Seq::empty(), 0)
    } else {
        let (parts, cur, depth) = split_scan(s.drop_last(), sep);
        let c = s.last();
        if is_opener(c) {
            (parts, cur.push(c), depth + 1)
        } else if is_closer(c) {
            (parts, cur.push(c), if depth - 1 < 0 { 0 } else { depth - 1 })
        } else if c == sep && depth == 0 {
            (parts.push(cur), Seq::empty(), depth)
        } else {
            (parts, cur.push(c), depth)
        }
    }
}

/// `s` split on each `sep` that is not inside `{...}`, `[...]`, `<...>` or
/// `(...)`.
pub open spec fn split_brackets(s: Seq<char>, sep: char) -> Seq<Seq<char>> {
    split_scan(s, sep).0.push(split_scan(s, sep).1)
}

/// Split `s` on `sep` where it stands outside any bracketed block.
fn split_respecting_brackets(s: &str, sep: char) -> (r: Vec<String>)
    ensures
        r@.map_values(|x: String| x@) == split_brackets(s@, sep),
{
    let v = to_chars(s);
    let mut parts: Vec<String> = Vec::new();
    let mut depth: u64 = 0;
    let mut start: usize = 0;
    let mut i: usize = 0;
    while i < v.len()
        invariant
            v@ == s@,
            start <= i <= v.len(),
            depth <= i,
            split_scan(v@.take(i as int), sep) == (
                parts@.map_values(|x: String| x@),
                v@.subrange(start as int, i as int),
                depth as int,
            ),
        decreases v.len() - i,
    {
        let c = v[i];
        let ghost old_parts = parts@.map_values(|x: String| x@);
        proof {
            assert(v@.take(i + 1).drop_last() =~= v@.take(i as int));
            assert(v@.subrange(start as int, i + 1) =~= v@.subrange(start as int, i as int).push(c));
        }
        if c == '{' || c == '[' || c == '<' || c == '(' {
            depth = depth + 1;
        } else if c == '}' || c == ']' || c == '>' || c == ')' {
            if depth > 0 {
                depth = depth - 1;
            }
        } else if c == sep && depth == 0 {
            let part = from_char_range(&v, start, i);
            let ghost pv = part@;
            parts.push(part);
            proof {
                assert(parts@.map_values(|x: String| x@) =~= old_parts.push(pv));
            }
            start = i + 1;
            proof {
                assert(v@.subrange(start as int, i + 1) =~= Seq::<char>::empty());
            }
        }
        i = i + 1;
    }
    let last = from_char_range(&v, start, v.len());
    let ghost before = parts@.map_values(|x: String| x@);
    parts.push(last);
    proof {
        assert(v@.take(v.len() as int) =~= v@);
        assert(parts@.map_values(|x: String| x@) =~= before.push(last@));
    }
    parts
}

/// The endpoints of a group as they are written: joined by `,`.
pub open spec fn group_text(g: Seq<EndpointView>) -> Seq<char> {
    join_with(g.map_values(|e: EndpointView| endpoint_text(e)), ',')
}

/// The dial string of a bridge: the default variables (when there are any)
/// then the groups joined by `|`.
pub open spec fn bridge_text(v: Option<VarsView>, groups: Seq<Seq<EndpointView>>) -> Seq<char> {
    vars_prefix(v) + join_with(groups.map_values(|g: Seq<EndpointView>| group_text(g)), '|')
}

/// The groups of endpoints, each endpoint by its view.
pub open spec fn groups_view(g: Seq<Vec<Endpoint>>) -> Seq<Seq<EndpointView>> {
    g.map_values(|x: Vec<Endpoint>| x@.map_values(|e: Endpoint| endpoint_view(e)))
}

/// What parsing the endpoint texts of one group gives: each non-blank text
/// trimmed and read as an endpoint, or the first failure.
pub open spec fn group_outcome(eps: Seq<Seq<char>>) -> Result<Seq<EndpointView>, Seq<char>>
    decreases eps.len(),
{
    if eps.len() == 0 {
        Ok(Seq::empty())
    } else {
        match group_outcome(eps.drop_last()) {
            Err(m) => Err(m),
            Ok(done) => {
                let t = trimmed(eps.last());
                if t.len() == 0 {
                    Ok(done)
                } else {
                    match endpoint_outcome(t) {
                        Err(m) => Err(m),
                        Ok(e) => Ok(done.push(e)),
                    }
                }
            },
        }
    }
}

/// What parsing the group texts gives: each non-blank text trimmed, split on
/// `,` outside brackets and parsed; groups left without endpoints dropped.
pub open spec fn groups_outcome(gs: Seq<Seq<char>>) -> Result<Seq<Seq<EndpointView>>, Seq<char>>
    decreases gs.len(),
{
    if gs.len() == 0 {
        Ok(Seq::empty())
    } else {
        match groups_outcome(gs.drop_last()) {
            Err(m) => Err(m),
            Ok(done) => {
                let t = trimmed(gs.last());
                if t.len() == 0 {
                    Ok(done)
                } else {
                    match group_outcome(split_brackets(t, ',')) {
                        Err(m) => Err(m),
                        Ok(g) => if g.len() == 0 {
                            Ok(done)
                        } else {
                            Ok(done.push(g))
                        },
                    }
                }
            },
        }
    }
}

/// The index of the `}` that closes the `{` opening `t`, if there is one.
pub open spec fn first_close(t: Seq<char>) -> Option<int> {
    if exists|c: int| closes_at(t, '{', '}', c) {
        Some(
            choose|c: int|
                closes_at(t, '{', '}', c) && forall|j: int| 0 <= j < c ==> !closes_at(t, '{', '}', j),
        )
    } else {
        None
    }
}

/// What parsing a bridge dial string gives: the trimmed text must not be
/// empty; a leading `{...}` block is the default variables (none when it is
/// empty); the rest is split on `|` into groups (see [`groups_outcome`]).
pub open spec fn bridge_outcome(s: Seq<char>) -> Result<(Option<VarsView>, Seq<Seq<EndpointView>>), Seq<char>> {
    let t = trimmed(s);
    if t.len() == 0 {
        Err("empty bridge dial string"@)
    } else if t[0] == '{' {
        match first_close(t) {
            None => Err("unclosed { in bridge dial string"@),
            Some(c) => match vars_outcome(t.take(c + 1)) {
                Err(m) => Err(m),
                Ok((vt, e)) => match groups_outcome(split_brackets(t.skip(c + 1), '|')) {
                    Err(m) => Err(m),
                    Ok(g) => Ok((if e.len() == 0 { None } else { Some((vt, e)) }, g)),
                },
            },
        }
    } else {
        match groups_outcome(split_brackets(t, '|')) {
            Err(m) => Err(m),
            Ok(g) => Ok((None, g)),
        }
    }
}

/// Parse the endpoint texts of one group (see [`group_outcome`]).
fn parse_group(eps: &Vec<String>) -> (r: Result<Vec<Endpoint>, OriginateError>)
    ensures
        match group_outcome(eps@.map_values(|x: String| x@)) {
            Ok(g) => r matches Ok(v) && v@.map_values(|e: Endpoint| endpoint_view(e)) == g,
            Err(m) => r matches Err(OriginateError::ParseError(t)) && t@ == m,
        },
{
    let ghost texts = eps@.map_values(|x: String| x@);
    let mut out: Vec<Endpoint> = Vec::new();
    let mut i: usize = 0;
    proof {
        assert(texts.take(0) =~= Seq::<Seq<char>>::empty());
        assert(out@.map_values(|e: Endpoint| endpoint_view(e)) =~= Seq::<EndpointView>::empty());
    }
    while i < eps.len()
        invariant
            texts == eps@.map_values(|x: String| x@),
            i <= eps.len(),
            group_outcome(texts.take(i as int)) == Ok::<Seq<EndpointView>, Seq<char>>(
                out@.map_values(|e: Endpoint| endpoint_view(e)),
            ),
        decreases eps.len() - i,
    {
        proof {
            assert(texts.take(i + 1).drop_last() =~= texts.take(i as int));
            assert(texts.take(i + 1).last() == eps@[i as int]@);
        }
        let t = trim(eps[i].as_str());
        if t.unicode_len() > 0 {
            let ghost before = out@.map_values(|e: Endpoint| endpoint_view(e));
            match Endpoint::parse(t) {
                Ok(ep) => {
                    out.push(ep);
                    proof {
                        assert(out@.map_values(|e: Endpoint| endpoint_view(e)) =~= before.push(
                            endpoint_view(ep),
                        ));
                    }
                },
                Err(e) => {
                    proof {
                        assert(group_outcome(texts.take(i + 1)) is Err);
                        lemma_group_err_stays(texts, i as int + 1);
                        assert(texts.take(texts.len() as int) =~= texts);
                    }
                    return Err(e);
                },
            }
        }
        i = i + 1;
    }
    proof {
        assert(texts.take(eps.len() as int) =~= texts);
    }
    Ok(out)
}

/// Once parsing a prefix of a group's texts has failed, parsing any longer
/// prefix fails the same way.
proof fn lemma_group_err_stays(texts: Seq<Seq<char>>, k: int)
    requires
        0 <= k <= texts.len(),
        group_outcome(texts.take(k)) is Err,
    ensures
        group_outcome(texts) == group_outcome(texts.take(k)),
    decreases texts.len() - k,
{
    if k < texts.len() {
        assert(texts.take(k + 1).drop_last() =~= texts.take(k));
        lemma_group_err_stays(texts, k + 1);
    } else {
        assert(texts.take(k) =~= texts);
    }
}

/// Once parsing a prefix of the group texts has failed, parsing any longer
/// prefix fails the same way.
proof fn lemma_groups_err_stays(texts: Seq<Seq<char>>, k: int)
    requires
        0 <= k <= texts.len(),
        groups_outcome(texts.take(k)) is Err,
    ensures
        groups_outcome(texts) == groups_outcome(texts.take(k)),
    decreases texts.len() - k,
{
    if k < texts.len() {
        assert(texts.take(k + 1).drop_last() =~= texts.take(k));
        lemma_groups_err_stays(texts, k + 1);
    } else {
        assert(texts.take(k) =~= texts);
    }
}

/// Parse the group texts (see [`groups_outcome`]).
fn parse_groups(gs: &Vec<String>) -> (r: Result<Vec<Vec<Endpoint>>, OriginateError>)
    ensures
        match groups_outcome(gs@.map_values(|x: String| x@)) {
            Ok(g) => r matches Ok(v) && groups_view(v@) == g,
            Err(m) => r matches Err(OriginateError::ParseError(t)) && t@ == m,
        },
{
    let ghost texts = gs@.map_values(|x: String| x@);
    let mut out: Vec<Vec<Endpoint>> = Vec::new();
    let mut i: usize = 0;
    proof {
        assert(texts.take(0) =~= Seq::<Seq<char>>::empty());
        assert(groups_view(out@) =~= Seq::<Seq<EndpointView>>::empty());
    }
    while i < gs.len()
        invariant
            texts == gs@.map_values(|x: String| x@),
            i <= gs.len(),
            groups_outcome(texts.take(i as int)) == Ok::<Seq<Seq<EndpointView>>, Seq<char>>(
                groups_view(out@),
            ),
        decreases gs.len() - i,
    {
        proof {
            assert(texts.take(i + 1).drop_last() =~= texts.take(i as int));
            assert(texts.take(i + 1).last() == gs@[i as int]@);
        }
        let t = trim(gs[i].as_str());
        if t.unicode_len() > 0 {
            let eps = split_respecting_brackets(t, ',');
            match parse_group(&eps) {
                Ok(g) => {
                    if g.len() > 0 {
                        let ghost before = groups_view(out@);
                        out.push(g);
                        proof {
                            assert(groups_view(out@) =~= before.push(
                                g@.map_values(|e: Endpoint| endpoint_view(e)),
                            ));
                        }
                    }
                },
                Err(e) => {
                    proof {
                        lemma_groups_err_stays(texts, i as int + 1);
                    }
                    return Err(e);
                },
            }
        }
        i = i + 1;
    }
    proof {
        assert(texts.take(gs.len() as int) =~= texts);
    }
    Ok(out)
}

/// Typed bridge dial string: `{global_vars}[ep1_vars]ep1,[ep2_vars]ep2|ep3`.
///
/// - `,` separates endpoints rung simultaneously (within a group)
/// - `|` separates groups tried sequentially (failover)
/// - Each endpoint may carry its own variable block
/// - The leading `{variables}` apply to all endpoints
#[derive(Debug, Clone, PartialEq, Eq)]
pub struct BridgeDialString {
    /// Default-scope variables applied to all endpoints.
    pub variables: Option<Variables>,
    /// Sequential failover groups (`|`-separated). Within each group,
    /// endpoints ring simultaneously (`,`-separated).
    pub groups: Vec<Vec<Endpoint>>,
}

impl BridgeDialString {
    /// A bridge dial string with the given failover groups and no default
    /// variables.
    pub fn new(groups: Vec<Vec<Endpoint>>) -> (r: BridgeDialString)
        ensures
            r.variables is None,
            r.groups == groups,
    {
        BridgeDialString { variables: None, groups }
    }

    /// Set the default variables.
    pub fn with_variables(self, variables: Variables) -> (r: BridgeDialString)
        ensures
            r.variables == Some(variables),
            r.groups == self.groups,
    {
        BridgeDialString { variables: Some(variables), groups: self.groups }
    }

    /// The dial string (see [`bridge_text`]).
    pub fn to_string(&self) -> (r: String)
        ensures
            r@ == bridge_text(vars_view(self.variables), groups_view(self.groups@)),
    {
        let ghost gv = groups_view(self.groups@);
        let ghost gtexts = gv.map_values(|g: Seq<EndpointView>| group_text(g));
        let mut out = String::new();
        write_variables(&mut out, &self.variables);
        let ghost head = out@;
        let mut gi: usize = 0;
        while gi < self.groups.len()
            invariant
                gv == groups_view(self.groups@),
                gtexts == gv.map_values(|g: Seq<EndpointView>| group_text(g)),
                gi <= self.groups.len(),
                out@ == head + join_with(gtexts.take(gi as int), '|'),
            decreases self.groups.len() - gi,
        {
            if gi > 0 {
                push_char(&mut out, '|');
            }
            let group = &self.groups[gi];
            let ghost etexts = group@.map_values(|e: Endpoint| endpoint_text(endpoint_view(e)));
            let ghost mid = out@;
            let mut ei: usize = 0;
            while ei < group.len()
                invariant
                    etexts == group@.map_values(|e: Endpoint| endpoint_text(endpoint_view(e))),
                    ei <= group.len(),
                    out@ == mid + join_with(etexts.take(ei as int), ','),
                decreases group.len() - ei,
            {
                if ei > 0 {
                    push_char(&mut out, ',');
                }
                let t = group[ei].to_string();
                push_str(&mut out, t.as_str());
                proof {
                    assert(etexts.take(ei + 1).drop_last() =~= etexts.take(ei as int));
                    if ei == 0 {
                        assert(etexts.take(1) =~= seq![etexts[0]]);
                    }
                    assert(out@ =~= mid + join_with(etexts.take(ei + 1), ','));
                }
                ei = ei + 1;
            }
            proof {
                assert(etexts.take(group.len() as int) =~= etexts);
                assert(etexts =~= gv[gi as int].map_values(|e: EndpointView| endpoint_text(e)));
                assert(gtexts.take(gi + 1).drop_last() =~= gtexts.take(gi as int));
                if gi == 0 {
                    assert(gtexts.take(1) =~= seq![gtexts[0]]);
                }
                assert(out@ =~= head + join_with(gtexts.take(gi + 1), '|'));
            }
            gi = gi + 1;
        }
        proof {
            assert(gtexts.take(self.groups.len() as int) =~= gtexts);
        }
        out
    }

    /// Parse a bridge dial string (see [`bridge_outcome`]).
    pub fn parse(s: &str) -> (r: Result<BridgeDialString, OriginateError>)
        ensures
            match bridge_outcome(s@) {
                Ok((v, g)) => r matches Ok(b) && vars_view(b.variables) == v && groups_view(b.groups@)
                    == g,
                Err(m) => r matches Err(OriginateError::ParseError(t)) && t@ == m,
            },
    {
        let t = trim(s);
        let tv = to_chars(t);
        if tv.len() == 0 {
            proof {
                reveal_strlit("empty bridge dial string");
            }
            return Err(OriginateError::ParseError(owned("empty bridge dial string")));
        }
        let (variables, rest): (Option<Variables>, String) = if tv[0] == '{' {
            match matching_close(&tv, '{', '}') {
                None => {
                    return Err(OriginateError::ParseError(owned("unclosed { in bridge dial string")));
                },
                Some(c) => {
                    proof {
                        let c2 = choose|c2: int|
                            closes_at(tv@, '{', '}', c2) && forall|j: int|
                                0 <= j < c2 ==> !closes_at(tv@, '{', '}', j);
                        assert(c2 == c as int) by {
                            if c2 < c as int {
                            } else if c2 > c as int {
                            }
                        }
                    }
                    let block = from_char_range(&tv, 0, c + 1);
                    assert(block@ =~= tv@.take(c + 1));
                    let vars = Variables::parse(block.as_str())?;
                    let rest = from_char_range(&tv, c + 1, tv.len());
                    assert(rest@ =~= tv@.skip(c + 1));
                    if vars.is_empty() {
                        (None, rest)
                    } else {
                        (Some(vars), rest)
                    }
                },
            }
        } else {
            (None, owned(t))
        };
        let group_strs = split_respecting_brackets(rest.as_str(), '|');
        let groups = parse_groups(&group_strs)?;
        Ok(BridgeDialString { variables, groups })
    }
}

impl std::str::FromStr for BridgeDialString {
    type Err = OriginateError;

    /// The same as [`BridgeDialString::parse`].
    fn from_str(s: &str) -> (r: Result<BridgeDialString, OriginateError>)
        ensures
            match bridge_outcome(s@) {
                Ok((v, g)) => r matches Ok(b) && vars_view(b.variables) == v && groups_view(b.groups@)
                    == g,
                Err(m) => r matches Err(OriginateError::ParseError(t)) && t@ == m,
            },
    {
        BridgeDialString::parse(s)
    }
}

} // verus!
