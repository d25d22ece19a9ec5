//! Reading an originate command back from the text it is written as.

use super::endpoint::{endpoint_outcome, endpoint_text};
use super::originate::{
    lemma_plain_quoting, lemma_target_round_trip, originate_outcome, originate_text, tail_text,
    target_reads_back, target_text, undef_text, DialplanType, OriginateView,
};
use super::plain_token;
use crate::numeric::decimal;
use crate::text::{eq_ignore_ascii_case, join_with};
use vstd::prelude::*;

verus! {

/// The positional arguments read back: each one set has every earlier one
/// set too (so no default fills a gap), the context and caller-ID values are
/// single tokens, and a caller-ID value is not `undef` in any case.
pub open spec fn tail_reads_back(o: OriginateView) -> bool {
    &&& (o.context is Some || o.cid_name is Some || o.cid_num is Some || o.timeout is Some) ==> o.dialplan is Some
    &&& (o.cid_name is Some || o.cid_num is Some || o.timeout is Some) ==> o.context is Some
    &&& (o.cid_num is Some || o.timeout is Some) ==> o.cid_name is Some
    &&& o.timeout is Some ==> o.cid_num is Some
    &&& o.context matches Some(c) ==> plain_token(c, ' ')
    &&& o.cid_name matches Some(c) ==> plain_token(c, ' ') && !eq_ignore_ascii_case(c, undef_text())
    &&& o.cid_num matches Some(c) ==> plain_token(c, ' ') && !eq_ignore_ascii_case(c, undef_text())
}

/// The positional arguments that are set, in order.
pub open spec fn tail_tokens(o: OriginateView) -> Seq<Seq<char>> {
    let t1 = match o.dialplan {
        Some(d) => seq![d.spec_name()],
        None => Seq::empty(),
    };
    let t2 = match o.context {
        Some(c) => t1.push(c),
        None => t1,
    };
    let t3 = match o.cid_name {
        Some(c) => t2.push(c),
        None => t2,
    };
    let t4 = match o.cid_num {
        Some(c) => t3.push(c),
        None => t3,
    };
    match o.timeout {
        Some(t) => t4.push(decimal(t as nat)),
        None => t4,
    }
}

/// The tokens of a command, in order: endpoint, target, then the
/// positional arguments that are set.
pub open spec fn originate_tokens(o: OriginateView) -> Seq<Seq<char>> {
    seq![endpoint_text(o.endpoint), target_text(o.target)] + tail_tokens(o)
}

/// Each token written with a space in front of it.
pub open spec fn spaced(ts: Seq<Seq<char>>) -> Seq<char>
    decreases ts.len(),
{
    if ts.len() == 0 {
        Seq::empty()
    } else {
        spaced(ts.drop_last()) + seq![' '] + ts.last()
    }
}

/// Joining more tokens with spaces appends them, each with a space in front.
proof fn lemma_join_spaced(ts: Seq<Seq<char>>, more: Seq<Seq<char>>)
    requires
        ts.len() > 0,
    ensures
        join_with(ts + more, ' ') == join_with(ts, ' ') + spaced(more),
    decreases more.len(),
{
    if more.len() == 0 {
        assert(ts + more =~= ts);
        assert(join_with(ts, ' ') + spaced(more) =~= join_with(ts, ' '));
    } else {
        lemma_join_spaced(ts, more.drop_last());
        assert((ts + more).drop_last() =~= ts + more.drop_last());
        assert((ts + more).last() == more.last());
    }
}

/// The written positional arguments are the set ones, each with a space in
/// front, when they read back.
#[verifier::spinoff_prover]
proof fn lemma_tail_spaced(o: OriginateView)
    requires
        tail_reads_back(o),
    ensures
        tail_text(o.dialplan, o.context, o.cid_name, o.cid_num, o.timeout) == spaced(tail_tokens(o)),
{
    reveal_strlit(" ");
    if let Some(x) = o.context {
        lemma_plain_quoting(x);
    }
    if let Some(x) = o.cid_name {
        lemma_plain_quoting(x);
    }
    if let Some(x) = o.cid_num {
        lemma_plain_quoting(x);
    }
    let sp = seq![' '];
    let t1 = match o.dialplan {
        Some(d) => seq![d.spec_name()],
        None => Seq::<Seq<char>>::empty(),
    };
    let t2 = match o.context {
        Some(c) => t1.push(c),
        None => t1,
    };
    let t3 = match o.cid_name {
        Some(c) => t2.push(c),
        None => t2,
    };
    let t4 = match o.cid_num {
        Some(c) => t3.push(c),
        None => t3,
    };
    let a = match o.dialplan {
        Some(d) => sp + d.spec_name(),
        None => Seq::<char>::empty(),
    };
    let b = match o.context {
        Some(c) => sp + c,
        None => Seq::<char>::empty(),
    };
    let c = match o.cid_name {
        Some(x) => sp + x,
        None => Seq::<char>::empty(),
    };
    let d = match o.cid_num {
        Some(x) => sp + x,
        None => Seq::<char>::empty(),
    };
    let e = match o.timeout {
        Some(t) => sp + decimal(t as nat),
        None => Seq::<char>::empty(),
    };
    assert(tail_text(o.dialplan, o.context, o.cid_name, o.cid_num, o.timeout) =~= a + b + c + d + e);
    assert(spaced(Seq::<Seq<char>>::empty()) =~= Seq::<char>::empty());
    assert(spaced(t1) =~= a) by {
        if let Some(x) = o.dialplan {
            assert(t1.drop_last() =~= Seq::<Seq<char>>::empty());
        }
    }
    assert(spaced(t2) =~= a + b) by {
        if let Some(x) = o.context {
            assert(t2.drop_last() =~= t1);
        }
    }
    assert(spaced(t3) =~= a + b + c) by {
        if let Some(x) = o.cid_name {
            assert(t3.drop_last() =~= t2);
        }
    }
    assert(spaced(t4) =~= a + b + c + d) by {
        if let Some(x) = o.cid_num {
            assert(t4.drop_last() =~= t3);
        }
    }
    assert(spaced(tail_tokens(o)) =~= a + b + c + d + e) by {
        if let Some(x) = o.timeout {
            assert(tail_tokens(o).drop_last() =~= t4);
        }
    }
}

/// A command whose parts read back is its tokens joined by spaces.
proof fn lemma_originate_text_tokens(o: OriginateView)
    requires
        target_reads_back(o.target, o.dialplan),
        tail_reads_back(o),
    ensures
        originate_text(o) == "originate "@ + join_with(originate_tokens(o), ' '),
{
    reveal_strlit(" ");
    reveal_strlit("originate ");
    lemma_target_round_trip(o.target, o.dialplan);
    lemma_tail_spaced(o);
    let ep = endpoint_text(o.endpoint);
    let tt = target_text(o.target);
    let t0 = seq![ep, tt];
    assert(t0.drop_last() =~= seq![ep]);
    assert(join_with(seq![ep], ' ') == ep);
    assert(join_with(t0, ' ') == ep + seq![' '] + tt);
    lemma_join_spaced(t0, tail_tokens(o));
    assert(originate_text(o) =~= "originate "@ + (join_with(t0, ' ') + spaced(tail_tokens(o))));
}

/// Texts joined by `sep`, none of them empty, start with the first one's
/// first character and end with the last one's last.
proof fn lemma_join_edges(ts: Seq<Seq<char>>, sep: char)
    requires
        ts.len() > 0,
        forall|i: int| 0 <= i < ts.len() ==> (#[trigger] ts[i]).len() > 0,
    ensures
        join_with(ts, sep).len() > 0,
        join_with(ts, sep)[0] == ts[0][0],
        join_with(ts, sep).last() == ts.last().last(),
    decreases ts.len(),
{
    assert(ts[ts.len() - 1].len() > 0);
    if ts.len() > 1 {
        lemma_join_edges(ts.drop_last(), sep);
        assert(ts.drop_last()[0] == ts[0]);
    }
}

/// Where each positional argument that is set stands among the tokens
/// after the target.
proof fn lemma_tail_positions(o: OriginateView)
    requires
        tail_reads_back(o),
    ensures
        (tail_tokens(o).len() > 0) == (o.dialplan is Some),
        o.dialplan matches Some(d) ==> {
            let tl = tail_tokens(o);
            let r = tl.skip(1);
            &&& tl[0] == d.spec_name()
            &&& super::originate::nth(r, 0) == o.context
            &&& super::originate::nth(r, 1) == o.cid_name
            &&& super::originate::nth(r, 2) == o.cid_num
            &&& super::originate::nth(r, 3) == match o.timeout {
                Some(t) => Some(decimal(t as nat)),
                None => None::<Seq<char>>,
            }
        },
{
    let tl = tail_tokens(o);
    if let Some(d) = o.dialplan {
        let r = tl.skip(1);
        assert(tl[0] == d.spec_name());
        if let Some(c) = o.context {
            assert(r[0] == c);
        }
        if let Some(c) = o.cid_name {
            assert(r[1] == c);
        }
        if let Some(c) = o.cid_num {
            assert(r[2] == c);
        }
        if let Some(t) = o.timeout {
            assert(r[3] == decimal(t as nat));
        }
    }
}

/// The text after `originate`, trimmed, splits into the command's tokens.
proof fn lemma_originate_args(o: OriginateView)
    requires
        plain_token(endpoint_text(o.endpoint), ' '),
        target_reads_back(o.target, o.dialplan),
        tail_reads_back(o),
    ensures
        crate::text::strip_prefix(originate_text(o), "originate"@) matches Some(s1)
            && super::split_outcome(crate::text::trimmed(s1), ' ') == Ok::<Seq<Seq<char>>, Seq<char>>(
            originate_tokens(o),
        ),
{
    reveal_strlit("originate ");
    reveal_strlit("originate");
    lemma_originate_text_tokens(o);
    lemma_target_round_trip(o.target, o.dialplan);
    let ts = originate_tokens(o);
    let tl = tail_tokens(o);
    assert forall|i: int| 0 <= i < tl.len() implies plain_token(#[trigger] tl[i], ' ') by {
        if let Some(d) = o.dialplan {
            reveal_strlit("inline");
            reveal_strlit("XML");
            assert(!crate::text::has_char("inline"@, ' ') && !crate::text::has_char("inline"@, '\''));
            assert(!crate::text::has_char("XML"@, ' ') && !crate::text::has_char("XML"@, '\''));
        }
        if let Some(t) = o.timeout {
            crate::numeric::lemma_decimal_parses(t as nat);
            let dt = decimal(t as nat);
            assert(!crate::text::has_char(dt, ' ')) by {
                assert forall|k: int| 0 <= k < dt.len() implies dt[k] != ' ' by {
                    assert(crate::numeric::is_digit(dt[k]));
                }
            }
            assert(!crate::text::has_char(dt, '\'')) by {
                assert forall|k: int| 0 <= k < dt.len() implies dt[k] != '\'' by {
                    assert(crate::numeric::is_digit(dt[k]));
                }
            }
            assert(crate::numeric::is_digit(dt[0]) && crate::numeric::is_digit(dt.last()));
        }
    }
    assert forall|i: int| 0 <= i < ts.len() implies plain_token(#[trigger] ts[i], ' ') by {
        if i >= 2 {
            assert(ts[i] == tl[i - 2]);
        }
    }
    super::lemma_split_outcome_join(ts, ' ');
    let j = join_with(ts, ' ');
    lemma_join_edges(ts, ' ');
    assert(plain_token(ts[0], ' '));
    assert(plain_token(ts[ts.len() - 1], ' '));
    let text = originate_text(o);
    assert(text =~= "originate"@ + (seq![' '] + j));
    assert(text.take(9) =~= "originate"@);
    assert(text.skip(9) =~= seq![' '] + j);
    crate::text::lemma_trimmed_leading_space(j);
}

/// An originate command reads back from its own text: parsing what
/// [`Originate::to_string`](super::originate::Originate::to_string) writes
/// gives the same parts, when the endpoint is written as one token that
/// reads back as it, the target reads back (see [`target_reads_back`]) and
/// the positional arguments do (see [`tail_reads_back`]).
#[verifier::spinoff_prover]
#[verifier::rlimit(50)]
pub proof fn lemma_originate_round_trip(o: OriginateView)
    requires
        plain_token(endpoint_text(o.endpoint), ' '),
        endpoint_outcome(endpoint_text(o.endpoint)) == Ok::<super::endpoint::EndpointView, Seq<char>>(o.endpoint),
        target_reads_back(o.target, o.dialplan),
        tail_reads_back(o),
    ensures
        originate_outcome(originate_text(o)) == Ok::<OriginateView, super::OriginateFault>(o),
{
    lemma_originate_args(o);
    lemma_target_round_trip(o.target, o.dialplan);
    lemma_tail_positions(o);
    let ts = originate_tokens(o);
    let tl = tail_tokens(o);
    assert(ts.len() >= 2);
    assert(ts[0] == endpoint_text(o.endpoint) && ts[1] == target_text(o.target));
    let rest = ts.skip(2);
    assert(rest =~= tl);
    let dp = if rest.len() > 0 {
        DialplanType::from_name(rest[0])
    } else {
        None
    };
    if let Some(d) = o.dialplan {
        super::originate::lemma_dialplan_type_name_round_trip(d);
    }
    assert(dp == o.dialplan);
    let rest2 = if dp is Some {
        rest.skip(1)
    } else {
        rest
    };
    assert(super::target_outcome(super::unquoted(ts[1]), dp == Some(DialplanType::Inline)) == Ok::<
        super::TargetView,
        super::OriginateFault,
    >(o.target));
    if let Some(t) = o.timeout {
        crate::numeric::lemma_decimal_parses(t as nat);
    }
    assert(super::originate::timeout_arg(super::originate::nth(rest2, 3)) == Ok::<
        Option<u32>,
        super::OriginateFault,
    >(o.timeout));
    assert(super::originate::nth(rest2, 0) == o.context);
    assert(super::originate::cid_arg(super::originate::nth(rest2, 1)) == o.cid_name);
    assert(super::originate::cid_arg(super::originate::nth(rest2, 2)) == o.cid_num);
    assert(!(o.target matches super::TargetView::Inline(apps) && apps.len() == 0));
}

} // verus!
