//! The `text/event-plain` serialization: header lines in order, values
//! percent-encoded.

use crate::buffer::{find_seq, is_first_match, lemma_find_seq_first};
use crate::header_map::{insert_entry, key_index, keys_distinct, lemma_key_index_absent, Entry};
use crate::command::utf8_len;
use crate::numeric::decimal;
use crate::protocol::{
    block_outcome, hex_value, lemma_split_at, lemma_split_none, line_outcome, normalized_header_key,
    percent_decoded, plain_event, split_lines, type_by_name, EventModel, Fault, MessageKind,
};
use crate::text::{
    has_char, is_first_index, is_white_space, join_with, lemma_first_index,
    lemma_trimmed_leading_space, lemma_trimmed_trailing_space, lemma_trimmed_unchanged, trimmed,
};
use percent_encoding::{percent_encode, NON_ALPHANUMERIC};
use vstd::prelude::*;

verus! {

/// Whether byte `b` is an ASCII letter or digit.
pub open spec fn is_alnum_byte(b: u8) -> bool {
    (0x30 <= b <= 0x39) || (0x41 <= b <= 0x5A) || (0x61 <= b <= 0x7A)
}

/// Upper-case hexadecimal digit for `n < 16`.
pub open spec fn hex_digit(n: u8) -> char {
    if n < 10 {
        (n + 0x30) as char
    } else {
        (n + 0x37) as char
    }
}

/// One byte percent-encoded against the set of all non-alphanumeric bytes:
/// letters and digits stay, every other byte becomes `%XX`.
pub open spec fn encoded_byte(b: u8) -> Seq<char> {
    if is_alnum_byte(b) {
        seq![b as char]
    } else {
        seq!['%', hex_digit(b / 16), hex_digit(b % 16)]
    }
}

/// A byte string percent-encoded byte by byte.
pub open spec fn encoded_bytes(bs: Seq<u8>) -> Seq<char>
    decreases bs.len(),
{
    if bs.len() == 0 {
        Seq::empty()
    } else {
        encoded_bytes(bs.drop_last()) + encoded_byte(bs.last())
    }
}

/// A text percent-encoded over its UTF-8 bytes.
pub open spec fn percent_encoded(s: Seq<char>) -> Seq<char> {
    encoded_bytes(vstd::utf8::encode_utf8(s))
}

/// Calls `percent_encoding::percent_encode` with `NON_ALPHANUMERIC` on the
/// UTF-8 bytes of `s` and collects the result: every byte that is not an
/// ASCII letter or digit becomes `%` and two upper-case hex digits.
#[verifier::external_body]
pub fn percent_encode_text(s: &str) -> (r: String)
    ensures
        r@ == percent_encoded(s@),
{
    percent_encode(s.as_bytes(), NON_ALPHANUMERIC).to_string()
}

/// The byte a hex digit for `n < 16` is written as.
pub open spec fn hex_digit_byte(n: u8) -> u8 {
    if n < 10 {
        (n + 48) as u8
    } else {
        (n + 55) as u8
    }
}

/// One byte percent-encoded, as bytes.
pub open spec fn encoded_byte_bytes(b: u8) -> Seq<u8> {
    if is_alnum_byte(b) {
        seq![b]
    } else {
        seq![37u8, hex_digit_byte(b / 16), hex_digit_byte(b % 16)]
    }
}

/// A byte string percent-encoded, as bytes, built from the front.
pub open spec fn encoded_bytes_front(bs: Seq<u8>) -> Seq<u8>
    decreases bs.len(),
{
    if bs.len() == 0 {
        Seq::empty()
    } else {
        encoded_byte_bytes(bs[0]) + encoded_bytes_front(bs.skip(1))
    }
}

/// Encoding a byte string is encoding its first byte, then the rest.
proof fn lemma_encoded_front(b: u8, rest: Seq<u8>)
    ensures
        encoded_bytes(seq![b] + rest) == encoded_byte(b) + encoded_bytes(rest),
    decreases rest.len(),
{
    let t = seq![b] + rest;
    if rest.len() == 0 {
        assert(t =~= seq![b]);
        assert(t.drop_last() =~= Seq::<u8>::empty());
        assert(encoded_bytes(Seq::<u8>::empty()) =~= Seq::<char>::empty());
        assert(encoded_bytes(t) =~= encoded_byte(b));
        assert(encoded_bytes(rest) =~= Seq::<char>::empty());
        assert(encoded_byte(b) + encoded_bytes(rest) =~= encoded_byte(b));
    } else {
        assert(t.drop_last() =~= seq![b] + rest.drop_last());
        assert(t.last() == rest.last());
        lemma_encoded_front(b, rest.drop_last());
        assert(encoded_bytes(t) =~= encoded_byte(b) + encoded_bytes(rest));
    }
}

/// The characters of an encoded byte are ASCII, and are the bytes of
/// [`encoded_byte_bytes`].
proof fn lemma_encoded_byte_ascii(b: u8)
    ensures
        vstd::utf8::is_ascii_chars(encoded_byte(b)),
        encoded_byte(b).map_values(|c: char| c as u8) == encoded_byte_bytes(b),
        forall|i: int| 0 <= i < encoded_byte(b).len() ==> is_plain_char(#[trigger] encoded_byte(b)[i]),
{
    assert(encoded_byte(b).map_values(|c: char| c as u8) =~= encoded_byte_bytes(b));
}

/// A character an encoding may hold: an ASCII letter or digit, or `%`.
pub open spec fn is_plain_char(c: char) -> bool {
    ('0' <= c <= '9') || ('A' <= c <= 'Z') || ('a' <= c <= 'z') || c == '%'
}

/// An encoding is ASCII text of letters, digits and `%`, and its UTF-8 bytes
/// are [`encoded_bytes_front`].
proof fn lemma_encoded_ascii(bs: Seq<u8>)
    ensures
        vstd::utf8::is_ascii_chars(encoded_bytes(bs)),
        encoded_bytes(bs).map_values(|c: char| c as u8) == encoded_bytes_front(bs),
        forall|i: int| 0 <= i < encoded_bytes(bs).len() ==> is_plain_char(#[trigger] encoded_bytes(bs)[i]),
    decreases bs.len(),
{
    if bs.len() == 0 {
        assert(encoded_bytes(bs) =~= Seq::<char>::empty());
        assert(encoded_bytes(bs).map_values(|c: char| c as u8) =~= encoded_bytes_front(bs));
    } else {
        let rest = bs.skip(1);
        assert(bs =~= seq![bs[0]] + rest);
        lemma_encoded_front(bs[0], rest);
        lemma_encoded_ascii(rest);
        lemma_encoded_byte_ascii(bs[0]);
        let e = encoded_bytes(bs);
        let e0 = encoded_byte(bs[0]);
        let er = encoded_bytes(rest);
        assert(e =~= e0 + er);
        assert(e.map_values(|c: char| c as u8) =~= e0.map_values(|c: char| c as u8) + er.map_values(
            |c: char| c as u8,
        ));
        assert forall|i: int| 0 <= i < e.len() implies is_plain_char(#[trigger] e[i]) by {
            if i < e0.len() {
                assert(e[i] == e0[i]);
            } else {
                assert(e[i] == er[i - e0.len()]);
            }
        }
        assert(vstd::utf8::is_ascii_chars(e)) by {
            assert forall|i: int| 0 <= i < e.len() implies '\0' <= #[trigger] e[i] <= '\u{7f}' by {
                assert(is_plain_char(e[i]));
            }
        }
    }
}

/// Percent-decoding undoes percent-encoding.
proof fn lemma_decode_encoded(bs: Seq<u8>)
    ensures
        percent_decoded(encoded_bytes_front(bs)) == bs,
    decreases bs.len(),
{
    if bs.len() == 0 {
        assert(encoded_bytes_front(bs) =~= Seq::<u8>::empty());
    } else {
        let b = bs[0];
        let rest = bs.skip(1);
        let e = encoded_bytes_front(bs);
        lemma_decode_encoded(rest);
        if is_alnum_byte(b) {
            assert(e[0] == b);
            assert(e.skip(1) =~= encoded_bytes_front(rest));
        } else {
            let hi = b / 16;
            let lo = b % 16;
            assert(e[0] == 37u8);
            assert(e[1] == hex_digit_byte(hi));
            assert(e[2] == hex_digit_byte(lo));
            assert(hex_value(hex_digit_byte(hi)) == Some(hi));
            assert(hex_value(hex_digit_byte(lo)) == Some(lo));
            assert((hi * 16 + lo) as u8 == b);
            assert(e.skip(3) =~= encoded_bytes_front(rest));
        }
        assert(bs =~= seq![b] + rest);
    }
}

/// Reading back a percent-encoded text gives the text: its UTF-8 bytes
/// decode to the text's bytes, which are valid UTF-8 and decode to the text.
pub proof fn lemma_percent_round_trip(v: Seq<char>)
    ensures
        percent_decoded(vstd::utf8::encode_utf8(percent_encoded(v))) == vstd::utf8::encode_utf8(v),
        vstd::utf8::valid_utf8(vstd::utf8::encode_utf8(v)),
        vstd::utf8::decode_utf8(vstd::utf8::encode_utf8(v)) == v,
        forall|i: int| 0 <= i < percent_encoded(v).len() ==> is_plain_char(#[trigger] percent_encoded(v)[i]),
{
    let bs = vstd::utf8::encode_utf8(v);
    let e = encoded_bytes(bs);
    lemma_encoded_ascii(bs);
    vstd::utf8::is_ascii_chars_encode_utf8(e);
    assert(vstd::utf8::encode_utf8(e) =~= e.map_values(|c: char| c as u8));
    lemma_decode_encoded(bs);
    vstd::utf8::encode_utf8_valid_utf8(v);
    vstd::utf8::encode_utf8_decode_utf8(v);
}

/// One header line: `name: value` with the value percent-encoded.
pub open spec fn plain_line(x: Entry) -> Seq<char> {
    x.0 + ": "@ + percent_encoded(x.1) + "\n"@
}

/// The header lines of `s`, in order; a `Content-Length` header is left
/// out, as the body's own length is written after the headers.
pub open spec fn plain_lines(s: Seq<Entry>) -> Seq<char>
    decreases s.len(),
{
    if s.len() == 0 {
        Seq::empty()
    } else {
        plain_lines(s.drop_last()) + if s.last().0 == "Content-Length"@ {
            Seq::empty()
        } else {
            plain_line(s.last())
        }
    }
}

/// The plain serialization of an event: its header lines in order, then
/// either a blank line or `Content-Length`, a blank line and the body.
pub open spec fn plain_text(headers: Seq<Entry>, body: Option<Seq<char>>) -> Seq<char> {
    plain_lines(headers) + match body {
        Some(b) => "Content-Length: "@ + decimal(utf8_len(b)) + "\n"@ + "\n"@ + b,
        None => "\n"@,
    }
}


/// A header name a header line carries through unchanged: not empty,
/// without `\n` or `:`, neither starting nor ending with whitespace, and
/// already in the form the parser normalizes names to.
pub open spec fn line_key_ok(k: Seq<char>) -> bool {
    &&& k.len() > 0
    &&& !has_char(k, '\n')
    &&& !has_char(k, ':')
    &&& !is_white_space(k[0])
    &&& !is_white_space(k.last())
    &&& normalized_header_key(k) == k
}

/// A header name the plain format carries through unchanged: one a header
/// line carries through, other than `Content-Length` (which the format
/// derives from the body).
pub open spec fn plain_key_ok(k: Seq<char>) -> bool {
    line_key_ok(k) && k != "Content-Length"@
}

/// A header line without its `\n`.
pub open spec fn line_text(x: Entry) -> Seq<char> {
    x.0 + ": "@ + percent_encoded(x.1)
}

/// The header lines of `h`, each without its `\n`.
pub open spec fn line_texts(h: Seq<Entry>) -> Seq<Seq<char>> {
    h.map_values(|x: Entry| line_text(x))
}

/// Joining is joining the first part, then the rest.
proof fn lemma_join_front(parts: Seq<Seq<char>>, sep: char)
    requires
        parts.len() >= 2,
    ensures
        join_with(parts, sep) == parts[0] + seq![sep] + join_with(parts.skip(1), sep),
    decreases parts.len(),
{
    let tail = parts.skip(1);
    if parts.len() == 2 {
        assert(parts.drop_last() =~= seq![parts[0]]);
        assert(join_with(parts.drop_last(), sep) == parts[0]);
        assert(tail =~= seq![parts[1]]);
        assert(join_with(tail, sep) == parts[1]);
        assert(parts.last() == parts[1]);
    } else {
        let front = parts.drop_last();
        lemma_join_front(front, sep);
        assert(front.skip(1) =~= tail.drop_last());
        assert(tail.last() == parts.last());
        assert(front[0] == parts[0]);
        assert(join_with(tail, sep) == join_with(tail.drop_last(), sep) + seq![sep] + tail.last());
        assert(join_with(parts, sep) == join_with(front, sep) + seq![sep] + parts.last());
        assert(join_with(parts, sep) =~= parts[0] + seq![sep] + join_with(tail, sep));
    }
}

/// Splitting joined lines at `\n` gives the lines back.
proof fn lemma_split_join(parts: Seq<Seq<char>>)
    requires
        parts.len() > 0,
        forall|i: int, j: int| 0 <= i < parts.len() && 0 <= j < parts[i].len() ==> parts[i][j] != '\n',
    ensures
        split_lines(join_with(parts, '\n')) == parts,
    decreases parts.len(),
{
    if parts.len() == 1 {
        lemma_split_none(parts[0]);
        assert(seq![parts[0]] =~= parts);
    } else {
        lemma_join_front(parts, '\n');
        let rest = join_with(parts.skip(1), '\n');
        let t = parts[0] + seq!['\n'] + rest;
        assert(is_first_index(t, '\n', parts[0].len() as int)) by {
            assert forall|j: int| 0 <= j < parts[0].len() implies t[j] != '\n' by {
                assert(t[j] == parts[0][j]);
            }
        }
        lemma_split_at(t, parts[0].len() as int);
        assert(t.take(parts[0].len() as int) =~= parts[0]);
        assert(t.skip(parts[0].len() as int + 1) =~= rest);
        lemma_split_join(parts.skip(1));
        assert(seq![parts[0]] + parts.skip(1) =~= parts);
    }
}

/// In joined lines that are not empty and do not start with `\n`, no `\n`
/// follows another and the text does not end with one.
proof fn lemma_join_no_blank(parts: Seq<Seq<char>>)
    requires
        parts.len() > 0,
        forall|i: int| 0 <= i < parts.len() ==> (#[trigger] parts[i]).len() > 0,
        forall|i: int, j: int| 0 <= i < parts.len() && 0 <= j < parts[i].len() ==> parts[i][j] != '\n',
    ensures
        join_with(parts, '\n').len() > 0,
        join_with(parts, '\n').last() != '\n',
        forall|j: int|
            0 <= j < join_with(parts, '\n').len() - 1 && #[trigger] join_with(parts, '\n')[j] == '\n'
                ==> join_with(parts, '\n')[j + 1] != '\n',
    decreases parts.len(),
{
    let t = join_with(parts, '\n');
    let last = parts.last();
    assert(last.len() > 0);
    assert(last[last.len() - 1] != '\n');
    if parts.len() == 1 {
    } else {
        let pre = join_with(parts.drop_last(), '\n');
        lemma_join_no_blank(parts.drop_last());
        assert(t =~= pre + seq!['\n'] + last);
        assert forall|j: int| 0 <= j < t.len() - 1 && #[trigger] t[j] == '\n' implies t[j + 1] != '\n' by {
            if j < pre.len() - 1 {
                assert(t[j] == pre[j] && t[j + 1] == pre[j + 1]);
            } else if j == pre.len() - 1 {
                assert(t[j] == pre.last());
            } else if j == pre.len() {
                assert(t[j + 1] == last[0]);
            } else {
                assert(t[j] == last[j - pre.len() - 1]);
            }
        }
    }
}

/// The plain header lines of headers without `Content-Length` are their line
/// texts joined by `\n`, with a final `\n`.
proof fn lemma_lines_joined(h: Seq<Entry>)
    requires
        h.len() > 0,
        forall|i: int| 0 <= i < h.len() ==> (#[trigger] h[i]).0 != "Content-Length"@,
    ensures
        plain_lines(h) == join_with(line_texts(h), '\n') + "\n"@,
    decreases h.len(),
{
    reveal_strlit("\n");
    reveal_strlit(": ");
    let last = h.last();
    assert(last.0 != "Content-Length"@);
    if h.len() == 1 {
        assert(h.drop_last() =~= Seq::<Entry>::empty());
        assert(plain_lines(h.drop_last()) =~= Seq::<char>::empty());
        assert(line_texts(h) =~= seq![line_text(last)]);
        assert(join_with(line_texts(h), '\n') == line_text(last));
        assert(plain_lines(h) =~= plain_line(last));
    } else {
        lemma_lines_joined(h.drop_last());
        assert(line_texts(h).drop_last() =~= line_texts(h.drop_last()));
        assert(line_texts(h).last() == line_text(last));
        assert(plain_lines(h) =~= join_with(line_texts(h), '\n') + "\n"@);
    }
}

/// One header line reads back as its entry.
proof fn lemma_line_reads_back(x: Entry, context: Seq<char>)
    requires
        line_key_ok(x.0),
    ensures
        line_outcome(line_text(x), context) == Ok::<Option<Entry>, Fault>(Some(x)),
{
    reveal_strlit(": ");
    let k = x.0;
    let p = percent_encoded(x.1);
    lemma_percent_round_trip(x.1);
    let line = line_text(x);
    assert(line =~= (k + seq![':']) + (seq![' '] + p));
    let kc = k + seq![':'];
    assert(kc[0] == k[0] && kc.last() == ':');
    let t = trimmed(line);
    let rest = if p.len() == 0 {
        assert(line =~= kc + seq![' ']);
        lemma_trimmed_trailing_space(kc);
        Seq::<char>::empty()
    } else {
        assert(line[0] == k[0]);
        assert(line.last() == p.last());
        assert(is_plain_char(p[p.len() - 1]));
        lemma_trimmed_unchanged(line);
        seq![' '] + p
    };
    assert(t =~= kc + rest);
    assert(is_first_index(t, ':', k.len() as int)) by {
        assert forall|j: int| 0 <= j < k.len() implies t[j] != ':' by {
            assert(t[j] == k[j]);
        }
    }
    lemma_first_index(t, ':', k.len() as int);
    assert(t.take(k.len() as int) =~= k);
    assert(t.skip(k.len() as int + 1) =~= rest);
    lemma_trimmed_unchanged(k);
    if p.len() == 0 {
        lemma_trimmed_unchanged(rest);
        assert(rest =~= p);
    } else {
        assert(is_plain_char(p[0]));
        lemma_trimmed_leading_space(p);
    }
}

/// Reading the header lines of distinct, well-formed names one after the
/// other into the first `i` entries gives all the entries.
proof fn lemma_block_reads_back(h: Seq<Entry>, i: int, context: Seq<char>)
    requires
        0 <= i <= h.len(),
        keys_distinct(h),
        forall|j: int| 0 <= j < h.len() ==> line_key_ok(#[trigger] h[j].0),
    ensures
        block_outcome(h.take(i), line_texts(h).skip(i), context) == Ok::<Seq<Entry>, Fault>(h),
    decreases h.len() - i,
{
    let ls = line_texts(h).skip(i);
    if i == h.len() {
        assert(ls.len() == 0);
        assert(h.take(i) =~= h);
    } else {
        assert(line_key_ok(h[i].0));
        lemma_line_reads_back(h[i], context);
        assert(ls[0] == line_text(h[i]));
        assert(ls.skip(1) =~= line_texts(h).skip(i + 1));
        assert(key_index(h.take(i), h[i].0) == -1) by {
            assert forall|j: int| 0 <= j < i implies h.take(i)[j].0 != h[i].0 by {}
            lemma_key_index_absent(h.take(i), h[i].0);
        }
        assert(insert_entry(h.take(i), h[i].0, h[i].1) =~= h.take(i + 1));
        lemma_block_reads_back(h, i + 1, context);
    }
}

/// What a plain event body reads back as: an event written in the plain
/// format, without a body, parses back to the same headers, no body, and the
/// type its `Event-Name` names, whenever its header names are ones the
/// format carries through (see [`plain_key_ok`]) and no name repeats.
pub proof fn lemma_plain_format_round_trip(h: Seq<Entry>)
    requires
        keys_distinct(h),
        forall|i: int| 0 <= i < h.len() ==> plain_key_ok(#[trigger] h[i].0),
    ensures
        plain_event(MessageKind::Event, Some(plain_text(h, None))) == (EventModel::Parsed {
            headers: h,
            body: None,
            event_type: type_by_name(h),
        }),
{
    reveal_strlit("\n");
    reveal_strlit("\n\n");
    let b = plain_text(h, None);
    if h.len() == 0 {
        assert(plain_lines(h) =~= Seq::<char>::empty());
        assert(b =~= seq!['\n']);
        assert(find_seq(b, "\n\n"@) is None);
        let empty = Seq::<char>::empty();
        assert(b =~= empty + seq!['\n'] + empty);
        assert(is_first_index(b, '\n', 0));
        lemma_split_at(b, 0);
        lemma_split_none(empty);
        assert(b.take(0) =~= empty);
        assert(b.skip(1) =~= empty);
        lemma_trimmed_unchanged(empty);
        let ls = split_lines(b);
        assert(ls =~= seq![empty, empty]);
        assert(ls.skip(1) =~= seq![empty]);
        assert(ls.skip(1).skip(1) =~= Seq::<Seq<char>>::empty());
        assert(line_outcome(empty, "event header"@) == Ok::<Option<Entry>, Fault>(None));
        assert(block_outcome(Seq::empty(), ls.skip(1).skip(1), "event header"@) == Ok::<
            Seq<Entry>,
            Fault,
        >(Seq::empty()));
        assert(block_outcome(Seq::empty(), ls.skip(1), "event header"@) == Ok::<Seq<Entry>, Fault>(
            Seq::empty(),
        ));
        assert(block_outcome(Seq::empty(), ls, "event header"@) == Ok::<Seq<Entry>, Fault>(
            Seq::empty(),
        ));
        assert(h =~= Seq::<Entry>::empty());
    } else {
        assert forall|i: int| 0 <= i < h.len() implies (#[trigger] h[i]).0 != "Content-Length"@ by {
            assert(plain_key_ok(h[i].0));
        }
        lemma_lines_joined(h);
        let j = join_with(line_texts(h), '\n');
        assert(b =~= j + "\n\n"@ + Seq::<char>::empty());
        lemma_framed_block_reads_back(h, Seq::empty());
    }
}

/// Header lines of distinct names a line carries through, joined by `\n`,
/// then a blank line and `tail`: the first blank line is the one after the
/// lines, and the lines read back as the headers.
proof fn lemma_framed_block_reads_back(h: Seq<Entry>, tail: Seq<char>)
    requires
        h.len() > 0,
        keys_distinct(h),
        forall|i: int| 0 <= i < h.len() ==> line_key_ok(#[trigger] h[i].0),
    ensures
        ({
            let j = join_with(line_texts(h), '\n');
            let b = j + "\n\n"@ + tail;
            &&& find_seq(b, "\n\n"@) == Some(j.len() as int)
            &&& b.take(j.len() as int) == j
            &&& b.skip(j.len() as int + 2) == tail
            &&& block_outcome(Seq::empty(), split_lines(j), "event header"@) == Ok::<Seq<Entry>, Fault>(h)
        }),
{
    reveal_strlit("\n\n");
    let ls = line_texts(h);
    let j = join_with(ls, '\n');
    let b = j + "\n\n"@ + tail;
    assert forall|i: int| 0 <= i < ls.len() implies (#[trigger] ls[i]).len() > 0 && ls[i][0] != '\n' by {
        assert(line_key_ok(h[i].0));
        assert(ls[i][0] == h[i].0[0]);
        assert(has_char(h[i].0, '\n') == false);
    }
    assert forall|i: int, k: int| 0 <= i < ls.len() && 0 <= k < ls[i].len() implies ls[i][k] != '\n' by {
        let x = h[i];
        lemma_percent_round_trip(x.1);
        reveal_strlit(": ");
        assert(line_key_ok(x.0));
        let line = line_text(x);
        if k < x.0.len() {
            assert(line[k] == x.0[k]);
        } else if k < x.0.len() + 2 {
        } else {
            assert(line[k] == percent_encoded(x.1)[k - x.0.len() - 2]);
        }
    }
    lemma_join_no_blank(ls);
    lemma_split_join(ls);
    assert(is_first_match(b, "\n\n"@, j.len() as int)) by {
        assert(b.subrange(j.len() as int, j.len() as int + 2) =~= "\n\n"@);
        assert forall|q: int| 0 <= q < j.len() implies #[trigger] b.subrange(q, q + 2) != "\n\n"@ by {
            if b.subrange(q, q + 2) == "\n\n"@ {
                assert(b.subrange(q, q + 2)[0] == b[q]);
                assert(b.subrange(q, q + 2)[1] == b[q + 1]);
                assert(b[q] == j[q]);
                if q + 1 < j.len() {
                    assert(b[q + 1] == j[q + 1]);
                } else {
                    assert(j[q] == j.last());
                }
            }
        }
    }
    lemma_find_seq_first(b, "\n\n"@, j.len() as int);
    assert(b.take(j.len() as int) =~= j);
    assert(b.skip(j.len() as int + 2) =~= tail);
    lemma_block_reads_back(h, 0, "event header"@);
    assert(h.take(0) =~= Seq::<Entry>::empty());
    assert(ls.skip(0) =~= ls);
}

/// Bytes that are all letters or digits encode as themselves.
proof fn lemma_encoded_alnum(bs: Seq<u8>)
    requires
        forall|i: int| 0 <= i < bs.len() ==> is_alnum_byte(#[trigger] bs[i]),
    ensures
        encoded_bytes(bs) == bs.map_values(|b: u8| b as char),
    decreases bs.len(),
{
    if bs.len() == 0 {
        assert(encoded_bytes(bs) =~= bs.map_values(|b: u8| b as char));
    } else {
        let d = bs.drop_last();
        lemma_encoded_alnum(d);
        assert(is_alnum_byte(bs[bs.len() - 1]));
        assert(bs.map_values(|b: u8| b as char) =~= d.map_values(|b: u8| b as char).push(bs.last() as char));
        assert(encoded_bytes(bs) =~= bs.map_values(|b: u8| b as char));
    }
}

/// A decimal numeral percent-encodes as itself.
proof fn lemma_percent_decimal(n: nat)
    ensures
        percent_encoded(decimal(n)) == decimal(n),
{
    let s = decimal(n);
    crate::numeric::lemma_decimal_parses(n);
    assert(vstd::utf8::is_ascii_chars(s)) by {
        assert forall|i: int| 0 <= i < s.len() implies '\0' <= #[trigger] s[i] <= '\u{7f}' by {
            assert(crate::numeric::is_digit(s[i]));
        }
    }
    vstd::utf8::is_ascii_chars_encode_utf8(s);
    let bs = vstd::utf8::encode_utf8(s);
    assert forall|i: int| 0 <= i < bs.len() implies is_alnum_byte(#[trigger] bs[i]) by {
        assert(s[i] as u8 == bs[i]);
        assert(crate::numeric::is_digit(s[i]));
    }
    lemma_encoded_alnum(bs);
    assert forall|i: int| 0 <= i < s.len() implies bs.map_values(|b: u8| b as char)[i] == s[i] by {
        assert(s[i] as u8 == bs[i]);
        assert(crate::numeric::is_digit(s[i]));
    }
    assert(bs.map_values(|b: u8| b as char) =~= s);
}

/// What a plain event body with a body reads back as: an event whose
/// headers end with a `Content-Length` giving its body's length in bytes,
/// written in the plain format with a non-empty body, parses back to the
/// same headers, the body, and the type its `Event-Name` names, whenever its
/// other header names are ones the format carries through (see
/// [`plain_key_ok`]), no name repeats, and the parser keeps the name
/// `Content-Length` as it is.
pub proof fn lemma_plain_format_body_round_trip(h: Seq<Entry>, b: Seq<char>)
    requires
        keys_distinct(h),
        h.len() > 0,
        h.last() == ("Content-Length"@, decimal(utf8_len(b))),
        forall|i: int| 0 <= i < h.len() - 1 ==> plain_key_ok(#[trigger] h[i].0),
        normalized_header_key("Content-Length"@) == "Content-Length"@,
        b.len() > 0,
    ensures
        plain_event(MessageKind::Event, Some(plain_text(h, Some(b)))) == (EventModel::Parsed {
            headers: h,
            body: Some(b),
            event_type: type_by_name(h),
        }),
{
    reveal_strlit("\n");
    reveal_strlit(": ");
    reveal_strlit("\n\n");
    reveal_strlit("Content-Length");
    reveal_strlit("Content-Length: ");
    let d = h.drop_last();
    let cl = h.last();
    let n = decimal(utf8_len(b));
    lemma_percent_decimal(utf8_len(b));
    assert(line_key_ok("Content-Length"@)) by {
        assert(!has_char("Content-Length"@, '\n'));
        assert(!has_char("Content-Length"@, ':'));
        assert(!is_white_space('C'));
        assert(!is_white_space('h'));
    }
    assert forall|i: int| 0 <= i < h.len() implies line_key_ok(#[trigger] h[i].0) by {
        if i < h.len() - 1 {
            assert(plain_key_ok(h[i].0));
        }
    }
    assert(line_text(cl) =~= "Content-Length: "@ + n);
    assert(plain_lines(h) == plain_lines(d));
    let t = plain_text(h, Some(b));
    assert(t =~= plain_lines(d) + ("Content-Length: "@ + n) + "\n\n"@ + b);
    let j = join_with(line_texts(h), '\n');
    if d.len() == 0 {
        assert(plain_lines(d) =~= Seq::<char>::empty());
        assert(line_texts(h) =~= seq![line_text(cl)]);
        assert(j == line_text(cl));
    } else {
        assert forall|i: int| 0 <= i < d.len() implies (#[trigger] d[i]).0 != "Content-Length"@ by {
            assert(h[i].0 != h[h.len() - 1].0);
        }
        lemma_lines_joined(d);
        assert(line_texts(h).drop_last() =~= line_texts(d));
        assert(line_texts(h).last() == line_text(cl));
        assert(j == join_with(line_texts(d), '\n') + seq!['\n'] + line_text(cl));
    }
    assert(t =~= j + "\n\n"@ + b);
    lemma_framed_block_reads_back(h, b);
}

} // verus!
