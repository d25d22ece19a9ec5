//! Read buffer for ESL protocol parsing.
//!
//! The bytes live in a `bytes::BytesMut`; a read position marks how much of
//! it the parser has consumed. What Verus knows of the `BytesMut` is its
//! content, [`bytes_content`].

use crate::constants::{BUF_CHUNK, MAX_BUFFER_SIZE};
use crate::error::{EslError, EslResult};
use crate::numeric::decimal;
use crate::text::{concat2, push_str};
use bytes::BytesMut;
use vstd::prelude::*;

verus! {

#[verifier::external_type_specification]
#[verifier::external_body]
pub struct ExBytesMut(BytesMut);

/// The bytes a `BytesMut` holds.
pub uninterp spec fn bytes_content(b: BytesMut) -> Seq<u8>;

/// Calls `BytesMut::with_capacity`: an empty buffer.
#[verifier::external_body]
fn bm_with_capacity(capacity: usize) -> (b: BytesMut)
    ensures
        bytes_content(b) == Seq::<u8>::empty(),
{
    BytesMut::with_capacity(capacity)
}

/// Calls `BytesMut::len`: the number of bytes held.
#[verifier::external_body]
fn bm_len(b: &BytesMut) -> (n: usize)
    ensures
        n == bytes_content(*b).len(),
{
    b.len()
}

/// Calls `BytesMut::extend_from_slice`: appends `data`. The source panics when
/// the length would pass `isize::MAX`, which `requires` leaves out.
#[verifier::external_body]
fn bm_extend(b: &mut BytesMut, data: &[u8])
    requires
        bytes_content(*old(b)).len() + data@.len() <= isize::MAX,
    ensures
        bytes_content(*final(b)) == bytes_content(*old(b)) + data@,
{
    b.extend_from_slice(data);
}

/// Calls `BufMut::remaining_mut` on a `BytesMut`, which is `isize::MAX` minus
/// the length.
#[verifier::external_body]
fn bm_remaining_mut(b: &BytesMut) -> (n: usize)
    requires
        bytes_content(*b).len() <= isize::MAX,
    ensures
        n == isize::MAX - bytes_content(*b).len(),
{
    bytes::BufMut::remaining_mut(b)
}

/// Calls `BytesMut::capacity`. What the allocator granted is not stated.
#[verifier::external_body]
fn bm_capacity(b: &BytesMut) -> usize {
    b.capacity()
}

/// Calls `BytesMut::reserve`, which changes the capacity and not the content.
/// The source panics when the new capacity would overflow, which `requires`
/// leaves out.
#[verifier::external_body]
fn bm_reserve(b: &mut BytesMut, additional: usize)
    requires
        bytes_content(*old(b)).len() + additional <= isize::MAX,
    ensures
        bytes_content(*final(b)) == bytes_content(*old(b)),
{
    b.reserve(additional);
}

/// The bytes from position `from` on (the `Deref` to `[u8]`, indexed).
#[verifier::external_body]
fn bm_tail(b: &BytesMut, from: usize) -> (r: &[u8])
    requires
        from <= bytes_content(*b).len(),
    ensures
        r@ == bytes_content(*b).skip(from as int),
{
    &b[from..]
}

/// Calls `<[u8]>::copy_within(from.., 0)` through the `DerefMut` of the
/// buffer: the bytes from `from` on are copied to the front; the tail keeps
/// its old bytes.
#[verifier::external_body]
fn bm_copy_to_front(b: &mut BytesMut, from: usize)
    requires
        from <= bytes_content(*old(b)).len(),
    ensures
        bytes_content(*final(b)) == bytes_content(*old(b)).skip(from as int) + bytes_content(
            *old(b),
        ).skip(bytes_content(*old(b)).len() - from),
{
    b.copy_within(from.., 0);
}

/// Calls `BytesMut::truncate`: keeps the first `len` bytes (all of them when
/// there are fewer).
#[verifier::external_body]
fn bm_truncate(b: &mut BytesMut, len: usize)
    ensures
        bytes_content(*final(b)) == if len <= bytes_content(*old(b)).len() {
            bytes_content(*old(b)).take(len as int)
        } else {
            bytes_content(*old(b))
        },
{
    b.truncate(len);
}

/// Calls `BytesMut::clear`: no bytes left.
#[verifier::external_body]
fn bm_clear(b: &mut BytesMut)
    ensures
        bytes_content(*final(b)) == Seq::<u8>::empty(),
{
    b.clear();
}

/// Index of the first occurrence of `pattern` in `data`, if any.
pub open spec fn find_seq<A>(data: Seq<A>, pattern: Seq<A>) -> Option<int> {
    if pattern.len() > 0 && exists|i: int|
        0 <= i <= data.len() - pattern.len() && #[trigger] data.subrange(i, i + pattern.len())
            == pattern {
        Some(choose|i: int| is_first_match(data, pattern, i))
    } else {
        None
    }
}

/// `i` is the first position where `pattern` occurs in `data`.
pub open spec fn is_first_match<A>(data: Seq<A>, pattern: Seq<A>, i: int) -> bool {
    &&& 0 <= i <= data.len() - pattern.len()
    &&& data.subrange(i, i + pattern.len()) == pattern
    &&& forall|j: int| 0 <= j < i ==> #[trigger] data.subrange(j, j + pattern.len()) != pattern
}

/// The first match is what [`find_seq`] names.
pub proof fn lemma_find_seq_first<A>(data: Seq<A>, pattern: Seq<A>, i: int)
    requires
        pattern.len() > 0,
        is_first_match(data, pattern, i),
    ensures
        find_seq(data, pattern) == Some(i),
{
    assert(data.subrange(i, i + pattern.len()) == pattern);
    let k = choose|k: int| is_first_match(data, pattern, k);
    assert(is_first_match(data, pattern, k));
    if k < i {
        assert(data.subrange(k, k + pattern.len()) != pattern);
    } else if k > i {
        assert(data.subrange(i, i + pattern.len()) != pattern);
    }
}

/// A pattern that occurs somewhere occurs somewhere first.
proof fn lemma_first_match_exists<A>(data: Seq<A>, pattern: Seq<A>, m: int)
    requires
        0 <= m <= data.len() - pattern.len(),
        data.subrange(m, m + pattern.len()) == pattern,
    ensures
        exists|k: int| is_first_match(data, pattern, k),
    decreases m,
{
    if forall|j: int| 0 <= j < m ==> #[trigger] data.subrange(j, j + pattern.len()) != pattern {
        assert(is_first_match(data, pattern, m));
    } else {
        let j = choose|j: int| 0 <= j < m && #[trigger] data.subrange(j, j + pattern.len()) == pattern;
        lemma_first_match_exists(data, pattern, j);
    }
}

/// What [`find_seq`] names is the first match.
pub proof fn lemma_find_seq_is_first<A>(data: Seq<A>, pattern: Seq<A>)
    ensures
        find_seq(data, pattern) matches Some(i) ==> is_first_match(data, pattern, i),
{
    if find_seq(data, pattern) is Some {
        let m = choose|i: int|
            0 <= i <= data.len() - pattern.len() && #[trigger] data.subrange(i, i + pattern.len()) == pattern;
        lemma_first_match_exists(data, pattern, m);
    }
}

/// The first match in `data` stays the first once more bytes follow.
pub proof fn lemma_find_seq_extend<A>(data: Seq<A>, more: Seq<A>, pattern: Seq<A>)
    requires
        find_seq(data, pattern) is Some,
    ensures
        find_seq(data + more, pattern) == find_seq(data, pattern),
{
    lemma_find_seq_is_first(data, pattern);
    let i = find_seq(data, pattern)->0;
    let d = data + more;
    assert(d.subrange(i, i + pattern.len()) =~= data.subrange(i, i + pattern.len()));
    assert forall|j: int| 0 <= j < i implies #[trigger] d.subrange(j, j + pattern.len()) != pattern by {
        assert(d.subrange(j, j + pattern.len()) =~= data.subrange(j, j + pattern.len()));
    }
    lemma_find_seq_first(d, pattern, i);
}

/// The first `n` bytes of `s`, copied.
pub fn prefix_vec(s: &[u8], n: usize) -> (v: Vec<u8>)
    requires
        n <= s@.len(),
    ensures
        v@ == s@.take(n as int),
{
    let mut v: Vec<u8> = Vec::new();
    let mut i: usize = 0;
    while i < n
        invariant
            i <= n,
            n <= s@.len(),
            v@ == s@.take(i as int),
        decreases n - i,
    {
        v.push(s[i]);
        assert(s@.take(i + 1) =~= s@.take(i as int).push(s@[i as int]));
        i += 1;
    }
    v
}

/// Buffer for ESL protocol parsing: unconsumed bytes start at `position`.
pub struct EslBuffer {
    buffer: BytesMut,
    position: usize,
}

impl EslBuffer {
    /// The read position is within the held bytes, and one more chunk of
    /// growth still fits in an allocation.
    pub closed spec fn wf(self) -> bool {
        &&& self.position <= bytes_content(self.buffer).len()
        &&& bytes_content(self.buffer).len() + BUF_CHUNK <= isize::MAX
    }

    /// The unconsumed bytes.
    pub closed spec fn view_data(self) -> Seq<u8> {
        bytes_content(self.buffer).skip(self.position as int)
    }

    /// All bytes held, consumed ones included (what the size limit counts).
    pub closed spec fn held(self) -> Seq<u8> {
        bytes_content(self.buffer)
    }

    /// Create new buffer with default capacity.
    pub fn new() -> (r: EslBuffer)
        ensures
            r.wf(),
            r.view_data() == Seq::<u8>::empty(),
            r.held() == Seq::<u8>::empty(),
    {
        EslBuffer { buffer: bm_with_capacity(BUF_CHUNK), position: 0 }
    }

    /// Number of unconsumed bytes.
    pub fn len(&self) -> (n: usize)
        requires
            self.wf(),
        ensures
            n == self.view_data().len(),
    {
        bm_len(&self.buffer) - self.position
    }

    /// Append data, growing the allocation by at least one chunk when it
    /// would not fit.
    pub fn extend_from_slice(&mut self, data: &[u8])
        requires
            old(self).wf(),
            old(self).held().len() + data@.len() + BUF_CHUNK <= isize::MAX,
        ensures
            final(self).wf(),
            final(self).view_data() == old(self).view_data() + data@,
            final(self).held() == old(self).held() + data@,
    {
        if bm_remaining_mut(&self.buffer) < data.len() {
            let new_space = if data.len() > BUF_CHUNK {
                data.len()
            } else {
                BUF_CHUNK
            };
            bm_reserve(&mut self.buffer, new_space);
        }
        let ghost before = bytes_content(self.buffer);
        bm_extend(&mut self.buffer, data);
        assert(bytes_content(self.buffer).skip(self.position as int) =~= before.skip(
            self.position as int,
        ) + data@);
    }

    /// The unconsumed bytes.
    pub fn data(&self) -> (r: &[u8])
        requires
            self.wf(),
        ensures
            r@ == self.view_data(),
    {
        bm_tail(&self.buffer, self.position)
    }

    /// Consume `count` bytes from the front; an error if fewer are held.
    pub fn advance(&mut self, count: usize) -> (r: EslResult<()>)
        requires
            old(self).wf(),
        ensures
            final(self).wf(),
            r is Ok <==> count <= old(self).view_data().len(),
            r is Ok ==> final(self).view_data() == old(self).view_data().skip(count as int),
            r is Err ==> final(self).view_data() == old(self).view_data(),
            final(self).held() == old(self).held(),
            r matches Err(e) ==> e matches EslError::ProtocolError { message } && message@ == "cannot advance "@ + decimal(count as nat) + " bytes, only "@
                + decimal(old(self).view_data().len()) + " available"@,
    {
        let available = self.len();
        if count > available {
            let mut m = concat2("cannot advance ", crate::numeric::usize_to_string(count).as_str());
            push_str(&mut m, " bytes, only ");
            push_str(&mut m, crate::numeric::usize_to_string(available).as_str());
            push_str(&mut m, " available");
            return Err(EslError::ProtocolError { message: m });
        }
        proof {
            assert(bytes_content(self.buffer).skip(self.position + count) =~= bytes_content(
                self.buffer,
            ).skip(self.position as int).skip(count as int));
        }
        self.position = self.position + count;
        Ok(())
    }

    /// Position of the first occurrence of `pattern` in the unconsumed bytes.
    pub fn find_pattern(&self, pattern: &[u8]) -> (r: Option<usize>)
        requires
            self.wf(),
        ensures
            match r {
                Some(i) => pattern@.len() > 0 && is_first_match(self.view_data(), pattern@, i as int),
                None => find_seq(self.view_data(), pattern@) is None,
            },
    {
        let data = self.data();
        let ghost d = data@;
        let ghost p = pattern@;
        if pattern.len() == 0 || data.len() < pattern.len() {
            return None;
        }
        let last = data.len() - pattern.len();
        let mut i: usize = 0;
        while i <= last
            invariant
                d == data@,
                d == self.view_data(),
                d.len() == data.len(),
                p == pattern@,
                p.len() > 0,
                last == d.len() - p.len(),
                i <= last + 1,
                forall|j: int| 0 <= j < i ==> #[trigger] d.subrange(j, j + p.len()) != p,
            decreases last + 1 - i,
        {
            let mut k: usize = 0;
            let mut same = true;
            while k < pattern.len()
                invariant
                    d == data@,
                    d.len() == data.len(),
                    p == pattern@,
                    p.len() == pattern.len(),
                    i <= last,
                    last == d.len() - p.len(),
                    k <= p.len(),
                    same <==> forall|m: int| 0 <= m < k ==> d[i + m] == p[m],
                decreases p.len() - k,
            {
                if data[i + k] != pattern[k] {
                    same = false;
                }
                k += 1;
            }
            if same {
                assert(d.subrange(i as int, i + p.len()) =~= p);
                return Some(i);
            }
            proof {
                let m = choose|m: int| 0 <= m < p.len() && d[i + m] != p[m];
                assert(d.subrange(i as int, i + p.len())[m] != p[m]);
            }
            i += 1;
        }
        None
    }

    /// Extract the bytes before the first `pattern`, consuming them and the
    /// pattern; `None` (nothing consumed) when the pattern is absent.
    pub fn extract_until_pattern(&mut self, pattern: &[u8]) -> (r: Option<Vec<u8>>)
        requires
            old(self).wf(),
        ensures
            final(self).wf(),
            final(self).held() == old(self).held(),
            match r {
                Some(v) => exists|i: int|
                    pattern@.len() > 0 && is_first_match(old(self).view_data(), pattern@, i)
                        && v@ == old(self).view_data().take(i) && final(self).view_data() == old(
                        self,
                    ).view_data().skip(i + pattern@.len()),
                None => find_seq(old(self).view_data(), pattern@) is None && final(self).view_data()
                    == old(self).view_data(),
            },
    {
        match self.find_pattern(pattern) {
            Some(pos) => {
                let d = self.data();
                let result = prefix_vec(d, pos);
                let _ = self.advance(pos + pattern.len());
                Some(result)
            },
            None => None,
        }
    }

    /// Extract exactly `count` bytes, consuming them; `None` (nothing
    /// consumed) when fewer are held.
    pub fn extract_bytes(&mut self, count: usize) -> (r: Option<Vec<u8>>)
        requires
            old(self).wf(),
        ensures
            final(self).wf(),
            final(self).held() == old(self).held(),
            match r {
                Some(v) => count <= old(self).view_data().len() && v@ == old(self).view_data().take(
                    count as int,
                ) && final(self).view_data() == old(self).view_data().skip(count as int),
                None => count > old(self).view_data().len() && final(self).view_data() == old(
                    self,
                ).view_data(),
            },
    {
        if self.len() >= count {
            let d = self.data();
            let result = prefix_vec(d, count);
            let _ = self.advance(count);
            Some(result)
        } else {
            None
        }
    }

    /// Drop the consumed bytes, moving the rest to the front: afterwards the
    /// buffer holds exactly the unconsumed bytes.
    pub fn compact(&mut self)
        requires
            old(self).wf(),
        ensures
            final(self).wf(),
            final(self).view_data() == old(self).view_data(),
            final(self).held() == old(self).view_data(),
            old(self).view_data().len() <= final(self).held().len() <= old(self).held().len(),
    {
        if self.position == 0 {
            assert(bytes_content(self.buffer).skip(0) =~= bytes_content(self.buffer));
        }
        if self.position > 0 {
            let remaining_len = self.len();
            let ghost before = bytes_content(self.buffer);
            if remaining_len > 0 {
                bm_copy_to_front(&mut self.buffer, self.position);
            }
            bm_truncate(&mut self.buffer, remaining_len);
            assert(bytes_content(self.buffer) =~= before.skip(self.position as int));
            self.position = 0;
            assert(bytes_content(self.buffer).skip(0) =~= bytes_content(self.buffer));
            if bm_capacity(&self.buffer) < BUF_CHUNK {
                bm_reserve(&mut self.buffer, BUF_CHUNK);
            }
        }
    }

    /// Drop every byte, consumed or not.
    pub fn clear(&mut self)
        requires
            old(self).wf(),
        ensures
            final(self).wf(),
            final(self).view_data() == Seq::<u8>::empty(),
            final(self).held() == Seq::<u8>::empty(),
    {
        bm_clear(&mut self.buffer);
        self.position = 0;
    }

    /// An error once more bytes are held than [`MAX_BUFFER_SIZE`].
    pub fn check_size_limits(&self) -> (r: EslResult<()>)
        ensures
            r is Ok <==> self.held().len() <= MAX_BUFFER_SIZE,
            r matches Err(e) ==> e matches EslError::BufferOverflow { size, limit } && size
                == self.held().len() && limit == MAX_BUFFER_SIZE,
    {
        let n = bm_len(&self.buffer);
        if n > MAX_BUFFER_SIZE {
            return Err(EslError::BufferOverflow { size: n, limit: MAX_BUFFER_SIZE });
        }
        Ok(())
    }
}

/// The buffer is first in, first out: bytes appended after the unread data
/// come out after it, and taking out a prefix of the unread data leaves the
/// rest of it followed by what was appended; once everything that was there
/// before is taken out, what is left is exactly what was appended.
pub proof fn lemma_buffer_fifo(unread: Seq<u8>, appended: Seq<u8>, n: int)
    requires
        0 <= n <= unread.len(),
    ensures
        (unread + appended).take(n) == unread.take(n),
        (unread + appended).skip(n) == unread.skip(n) + appended,
        (unread + appended).skip(unread.len() as int) == appended,
{
    assert((unread + appended).take(n) =~= unread.take(n));
    assert((unread + appended).skip(n) =~= unread.skip(n) + appended);
    assert((unread + appended).skip(unread.len() as int) =~= appended);
}

impl Default for EslBuffer {
    /// An empty buffer.
    fn default() -> (r: EslBuffer)
        ensures
            r.wf(),
            r.view_data() == Seq::<u8>::empty(),
            r.held() == Seq::<u8>::empty(),
    {
        EslBuffer::new()
    }
}

} // verus!
