//! Bytes: numbers in network order, places of bytes in others, and UTF-8.

use crate::text::text_result;
use vstd::prelude::*;
use vstd::utf8::{decode_utf8, valid_utf8};

verus! {

/// The lowest `width` bytes of `n`, the highest of them first.
pub open spec fn big_endian(n: nat, width: nat) -> Seq<u8>
    decreases width,
{
    if width == 0 {
        Seq::empty()
    } else {
        big_endian(n / 256, (width - 1) as nat).push((n % 256) as u8)
    }
}

/// The number that bytes in network order stand for.
pub open spec fn from_big_endian(b: Seq<u8>) -> nat
    decreases b.len(),
{
    if b.len() == 0 {
        0
    } else {
        from_big_endian(b.drop_last()) * 256 + b.last() as nat
    }
}

/// Appends the lowest `width` bytes of a number in network order.
pub fn push_big_endian(out: &mut Vec<u8>, n: u64, width: usize)
    ensures
        final(out)@ == old(out)@ + big_endian(n as nat, width as nat),
    decreases width,
{
    if width > 0 {
        push_big_endian(out, n / 256, width - 1);
        out.push((n % 256) as u8);
    }
    assert(out@ =~= old(out)@ + big_endian(n as nat, width as nat));
}

/// How large a number of `width` bytes can be.
pub open spec fn byte_limit(width: nat) -> nat
    decreases width,
{
    if width == 0 {
        1
    } else {
        256 * byte_limit((width - 1) as nat)
    }
}

/// A number that fits into `width` bytes is read back from them.
pub proof fn big_endian_reads_back(n: nat, width: nat)
    requires
        n < byte_limit(width),
    ensures
        big_endian(n, width).len() == width,
        from_big_endian(big_endian(n, width)) == n,
    decreases width,
{
    if width > 0 {
        big_endian_reads_back(n / 256, (width - 1) as nat);
        let all = big_endian(n, width);
        assert(all.drop_last() =~= big_endian(n / 256, (width - 1) as nat));
    }
}

/// The number that up to eight bytes in network order stand for.
pub fn read_big_endian(b: &[u8]) -> (r: u64)
    requires
        b@.len() <= 8,
    ensures
        r == from_big_endian(b@),
{
    let mut n: u64 = 0;
    let mut i: usize = 0;
    assert(b@.take(0) =~= Seq::<u8>::empty());
    while i < b.len()
        invariant
            i <= b@.len() <= 8,
            n == from_big_endian(b@.take(i as int)),
            n < byte_limit(i as nat),
        decreases b@.len() - i,
    {
        proof {
            reveal_with_fuel(byte_limit, 10);
            assert(b@.take(i + 1).drop_last() =~= b@.take(i as int));
            assert(b@.take(i + 1).last() == b@[i as int]);
        }
        n = n * 256 + b[i] as u64;
        i = i + 1;
    }
    assert(b@.take(i as int) =~= b@);
    n
}

/// Whether bytes stand at a place.
pub open spec fn bytes_at(b: Seq<u8>, p: Seq<u8>, i: int) -> bool {
    0 <= i && i + p.len() <= b.len() && b.subrange(i, i + p.len()) == p
}

/// The first place at or after `i` where bytes stand.
pub open spec fn bytes_from(b: Seq<u8>, p: Seq<u8>, i: int) -> Option<int>
    decreases b.len() - i + 1,
{
    if i + p.len() > b.len() {
        None
    } else if bytes_at(b, p, i) {
        Some(i)
    } else {
        bytes_from(b, p, i + 1)
    }
}

/// What `bytes_from` finds is the first place.
pub proof fn lemma_bytes_from(b: Seq<u8>, p: Seq<u8>, i: int)
    requires
        0 <= i,
    ensures
        match bytes_from(b, p, i) {
            Some(k) => i <= k && bytes_at(b, p, k) && forall|j: int|
                i <= j < k ==> !bytes_at(b, p, j),
            None => forall|j: int| i <= j ==> !bytes_at(b, p, j),
        },
    decreases b.len() - i + 1,
{
    if i + p.len() <= b.len() && !bytes_at(b, p, i) {
        lemma_bytes_from(b, p, i + 1);
    }
}

/// Bytes are found at the first place where they stand.
pub proof fn lemma_bytes_from_is(b: Seq<u8>, p: Seq<u8>, i: int, k: int)
    requires
        0 <= i <= k,
        bytes_at(b, p, k),
        forall|j: int| i <= j < k ==> !bytes_at(b, p, j),
    ensures
        bytes_from(b, p, i) == Some(k),
{
    lemma_bytes_from(b, p, i);
    match bytes_from(b, p, i) {
        Some(m) => {
            assert(bytes_at(b, p, m));
        },
        None => {
            assert(!bytes_at(b, p, k));
        },
    }
}

fn stands_at(b: &[u8], p: &[u8], i: usize) -> (r: bool)
    requires
        i + p@.len() <= b@.len(),
    ensures
        r == bytes_at(b@, p@, i as int),
{
    let n: usize = b.len();
    let mut k: usize = 0;
    while k < p.len()
        invariant
            k <= p@.len(),
            n == b@.len(),
            i + p@.len() <= b@.len(),
            forall|j: int| 0 <= j < k ==> b@[i + j] == p@[j],
        decreases p@.len() - k,
    {
        if b[i + k] != p[k] {
            assert(b@.subrange(i as int, i + p@.len())[k as int] != p@[k as int]);
            return false;
        }
        k = k + 1;
    }
    assert(b@.subrange(i as int, i + p@.len()) =~= p@);
    true
}

/// The first place at or after `from` where bytes stand.
pub fn find_bytes(b: &[u8], p: &[u8], from: usize) -> (r: Option<usize>)
    ensures
        match r {
            Some(k) => bytes_from(b@, p@, from as int) == Some(k as int) && from <= k && k
                + p@.len() <= b@.len(),
            None => bytes_from(b@, p@, from as int) is None,
        },
{
    if p.len() > b.len() {
        return None;
    }
    let last: usize = b.len() - p.len();
    let mut i: usize = from;
    while i <= last
        invariant
            from <= i,
            p@.len() <= b@.len(),
            last == b@.len() - p@.len(),
            bytes_from(b@, p@, from as int) == bytes_from(b@, p@, i as int),
        decreases last + 1 - i,
    {
        if stands_at(b, p, i) {
            return Some(i);
        }
        if i == last {
            assert(bytes_from(b@, p@, i + 1) is None);
            return None;
        }
        i = i + 1;
    }
    None
}

/// The text of the error with which the standard library refuses bytes that are not
/// UTF-8.
pub uninterp spec fn utf8_error(b: Seq<u8>) -> Seq<char>;

/// Calls `String::from_utf8`: bytes that are UTF-8 give the text that they encode,
/// and others an error whose text depends on the bytes alone.
#[verifier::external_body]
fn decode_bytes(b: Vec<u8>) -> (r: Result<String, String>)
    ensures
        r is Ok <==> valid_utf8(b@),
        r matches Ok(t) ==> t@ == decode_utf8(b@),
        r matches Err(e) ==> e@ == utf8_error(b@),
{
    String::from_utf8(b).map_err(|err| err.to_string())
}

/// The text that bytes encode, or the text of an error.
pub open spec fn utf8_text(b: Seq<u8>) -> Result<Seq<char>, Seq<char>> {
    if valid_utf8(b) {
        Ok(decode_utf8(b))
    } else {
        Err(utf8_error(b))
    }
}

/// The text that bytes encode, or the text of an error.
pub fn text_of_bytes(b: Vec<u8>) -> (r: Result<String, String>)
    ensures
        text_result(r) == utf8_text(b@),
{
    decode_bytes(b)
}

/// The text that `String::from_utf8_lossy` makes of bytes.
pub uninterp spec fn lossy_decoded(b: Seq<u8>) -> Seq<char>;

/// Calls `String::from_utf8_lossy`: bytes that are UTF-8 give the text that they
/// encode, and others a text that depends on the bytes alone.
#[verifier::external_body]
fn decode_lossy(b: &[u8]) -> (r: String)
    ensures
        r@ == lossy_decoded(b@),
        valid_utf8(b@) ==> r@ == decode_utf8(b@),
{
    String::from_utf8_lossy(b).to_string()
}

/// The text that bytes encode, with what is not UTF-8 replaced.
pub fn lossy_text(b: &[u8]) -> (r: String)
    ensures
        r@ == lossy_decoded(b@),
        valid_utf8(b@) ==> r@ == decode_utf8(b@),
{
    decode_lossy(b)
}

/// The blank line that ends the headers of an HTTP message.
pub open spec fn blank_line() -> Seq<u8> {
    seq![13u8, 10u8, 13u8, 10u8]
}

fn blank_line_bytes() -> (r: Vec<u8>)
    ensures
        r@ == blank_line(),
{
    let mut v: Vec<u8> = Vec::new();
    v.push(13);
    v.push(10);
    v.push(13);
    v.push(10);
    assert(v@ =~= blank_line());
    v
}

/// Where the headers of an HTTP message end, with the blank line.
pub open spec fn header_end(raw: Seq<u8>) -> Option<int> {
    match bytes_from(raw, blank_line(), 0) {
        Some(k) => Some(k + 4),
        None => None,
    }
}

/// Where the headers of an HTTP message end, with the blank line.
pub fn header_end_index(raw: &[u8]) -> (r: Option<usize>)
    ensures
        match r {
            Some(k) => header_end(raw@) == Some(k as int) && 4 <= k <= raw@.len(),
            None => header_end(raw@) is None,
        },
{
    let n: usize = raw.len();
    let mark: Vec<u8> = blank_line_bytes();
    match find_bytes(raw, mark.as_slice(), 0) {
        Some(k) => Some(k + 4),
        None => None,
    }
}

/// More bytes do not move the end of the headers.
pub proof fn header_end_is_stable(raw: Seq<u8>, more: Seq<u8>)
    requires
        header_end(raw) is Some,
    ensures
        header_end(raw + more) == header_end(raw),
{
    let p = blank_line();
    lemma_bytes_from(raw, p, 0);
    let k = bytes_from(raw, p, 0)->0;
    let all = raw + more;
    assert(all.subrange(k, k + 4) =~= raw.subrange(k, k + 4));
    assert forall|j: int| 0 <= j < k implies !bytes_at(all, p, j) by {
        assert(all.subrange(j, j + 4) =~= raw.subrange(j, j + 4));
        assert(!bytes_at(raw, p, j));
    }
    lemma_bytes_from_is(all, p, 0, k);
}

} // verus!
