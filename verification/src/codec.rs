//! The byte framing of the queue messages: confirmation notices and
//! product batches. Every field is a length-prefixed UTF-8 string, the
//! length an eight-byte little-endian number; a batch opens with its
//! record count in the same form. Decoding is strict: a decoder accepts a
//! byte string exactly when the specification-level parser does.

use vstd::prelude::*;

use vstd::slice::{slice_subrange, slice_to_vec};
use vstd::string::StrSliceExecFns;
use vstd::string::StringSliceAdditionalSpecFns;
use vstd::utf8::{decode_utf8, encode_utf8, valid_utf8};

use crate::shop::NewProduct;

verus! {

/// The eight little-endian base-256 digits of `n`.
pub open spec fn le64(n: u64) -> Seq<u8> {
    seq![
        (n % 256) as u8,
        ((n / 256) % 256) as u8,
        ((n / 65536) % 256) as u8,
        ((n / 16777216) % 256) as u8,
        ((n / 4294967296) % 256) as u8,
        ((n / 1099511627776) % 256) as u8,
        ((n / 281474976710656) % 256) as u8,
        ((n / 72057594037927936) % 256) as u8,
    ]
}

/// The number eight little-endian base-256 digits denote.
pub open spec fn le64_value(b: Seq<u8>) -> int
    recommends
        b.len() == 8,
{
    b[0] as int + 256 * (b[1] as int) + 65536 * (b[2] as int) + 16777216 * (b[3] as int)
        + 4294967296 * (b[4] as int) + 1099511627776 * (b[5] as int) + 281474976710656 * (
    b[6] as int) + 72057594037927936 * (b[7] as int)
}

/// The digits of a number denote it.
pub proof fn lemma_le64_value(n: u64)
    ensures
        le64_value(le64(n)) == n,
{
    assert(n % 256 + 256 * (n / 256 % 256) + 65536 * (n / 65536 % 256) + 16777216 * (n
        / 16777216 % 256) + 4294967296 * (n / 4294967296 % 256) + 1099511627776 * (n
        / 1099511627776 % 256) + 281474976710656 * (n / 281474976710656 % 256)
        + 72057594037927936 * (n / 72057594037927936 % 256) == n) by (bit_vector);
}

/// A length-prefixed string: the byte length of the UTF-8 encoding, then
/// the encoding itself.
#[verifier::opaque]
pub open spec fn spec_encode_str(s: Seq<char>) -> Seq<u8> {
    le64(encode_utf8(s).len() as u64) + encode_utf8(s)
}

/// The specification-level parser of one length-prefixed string: the
/// decoded characters and the unread remainder, or nothing when the input
/// is too short or not UTF-8.
pub open spec fn spec_decode_str(b: Seq<u8>) -> Option<(Seq<char>, Seq<u8>)> {
    if b.len() < 8 {
        None
    } else {
        let n = le64_value(b.subrange(0, 8));
        if n > b.len() - 8 {
            None
        } else if !valid_utf8(b.subrange(8, 8 + n)) {
            None
        } else {
            Some((decode_utf8(b.subrange(8, 8 + n)), b.skip(8 + n)))
        }
    }
}

/// Law: the string framing round-trips. A length-prefixed string followed
/// by anything parses back to exactly that string, leaving the rest.
pub proof fn lemma_decode_encode_str(s: Seq<char>, rest: Seq<u8>)
    requires
        encode_utf8(s).len() <= u64::MAX,
    ensures
        spec_decode_str(spec_encode_str(s) + rest) == Some((s, rest)),
{
    broadcast use vstd::utf8::encode_utf8_valid_utf8;
    broadcast use vstd::utf8::encode_utf8_decode_utf8;

    reveal(spec_encode_str);
    let eb = encode_utf8(s);
    let n = eb.len() as u64;
    let b = spec_encode_str(s) + rest;
    lemma_le64_value(n);
    assert(b.subrange(0, 8) =~= le64(n));
    assert(b.len() - 8 == eb.len() + rest.len());
    assert(b.subrange(8, 8 + eb.len() as int) =~= eb);
    assert(b.skip(8 + eb.len() as int) =~= rest);
}

/// Relies on String::from_utf8: bytes are accepted exactly when they are
/// valid UTF-8, and then decode to the characters they encode.
#[verifier::external_body]
fn string_from_utf8(bytes: Vec<u8>) -> (r: Option<String>)
    ensures
        (r matches Some(_)) <==> valid_utf8(bytes@),
        r matches Some(s) ==> s@ == decode_utf8(bytes@),
{
    String::from_utf8(bytes).ok()
}

/// Appends the eight little-endian digits of `n`.
fn write_u64(out: &mut Vec<u8>, n: u64)
    ensures
        final(out)@ == old(out)@ + le64(n),
{
    out.push((n % 256) as u8);
    out.push(((n / 256) % 256) as u8);
    out.push(((n / 65536) % 256) as u8);
    out.push(((n / 16777216) % 256) as u8);
    out.push(((n / 4294967296) % 256) as u8);
    out.push(((n / 1099511627776) % 256) as u8);
    out.push(((n / 281474976710656) % 256) as u8);
    out.push(((n / 72057594037927936) % 256) as u8);
    proof {
        assert(out@ =~= old(out)@ + le64(n));
    }
}

/// Reads the eight little-endian digits at `at`.
fn read_u64(bytes: &Vec<u8>, at: usize) -> (r: u64)
    requires
        at + 8 <= bytes@.len(),
    ensures
        r as int == le64_value(bytes@.subrange(at as int, at as int + 8)),
{
    let blen = bytes.len();
    let b0 = bytes[at] as u64;
    let b1 = bytes[at + 1] as u64;
    let b2 = bytes[at + 2] as u64;
    let b3 = bytes[at + 3] as u64;
    let b4 = bytes[at + 4] as u64;
    let b5 = bytes[at + 5] as u64;
    let b6 = bytes[at + 6] as u64;
    let b7 = bytes[at + 7] as u64;
    b0 + 256 * b1 + 65536 * b2 + 16777216 * b3 + 4294967296 * b4 + 1099511627776 * b5
        + 281474976710656 * b6 + 72057594037927936 * b7
}

/// Appends one length-prefixed string.
fn write_str(out: &mut Vec<u8>, s: &String)
    ensures
        final(out)@ == old(out)@ + spec_encode_str(s@),
{
    let mut body = s.as_str().as_bytes_vec();
    let n = body.len() as u64;
    write_u64(out, n);
    out.append(&mut body);
    proof {
        reveal(spec_encode_str);
        assert(out@ =~= old(out)@ + spec_encode_str(s@));
    }
}

/// Reads one length-prefixed string at `pos`, returning it with the
/// position just past it — exactly when the specification-level parser
/// accepts the remainder of the input.
fn read_str(bytes: &Vec<u8>, pos: usize) -> (r: Option<(String, usize)>)
    requires
        pos <= bytes@.len(),
    ensures
        match r {
            Some(parsed) => pos <= parsed.1 <= bytes@.len() && spec_decode_str(
                bytes@.skip(pos as int),
            ) == Some((parsed.0@, bytes@.skip(parsed.1 as int))),
            None => spec_decode_str(bytes@.skip(pos as int)) is None,
        },
{
    let len = bytes.len();
    proof {
        assert(bytes@.skip(pos as int).len() == len - pos);
    }
    if len - pos < 8 {
        return None;
    }
    let n = read_u64(bytes, pos);
    proof {
        assert(bytes@.skip(pos as int).subrange(0, 8) =~= bytes@.subrange(
            pos as int,
            pos as int + 8,
        ));
    }
    let rem = len - pos - 8;
    if n > rem as u64 {
        return None;
    }
    let n_us = n as usize;
    proof {
        assert(bytes@.skip(pos as int).subrange(8, 8 + n as int) =~= bytes@.subrange(
            pos as int + 8,
            pos as int + 8 + n as int,
        ));
        assert(bytes@.skip(pos as int).skip(8 + n as int) =~= bytes@.skip(
            pos as int + 8 + n as int,
        ));
    }
    let body_slice = slice_subrange(bytes.as_slice(), pos + 8, pos + 8 + n_us);
    let body = slice_to_vec(body_slice);
    match string_from_utf8(body) {
        Some(s) => Some((s, pos + 8 + n_us)),
        None => None,
    }
}

/// A confirmation notice as carried on the queue: the login value it
/// confirms and the URL to visit.
#[derive(Debug)]
pub struct ConfirmationMessage {
    pub login: String,
    pub url: String,
}

/// The framing of a confirmation notice: its two fields, each length
/// prefixed.
pub open spec fn spec_encode_confirmation(login: Seq<char>, url: Seq<char>) -> Seq<u8> {
    spec_encode_str(login) + spec_encode_str(url)
}

/// The specification-level parser of a confirmation notice; strict, with
/// nothing left over.
pub open spec fn spec_decode_confirmation(b: Seq<u8>) -> Option<(Seq<char>, Seq<char>)> {
    match spec_decode_str(b) {
        Some(first) => match spec_decode_str(first.1) {
            Some(second) => if second.1.len() == 0 {
                Some((first.0, second.0))
            } else {
                None
            },
            None => None,
        },
        None => None,
    }
}

/// Law: the confirmation framing round-trips: every notice parses back to
/// exactly its two fields.
pub proof fn lemma_confirmation_round_trip(login: Seq<char>, url: Seq<char>)
    requires
        encode_utf8(login).len() <= u64::MAX,
        encode_utf8(url).len() <= u64::MAX,
    ensures
        spec_decode_confirmation(spec_encode_confirmation(login, url)) == Some((login, url)),
{
    let b = spec_encode_confirmation(login, url);
    lemma_decode_encode_str(login, spec_encode_str(url));
    lemma_decode_encode_str(url, Seq::<u8>::empty());
    assert(spec_encode_str(url) + Seq::<u8>::empty() =~= spec_encode_str(url));
}

/// Frames a confirmation notice.
pub fn encode_confirmation(msg: &ConfirmationMessage) -> (r: Vec<u8>)
    ensures
        r@ == spec_encode_confirmation(msg.login@, msg.url@),
{
    let mut out: Vec<u8> = Vec::new();
    write_str(&mut out, &msg.login);
    write_str(&mut out, &msg.url);
    proof {
        assert(out@ =~= spec_encode_confirmation(msg.login@, msg.url@));
    }
    out
}

/// Parses a confirmation notice, accepting a byte string exactly when the
/// specification-level parser does.
pub fn decode_confirmation(bytes: &Vec<u8>) -> (r: Option<ConfirmationMessage>)
    ensures
        (r matches Some(_)) <==> (spec_decode_confirmation(bytes@) is Some),
        r matches Some(m) ==> spec_decode_confirmation(bytes@) == Some((m.login@, m.url@)),
{
    proof {
        assert(bytes@.skip(0) =~= bytes@);
    }
    let (login, p1) = match read_str(bytes, 0) {
        Some(x) => x,
        None => {
            return None;
        },
    };
    let (url, p2) = match read_str(bytes, p1) {
        Some(x) => x,
        None => {
            return None;
        },
    };
    if p2 != bytes.len() {
        return None;
    }
    Some(ConfirmationMessage { login, url })
}

/// The fields of a product record, as character sequences: code, name,
/// category.
pub open spec fn product_model(p: NewProduct) -> (Seq<char>, Seq<char>, Seq<char>) {
    (p.code@, p.name@, p.category@)
}

/// The records of a batch, as character sequences.
pub open spec fn batch_model(ps: Seq<NewProduct>) -> Seq<(Seq<char>, Seq<char>, Seq<char>)> {
    ps.map_values(|p: NewProduct| product_model(p))
}

/// The framing of one product record: its three fields, each length
/// prefixed.
pub open spec fn spec_encode_product(m: (Seq<char>, Seq<char>, Seq<char>)) -> Seq<u8> {
    spec_encode_str(m.0) + spec_encode_str(m.1) + spec_encode_str(m.2)
}

/// The framing of a run of product records.
pub open spec fn spec_encode_products(ms: Seq<(Seq<char>, Seq<char>, Seq<char>)>) -> Seq<u8>
    decreases ms.len(),
{
    if ms.len() == 0 {
        Seq::<u8>::empty()
    } else {
        spec_encode_product(ms[0]) + spec_encode_products(ms.drop_first())
    }
}

/// The framing of a batch: its record count, then its records.
pub open spec fn spec_encode_batch(ms: Seq<(Seq<char>, Seq<char>, Seq<char>)>) -> Seq<u8> {
    le64(ms.len() as u64) + spec_encode_products(ms)
}

/// Appending a record to a run extends its framing at the end.
#[verifier::rlimit(100)]
proof fn lemma_encode_products_push(
    ms: Seq<(Seq<char>, Seq<char>, Seq<char>)>,
    m: (Seq<char>, Seq<char>, Seq<char>),
)
    ensures
        spec_encode_products(ms.push(m)) == spec_encode_products(ms) + spec_encode_product(m),
    decreases ms.len(),
{
    let head = spec_encode_product(ms.push(m)[0]);
    let last = spec_encode_product(m);
    if ms.len() == 0 {
        assert(ms.push(m).drop_first() =~= Seq::<(Seq<char>, Seq<char>, Seq<char>)>::empty());
        assert(spec_encode_products(Seq::<(Seq<char>, Seq<char>, Seq<char>)>::empty())
            == Seq::<u8>::empty());
        assert(spec_encode_products(ms.push(m)) == last + Seq::<u8>::empty());
        assert(last + Seq::<u8>::empty() =~= last);
        assert(spec_encode_products(ms) + last =~= last);
    } else {
        let mid = spec_encode_products(ms.drop_first());
        assert(ms.push(m).drop_first() =~= ms.drop_first().push(m));
        lemma_encode_products_push(ms.drop_first(), m);
        assert(ms.push(m)[0] == ms[0]);
        assert(spec_encode_products(ms.push(m)) == head + (mid + last));
        vstd::seq_lib::lemma_concat_associative(head, mid, last);
        assert(spec_encode_products(ms) == head + mid);
    }
}

/// The specification-level parser of `count` consecutive records: the
/// records and the unread remainder.
pub open spec fn spec_decode_products(b: Seq<u8>, count: nat) -> Option<
    (Seq<(Seq<char>, Seq<char>, Seq<char>)>, Seq<u8>),
>
    decreases count,
{
    if count == 0 {
        Some((Seq::empty(), b))
    } else {
        match spec_decode_str(b) {
            Some(first) => match spec_decode_str(first.1) {
                Some(second) => match spec_decode_str(second.1) {
                    Some(third) => match spec_decode_products(third.1, (count - 1) as nat) {
                        Some(more) => Some(
                            (seq![(first.0, second.0, third.0)] + more.0, more.1),
                        ),
                        None => None,
                    },
                    None => None,
                },
                None => None,
            },
            None => None,
        }
    }
}

/// The specification-level parser of a batch; strict, with nothing left
/// over.
pub open spec fn spec_decode_batch(b: Seq<u8>) -> Option<
    Seq<(Seq<char>, Seq<char>, Seq<char>)>,
> {
    if b.len() < 8 {
        None
    } else {
        let count = le64_value(b.subrange(0, 8));
        match spec_decode_products(b.skip(8), count as nat) {
            Some(parsed) => if parsed.1.len() == 0 {
                Some(parsed.0)
            } else {
                None
            },
            None => None,
        }
    }
}

/// Frames a batch of product records.
pub fn encode_batch(ps: &Vec<NewProduct>) -> (r: Vec<u8>)
    ensures
        r@ == spec_encode_batch(batch_model(ps@)),
{
    let mut out: Vec<u8> = Vec::new();
    write_u64(&mut out, ps.len() as u64);
    proof {
        assert(batch_model(ps@).len() == ps@.len());
        assert(spec_encode_products(batch_model(ps@).take(0)) =~= Seq::<u8>::empty());
        assert(out@ =~= le64(ps@.len() as u64) + spec_encode_products(batch_model(ps@).take(0)));
    }
    let mut i: usize = 0;
    while i < ps.len()
        invariant
            0 <= i <= ps@.len(),
            out@ == le64(ps@.len() as u64) + spec_encode_products(batch_model(ps@).take(i as int)),
        decreases ps@.len() - i,
    {
        let p = &ps[i];
        write_str(&mut out, &p.code);
        write_str(&mut out, &p.name);
        write_str(&mut out, &p.category);
        proof {
            let ms = batch_model(ps@);
            assert(ms.take((i + 1) as int) =~= ms.take(i as int).push(ms[i as int]));
            lemma_encode_products_push(ms.take(i as int), ms[i as int]);
            assert(spec_encode_product(ms[i as int]) == spec_encode_str(ps@[i as int].code@)
                + spec_encode_str(ps@[i as int].name@) + spec_encode_str(ps@[i as int].category@));
            assert(out@ =~= le64(ps@.len() as u64) + spec_encode_products(
                ms.take((i + 1) as int),
            ));
        }
        i = i + 1;
    }
    proof {
        assert(batch_model(ps@).take(ps@.len() as int) =~= batch_model(ps@));
    }
    out
}

/// Parses a batch of product records, accepting a byte string exactly
/// when the specification-level parser does.
pub fn decode_batch(bytes: &Vec<u8>) -> (r: Option<Vec<NewProduct>>)
    ensures
        (r matches Some(_)) <==> (spec_decode_batch(bytes@) is Some),
        r matches Some(ps) ==> spec_decode_batch(bytes@) == Some(batch_model(ps@)),
{
    let len = bytes.len();
    if len < 8 {
        return None;
    }
    let count = read_u64(bytes, 0);
    proof {
        assert(bytes@.subrange(0, 8) =~= bytes@.subrange(0int, 0int + 8));
    }
    let mut out: Vec<NewProduct> = Vec::new();
    let mut pos: usize = 8;
    let mut i: u64 = 0;
    proof {
        assert(batch_model(out@) =~= Seq::<(Seq<char>, Seq<char>, Seq<char>)>::empty());
        assert(batch_model(out@) + spec_decode_products(bytes@.skip(8), (count - i) as nat)->Some_0.0
            =~= spec_decode_products(bytes@.skip(8), (count - i) as nat)->Some_0.0);
    }
    while i < count
        invariant
            0 <= i <= count,
            8 <= pos <= bytes@.len(),
            count as int == le64_value(bytes@.subrange(0, 8)),
            batch_model(out@).len() == i,
            match spec_decode_products(bytes@.skip(pos as int), (count - i) as nat) {
                Some(more) => spec_decode_products(bytes@.skip(8), count as nat) == Some(
                    (batch_model(out@) + more.0, more.1),
                ),
                None => spec_decode_products(bytes@.skip(8), count as nat) is None,
            },
        decreases count - i,
    {
        let ghost pos0 = pos as int;
        let ghost remaining = (count - i) as nat;
        let (code, p1) = match read_str(bytes, pos) {
            Some(x) => x,
            None => {
                return None;
            },
        };
        let (name, p2) = match read_str(bytes, p1) {
            Some(x) => x,
            None => {
                proof {
                    assert(spec_decode_products(bytes@.skip(pos0), remaining) is None);
                }
                return None;
            },
        };
        let (category, p3) = match read_str(bytes, p2) {
            Some(x) => x,
            None => {
                proof {
                    assert(spec_decode_products(bytes@.skip(pos0), remaining) is None);
                }
                return None;
            },
        };
        let ghost out_before = out@;
        let record = NewProduct { name, code, category };
        let ghost model = product_model(record);
        out.push(record);
        pos = p3;
        i = i + 1;
        proof {
            assert(batch_model(out@) =~= batch_model(out_before).push(model));
            let tail = spec_decode_products(bytes@.skip(pos as int), (count - i) as nat);
            match tail {
                Some(more) => {
                    assert(spec_decode_products(bytes@.skip(pos0), remaining) == Some(
                        (seq![model] + more.0, more.1),
                    ));
                    assert(batch_model(out_before) + (seq![model] + more.0) =~= batch_model(out@)
                        + more.0);
                },
                None => {},
            }
        }
    }
    proof {
        assert(spec_decode_products(bytes@.skip(pos as int), 0) == Some(
            (Seq::<(Seq<char>, Seq<char>, Seq<char>)>::empty(), bytes@.skip(pos as int)),
        ));
        assert(batch_model(out@) + Seq::<(Seq<char>, Seq<char>, Seq<char>)>::empty()
            =~= batch_model(out@));
    }
    if pos != len {
        return None;
    }
    Some(out)
}

/// Law: the batch framing round-trips. A run of records followed by
/// anything parses back to exactly those records, leaving the rest.
#[verifier::rlimit(100)]
proof fn lemma_decode_encode_products(ms: Seq<(Seq<char>, Seq<char>, Seq<char>)>, rest: Seq<u8>)
    requires
        forall|k: int|
            0 <= k < ms.len() ==> encode_utf8(#[trigger] ms[k].0).len() <= u64::MAX && encode_utf8(
                ms[k].1,
            ).len() <= u64::MAX && encode_utf8(ms[k].2).len() <= u64::MAX,
    ensures
        spec_decode_products(spec_encode_products(ms) + rest, ms.len() as nat) == Some(
            (ms, rest),
        ),
    decreases ms.len(),
{
    if ms.len() == 0 {
        assert(spec_encode_products(ms) + rest =~= rest);
        assert(ms =~= Seq::<(Seq<char>, Seq<char>, Seq<char>)>::empty());
    } else {
        let m = ms[0];
        let tail = ms.drop_first();
        let fa = spec_encode_str(m.0);
        let fb = spec_encode_str(m.1);
        let fc = spec_encode_str(m.2);
        let ft = spec_encode_products(tail);
        let b = spec_encode_products(ms) + rest;
        assert(spec_encode_products(ms) == ((fa + fb) + fc) + ft);
        vstd::seq_lib::lemma_concat_associative((fa + fb) + fc, ft, rest);
        vstd::seq_lib::lemma_concat_associative(fa + fb, fc, ft + rest);
        vstd::seq_lib::lemma_concat_associative(fa, fb, fc + (ft + rest));
        assert(b == fa + (fb + (fc + (ft + rest))));
        lemma_decode_encode_str(m.0, fb + (fc + (ft + rest)));
        lemma_decode_encode_str(m.1, fc + (ft + rest));
        lemma_decode_encode_str(m.2, ft + rest);
        assert(forall|k: int|
            0 <= k < tail.len() ==> encode_utf8(#[trigger] tail[k].0).len() <= u64::MAX
                && encode_utf8(tail[k].1).len() <= u64::MAX && encode_utf8(tail[k].2).len()
                <= u64::MAX);
        lemma_decode_encode_products(tail, rest);
        assert(seq![m] + tail =~= ms);
        assert(spec_decode_products(b, ms.len() as nat) == Some((seq![m] + tail, rest)));
    }
}

/// Law: a framed batch parses back to exactly its records.
pub proof fn lemma_batch_round_trip(ms: Seq<(Seq<char>, Seq<char>, Seq<char>)>)
    requires
        ms.len() <= u64::MAX,
        forall|k: int|
            0 <= k < ms.len() ==> encode_utf8(#[trigger] ms[k].0).len() <= u64::MAX && encode_utf8(
                ms[k].1,
            ).len() <= u64::MAX && encode_utf8(ms[k].2).len() <= u64::MAX,
    ensures
        spec_decode_batch(spec_encode_batch(ms)) == Some(ms),
{
    let b = spec_encode_batch(ms);
    let n = ms.len() as u64;
    lemma_le64_value(n);
    assert(b.subrange(0, 8) =~= le64(n));
    assert(b.skip(8) =~= spec_encode_products(ms) + Seq::<u8>::empty());
    lemma_decode_encode_products(ms, Seq::<u8>::empty());
}

} // verus!
