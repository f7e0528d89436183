//! The canonical byte encoding of a record snapshot.
//!
//! A snapshot is the records in order, each record its three fields in
//! order, each field its UTF-8 bytes prefixed by their count as eight
//! little-endian bytes. The encoding is canonical: decoding accepts exactly
//! the encodings, consumes the whole input, and returns the one snapshot
//! the input encodes — so restore is the exact inverse of backup.

use vstd::prelude::*;

use vstd::utf8::{
    decode_utf8, decode_utf8_encode_utf8, encode_utf8, encode_utf8_decode_utf8,
    encode_utf8_valid_utf8, valid_utf8,
};

use crate::records::Record;

verus! {

/// The eight little-endian bytes of a length.
pub open spec fn spec_le64(n: u64) -> Seq<u8> {
    seq![
        (n & 0xff) as u8,
        ((n >> 8) & 0xff) as u8,
        ((n >> 16) & 0xff) as u8,
        ((n >> 24) & 0xff) as u8,
        ((n >> 32) & 0xff) as u8,
        ((n >> 40) & 0xff) as u8,
        ((n >> 48) & 0xff) as u8,
        ((n >> 56) & 0xff) as u8,
    ]
}

/// The length an eight-byte little-endian prefix carries.
pub open spec fn spec_le64_val(s: Seq<u8>) -> u64
    recommends
        s.len() == 8,
{
    (s[0] as u64) | ((s[1] as u64) << 8) | ((s[2] as u64) << 16) | ((s[3] as u64) << 24) | ((
    s[4] as u64) << 32) | ((s[5] as u64) << 40) | ((s[6] as u64) << 48) | ((s[7] as u64) << 56)
}

/// Reading back the eight bytes of a length yields the length.
pub proof fn lemma_le64_val_of_le64(n: u64)
    ensures
        spec_le64_val(spec_le64(n)) == n,
{
    assert((((n & 0xff) as u8) as u64) | ((((n >> 8) & 0xff) as u8) as u64) << 8 | ((((n >> 16)
        & 0xff) as u8) as u64) << 16 | ((((n >> 24) & 0xff) as u8) as u64) << 24 | ((((n >> 32)
        & 0xff) as u8) as u64) << 32 | ((((n >> 40) & 0xff) as u8) as u64) << 40 | ((((n >> 48)
        & 0xff) as u8) as u64) << 48 | ((((n >> 56) & 0xff) as u8) as u64) << 56 == n)
        by (bit_vector);
}

/// Eight bytes are exactly the little-endian form of the length they carry.
pub proof fn lemma_le64_of_le64_val(s: Seq<u8>)
    requires
        s.len() == 8,
    ensures
        spec_le64(spec_le64_val(s)) =~= s,
{
    let b0 = s[0];
    let b1 = s[1];
    let b2 = s[2];
    let b3 = s[3];
    let b4 = s[4];
    let b5 = s[5];
    let b6 = s[6];
    let b7 = s[7];
    let n = spec_le64_val(s);
    assert(n == (b0 as u64) | ((b1 as u64) << 8) | ((b2 as u64) << 16) | ((b3 as u64) << 24) | ((
    b4 as u64) << 32) | ((b5 as u64) << 40) | ((b6 as u64) << 48) | ((b7 as u64) << 56));
    assert((n & 0xff) as u8 == b0 && ((n >> 8) & 0xff) as u8 == b1 && ((n >> 16) & 0xff) as u8 == b2
        && ((n >> 24) & 0xff) as u8 == b3 && ((n >> 32) & 0xff) as u8 == b4 && ((n >> 40)
        & 0xff) as u8 == b5 && ((n >> 48) & 0xff) as u8 == b6 && ((n >> 56) & 0xff) as u8 == b7)
        by (bit_vector)
        requires
            n == (b0 as u64) | ((b1 as u64) << 8) | ((b2 as u64) << 16) | ((b3 as u64) << 24) | ((
            b4 as u64) << 32) | ((b5 as u64) << 40) | ((b6 as u64) << 48) | ((b7 as u64) << 56),
    ;
}

/// Append the eight little-endian bytes of `n`.
fn push_le64(out: &mut Vec<u8>, n: u64)
    ensures
        final(out)@ == old(out)@ + spec_le64(n),
{
    out.push((n & 0xff) as u8);
    out.push(((n >> 8) & 0xff) as u8);
    out.push(((n >> 16) & 0xff) as u8);
    out.push(((n >> 24) & 0xff) as u8);
    out.push(((n >> 32) & 0xff) as u8);
    out.push(((n >> 40) & 0xff) as u8);
    out.push(((n >> 48) & 0xff) as u8);
    out.push(((n >> 56) & 0xff) as u8);
    proof {
        assert(out@ =~= old(out)@ + spec_le64(n));
    }
}

/// Read the eight little-endian bytes at `pos`.
fn read_le64(data: &[u8], pos: usize) -> (r: u64)
    requires
        pos + 8 <= data@.len(),
    ensures
        spec_le64(r) =~= data@.subrange(pos as int, pos as int + 8),
{
    let b0 = data[pos];
    let b1 = data[pos + 1];
    let b2 = data[pos + 2];
    let b3 = data[pos + 3];
    let b4 = data[pos + 4];
    let b5 = data[pos + 5];
    let b6 = data[pos + 6];
    let b7 = data[pos + 7];
    let n = (b0 as u64) | ((b1 as u64) << 8) | ((b2 as u64) << 16) | ((b3 as u64) << 24) | ((
    b4 as u64) << 32) | ((b5 as u64) << 40) | ((b6 as u64) << 48) | ((b7 as u64) << 56);
    proof {
        assert((n & 0xff) as u8 == b0 && ((n >> 8) & 0xff) as u8 == b1 && ((n >> 16)
            & 0xff) as u8 == b2 && ((n >> 24) & 0xff) as u8 == b3 && ((n >> 32) & 0xff) as u8 == b4
            && ((n >> 40) & 0xff) as u8 == b5 && ((n >> 48) & 0xff) as u8 == b6 && ((n >> 56)
            & 0xff) as u8 == b7) by (bit_vector)
            requires
                n == (b0 as u64) | ((b1 as u64) << 8) | ((b2 as u64) << 16) | ((b3 as u64) << 24)
                    | ((b4 as u64) << 32) | ((b5 as u64) << 40) | ((b6 as u64) << 48) | ((
                b7 as u64) << 56),
        ;
        assert(spec_le64(n) =~= data@.subrange(pos as int, pos as int + 8));
    }
    n
}

/// Relies on String::from_utf8: it succeeds exactly on valid UTF-8 and
/// returns its decoding.
#[verifier::external_body]
pub(crate) fn bytes_to_string(bytes: Vec<u8>) -> (r: Result<String, ()>)
    ensures
        r matches Ok(s) ==> valid_utf8(bytes@) && s@ == decode_utf8(bytes@),
        r is Err ==> !valid_utf8(bytes@),
{
    String::from_utf8(bytes).map_err(|_| ())
}

/// Does the field's UTF-8 form fit behind an eight-byte length prefix?
pub open spec fn field_fits(v: Seq<char>) -> bool {
    encode_utf8(v).len() <= u64::MAX
}

/// One encoded field: the byte count, then the bytes.
pub open spec fn spec_encode_field(v: Seq<char>) -> Seq<u8> {
    spec_le64(encode_utf8(v).len() as u64) + encode_utf8(v)
}

/// Parse one field at `pos`: the declared count of bytes must be present
/// and be valid UTF-8.
pub open spec fn spec_parse_field(data: Seq<u8>, pos: int) -> Option<(Seq<char>, int)> {
    if 0 <= pos && pos + 8 <= data.len() {
        let n = spec_le64_val(data.subrange(pos, pos + 8)) as int;
        if pos + 8 + n <= data.len() {
            let bytes = data.subrange(pos + 8, pos + 8 + n);
            if valid_utf8(bytes) {
                Some((decode_utf8(bytes), pos + 8 + n))
            } else {
                None
            }
        } else {
            None
        }
    } else {
        None
    }
}

/// Parsing at the start of an encoded field yields the field and stops
/// right behind it.
pub proof fn lemma_parse_field_of_encode(data: Seq<u8>, pos: int, v: Seq<char>)
    requires
        field_fits(v),
        0 <= pos,
        pos + spec_encode_field(v).len() <= data.len(),
        data.subrange(pos, pos + spec_encode_field(v).len() as int) == spec_encode_field(v),
    ensures
        spec_parse_field(data, pos) == Some((v, pos + spec_encode_field(v).len() as int)),
{
    let bytes = encode_utf8(v);
    let n = bytes.len() as u64;
    let enc = spec_encode_field(v);
    assert(enc.len() == 8 + bytes.len());
    assert(data.subrange(pos, pos + 8) =~= enc.subrange(0, 8));
    assert(enc.subrange(0, 8) =~= spec_le64(n));
    lemma_le64_val_of_le64(n);
    assert(data.subrange(pos + 8, pos + 8 + n as int) =~= enc.subrange(8, enc.len() as int));
    assert(enc.subrange(8, enc.len() as int) =~= bytes);
    encode_utf8_valid_utf8(v);
    encode_utf8_decode_utf8(v);
}

/// A successful field parse saw exactly one encoded field.
pub proof fn lemma_parse_field_sound(data: Seq<u8>, pos: int)
    requires
        spec_parse_field(data, pos) is Some,
    ensures
        spec_parse_field(data, pos) matches Some((v, p2)) ==> {
            &&& pos + 8 <= p2 <= data.len()
            &&& field_fits(v)
            &&& data.subrange(pos, p2) == spec_encode_field(v)
        },
{
    let (v, p2) = spec_parse_field(data, pos)->Some_0;
    let n = spec_le64_val(data.subrange(pos, pos + 8)) as int;
    let bytes = data.subrange(pos + 8, pos + 8 + n);
    decode_utf8_encode_utf8(bytes);
    assert(encode_utf8(v) == bytes);
    lemma_le64_of_le64_val(data.subrange(pos, pos + 8));
    assert(data.subrange(pos, p2) =~= spec_le64(n as u64) + bytes);
}

/// Append one encoded field.
fn push_field(out: &mut Vec<u8>, s: &str)
    ensures
        final(out)@ == old(out)@ + spec_encode_field(s@),
        field_fits(s@),
{
    let bytes = s.as_bytes();
    push_le64(out, bytes.len() as u64);
    out.extend_from_slice(bytes);
    proof {
        assert(out@ =~= old(out)@ + spec_encode_field(s@));
    }
}

/// Read one encoded field at `pos`.
fn read_field(data: &[u8], pos: usize) -> (r: Option<(String, usize)>)
    requires
        pos <= data@.len(),
    ensures
        r matches Some((s, p2)) ==> spec_parse_field(data@, pos as int) == Some((s@, p2 as int))
            && pos < p2 <= data@.len(),
        r is None ==> spec_parse_field(data@, pos as int) is None,
{
    if data.len() - pos < 8 {
        return None;
    }
    let n = read_le64(data, pos);
    proof {
        lemma_le64_val_of_le64(n);
        assert(spec_le64_val(data@.subrange(pos as int, pos as int + 8)) == n);
    }
    let start = pos + 8;
    let rem = data.len() - start;
    if n > rem as u64 {
        return None;
    }
    let len = n as usize;
    let mut bytes: Vec<u8> = Vec::new();
    bytes.extend_from_slice(&data[start..start + len]);
    proof {
        assert(bytes@ =~= data@.subrange(start as int, start as int + len as int));
    }
    match bytes_to_string(bytes) {
        Ok(s) => Some((s, start + len)),
        Err(_) => None,
    }
}

/// The three field views of a record: id, title, payload.
pub open spec fn rec_view(r: Record) -> (Seq<char>, Seq<char>, Seq<char>) {
    (r.id@, r.title@, r.encrypted_data@)
}

/// The field views of a whole snapshot.
pub open spec fn views(s: Seq<Record>) -> Seq<(Seq<char>, Seq<char>, Seq<char>)> {
    Seq::new(s.len(), |i: int| rec_view(s[i]))
}

/// Do all three fields fit behind their length prefixes?
pub open spec fn rec_fits(v: (Seq<char>, Seq<char>, Seq<char>)) -> bool {
    field_fits(v.0) && field_fits(v.1) && field_fits(v.2)
}

/// One encoded record: its three fields in order.
pub open spec fn spec_encode_record(v: (Seq<char>, Seq<char>, Seq<char>)) -> Seq<u8> {
    spec_encode_field(v.0) + spec_encode_field(v.1) + spec_encode_field(v.2)
}

/// Parse one record at `pos`: three fields in order.
pub open spec fn spec_parse_record(data: Seq<u8>, pos: int) -> Option<
    ((Seq<char>, Seq<char>, Seq<char>), int),
> {
    match spec_parse_field(data, pos) {
        None => None,
        Some((id, p1)) => match spec_parse_field(data, p1) {
            None => None,
            Some((title, p2)) => match spec_parse_field(data, p2) {
                None => None,
                Some((payload, p3)) => Some(((id, title, payload), p3)),
            },
        },
    }
}

/// If `data` carries `whole` at `pos` and `whole` carries `part` at `off`,
/// then `data` carries `part` at `pos + off`.
proof fn lemma_chunk(data: Seq<u8>, pos: int, whole: Seq<u8>, off: int, part: Seq<u8>)
    requires
        0 <= pos,
        pos + whole.len() <= data.len(),
        data.subrange(pos, pos + whole.len() as int) == whole,
        0 <= off,
        off + part.len() <= whole.len(),
        whole.subrange(off, off + part.len() as int) == part,
    ensures
        data.subrange(pos + off, pos + off + part.len() as int) == part,
{
    assert(data.subrange(pos + off, pos + off + part.len() as int) =~= part) by {
        assert forall|k: int| 0 <= k < part.len() implies data[pos + off + k] == part[k] by {
            assert(data.subrange(pos, pos + whole.len() as int)[off + k] == whole[off + k]);
            assert(whole.subrange(off, off + part.len() as int)[k] == part[k]);
        }
    }
}

/// Parsing at the start of an encoded record yields the record and stops
/// right behind it.
pub proof fn lemma_parse_record_of_encode(
    data: Seq<u8>,
    pos: int,
    v: (Seq<char>, Seq<char>, Seq<char>),
)
    requires
        rec_fits(v),
        0 <= pos,
        pos + spec_encode_record(v).len() <= data.len(),
        data.subrange(pos, pos + spec_encode_record(v).len() as int) == spec_encode_record(v),
    ensures
        spec_parse_record(data, pos) == Some((v, pos + spec_encode_record(v).len() as int)),
{
    let a = spec_encode_field(v.0);
    let b = spec_encode_field(v.1);
    let c = spec_encode_field(v.2);
    let enc = spec_encode_record(v);
    let p1 = pos + a.len() as int;
    let p2 = p1 + b.len() as int;
    let p3 = p2 + c.len() as int;
    assert(enc.subrange(0, a.len() as int) =~= a);
    assert(enc.subrange(a.len() as int, (a.len() + b.len()) as int) =~= b);
    assert(enc.subrange((a.len() + b.len()) as int, enc.len() as int) =~= c);
    lemma_chunk(data, pos, enc, 0, a);
    lemma_chunk(data, pos, enc, a.len() as int, b);
    lemma_chunk(data, pos, enc, (a.len() + b.len()) as int, c);
    lemma_parse_field_of_encode(data, pos, v.0);
    lemma_parse_field_of_encode(data, p1, v.1);
    lemma_parse_field_of_encode(data, p2, v.2);
}

/// A successful record parse saw exactly one encoded record.
pub proof fn lemma_parse_record_sound(data: Seq<u8>, pos: int)
    requires
        spec_parse_record(data, pos) is Some,
    ensures
        spec_parse_record(data, pos) matches Some((v, p2)) ==> {
            &&& pos + 24 <= p2 <= data.len()
            &&& rec_fits(v)
            &&& data.subrange(pos, p2) == spec_encode_record(v)
        },
{
    let (id, p1) = spec_parse_field(data, pos)->Some_0;
    lemma_parse_field_sound(data, pos);
    let (title, q2) = spec_parse_field(data, p1)->Some_0;
    lemma_parse_field_sound(data, p1);
    let (payload, p3) = spec_parse_field(data, q2)->Some_0;
    lemma_parse_field_sound(data, q2);
    assert(data.subrange(pos, p3) =~= data.subrange(pos, p1) + data.subrange(p1, q2)
        + data.subrange(q2, p3));
}

/// Append one encoded record.
fn push_record(out: &mut Vec<u8>, r: &Record)
    ensures
        final(out)@ == old(out)@ + spec_encode_record(rec_view(*r)),
        rec_fits(rec_view(*r)),
{
    push_field(out, r.id.as_str());
    push_field(out, r.title.as_str());
    push_field(out, r.encrypted_data.as_str());
    proof {
        assert(out@ =~= old(out)@ + spec_encode_record(rec_view(*r)));
    }
}

/// Read one encoded record at `pos`.
fn read_record(data: &[u8], pos: usize) -> (r: Option<(Record, usize)>)
    requires
        pos <= data@.len(),
    ensures
        r matches Some((rec, p2)) ==> spec_parse_record(data@, pos as int) == Some(
            (rec_view(rec), p2 as int),
        ) && pos < p2 <= data@.len(),
        r is None ==> spec_parse_record(data@, pos as int) is None,
{
    let (id, p1) = match read_field(data, pos) {
        Some(x) => x,
        None => {
            return None;
        },
    };
    let (title, p2) = match read_field(data, p1) {
        Some(x) => x,
        None => {
            return None;
        },
    };
    let (payload, p3) = match read_field(data, p2) {
        Some(x) => x,
        None => {
            return None;
        },
    };
    Some((Record { id, title, encrypted_data: payload }, p3))
}

/// An encoded snapshot: the records in order, nothing else.
pub open spec fn spec_encode_list(vs: Seq<(Seq<char>, Seq<char>, Seq<char>)>) -> Seq<u8>
    decreases vs.len(),
{
    if vs.len() == 0 {
        Seq::empty()
    } else {
        spec_encode_record(vs[0]) + spec_encode_list(vs.drop_first())
    }
}

/// Do all records of the snapshot fit their length prefixes?
pub open spec fn list_fits(vs: Seq<(Seq<char>, Seq<char>, Seq<char>)>) -> bool {
    forall|i: int| 0 <= i < vs.len() ==> rec_fits(#[trigger] vs[i])
}

/// Appending one record to a snapshot appends its encoding.
pub proof fn lemma_encode_list_push(
    vs: Seq<(Seq<char>, Seq<char>, Seq<char>)>,
    x: (Seq<char>, Seq<char>, Seq<char>),
)
    ensures
        spec_encode_list(vs.push(x)) =~= spec_encode_list(vs) + spec_encode_record(x),
    decreases vs.len(),
{
    assert(spec_encode_list(vs.push(x)) == spec_encode_record(vs.push(x)[0]) + spec_encode_list(
        vs.push(x).drop_first(),
    ));
    if vs.len() == 0 {
        assert(vs.push(x).drop_first() =~= Seq::empty());
        assert(vs.push(x)[0] == x);
        assert(spec_encode_list(vs.push(x).drop_first()) =~= Seq::empty());
    } else {
        assert(vs.push(x).drop_first() =~= vs.drop_first().push(x));
        assert(vs.push(x)[0] == vs[0]);
        lemma_encode_list_push(vs.drop_first(), x);
        assert(spec_encode_record(vs[0]) + (spec_encode_list(vs.drop_first())
            + spec_encode_record(x)) =~= (spec_encode_record(vs[0]) + spec_encode_list(
            vs.drop_first(),
        )) + spec_encode_record(x));
    }
}

/// Parse a snapshot: records until the end of input, which must land
/// exactly on the end.
pub open spec fn spec_parse_list(data: Seq<u8>, pos: int) -> Option<
    Seq<(Seq<char>, Seq<char>, Seq<char>)>,
>
    decreases data.len() - pos,
    when 0 <= pos <= data.len()
{
    if pos == data.len() {
        Some(Seq::empty())
    } else {
        match spec_parse_record(data, pos) {
            None => None,
            Some((v, p2)) => if pos < p2 <= data.len() {
                match spec_parse_list(data, p2) {
                    None => None,
                    Some(rest) => Some(seq![v] + rest),
                }
            } else {
                None
            },
        }
    }
}

/// Law: parsing inverts encoding — the bytes of an encoded snapshot parse
/// back to exactly that snapshot.
pub proof fn lemma_parse_of_encode_list(
    data: Seq<u8>,
    pos: int,
    vs: Seq<(Seq<char>, Seq<char>, Seq<char>)>,
)
    requires
        list_fits(vs),
        0 <= pos <= data.len(),
        data.subrange(pos, data.len() as int) == spec_encode_list(vs),
    ensures
        spec_parse_list(data, pos) == Some(vs),
    decreases vs.len(),
{
    if vs.len() == 0 {
        assert(pos == data.len());
        assert(spec_parse_list(data, pos) == Some(Seq::<(Seq<char>, Seq<char>, Seq<char>)>::empty()));
        assert(Seq::<(Seq<char>, Seq<char>, Seq<char>)>::empty() =~= vs);
    } else {
        let r0 = spec_encode_record(vs[0]);
        let p2 = pos + r0.len() as int;
        assert(data.subrange(pos, data.len() as int).len() == spec_encode_list(vs).len());
        assert(p2 <= data.len());
        let whole = spec_encode_list(vs);
        let rest = spec_encode_list(vs.drop_first());
        assert(whole == r0 + rest);
        assert(whole.subrange(0, r0.len() as int) =~= r0);
        assert(whole.subrange(r0.len() as int, whole.len() as int) =~= rest);
        lemma_chunk(data, pos, whole, 0, r0);
        lemma_chunk(data, pos, whole, r0.len() as int, rest);
        lemma_parse_record_of_encode(data, pos, vs[0]);
        assert(r0.len() >= 24) by {
            assert(spec_encode_field(vs[0].0).len() >= 8);
            assert(spec_encode_field(vs[0].1).len() >= 8);
            assert(spec_encode_field(vs[0].2).len() >= 8);
        }
        assert(data.subrange(p2, data.len() as int) == rest);
        assert(list_fits(vs.drop_first())) by {
            assert(forall|i: int| 0 <= i < vs.drop_first().len() ==> #[trigger] vs.drop_first()[i]
                == vs[i + 1]);
        }
        lemma_parse_of_encode_list(data, p2, vs.drop_first());
        assert(seq![vs[0]] + vs.drop_first() =~= vs);
    }
}

/// Law: encoding inverts parsing — a snapshot parsed out of bytes encodes
/// back to exactly those bytes, so only canonical encodings are accepted.
pub proof fn lemma_encode_of_parse_list(data: Seq<u8>, pos: int)
    requires
        0 <= pos <= data.len(),
        spec_parse_list(data, pos) is Some,
    ensures
        spec_parse_list(data, pos) matches Some(vs) ==> {
            &&& list_fits(vs)
            &&& data.subrange(pos, data.len() as int) == spec_encode_list(vs)
        },
    decreases data.len() - pos,
{
    let vs = spec_parse_list(data, pos)->Some_0;
    if pos == data.len() {
        assert(data.subrange(pos, data.len() as int) =~= spec_encode_list(vs));
    } else {
        let (v, p2) = spec_parse_record(data, pos)->Some_0;
        lemma_parse_record_sound(data, pos);
        lemma_encode_of_parse_list(data, p2);
        let rest = spec_parse_list(data, p2)->Some_0;
        assert(vs == seq![v] + rest);
        assert(vs[0] == v);
        assert(vs.drop_first() =~= rest);
        assert(data.subrange(pos, data.len() as int) =~= data.subrange(pos, p2) + data.subrange(
            p2,
            data.len() as int,
        ));
        assert(forall|i: int| 0 <= i < vs.len() ==> rec_fits(#[trigger] vs[i])) by {
            assert(forall|i: int| 1 <= i < vs.len() ==> vs[i] == rest[i - 1]);
        }
    }
}

/// Serialize a snapshot to its canonical byte encoding.
pub fn encode_records(records: &Vec<Record>) -> (r: Vec<u8>)
    ensures
        r@ == spec_encode_list(views(records@)),
        list_fits(views(records@)),
{
    let ghost vs = views(records@);
    let mut out: Vec<u8> = Vec::new();
    let mut i: usize = 0;
    proof {
        assert(vs.take(0) =~= Seq::empty());
    }
    while i < records.len()
        invariant
            i <= records@.len(),
            vs == views(records@),
            out@ == spec_encode_list(vs.take(i as int)),
            list_fits(vs.take(i as int)),
        decreases records@.len() - i,
    {
        push_record(&mut out, &records[i]);
        proof {
            assert(vs.take(i as int).push(vs[i as int]) =~= vs.take(i + 1));
            lemma_encode_list_push(vs.take(i as int), vs[i as int]);
            assert(forall|j: int| 0 <= j < i + 1 ==> rec_fits(#[trigger] vs.take(i + 1)[j]));
        }
        i = i + 1;
    }
    proof {
        assert(vs.take(records@.len() as int) =~= vs);
    }
    out
}

/// Parse a canonical byte encoding back into its snapshot. Exactly the
/// encodings are accepted: any other input — truncated, padded, or
/// malformed — is refused whole.
pub fn decode_records(data: &[u8]) -> (r: Option<Vec<Record>>)
    ensures
        r matches Some(rs) ==> spec_parse_list(data@, 0) == Some(views(rs@)),
        r is None <==> spec_parse_list(data@, 0) is None,
{
    let mut out: Vec<Record> = Vec::new();
    let mut pos: usize = 0;
    proof {
        assert(views(out@) =~= Seq::empty());
    }
    while pos < data.len()
        invariant
            pos <= data@.len(),
            spec_parse_list(data@, pos as int) matches Some(rest) ==> spec_parse_list(data@, 0)
                == Some(views(out@) + rest),
            spec_parse_list(data@, pos as int) is None ==> spec_parse_list(data@, 0) is None,
        decreases data@.len() - pos,
    {
        let ghost oldviews = views(out@);
        match read_record(data, pos) {
            Some((rec, p2)) => {
                out.push(rec);
                proof {
                    assert(views(out@) =~= oldviews + seq![rec_view(rec)]);
                    if spec_parse_list(data@, p2 as int) is Some {
                        let rest2 = spec_parse_list(data@, p2 as int)->Some_0;
                        assert(spec_parse_list(data@, pos as int) == Some(
                            seq![rec_view(rec)] + rest2,
                        ));
                        assert(oldviews + (seq![rec_view(rec)] + rest2) =~= views(out@) + rest2);
                    }
                }
                pos = p2;
            },
            None => {
                return None;
            },
        }
    }
    proof {
        assert(spec_parse_list(data@, pos as int) == Some(
            Seq::<(Seq<char>, Seq<char>, Seq<char>)>::empty(),
        ));
        assert(views(out@) + Seq::<(Seq<char>, Seq<char>, Seq<char>)>::empty() =~= views(out@));
    }
    Some(out)
}

} // verus!
