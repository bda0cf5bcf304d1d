//! The field-tagged binary layer of the wire protocol.
//!
//! A message is a run of fields. Each field opens with a key byte whose low
//! three bits give the wire form: `0` for a base-128 varint value, `2` for a
//! length-delimited run of bytes introduced by a varint length. Writers emit
//! the schema's fields in ascending key order; readers take the schema's
//! fields in that order and then skip any trailing well-formed fields, so a
//! schema may grow new fields without breaking older readers.

use vstd::prelude::*;

verus! {

/// The base-128 encoding of `n`: seven value bits per byte, least
/// significant group first, the high bit set on every byte but the last.
pub open spec fn varint_enc(n: nat) -> Seq<u8>
    decreases n,
{
    if n < 128 {
        seq![n as u8]
    } else {
        seq![(n % 128 + 128) as u8] + varint_enc(n / 128)
    }
}

/// Parse a varint at position `i`, yielding the value and the position just
/// past it. The value is unbounded here; bounds are the schema's concern.
pub open spec fn parse_varint(s: Seq<u8>, i: int) -> Option<(nat, int)>
    decreases s.len() - i,
{
    if i < 0 || i >= s.len() {
        None
    } else if s[i] < 128 {
        Some(((s[i] as nat), i + 1))
    } else {
        match parse_varint(s, i + 1) {
            Some((v, j)) => Some((((s[i] - 128) as nat + 128 * v), j)),
            None => None,
        }
    }
}

/// A length-delimited field: the key byte, the byte count as a varint, then
/// the bytes themselves.
pub open spec fn lenfield_enc(key: u8, b: Seq<u8>) -> Seq<u8> {
    seq![key] + varint_enc(b.len()) + b
}

/// A varint-valued field: the key byte, then the value as a varint.
pub open spec fn u32field_enc(key: u8, v: u32) -> Seq<u8> {
    seq![key] + varint_enc(v as nat)
}

/// Parse a length-delimited field with the given key at position `i`,
/// yielding its bytes and the position just past them.
pub open spec fn parse_lenfield(s: Seq<u8>, i: int, key: u8) -> Option<(Seq<u8>, int)> {
    if 0 <= i < s.len() && s[i] == key {
        match parse_varint(s, i + 1) {
            Some((n, j)) => if j + n <= s.len() {
                Some((s.subrange(j, j + n), j + n))
            } else {
                None
            },
            None => None,
        }
    } else {
        None
    }
}

/// Parse a varint field with the given key at position `i`, requiring the
/// value to fit the schema's 32-bit range.
pub open spec fn parse_u32field(s: Seq<u8>, i: int, key: u8) -> Option<(u32, int)> {
    if 0 <= i < s.len() && s[i] == key {
        match parse_varint(s, i + 1) {
            Some((n, j)) => if n <= u32::MAX {
                Some((n as u32, j))
            } else {
                None
            },
            None => None,
        }
    } else {
        None
    }
}

/// Whether everything from position `i` to the end is a run of well-formed
/// fields of the two known wire forms. Readers apply this to whatever
/// follows the schema's own fields, so unknown trailing fields are accepted
/// and ignored.
pub open spec fn skip_fields(s: Seq<u8>, i: int) -> bool
    decreases s.len() - i,
{
    if i == s.len() {
        true
    } else if !(0 <= i < s.len()) {
        false
    } else if s[i] % 8 == 0 {
        match parse_varint(s, i + 1) {
            Some((_, j)) => if i < j <= s.len() {
                skip_fields(s, j)
            } else {
                false
            },
            None => false,
        }
    } else if s[i] % 8 == 2 {
        match parse_varint(s, i + 1) {
            Some((n, j)) => if i < j && j + n <= s.len() {
                skip_fields(s, j + n)
            } else {
                false
            },
            None => false,
        }
    } else {
        false
    }
}

/// A parsed varint ends past where it began and within the input.
pub proof fn lemma_parse_varint_bounds(s: Seq<u8>, i: int)
    requires
        parse_varint(s, i) is Some,
    ensures
        i < parse_varint(s, i)->Some_0.1 <= s.len(),
    decreases s.len() - i,
{
    if !(i < 0 || i >= s.len()) && s[i] >= 128 {
        lemma_parse_varint_bounds(s, i + 1);
    }
}

/// Parsing at a position where an encoded varint lies recovers exactly the
/// value that was encoded, ending just past it.
pub proof fn lemma_varint_round_trip(s: Seq<u8>, i: int, n: nat)
    requires
        0 <= i,
        i + varint_enc(n).len() <= s.len(),
        s.subrange(i, i + varint_enc(n).len() as int) == varint_enc(n),
    ensures
        parse_varint(s, i) == Some((n, i + varint_enc(n).len() as int)),
    decreases n,
{
    let e = varint_enc(n);
    assert(s[i] == e[0]);
    if n < 128 {
        assert(e[0] == n as u8);
    } else {
        assert(e[0] == (n % 128 + 128) as u8);
        assert(s[i] >= 128);
        let rest = varint_enc(n / 128);
        assert(e == seq![(n % 128 + 128) as u8] + rest);
        assert forall|k: int| 0 <= k < rest.len() implies s[i + 1 + k] == rest[k] by {
            assert(e[1 + k] == rest[k]);
            assert(s[i + 1 + k] == s.subrange(i, i + e.len() as int)[1 + k]);
        }
        assert(s.subrange(i + 1, i + 1 + rest.len() as int) =~= rest);
        lemma_varint_round_trip(s, i + 1, n / 128);
        assert((s[i] - 128) as nat + 128 * (n / 128) == n % 128 + 128 * (n / 128));
        assert(n % 128 + 128 * (n / 128) == n) by (nonlinear_arith);
    }
}

/// A prefix claim over a concatenation splits into one claim per part.
pub open spec fn has_prefix(s: Seq<u8>, i: int, p: Seq<u8>) -> bool {
    0 <= i && i + p.len() <= s.len() && s.subrange(i, i + p.len() as int) == p
}

pub proof fn lemma_has_prefix_concat(s: Seq<u8>, i: int, p: Seq<u8>, q: Seq<u8>)
    requires
        has_prefix(s, i, p + q),
    ensures
        has_prefix(s, i, p),
        has_prefix(s, i + p.len(), q),
{
    let pq = p + q;
    assert forall|k: int| 0 <= k < p.len() implies s[i + k] == p[k] by {
        assert(s.subrange(i, i + pq.len() as int)[k] == pq[k]);
    }
    assert(s.subrange(i, i + p.len() as int) =~= p);
    assert forall|k: int| 0 <= k < q.len() implies s[i + p.len() + k] == q[k] by {
        assert(s.subrange(i, i + pq.len() as int)[p.len() + k] == pq[p.len() + k]);
    }
    assert(s.subrange(i + p.len(), i + p.len() + q.len() as int) =~= q);
}

/// Parsing at a position where an encoded length-delimited field lies
/// recovers exactly the bytes that were framed.
pub proof fn lemma_lenfield_round_trip(s: Seq<u8>, i: int, key: u8, b: Seq<u8>)
    requires
        has_prefix(s, i, lenfield_enc(key, b)),
    ensures
        parse_lenfield(s, i, key) == Some((b, i + lenfield_enc(key, b).len() as int)),
{
    let e = lenfield_enc(key, b);
    let lv = varint_enc(b.len());
    assert(e == seq![key] + (lv + b)) by {
        assert(seq![key] + lv + b =~= seq![key] + (lv + b));
    }
    lemma_has_prefix_concat(s, i, seq![key], lv + b);
    lemma_has_prefix_concat(s, i + 1, lv, b);
    assert(s[i] == seq![key][0]);
    lemma_varint_round_trip(s, i + 1, b.len());
    let j = i + 1 + lv.len() as int;
    assert(s.subrange(j, j + b.len() as int) == b);
    assert(parse_varint(s, i + 1) == Some((b.len(), j)));
    assert(i + e.len() as int == j + b.len());
}

/// Parsing at a position where an encoded varint field lies recovers
/// exactly the value that was written.
pub proof fn lemma_u32field_round_trip(s: Seq<u8>, i: int, key: u8, v: u32)
    requires
        has_prefix(s, i, u32field_enc(key, v)),
    ensures
        parse_u32field(s, i, key) == Some((v, i + u32field_enc(key, v).len() as int)),
{
    let e = u32field_enc(key, v);
    let lv = varint_enc(v as nat);
    lemma_has_prefix_concat(s, i, seq![key], lv);
    assert(s[i] == seq![key][0]);
    lemma_varint_round_trip(s, i + 1, v as nat);
}

/// The largest varint value the readers below materialize.
pub open spec fn u64_limit() -> nat {
    0xffff_ffff_ffff_ffff
}

/// Read a varint, reporting the parsed value and end position, or nothing
/// when no varint lies at `i` or its value overflows 64 bits.
pub fn read_varint(s: &[u8], i: usize) -> (r: Option<(u64, usize)>)
    requires
        i <= s@.len(),
    ensures
        match r {
            Some(p) => parse_varint(s@, i as int) == Some(((p.0 as nat), p.1 as int)) && i < p.1
                <= s@.len(),
            None => match parse_varint(s@, i as int) {
                Some(q) => q.0 > u64_limit(),
                None => true,
            },
        },
    decreases s@.len() - i,
{
    if i >= s.len() {
        return None;
    }
    let b = s[i];
    if b < 128 {
        Some((b as u64, i + 1))
    } else {
        match read_varint(s, i + 1) {
            Some((v, j)) => {
                if v <= (u64::MAX - 127) / 128 {
                    Some(((b - 128) as u64 + 128 * v, j))
                } else {
                    proof {
                        assert((s@[i as int] - 128) as nat + 128 * (v as nat) > u64_limit())
                            by (nonlinear_arith)
                            requires
                                v as nat > ((u64::MAX - 127) / 128) as nat,
                                s@[i as int] >= 128,
                        ;
                    }
                    None
                }
            },
            None => None,
        }
    }
}

/// Find where the varint beginning at `i` ends, without materializing its
/// value.
pub fn varint_end(s: &[u8], i: usize) -> (r: Option<usize>)
    requires
        i <= s@.len(),
    ensures
        match r {
            Some(j) => parse_varint(s@, i as int) matches Some(q) && q.1 == j as int && i < j
                <= s@.len(),
            None => parse_varint(s@, i as int) is None,
        },
    decreases s@.len() - i,
{
    if i >= s.len() {
        return None;
    }
    if s[i] < 128 {
        Some(i + 1)
    } else {
        varint_end(s, i + 1)
    }
}

/// Read a length-delimited field with the given key, yielding its bytes as
/// a borrowed slice and the position just past them.
pub fn read_lenfield<'a>(s: &'a [u8], i: usize, key: u8) -> (r: Option<(&'a [u8], usize)>)
    requires
        i <= s@.len(),
    ensures
        match r {
            Some(p) => parse_lenfield(s@, i as int, key) == Some((p.0@, p.1 as int)) && i < p.1
                <= s@.len(),
            None => parse_lenfield(s@, i as int, key) is None,
        },
{
    if i >= s.len() || s[i] != key {
        return None;
    }
    match read_varint(s, i + 1) {
        Some((n, j)) => {
            if n <= (s.len() - j) as u64 {
                let end = j + (n as usize);
                Some((vstd::slice::slice_subrange(s, j, end), end))
            } else {
                None
            }
        },
        None => {
            proof {
                match parse_varint(s@, i + 1) {
                    Some(q) => lemma_parse_varint_bounds(s@, i + 1),
                    None => (),
                }
            }
            None
        },
    }
}

/// Read a varint field with the given key whose value fits 32 bits.
pub fn read_u32field(s: &[u8], i: usize, key: u8) -> (r: Option<(u32, usize)>)
    requires
        i <= s@.len(),
    ensures
        match r {
            Some(p) => parse_u32field(s@, i as int, key) == Some((p.0, p.1 as int)) && i < p.1
                <= s@.len(),
            None => parse_u32field(s@, i as int, key) is None,
        },
{
    if i >= s.len() || s[i] != key {
        return None;
    }
    match read_varint(s, i + 1) {
        Some((n, j)) => {
            if n <= u32::MAX as u64 {
                Some((n as u32, j))
            } else {
                None
            }
        },
        None => None,
    }
}

/// Decide whether everything from `i` on is a run of well-formed fields.
pub fn check_trailing_fields(s: &[u8], i: usize) -> (r: bool)
    requires
        i <= s@.len(),
    ensures
        r == skip_fields(s@, i as int),
    decreases s@.len() - i,
{
    if i == s.len() {
        return true;
    }
    let wt = s[i] % 8;
    if wt == 0 {
        match varint_end(s, i + 1) {
            Some(j) => check_trailing_fields(s, j),
            None => false,
        }
    } else if wt == 2 {
        match read_varint(s, i + 1) {
            Some((n, j)) => {
                if n <= (s.len() - j) as u64 {
                    let end = j + (n as usize);
                    check_trailing_fields(s, end)
                } else {
                    false
                }
            },
            None => {
                proof {
                    if parse_varint(s@, i + 1) matches Some(q) {
                        lemma_parse_varint_bounds(s@, i + 1);
                    }
                }
                false
            },
        }
    } else {
        false
    }
}

/// Append the varint encoding of `n`.
pub fn write_varint(out: &mut Vec<u8>, n: u64)
    ensures
        final(out)@ == old(out)@ + varint_enc(n as nat),
    decreases n,
{
    if n < 128 {
        out.push(n as u8);
        assert(out@ =~= old(out)@ + varint_enc(n as nat));
    } else {
        out.push((n % 128 + 128) as u8);
        assert(out@ =~= old(out)@ + seq![(n as nat % 128 + 128) as u8]);
        write_varint(out, n / 128);
        assert(out@ =~= old(out)@ + varint_enc(n as nat));
    }
}

/// Append a length-delimited field: key, length, bytes.
pub fn write_lenfield(out: &mut Vec<u8>, key: u8, b: &[u8])
    ensures
        final(out)@ == old(out)@ + lenfield_enc(key, b@),
{
    out.push(key);
    assert(out@ =~= old(out)@ + seq![key]);
    write_varint(out, b.len() as u64);
    assert(out@ =~= old(out)@ + seq![key] + varint_enc(b@.len()) + b@.subrange(0, 0));
    let mut k: usize = 0;
    while k < b.len()
        invariant
            k <= b@.len(),
            out@ == old(out)@ + seq![key] + varint_enc(b@.len()) + b@.subrange(0, k as int),
        decreases b@.len() - k,
    {
        out.push(b[k]);
        k = k + 1;
        assert(out@ =~= old(out)@ + seq![key] + varint_enc(b@.len()) + b@.subrange(0, k as int));
    }
    assert(b@.subrange(0, b@.len() as int) =~= b@);
    assert(out@ =~= old(out)@ + lenfield_enc(key, b@));
}

/// Append a varint field: key, value.
pub fn write_u32field(out: &mut Vec<u8>, key: u8, v: u32)
    ensures
        final(out)@ == old(out)@ + u32field_enc(key, v),
{
    out.push(key);
    assert(out@ =~= old(out)@ + seq![key]);
    write_varint(out, v as u64);
    assert(out@ =~= old(out)@ + u32field_enc(key, v));
}

} // verus!
