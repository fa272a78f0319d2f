use vstd::prelude::*;
use crate::bytes::append_bytes;

verus! {

/// Longest varint the decoder reads.
pub const MAX_VARINT_LEN: usize = 10;

/// Wire type of varint fields.
pub const WIRE_VARINT: u64 = 0;

/// Wire type of length-delimited fields.
pub const WIRE_BYTES: u64 = 2;

/// Largest field number a message may use.
pub const MAX_FIELD_NUMBER: u64 = 536870911;

/// Base-128 encoding of `v`, least significant group first, with the high bit
/// of every byte but the last set.
pub open spec fn varint(v: u64) -> Seq<u8>
    decreases v,
{
    if v < 128 {
        seq![v as u8]
    } else {
        seq![(v % 128 + 128) as u8] + varint(v / 128)
    }
}

/// Decodes a varint of at most `fuel` bytes at the start of `s`, giving the
/// value and the number of bytes it takes; `None` where the bytes run out, the
/// varint is longer than `fuel` or its value does not fit in 64 bits.
pub open spec fn parse_varint(s: Seq<u8>, fuel: nat) -> Option<(u64, nat)>
    decreases fuel,
{
    if fuel == 0 || s.len() == 0 {
        None
    } else if s[0] < 128 {
        Some((s[0] as u64, 1nat))
    } else {
        match parse_varint(s.drop_first(), (fuel - 1) as nat) {
            Some((rest, n)) => {
                let low = (s[0] - 128) as u64;
                if rest <= (u64::MAX - low) / 128 {
                    Some(((low + rest * 128) as u64, n + 1))
                } else {
                    None
                }
            },
            None => None,
        }
    }
}

/// `128^k`.
pub open spec fn pow128(k: nat) -> nat
    decreases k,
{
    if k == 0 {
        1
    } else {
        128 * pow128((k - 1) as nat)
    }
}

/// A value below `128^k` takes at most `k` varint bytes.
proof fn lemma_varint_len_bound(v: u64, k: nat)
    requires
        v < pow128(k),
        k >= 1,
    ensures
        varint(v).len() <= k,
        varint(v).len() >= 1,
    decreases v,
{
    if v >= 128 {
        let kk = (k - 1) as nat;
        assert(pow128(k) == 128 * pow128(kk));
        assert(v / 128 < pow128(kk)) by (nonlinear_arith)
            requires
                v < 128 * pow128(kk),
        ;
        if kk == 0 {
            assert(pow128(0) == 1);
        }
        lemma_varint_len_bound(v / 128, kk);
    }
}

/// Every 64-bit value takes between one and ten varint bytes.
pub proof fn lemma_varint_len(v: u64)
    ensures
        1 <= varint(v).len() <= MAX_VARINT_LEN,
{
    assert(pow128(10) == 1180591620717411303424nat) by {
        reveal_with_fuel(pow128, 11);
    }
    lemma_varint_len_bound(v, 10);
}

/// Decoding the varint of `v`, whatever follows it, gives back `v` and the
/// varint's length.
pub proof fn lemma_varint_roundtrip(v: u64, rest: Seq<u8>, fuel: nat)
    requires
        fuel >= varint(v).len(),
    ensures
        parse_varint(varint(v) + rest, fuel) == Some((v, varint(v).len())),
    decreases v,
{
    let s = varint(v) + rest;
    lemma_varint_len(v);
    if v < 128 {
        assert(s[0] == v as u8);
    } else {
        let q = v / 128;
        lemma_varint_len(q);
        assert(s[0] == (v % 128 + 128) as u8);
        assert(s.drop_first() =~= varint(q) + rest);
        lemma_varint_roundtrip(q, rest, (fuel - 1) as nat);
        let low = (v % 128) as u64;
        assert(q <= (u64::MAX - low) / 128);
        assert(low + q * 128 == v);
    }
}

/// Appends the varint encoding of `v` to `out`.
pub fn write_varint(out: &mut Vec<u8>, v: u64)
    ensures
        final(out)@ == old(out)@ + varint(v),
{
    let mut x = v;
    while x >= 128
        invariant
            out@ + varint(x) == old(out)@ + varint(v),
        decreases x,
    {
        let b = (x % 128 + 128) as u8;
        proof {
            assert(varint(x) == seq![b] + varint(x / 128));
            assert(out@.push(b) + varint(x / 128) =~= out@ + varint(x));
        }
        out.push(b);
        x = x / 128;
    }
    proof {
        assert(out@.push(x as u8) =~= out@ + varint(x));
    }
    out.push(x as u8);
}

/// Reads a varint of at most `fuel` bytes from `buf` at `pos`, giving its
/// value and the position just past it.
pub fn read_varint(buf: &[u8], pos: usize, fuel: usize) -> (r: Option<(u64, usize)>)
    requires
        pos <= buf@.len(),
    ensures
        match parse_varint(buf@.subrange(pos as int, buf@.len() as int), fuel as nat) {
            Some((v, n)) => r matches Some((x, e)) && x == v && e == pos + n,
            None => r is None,
        },
        r matches Some((v, e)) ==> pos < e <= buf@.len(),
    decreases fuel,
{
    let ghost s = buf@.subrange(pos as int, buf@.len() as int);
    if fuel == 0 || pos >= buf.len() {
        return None;
    }
    let b = buf[pos];
    if b < 128 {
        return Some((b as u64, pos + 1));
    }
    assert(s.drop_first() =~= buf@.subrange(pos + 1, buf@.len() as int));
    match read_varint(buf, pos + 1, fuel - 1) {
        Some((rest, end)) => {
            let low = (b - 128) as u64;
            if rest <= (u64::MAX - low) / 128 {
                Some((low + rest * 128, end))
            } else {
                None
            }
        },
        None => None,
    }
}

} // verus!

verus! {

/// Value of a field as it stands on the wire.
pub enum SpecFieldValue {
    Varint(u64),
    Bytes(Seq<u8>),
}

/// A field as it stands on the wire: its number and value.
pub struct SpecField {
    pub number: u64,
    pub value: SpecFieldValue,
}

/// Value of a decoded field.
pub enum FieldValue {
    Varint(u64),
    Bytes(Vec<u8>),
}

/// A decoded field.
pub struct WireField {
    pub number: u64,
    pub value: FieldValue,
}

impl View for WireField {
    type V = SpecField;

    open spec fn view(&self) -> SpecField {
        SpecField {
            number: self.number,
            value: match self.value {
                FieldValue::Varint(x) => SpecFieldValue::Varint(x),
                FieldValue::Bytes(b) => SpecFieldValue::Bytes(b@),
            },
        }
    }
}

/// The abstract fields of a vector of decoded fields.
pub open spec fn fields_view(fs: Seq<WireField>) -> Seq<SpecField> {
    fs.map_values(|f: WireField| f@)
}

/// Whether a field can be encoded: a valid field number and a length that
/// fits in 64 bits.
pub open spec fn field_wf(f: SpecField) -> bool {
    &&& 1 <= f.number <= MAX_FIELD_NUMBER
    &&& f.value matches SpecFieldValue::Bytes(b) ==> b.len() <= u64::MAX
}

/// The key of a field: its number and wire type.
pub open spec fn field_tag(f: SpecField) -> u64 {
    match f.value {
        SpecFieldValue::Varint(_) => (f.number * 8 + WIRE_VARINT) as u64,
        SpecFieldValue::Bytes(_) => (f.number * 8 + WIRE_BYTES) as u64,
    }
}

/// Encoding of one field.
pub open spec fn encode_field(f: SpecField) -> Seq<u8> {
    varint(field_tag(f)) + match f.value {
        SpecFieldValue::Varint(x) => varint(x),
        SpecFieldValue::Bytes(b) => varint(b.len() as u64) + b,
    }
}

/// Encoding of a list of fields, in order.
pub open spec fn encode_fields(fs: Seq<SpecField>) -> Seq<u8>
    decreases fs.len(),
{
    if fs.len() == 0 {
        seq![]
    } else {
        encode_field(fs[0]) + encode_fields(fs.drop_first())
    }
}

/// Decodes one field at the start of `s`, giving it and the bytes it takes.
/// Field number zero, numbers above the maximum and wire types other than
/// varint and length-delimited are refused.
pub open spec fn parse_field(s: Seq<u8>) -> Option<(SpecField, nat)> {
    match parse_varint(s, MAX_VARINT_LEN as nat) {
        None => None,
        Some((tag, n1)) => {
            let number = tag / 8;
            let wire_type = tag % 8;
            if number == 0 || number > MAX_FIELD_NUMBER {
                None
            } else if wire_type == WIRE_VARINT {
                match parse_varint(s.skip(n1 as int), MAX_VARINT_LEN as nat) {
                    Some((x, n2)) => Some(
                        (SpecField { number, value: SpecFieldValue::Varint(x) }, n1 + n2),
                    ),
                    None => None,
                }
            } else if wire_type == WIRE_BYTES {
                match parse_varint(s.skip(n1 as int), MAX_VARINT_LEN as nat) {
                    Some((len, n2)) => if n1 + n2 + len <= s.len() {
                        Some(
                            (
                                SpecField {
                                    number,
                                    value: SpecFieldValue::Bytes(
                                        s.subrange((n1 + n2) as int, n1 + n2 + len),
                                    ),
                                },
                                (n1 + n2 + len) as nat,
                            ),
                        )
                    } else {
                        None
                    },
                    None => None,
                }
            } else {
                None
            }
        },
    }
}

/// Decodes a whole buffer as a list of fields.
pub open spec fn parse_fields(s: Seq<u8>) -> Option<Seq<SpecField>>
    decreases s.len(),
{
    if s.len() == 0 {
        Some(seq![])
    } else {
        match parse_field(s) {
            Some((f, n)) => if 0 < n <= s.len() {
                match parse_fields(s.skip(n as int)) {
                    Some(fs) => Some(seq![f] + fs),
                    None => None,
                }
            } else {
                None
            },
            None => None,
        }
    }
}

/// `fs` placed in front of the outcome of a decoding.
pub open spec fn prepend_fields(fs: Seq<SpecField>, rest: Option<Seq<SpecField>>) -> Option<Seq<SpecField>> {
    match rest {
        Some(r) => Some(fs + r),
        None => None,
    }
}

/// Decoding a field's encoding, whatever follows it, gives back the field.
pub proof fn lemma_field_roundtrip(f: SpecField, rest: Seq<u8>)
    requires
        field_wf(f),
    ensures
        parse_field(encode_field(f) + rest) == Some((f, encode_field(f).len())),
{
    let s = encode_field(f) + rest;
    let tag = field_tag(f);
    let body = match f.value {
        SpecFieldValue::Varint(x) => varint(x),
        SpecFieldValue::Bytes(b) => varint(b.len() as u64) + b,
    };
    lemma_varint_len(tag);
    assert(s =~= varint(tag) + (body + rest));
    lemma_varint_roundtrip(tag, body + rest, MAX_VARINT_LEN as nat);
    let n1 = varint(tag).len();
    assert(s.skip(n1 as int) =~= body + rest);
    assert(tag / 8 == f.number);
    match f.value {
        SpecFieldValue::Varint(x) => {
            assert(tag % 8 == WIRE_VARINT);
            lemma_varint_len(x);
            lemma_varint_roundtrip(x, rest, MAX_VARINT_LEN as nat);
        },
        SpecFieldValue::Bytes(b) => {
            assert(tag % 8 == WIRE_BYTES);
            let l = b.len() as u64;
            lemma_varint_len(l);
            assert(body + rest =~= varint(l) + (b + rest));
            lemma_varint_roundtrip(l, b + rest, MAX_VARINT_LEN as nat);
            let n2 = varint(l).len();
            assert(s.subrange((n1 + n2) as int, n1 + n2 + l) =~= b);
        },
    }
}

/// Decoding the encoding of well-formed fields gives back the same fields.
pub proof fn lemma_fields_roundtrip(fs: Seq<SpecField>)
    requires
        forall|i: int| 0 <= i < fs.len() ==> field_wf(#[trigger] fs[i]),
    ensures
        parse_fields(encode_fields(fs)) == Some(fs),
    decreases fs.len(),
{
    if fs.len() > 0 {
        let s = encode_fields(fs);
        let tail = fs.drop_first();
        lemma_field_roundtrip(fs[0], encode_fields(tail));
        lemma_varint_len(field_tag(fs[0]));
        assert(encode_field(fs[0]).len() > 0);
        assert(s.skip(encode_field(fs[0]).len() as int) =~= encode_fields(tail));
        assert forall|i: int| 0 <= i < tail.len() implies field_wf(#[trigger] tail[i]) by {
            assert(tail[i] == fs[i + 1]);
        }
        lemma_fields_roundtrip(tail);
        assert(seq![fs[0]] + tail =~= fs);
    }
}

} // verus!

verus! {

/// Encoding fields one after another appends their encodings.
pub proof fn lemma_encode_fields_push(fs: Seq<SpecField>, f: SpecField)
    ensures
        encode_fields(fs.push(f)) == encode_fields(fs) + encode_field(f),
    decreases fs.len(),
{
    if fs.len() == 0 {
        assert(fs.push(f).drop_first() =~= seq![]);
        assert(encode_fields(fs.push(f).drop_first()) =~= Seq::<u8>::empty());
        assert(encode_fields(fs.push(f)) =~= encode_field(f));
    } else {
        assert(fs.push(f).drop_first() =~= fs.drop_first().push(f));
        lemma_encode_fields_push(fs.drop_first(), f);
        assert(encode_fields(fs.push(f)) =~= encode_fields(fs) + encode_field(f));
    }
}

/// The view of an optional vector of decoded fields.
pub open spec fn opt_fields(r: Option<Vec<WireField>>) -> Option<Seq<SpecField>> {
    match r {
        Some(v) => Some(fields_view(v@)),
        None => None,
    }
}

/// Copies `buf[start..end]` into a fresh vector.
pub fn copy_range(buf: &[u8], start: usize, end: usize) -> (r: Vec<u8>)
    requires
        start <= end <= buf@.len(),
    ensures
        r@ == buf@.subrange(start as int, end as int),
{
    let mut r: Vec<u8> = Vec::new();
    let mut i = start;
    while i < end
        invariant
            start <= i <= end <= buf@.len(),
            r@ == buf@.subrange(start as int, i as int),
        decreases end - i,
    {
        r.push(buf[i]);
        i = i + 1;
    }
    r
}

/// Appends the encoding of one field to `out`.
pub fn write_field(out: &mut Vec<u8>, f: &WireField)
    requires
        field_wf(f@),
    ensures
        final(out)@ == old(out)@ + encode_field(f@),
{
    match &f.value {
        FieldValue::Varint(x) => {
            write_varint(out, f.number * 8 + WIRE_VARINT);
            write_varint(out, *x);
        },
        FieldValue::Bytes(b) => {
            write_varint(out, f.number * 8 + WIRE_BYTES);
            write_varint(out, b.len() as u64);
            append_bytes(out, b.as_slice());
        },
    }
    assert(final(out)@ =~= old(out)@ + encode_field(f@));
}

/// Encodes a list of fields.
pub fn encode_field_list(fields: &Vec<WireField>) -> (r: Vec<u8>)
    requires
        forall|i: int| 0 <= i < fields@.len() ==> field_wf(#[trigger] fields@[i]@),
    ensures
        r@ == encode_fields(fields_view(fields@)),
{
    let mut out: Vec<u8> = Vec::new();
    let mut i: usize = 0;
    while i < fields.len()
        invariant
            i <= fields@.len(),
            forall|j: int| 0 <= j < fields@.len() ==> field_wf(#[trigger] fields@[j]@),
            out@ == encode_fields(fields_view(fields@.subrange(0, i as int))),
        decreases fields@.len() - i,
    {
        proof {
            let pre = fields_view(fields@.subrange(0, i as int));
            lemma_encode_fields_push(pre, fields@[i as int]@);
            assert(fields_view(fields@.subrange(0, i + 1)) =~= pre.push(fields@[i as int]@));
        }
        write_field(&mut out, &fields[i]);
        i = i + 1;
    }
    assert(fields@.subrange(0, fields@.len() as int) =~= fields@);
    out
}

/// Decodes one field of `buf` at `pos`, giving it and the position past it.
fn read_field(buf: &[u8], pos: usize) -> (r: Option<(WireField, usize)>)
    requires
        pos <= buf@.len(),
    ensures
        match parse_field(buf@.skip(pos as int)) {
            Some((f, n)) => r matches Some((wf, end)) && wf@ == f && end == pos + n,
            None => r is None,
        },
        r matches Some((wf, end)) ==> pos < end <= buf@.len(),
{
    let ghost s = buf@.skip(pos as int);
    assert(s =~= buf@.subrange(pos as int, buf@.len() as int));
    let (tag, p1) = match read_varint(buf, pos, MAX_VARINT_LEN) {
        Some(x) => x,
        None => return None,
    };
    let number = tag / 8;
    let wire_type = tag % 8;
    if number == 0 || number > MAX_FIELD_NUMBER {
        return None;
    }
    let ghost n1 = (p1 - pos) as nat;
    assert(parse_varint(s, MAX_VARINT_LEN as nat) == Some((tag, n1)));
    assert(s.skip(n1 as int) =~= buf@.subrange(p1 as int, buf@.len() as int));
    assert(parse_varint(s.skip(n1 as int), MAX_VARINT_LEN as nat) == parse_varint(
        buf@.subrange(p1 as int, buf@.len() as int),
        MAX_VARINT_LEN as nat,
    ));
    if wire_type == WIRE_VARINT {
        match read_varint(buf, p1, MAX_VARINT_LEN) {
            Some((x, p2)) => Some((WireField { number, value: FieldValue::Varint(x) }, p2)),
            None => None,
        }
    } else if wire_type == WIRE_BYTES {
        match read_varint(buf, p1, MAX_VARINT_LEN) {
            Some((len, p2)) => {
                if len <= (buf.len() - p2) as u64 {
                    let end = p2 + len as usize;
                    let b = copy_range(buf, p2, end);
                    assert(b@ =~= s.subrange(n1 + (p2 - p1), n1 + (p2 - p1) + len));
                    Some((WireField { number, value: FieldValue::Bytes(b) }, end))
                } else {
                    None
                }
            },
            None => None,
        }
    } else {
        None
    }
}

/// Decodes a whole buffer as a list of fields.
pub fn decode_field_list(buf: &[u8]) -> (r: Option<Vec<WireField>>)
    ensures
        opt_fields(r) == parse_fields(buf@),
{
    let mut fields: Vec<WireField> = Vec::new();
    let mut pos: usize = 0;
    assert(buf@.skip(0) =~= buf@);
    assert(fields_view(fields@) =~= seq![]);
    while pos < buf.len()
        invariant
            pos <= buf@.len(),
            parse_fields(buf@) == prepend_fields(fields_view(fields@), parse_fields(buf@.skip(pos as int))),
        decreases buf@.len() - pos,
    {
        let ghost s = buf@.skip(pos as int);
        match read_field(buf, pos) {
            Some((f, end)) => {
                proof {
                    assert(s.skip((end - pos) as int) =~= buf@.skip(end as int));
                    assert(fields_view(fields@.push(f)) =~= fields_view(fields@) + seq![f@]);
                    match parse_fields(buf@.skip(end as int)) {
                        Some(rest) => {
                            assert(fields_view(fields@) + (seq![f@] + rest) =~= fields_view(fields@.push(f)) + rest);
                        },
                        None => {},
                    }
                }
                fields.push(f);
                pos = end;
            },
            None => {
                return None;
            },
        }
    }
    assert(buf@.skip(pos as int) =~= seq![]);
    assert(fields_view(fields@) + seq![] =~= fields_view(fields@));
    Some(fields)
}

} // verus!
