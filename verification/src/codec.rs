use vstd::prelude::*;
use vstd::string::StringSliceAdditionalSpecFns;
use vstd::utf8::{decode_utf8, encode_utf8, encode_utf8_decode_utf8, encode_utf8_valid_utf8, valid_utf8};
use crate::bytes::copy_bytes;
use crate::wire::{fields_view, FieldValue, SpecField, SpecFieldValue, WireField};

verus! {

/// Value of the last field numbered `number`, if any (the one that counts
/// when a field is repeated).
pub open spec fn last_field(fs: Seq<SpecField>, number: u64) -> Option<SpecFieldValue>
    decreases fs.len(),
{
    if fs.len() == 0 {
        None
    } else if fs.last().number == number {
        Some(fs.last().value)
    } else {
        last_field(fs.drop_last(), number)
    }
}

/// Whether every field numbered `number` is length-delimited.
pub open spec fn all_bytes(fs: Seq<SpecField>, number: u64) -> bool {
    forall|i: int| 0 <= i < fs.len() && (#[trigger] fs[i]).number == number ==> fs[i].value is Bytes
}

/// Whether every field numbered `number` is a varint.
pub open spec fn all_varint(fs: Seq<SpecField>, number: u64) -> bool {
    forall|i: int| 0 <= i < fs.len() && (#[trigger] fs[i]).number == number ==> fs[i].value is Varint
}

/// Value of a length-delimited field: the last occurrence, or empty.
pub open spec fn bytes_field(fs: Seq<SpecField>, number: u64) -> Seq<u8> {
    match last_field(fs, number) {
        Some(SpecFieldValue::Bytes(b)) => b,
        _ => seq![],
    }
}

/// Value of a varint field: the last occurrence, or zero.
pub open spec fn varint_field(fs: Seq<SpecField>, number: u64) -> u64 {
    match last_field(fs, number) {
        Some(SpecFieldValue::Varint(x)) => x,
        _ => 0,
    }
}

/// The field list entry of a length-delimited value: nothing when the value
/// is empty, as default values are not written.
pub open spec fn bytes_entry(number: u64, b: Seq<u8>) -> Seq<SpecField> {
    if b.len() == 0 {
        seq![]
    } else {
        seq![SpecField { number, value: SpecFieldValue::Bytes(b) }]
    }
}

/// The field list entry of a varint value: nothing when the value is zero.
pub open spec fn varint_entry(number: u64, x: u64) -> Seq<SpecField> {
    if x == 0 {
        seq![]
    } else {
        seq![SpecField { number, value: SpecFieldValue::Varint(x) }]
    }
}

/// UTF-8 decoding of `b`, where `b` is valid UTF-8.
pub open spec fn utf8_text(b: Seq<u8>) -> Option<Seq<char>> {
    if valid_utf8(b) {
        Some(decode_utf8(b))
    } else {
        None
    }
}

/// Decoding the UTF-8 encoding of a text gives back the text.
pub proof fn lemma_utf8_roundtrip(t: Seq<char>)
    ensures
        utf8_text(encode_utf8(t)) == Some(t),
{
    encode_utf8_valid_utf8(t);
    encode_utf8_decode_utf8(t);
}

/// Calls `std::str::from_utf8`, which, as documented, succeeds exactly on
/// valid UTF-8 and then views the same bytes as a string slice.
#[verifier::external_body]
fn str_from_utf8(b: &[u8]) -> (r: Option<&str>)
    ensures
        r is Some <==> valid_utf8(b@),
        r is Some ==> r.unwrap().spec_bytes() == b@,
{
    std::str::from_utf8(b).ok()
}

/// Decodes UTF-8 bytes into a string.
pub fn text_from_utf8(b: &[u8]) -> (r: Option<String>)
    ensures
        match utf8_text(b@) {
            Some(t) => r matches Some(s) && s@ == t,
            None => r is None,
        },
{
    match str_from_utf8(b) {
        Some(s) => {
            proof {
                encode_utf8_decode_utf8(s@);
            }
            Some(s.to_owned())
        },
        None => None,
    }
}

/// The UTF-8 bytes of a string.
pub fn text_to_utf8(s: &String) -> (r: Vec<u8>)
    ensures
        r@ == encode_utf8(s@),
{
    copy_bytes(s.as_str().as_bytes())
}

/// Value of the length-delimited field `number`, or `None` where a field with
/// that number has another wire type.
pub fn get_bytes_field(fields: &Vec<WireField>, number: u64) -> (r: Option<Vec<u8>>)
    ensures
        r is Some <==> all_bytes(fields_view(fields@), number),
        r matches Some(b) ==> b@ == bytes_field(fields_view(fields@), number),
{
    let ghost fv = fields_view(fields@);
    let mut found: Option<usize> = None;
    let mut i: usize = 0;
    while i < fields.len()
        invariant
            i <= fields@.len(),
            fv == fields_view(fields@),
            all_bytes(fv.subrange(0, i as int), number),
            match found {
                Some(j) => j < i && fields@[j as int].value is Bytes && last_field(
                    fv.subrange(0, i as int),
                    number,
                ) == Some(fv[j as int].value),
                None => last_field(fv.subrange(0, i as int), number) is None,
            },
        decreases fields@.len() - i,
    {
        let ghost pre = fv.subrange(0, i as int);
        assert(fv.subrange(0, i + 1).drop_last() =~= pre);
        if fields[i].number == number {
            match &fields[i].value {
                FieldValue::Bytes(_) => {
                    found = Some(i);
                },
                FieldValue::Varint(_) => {
                    assert(!all_bytes(fv, number)) by {
                        assert(fv[i as int].number == number);
                    }
                    return None;
                },
            }
        }
        proof {
            assert forall|k: int|
                0 <= k < i + 1 && (#[trigger] fv.subrange(0, i + 1)[k]).number
                    == number implies fv.subrange(0, i + 1)[k].value is Bytes by {
                if k < i {
                    assert(fv.subrange(0, i + 1)[k] == pre[k]);
                }
            }
        }
        i = i + 1;
    }
    assert(fv.subrange(0, fields@.len() as int) =~= fv);
    match found {
        Some(j) => match &fields[j].value {
            FieldValue::Bytes(b) => Some(copy_bytes(b.as_slice())),
            FieldValue::Varint(_) => None,
        },
        None => Some(Vec::new()),
    }
}

/// Value of the varint field `number`, or `None` where a field with that
/// number has another wire type.
pub fn get_varint_field(fields: &Vec<WireField>, number: u64) -> (r: Option<u64>)
    ensures
        r is Some <==> all_varint(fields_view(fields@), number),
        r matches Some(x) ==> x == varint_field(fields_view(fields@), number),
{
    let ghost fv = fields_view(fields@);
    let mut found: Option<u64> = None;
    let mut i: usize = 0;
    while i < fields.len()
        invariant
            i <= fields@.len(),
            fv == fields_view(fields@),
            all_varint(fv.subrange(0, i as int), number),
            match found {
                Some(x) => last_field(fv.subrange(0, i as int), number) == Some(
                    SpecFieldValue::Varint(x),
                ),
                None => last_field(fv.subrange(0, i as int), number) is None,
            },
        decreases fields@.len() - i,
    {
        let ghost pre = fv.subrange(0, i as int);
        assert(fv.subrange(0, i + 1).drop_last() =~= pre);
        if fields[i].number == number {
            match &fields[i].value {
                FieldValue::Varint(x) => {
                    found = Some(*x);
                },
                FieldValue::Bytes(_) => {
                    assert(!all_varint(fv, number)) by {
                        assert(fv[i as int].number == number);
                    }
                    return None;
                },
            }
        }
        proof {
            assert forall|k: int|
                0 <= k < i + 1 && (#[trigger] fv.subrange(0, i + 1)[k]).number
                    == number implies fv.subrange(0, i + 1)[k].value is Varint by {
                if k < i {
                    assert(fv.subrange(0, i + 1)[k] == pre[k]);
                }
            }
        }
        i = i + 1;
    }
    assert(fv.subrange(0, fields@.len() as int) =~= fv);
    match found {
        Some(x) => Some(x),
        None => Some(0),
    }
}

/// Adds the entry of a length-delimited value to a field list.
pub fn push_bytes_entry(fields: &mut Vec<WireField>, number: u64, b: Vec<u8>)
    ensures
        fields_view(final(fields)@) == fields_view(old(fields)@) + bytes_entry(number, b@),
{
    if b.len() == 0 {
        assert(fields_view(fields@) + bytes_entry(number, b@) =~= fields_view(fields@));
    } else {
        let ghost b_view = b@;
        fields.push(WireField { number, value: FieldValue::Bytes(b) });
        assert(fields_view(fields@) =~= fields_view(old(fields)@) + bytes_entry(number, b_view));
    }
}

/// Adds the entry of a varint value to a field list.
pub fn push_varint_entry(fields: &mut Vec<WireField>, number: u64, x: u64)
    ensures
        fields_view(final(fields)@) == fields_view(old(fields)@) + varint_entry(number, x),
{
    if x == 0 {
        assert(fields_view(fields@) + varint_entry(number, x) =~= fields_view(fields@));
    } else {
        fields.push(WireField { number, value: FieldValue::Varint(x) });
        assert(fields_view(fields@) =~= fields_view(old(fields)@) + varint_entry(number, x));
    }
}

} // verus!

verus! {

/// The field list entry of an embedded message: always written, since its
/// presence carries meaning even when its encoding is empty.
pub open spec fn message_entry(number: u64, b: Seq<u8>) -> Seq<SpecField> {
    seq![SpecField { number, value: SpecFieldValue::Bytes(b) }]
}

/// The last occurrence in a concatenation is in the second part where the
/// second part has one, and in the first part otherwise.
pub proof fn lemma_last_field_append(a: Seq<SpecField>, b: Seq<SpecField>, number: u64)
    ensures
        last_field(a + b, number) == match last_field(b, number) {
            Some(v) => Some(v),
            None => last_field(a, number),
        },
    decreases b.len(),
{
    if b.len() == 0 {
        assert(a + b =~= a);
    } else {
        assert((a + b).drop_last() =~= a + b.drop_last());
        assert((a + b).last() == b.last());
        lemma_last_field_append(a, b.drop_last(), number);
    }
}

/// The wire-type conditions hold of a concatenation exactly when they hold of
/// both parts.
pub proof fn lemma_all_append(a: Seq<SpecField>, b: Seq<SpecField>, number: u64)
    ensures
        all_bytes(a + b, number) == (all_bytes(a, number) && all_bytes(b, number)),
        all_varint(a + b, number) == (all_varint(a, number) && all_varint(b, number)),
{
    let s = a + b;
    if all_bytes(a, number) && all_bytes(b, number) {
        assert forall|i: int| 0 <= i < s.len() && (#[trigger] s[i]).number == number implies s[i].value is Bytes by {
            if i < a.len() {
                assert(s[i] == a[i]);
            } else {
                assert(s[i] == b[i - a.len()]);
            }
        }
    }
    if all_bytes(s, number) {
        assert forall|i: int| 0 <= i < a.len() && (#[trigger] a[i]).number == number implies a[i].value is Bytes by {
            assert(s[i] == a[i]);
        }
        assert forall|i: int| 0 <= i < b.len() && (#[trigger] b[i]).number == number implies b[i].value is Bytes by {
            assert(s[i + a.len()] == b[i]);
        }
    }
    if all_varint(a, number) && all_varint(b, number) {
        assert forall|i: int| 0 <= i < s.len() && (#[trigger] s[i]).number == number implies s[i].value is Varint by {
            if i < a.len() {
                assert(s[i] == a[i]);
            } else {
                assert(s[i] == b[i - a.len()]);
            }
        }
    }
    if all_varint(s, number) {
        assert forall|i: int| 0 <= i < a.len() && (#[trigger] a[i]).number == number implies a[i].value is Varint by {
            assert(s[i] == a[i]);
        }
        assert forall|i: int| 0 <= i < b.len() && (#[trigger] b[i]).number == number implies b[i].value is Varint by {
            assert(s[i + a.len()] == b[i]);
        }
    }
}

/// What a single entry contributes to field lookups.
pub proof fn lemma_entry_lookups(n: u64, b: Seq<u8>, x: u64, number: u64)
    ensures
        last_field(bytes_entry(n, b), number) == if n == number && b.len() > 0 {
            Some(SpecFieldValue::Bytes(b))
        } else {
            None
        },
        last_field(message_entry(n, b), number) == if n == number {
            Some(SpecFieldValue::Bytes(b))
        } else {
            None
        },
        last_field(varint_entry(n, x), number) == if n == number && x != 0 {
            Some(SpecFieldValue::Varint(x))
        } else {
            None
        },
        all_bytes(bytes_entry(n, b), number),
        all_bytes(message_entry(n, b), number),
        n != number ==> all_bytes(varint_entry(n, x), number),
        all_varint(varint_entry(n, x), number),
        n != number ==> all_varint(bytes_entry(n, b), number),
        n != number ==> all_varint(message_entry(n, b), number),
{
    assert(bytes_entry(n, b).len() > 0 ==> bytes_entry(n, b).drop_last() =~= seq![]);
    assert(message_entry(n, b).drop_last() =~= seq![]);
    assert(varint_entry(n, x).len() > 0 ==> varint_entry(n, x).drop_last() =~= seq![]);
}

} // verus!

verus! {

/// Values of all length-delimited fields numbered `number`, in order.
pub open spec fn repeated_bytes(fs: Seq<SpecField>, number: u64) -> Seq<Seq<u8>>
    decreases fs.len(),
{
    if fs.len() == 0 {
        seq![]
    } else {
        let rest = repeated_bytes(fs.drop_last(), number);
        if fs.last().number == number {
            match fs.last().value {
                SpecFieldValue::Bytes(b) => rest.push(b),
                SpecFieldValue::Varint(_) => rest,
            }
        } else {
            rest
        }
    }
}

/// The field list of a repeated embedded message.
pub open spec fn repeated_entries(number: u64, items: Seq<Seq<u8>>) -> Seq<SpecField> {
    Seq::new(items.len(), |i: int| SpecField { number, value: SpecFieldValue::Bytes(items[i]) })
}

/// Collecting the repeated field back from its entries gives the items.
pub proof fn lemma_repeated_roundtrip(number: u64, items: Seq<Seq<u8>>)
    ensures
        repeated_bytes(repeated_entries(number, items), number) == items,
        all_bytes(repeated_entries(number, items), number),
    decreases items.len(),
{
    if items.len() > 0 {
        let init = items.drop_last();
        assert(repeated_entries(number, items).drop_last() =~= repeated_entries(number, init));
        lemma_repeated_roundtrip(number, init);
        assert(init.push(items.last()) =~= items);
    }
}

/// Values of the repeated length-delimited field `number`, or `None` where
/// a field with that number has another wire type.
pub fn get_repeated_bytes(fields: &Vec<WireField>, number: u64) -> (r: Option<Vec<Vec<u8>>>)
    ensures
        r is Some <==> all_bytes(fields_view(fields@), number),
        r matches Some(v) ==> v@.map_values(|b: Vec<u8>| b@) == repeated_bytes(
            fields_view(fields@),
            number,
        ),
{
    let ghost fv = fields_view(fields@);
    let mut out: Vec<Vec<u8>> = Vec::new();
    let mut i: usize = 0;
    while i < fields.len()
        invariant
            i <= fields@.len(),
            fv == fields_view(fields@),
            all_bytes(fv.subrange(0, i as int), number),
            out@.map_values(|b: Vec<u8>| b@) == repeated_bytes(fv.subrange(0, i as int), number),
        decreases fields@.len() - i,
    {
        let ghost pre = fv.subrange(0, i as int);
        assert(fv.subrange(0, i + 1).drop_last() =~= pre);
        if fields[i].number == number {
            match &fields[i].value {
                FieldValue::Bytes(b) => {
                    let c = copy_bytes(b.as_slice());
                    let ghost old_out = out@;
                    out.push(c);
                    assert(out@.map_values(|b: Vec<u8>| b@) =~= old_out.map_values(|b: Vec<u8>| b@).push(c@));
                },
                FieldValue::Varint(_) => {
                    assert(!all_bytes(fv, number)) by {
                        assert(fv[i as int].number == number);
                    }
                    return None;
                },
            }
        }
        proof {
            assert forall|k: int|
                0 <= k < i + 1 && (#[trigger] fv.subrange(0, i + 1)[k]).number
                    == number implies fv.subrange(0, i + 1)[k].value is Bytes by {
                if k < i {
                    assert(fv.subrange(0, i + 1)[k] == pre[k]);
                }
            }
        }
        i = i + 1;
    }
    assert(fv.subrange(0, fields@.len() as int) =~= fv);
    Some(out)
}

} // verus!

verus! {

/// Whether a field numbered `number` occurs.
pub fn has_field(fields: &Vec<WireField>, number: u64) -> (r: bool)
    ensures
        r == last_field(fields_view(fields@), number) is Some,
{
    let ghost fv = fields_view(fields@);
    let mut found = false;
    let mut i: usize = 0;
    while i < fields.len()
        invariant
            i <= fields@.len(),
            fv == fields_view(fields@),
            found == last_field(fv.subrange(0, i as int), number) is Some,
        decreases fields@.len() - i,
    {
        assert(fv.subrange(0, i + 1).drop_last() =~= fv.subrange(0, i as int));
        if fields[i].number == number {
            found = true;
        }
        i = i + 1;
    }
    assert(fv.subrange(0, fields@.len() as int) =~= fv);
    found
}

} // verus!
