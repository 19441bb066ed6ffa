//! Wire encoding of the values that travel inside handshake messages.
//!
//! Integers are eight bytes, little-endian. A byte string is its length
//! followed by its bytes, an optional value a presence byte followed by the
//! value, a list its length followed by its items. Every parser is the exact
//! inverse of its encoder on whatever follows the encoded value.

use vstd::prelude::*;
use vstd::bytes::*;
use crate::bytes::{append_bytes, copy_range};

verus! {

/// Whether a length can be written as a length prefix.
pub open spec fn fits(len: nat) -> bool {
    len <= u64::MAX
}

pub open spec fn spec_encode_u64(value: u64) -> Seq<u8> {
    spec_u64_to_le_bytes(value)
}

pub open spec fn spec_parse_u64(input: Seq<u8>) -> Option<(u64, Seq<u8>)> {
    if input.len() < 8 {
        None
    } else {
        Some((spec_u64_from_le_bytes(input.subrange(0, 8)), input.subrange(8, input.len() as int)))
    }
}

pub open spec fn spec_encode_bytes(data: Seq<u8>) -> Seq<u8> {
    spec_encode_u64(data.len() as u64) + data
}

pub open spec fn spec_parse_bytes(input: Seq<u8>) -> Option<(Seq<u8>, Seq<u8>)> {
    match spec_parse_u64(input) {
        None => None,
        Some((len, rest)) => if rest.len() < len {
            None
        } else {
            Some((rest.subrange(0, len as int), rest.subrange(len as int, rest.len() as int)))
        },
    }
}

pub open spec fn spec_encode_option(value: Option<Seq<u8>>) -> Seq<u8> {
    match value {
        None => seq![0u8],
        Some(data) => seq![1u8] + spec_encode_bytes(data),
    }
}

pub open spec fn spec_parse_option(input: Seq<u8>) -> Option<(Option<Seq<u8>>, Seq<u8>)> {
    if input.len() < 1 {
        None
    } else if input[0] == 0u8 {
        Some((None, input.subrange(1, input.len() as int)))
    } else if input[0] == 1u8 {
        match spec_parse_bytes(input.subrange(1, input.len() as int)) {
            None => None,
            Some((data, rest)) => Some((Some(data), rest)),
        }
    } else {
        None
    }
}

pub open spec fn spec_encode_option_u64(value: Option<u64>) -> Seq<u8> {
    match value {
        None => seq![0u8],
        Some(number) => seq![1u8] + spec_encode_u64(number),
    }
}

pub open spec fn spec_parse_option_u64(input: Seq<u8>) -> Option<(Option<u64>, Seq<u8>)> {
    if input.len() < 1 {
        None
    } else if input[0] == 0u8 {
        Some((None, input.subrange(1, input.len() as int)))
    } else if input[0] == 1u8 {
        match spec_parse_u64(input.subrange(1, input.len() as int)) {
            None => None,
            Some((number, rest)) => Some((Some(number), rest)),
        }
    } else {
        None
    }
}

pub open spec fn option_fits(value: Option<Seq<u8>>) -> bool {
    match value {
        None => true,
        Some(data) => fits(data.len()),
    }
}

pub proof fn lemma_u64_roundtrip(value: u64, tail: Seq<u8>)
    ensures
        spec_parse_u64(spec_encode_u64(value) + tail) == Some((value, tail)),
{
    lemma_auto_spec_u64_to_from_le_bytes();
    let input = spec_encode_u64(value) + tail;
    assert(input.subrange(0, 8) =~= spec_encode_u64(value));
    assert(input.subrange(8, input.len() as int) =~= tail);
}

pub proof fn lemma_bytes_roundtrip(data: Seq<u8>, tail: Seq<u8>)
    requires
        fits(data.len()),
    ensures
        spec_parse_bytes(spec_encode_bytes(data) + tail) == Some((data, tail)),
{
    let len = data.len() as u64;
    assert(spec_encode_bytes(data) + tail =~= spec_encode_u64(len) + (data + tail));
    lemma_u64_roundtrip(len, data + tail);
    assert((data + tail).subrange(0, len as int) =~= data);
    assert((data + tail).subrange(len as int, (data + tail).len() as int) =~= tail);
}

pub proof fn lemma_option_roundtrip(value: Option<Seq<u8>>, tail: Seq<u8>)
    requires
        option_fits(value),
    ensures
        spec_parse_option(spec_encode_option(value) + tail) == Some((value, tail)),
{
    let input = spec_encode_option(value) + tail;
    match value {
        None => {
            assert(input.subrange(1, input.len() as int) =~= tail);
        },
        Some(data) => {
            assert(input.subrange(1, input.len() as int) =~= spec_encode_bytes(data) + tail);
            lemma_bytes_roundtrip(data, tail);
        },
    }
}

pub proof fn lemma_option_u64_roundtrip(value: Option<u64>, tail: Seq<u8>)
    ensures
        spec_parse_option_u64(spec_encode_option_u64(value) + tail) == Some((value, tail)),
{
    let input = spec_encode_option_u64(value) + tail;
    match value {
        None => {
            assert(input.subrange(1, input.len() as int) =~= tail);
        },
        Some(number) => {
            assert(input.subrange(1, input.len() as int) =~= spec_encode_u64(number) + tail);
            lemma_u64_roundtrip(number, tail);
        },
    }
}

/// What is left of `data` from `pos` on.
pub open spec fn rest_of(data: Seq<u8>, pos: int) -> Seq<u8> {
    data.subrange(pos, data.len() as int)
}

pub fn encode_u64(value: u64, out: &mut Vec<u8>)
    ensures
        final(out)@ == old(out)@ + spec_encode_u64(value),
{
    let encoded = u64_to_le_bytes(value);
    append_bytes(out, encoded.as_slice());
}

pub fn encode_bytes(data: &[u8], out: &mut Vec<u8>)
    ensures
        final(out)@ == old(out)@ + spec_encode_bytes(data@),
{
    let ghost start = out@;
    encode_u64(data.len() as u64, out);
    append_bytes(out, data);
    assert(out@ =~= start + spec_encode_bytes(data@));
}

pub fn encode_option(value: &Option<Vec<u8>>, out: &mut Vec<u8>)
    ensures
        final(out)@ == old(out)@ + spec_encode_option(
            match value {
                Some(data) => Some(data@),
                None => None,
            },
        ),
{
    let ghost start = out@;
    match value {
        None => {
            out.push(0u8);
            assert(out@ =~= start + seq![0u8]);
        },
        Some(data) => {
            out.push(1u8);
            encode_bytes(data.as_slice(), out);
            assert(out@ =~= start + (seq![1u8] + spec_encode_bytes(data@)));
        },
    }
}

pub fn encode_option_u64(value: Option<u64>, out: &mut Vec<u8>)
    ensures
        final(out)@ == old(out)@ + spec_encode_option_u64(value),
{
    let ghost start = out@;
    match value {
        None => {
            out.push(0u8);
            assert(out@ =~= start + seq![0u8]);
        },
        Some(number) => {
            out.push(1u8);
            encode_u64(number, out);
            assert(out@ =~= start + (seq![1u8] + spec_encode_u64(number)));
        },
    }
}

/// Reads an integer at `pos`; returns it with the position after it.
pub fn parse_u64(data: &[u8], pos: usize) -> (r: Option<(u64, usize)>)
    requires
        pos <= data@.len(),
    ensures
        match r {
            Some((value, next)) => pos <= next <= data@.len() && spec_parse_u64(
                rest_of(data@, pos as int),
            ) == Some((value, rest_of(data@, next as int))),
            None => spec_parse_u64(rest_of(data@, pos as int)) is None,
        },
{
    if data.len() - pos < 8 {
        return None;
    }
    let field = copy_range(data, pos, pos + 8);
    let value = u64_from_le_bytes(field.as_slice());
    proof {
        let input = rest_of(data@, pos as int);
        assert(input.subrange(0, 8) =~= field@);
        assert(input.subrange(8, input.len() as int) =~= rest_of(data@, pos + 8));
    }
    Some((value, pos + 8))
}

/// Reads a length-prefixed byte string at `pos`.
pub fn parse_bytes(data: &[u8], pos: usize) -> (r: Option<(Vec<u8>, usize)>)
    requires
        pos <= data@.len(),
    ensures
        match r {
            Some((value, next)) => pos <= next <= data@.len() && spec_parse_bytes(
                rest_of(data@, pos as int),
            ) == Some((value@, rest_of(data@, next as int))),
            None => spec_parse_bytes(rest_of(data@, pos as int)) is None,
        },
{
    match parse_u64(data, pos) {
        None => None,
        Some((len, start)) => {
            if ((data.len() - start) as u64) < len {
                return None;
            }
            let end = start + len as usize;
            let value = copy_range(data, start, end);
            proof {
                let rest = rest_of(data@, start as int);
                assert(rest.subrange(0, len as int) =~= value@);
                assert(rest.subrange(len as int, rest.len() as int) =~= rest_of(
                    data@,
                    end as int,
                ));
            }
            Some((value, end))
        },
    }
}

/// Reads an optional byte string at `pos`.
pub fn parse_option(data: &[u8], pos: usize) -> (r: Option<(Option<Vec<u8>>, usize)>)
    requires
        pos <= data@.len(),
    ensures
        match r {
            Some((value, next)) => pos <= next <= data@.len() && spec_parse_option(
                rest_of(data@, pos as int),
            ) == Some(
                (
                    match value {
                        Some(v) => Some(v@),
                        None => None,
                    },
                    rest_of(data@, next as int),
                ),
            ),
            None => spec_parse_option(rest_of(data@, pos as int)) is None,
        },
{
    if pos >= data.len() {
        return None;
    }
    let tag = data[pos];
    proof {
        let input = rest_of(data@, pos as int);
        assert(input[0] == tag);
        assert(input.subrange(1, input.len() as int) =~= rest_of(data@, pos + 1));
    }
    if tag == 0u8 {
        Some((None, pos + 1))
    } else if tag == 1u8 {
        match parse_bytes(data, pos + 1) {
            None => None,
            Some((value, next)) => Some((Some(value), next)),
        }
    } else {
        None
    }
}

/// Reads an optional integer at `pos`.
pub fn parse_option_u64(data: &[u8], pos: usize) -> (r: Option<(Option<u64>, usize)>)
    requires
        pos <= data@.len(),
    ensures
        match r {
            Some((value, next)) => pos <= next <= data@.len() && spec_parse_option_u64(
                rest_of(data@, pos as int),
            ) == Some((value, rest_of(data@, next as int))),
            None => spec_parse_option_u64(rest_of(data@, pos as int)) is None,
        },
{
    if pos >= data.len() {
        return None;
    }
    let tag = data[pos];
    proof {
        let input = rest_of(data@, pos as int);
        assert(input[0] == tag);
        assert(input.subrange(1, input.len() as int) =~= rest_of(data@, pos + 1));
    }
    if tag == 0u8 {
        Some((None, pos + 1))
    } else if tag == 1u8 {
        match parse_u64(data, pos + 1) {
            None => None,
            Some((value, next)) => Some((Some(value), next)),
        }
    } else {
        None
    }
}

/// A value with a wire encoding.
pub trait Wire: Sized + View {
    /// Whether every length inside `value` can be written as a length prefix.
    spec fn spec_fits(value: Self::V) -> bool;

    spec fn spec_encode(value: Self::V) -> Seq<u8>;

    /// The value at the head of `input` and what follows it.
    spec fn spec_parse(input: Seq<u8>) -> Option<(Self::V, Seq<u8>)>;

    /// Parsing undoes encoding, whatever follows the encoded value.
    proof fn lemma_roundtrip(value: Self::V, tail: Seq<u8>)
        requires
            Self::spec_fits(value),
        ensures
            Self::spec_parse(Self::spec_encode(value) + tail) == Some((value, tail)),
    ;

    /// Every value in memory can be encoded.
    proof fn lemma_fits(&self)
        ensures
            Self::spec_fits(self@),
    ;

    fn encode(&self, out: &mut Vec<u8>)
        ensures
            final(out)@ == old(out)@ + Self::spec_encode(self@),
    ;

    fn parse(data: &[u8], pos: usize) -> (r: Option<(Self, usize)>)
        requires
            pos <= data@.len(),
        ensures
            match r {
                Some((value, next)) => pos <= next <= data@.len() && Self::spec_parse(
                    rest_of(data@, pos as int),
                ) == Some((value@, rest_of(data@, next as int))),
                None => Self::spec_parse(rest_of(data@, pos as int)) is None,
            },
    ;
}

/// The views of the items of a list, in order.
pub open spec fn views<T: View>(items: Seq<T>) -> Seq<T::V> {
    Seq::new(items.len(), |i: int| items[i]@)
}

pub open spec fn spec_encode_items<T: Wire>(items: Seq<T::V>) -> Seq<u8>
    decreases items.len(),
{
    if items.len() == 0 {
        Seq::empty()
    } else {
        T::spec_encode(items[0]) + spec_encode_items::<T>(items.drop_first())
    }
}

pub open spec fn spec_encode_list<T: Wire>(items: Seq<T::V>) -> Seq<u8> {
    spec_encode_u64(items.len() as u64) + spec_encode_items::<T>(items)
}

pub open spec fn spec_parse_items<T: Wire>(input: Seq<u8>, count: nat) -> Option<
    (Seq<T::V>, Seq<u8>),
>
    decreases count,
{
    if count == 0 {
        Some((Seq::empty(), input))
    } else {
        match T::spec_parse(input) {
            None => None,
            Some((head, rest)) => match spec_parse_items::<T>(rest, (count - 1) as nat) {
                None => None,
                Some((others, left)) => Some((seq![head] + others, left)),
            },
        }
    }
}

pub open spec fn spec_parse_list<T: Wire>(input: Seq<u8>) -> Option<(Seq<T::V>, Seq<u8>)> {
    match spec_parse_u64(input) {
        None => None,
        Some((count, rest)) => spec_parse_items::<T>(rest, count as nat),
    }
}

pub open spec fn list_fits<T: Wire>(items: Seq<T::V>) -> bool {
    &&& fits(items.len())
    &&& forall|i: int| 0 <= i < items.len() ==> T::spec_fits(#[trigger] items[i])
}

pub proof fn lemma_encode_items_push<T: Wire>(items: Seq<T::V>, last: T::V)
    ensures
        spec_encode_items::<T>(items.push(last)) == spec_encode_items::<T>(items)
            + T::spec_encode(last),
    decreases items.len(),
{
    if items.len() == 0 {
        let one = items.push(last);
        assert(one.drop_first() =~= Seq::<T::V>::empty());
        assert(spec_encode_items::<T>(one.drop_first()) =~= Seq::<u8>::empty());
        assert(one[0] == last);
        assert(spec_encode_items::<T>(one) =~= T::spec_encode(last));
        assert(spec_encode_items::<T>(items) + T::spec_encode(last) =~= T::spec_encode(last));
    } else {
        assert(items.push(last).drop_first() =~= items.drop_first().push(last));
        lemma_encode_items_push::<T>(items.drop_first(), last);
        assert(spec_encode_items::<T>(items.push(last)) =~= spec_encode_items::<T>(items)
            + T::spec_encode(last));
    }
}

pub proof fn lemma_items_roundtrip<T: Wire>(items: Seq<T::V>, tail: Seq<u8>)
    requires
        forall|i: int| 0 <= i < items.len() ==> T::spec_fits(#[trigger] items[i]),
    ensures
        spec_parse_items::<T>(spec_encode_items::<T>(items) + tail, items.len()) == Some(
            (items, tail),
        ),
    decreases items.len(),
{
    if items.len() == 0 {
        assert(spec_encode_items::<T>(items) + tail =~= tail);
        assert(items =~= Seq::<T::V>::empty());
    } else {
        let others = items.drop_first();
        let after = spec_encode_items::<T>(others) + tail;
        assert(spec_encode_items::<T>(items) + tail =~= T::spec_encode(items[0]) + after);
        assert(T::spec_fits(items[0]));
        T::lemma_roundtrip(items[0], after);
        assert forall|i: int| 0 <= i < others.len() implies T::spec_fits(
            #[trigger] others[i],
        ) by {
            assert(others[i] == items[i + 1]);
        }
        lemma_items_roundtrip::<T>(others, tail);
        assert(seq![items[0]] + others =~= items);
    }
}

/// Parsing a list undoes encoding it, whatever follows.
pub proof fn lemma_list_roundtrip<T: Wire>(items: Seq<T::V>, tail: Seq<u8>)
    requires
        list_fits::<T>(items),
    ensures
        spec_parse_list::<T>(spec_encode_list::<T>(items) + tail) == Some((items, tail)),
{
    let after = spec_encode_items::<T>(items) + tail;
    assert(spec_encode_list::<T>(items) + tail =~= spec_encode_u64(items.len() as u64) + after);
    lemma_u64_roundtrip(items.len() as u64, after);
    lemma_items_roundtrip::<T>(items, tail);
}

/// Every list in memory can be encoded.
pub proof fn lemma_list_fits<T: Wire>(items: &Vec<T>)
    ensures
        list_fits::<T>(views(items@)),
{
    assert(views(items@).len() == items.len());
    assert forall|i: int| 0 <= i < views(items@).len() implies T::spec_fits(
        #[trigger] views(items@)[i],
    ) by {
        items@[i].lemma_fits();
    }
}

pub fn encode_list<T: Wire>(items: &Vec<T>, out: &mut Vec<u8>)
    ensures
        final(out)@ == old(out)@ + spec_encode_list::<T>(views(items@)),
{
    let ghost start = out@;
    encode_u64(items.len() as u64, out);
    let ghost head = out@;
    let mut i: usize = 0;
    while i < items.len()
        invariant
            0 <= i <= items@.len(),
            head == start + spec_encode_u64(items@.len() as u64),
            out@ == head + spec_encode_items::<T>(views(items@).take(i as int)),
        decreases items@.len() - i,
    {
        items[i].encode(out);
        proof {
            let all = views(items@);
            lemma_encode_items_push::<T>(all.take(i as int), all[i as int]);
            assert(all.take(i as int).push(all[i as int]) =~= all.take(i + 1));
            assert(out@ =~= head + spec_encode_items::<T>(all.take(i + 1)));
        }
        i += 1;
    }
    proof {
        let all = views(items@);
        assert(all.take(all.len() as int) =~= all);
        assert(out@ =~= start + spec_encode_list::<T>(all));
    }
}

/// Reads a list at `pos`; returns it with the position after it.
pub fn parse_list<T: Wire>(data: &[u8], pos: usize) -> (r: Option<(Vec<T>, usize)>)
    requires
        pos <= data@.len(),
    ensures
        match r {
            Some((items, next)) => pos <= next <= data@.len() && spec_parse_list::<T>(
                rest_of(data@, pos as int),
            ) == Some((views(items@), rest_of(data@, next as int))),
            None => spec_parse_list::<T>(rest_of(data@, pos as int)) is None,
        },
{
    let (count, first) = match parse_u64(data, pos) {
        None => { return None; },
        Some(found) => found,
    };
    let mut items: Vec<T> = Vec::new();
    let mut at: usize = first;
    let mut done: u64 = 0;
    while done < count
        invariant
            pos <= at <= data@.len(),
            0 <= done <= count,
            items@.len() == done,
            spec_parse_list::<T>(rest_of(data@, pos as int)) == spec_parse_items::<T>(
                rest_of(data@, first as int),
                count as nat,
            ),
            spec_parse_items::<T>(rest_of(data@, first as int), count as nat) == match spec_parse_items::<
                T,
            >(rest_of(data@, at as int), (count - done) as nat) {
                None => None,
                Some((others, left)) => Some((views(items@) + others, left)),
            },
        decreases count - done,
    {
        let ghost before = views(items@);
        match T::parse(data, at) {
            None => {
                return None;
            },
            Some((item, next)) => {
                items.push(item);
                proof {
                    let after = views(items@);
                    assert(after =~= before.push(item@));
                    match spec_parse_items::<T>(
                        rest_of(data@, next as int),
                        (count - done - 1) as nat,
                    ) {
                        None => {},
                        Some((others, left)) => {
                            assert(before + (seq![item@] + others) =~= after + others);
                        },
                    }
                }
                at = next;
                done += 1;
            },
        }
    }
    proof {
        assert(views(items@) + Seq::<T::V>::empty() =~= views(items@));
    }
    Some((items, at))
}

} // verus!
