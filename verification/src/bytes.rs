//! A numeric-array encoding for byte payloads, for carrying binary
//! data through a value representation without a native binary type.
//!
//! Encoding turns each byte into one integer element of an array
//! value; decoding accepts such arrays, native byte values, and
//! strings, whose bytes are their UTF-8 encoding.  The round trip is
//! exact, which `lemma_bytes_round_trip` states.

use crate::value::{arr_view, lemma_arr_view, value_view, Value, ValueView};
use vstd::prelude::*;

verus! {

/// The UTF-8 encoding of one character.
pub open spec fn utf8_char(c: char) -> Seq<u8> {
    let n = c as u32;
    if n < 0x80 {
        seq![n as u8]
    } else if n < 0x800 {
        seq![(0xC0 + n / 0x40) as u8, (0x80 + n % 0x40) as u8]
    } else if n < 0x10000 {
        seq![
            (0xE0 + n / 0x1000) as u8,
            (0x80 + (n / 0x40) % 0x40) as u8,
            (0x80 + n % 0x40) as u8,
        ]
    } else {
        seq![
            (0xF0 + n / 0x40000) as u8,
            (0x80 + (n / 0x1000) % 0x40) as u8,
            (0x80 + (n / 0x40) % 0x40) as u8,
            (0x80 + n % 0x40) as u8,
        ]
    }
}

/// The UTF-8 encoding of a character sequence.
pub open spec fn utf8_of(s: Seq<char>) -> Seq<u8>
    decreases s.len(),
{
    if s.len() == 0 {
        Seq::empty()
    } else {
        utf8_of(s.drop_last()) + utf8_char(s.last())
    }
}

/// Encode a string as its UTF-8 bytes.
#[verifier::loop_isolation(false)]
pub fn encode_utf8(s: &str) -> (r: Vec<u8>)
    ensures
        r@ == utf8_of(s@),
{
    let n = s.unicode_len();
    let mut out: Vec<u8> = Vec::new();
    let mut i: usize = 0;
    proof {
        assert(s@.take(0int) =~= Seq::<char>::empty());
    }
    while i < n
        invariant
            i <= n,
            out@ == utf8_of(s@.take(i as int)),
        decreases n - i,
    {
        let c = s.get_char(i);
        let u = c as u32;
        if u < 0x80 {
            out.push(u as u8);
        } else if u < 0x800 {
            out.push((0xC0 + u / 0x40) as u8);
            out.push((0x80 + u % 0x40) as u8);
        } else if u < 0x10000 {
            out.push((0xE0 + u / 0x1000) as u8);
            out.push((0x80 + (u / 0x40) % 0x40) as u8);
            out.push((0x80 + u % 0x40) as u8);
        } else {
            out.push((0xF0 + u / 0x40000) as u8);
            out.push((0x80 + (u / 0x1000) % 0x40) as u8);
            out.push((0x80 + (u / 0x40) % 0x40) as u8);
            out.push((0x80 + u % 0x40) as u8);
        }
        proof {
            assert(s@.take(i + 1).drop_last() =~= s@.take(i as int));
            assert(s@.take(i + 1).last() == s@[i as int]);
            assert(out@ =~= utf8_of(s@.take(i as int)) + utf8_char(s@[i as int]));
        }
        i = i + 1;
    }
    proof {
        assert(s@.take(n as int) =~= s@);
    }
    out
}

/// The encoded form of a byte sequence: one integer per byte.
pub open spec fn encode_bytes(b: Seq<u8>) -> ValueView {
    ValueView::Arr(Seq::new(b.len(), |i: int| ValueView::Int(b[i] as int)))
}

/// The bytes a value stands for: a native byte value as it is, an
/// array of integers in byte range element by element, a string as its
/// UTF-8 encoding, nothing else.
pub open spec fn decode_value(v: ValueView) -> Option<Seq<u8>> {
    match v {
        ValueView::Bytes(b) => Some(b),
        ValueView::Str(s) => Some(utf8_of(s)),
        ValueView::Arr(a) => {
            if forall|i: int| 0 <= i < a.len() ==> ((#[trigger] a[i]) matches ValueView::Int(n)
                && 0 <= n <= 255) {
                Some(Seq::new(a.len(), |i: int| a[i]->Int_0 as u8))
            } else {
                None
            }
        },
        _ => None,
    }
}

/// Law: decoding an encoded byte sequence gives the bytes back,
/// for every byte sequence including the empty one.
pub proof fn lemma_bytes_round_trip(b: Seq<u8>)
    ensures
        decode_value(encode_bytes(b)) == Some(b),
{
    let a = Seq::new(b.len(), |i: int| ValueView::Int(b[i] as int));
    assert forall|i: int| 0 <= i < a.len() implies (#[trigger] a[i]) matches ValueView::Int(n) && 0
        <= n <= 255 by {
        assert(a[i] == ValueView::Int(b[i] as int));
    }
    assert(Seq::new(a.len(), |i: int| a[i]->Int_0 as u8) =~= b);
}

impl Value {
    /// Encode a byte slice as an array of integers.
    #[verifier::loop_isolation(false)]
    pub fn from_bytes(bytes: &[u8]) -> (r: Value)
        ensures
            r@ == encode_bytes(bytes@),
    {
        let mut out: Vec<Value> = Vec::new();
        let mut i: usize = 0;
        while i < bytes.len()
            invariant
                i <= bytes.len(),
                out@.len() == i,
                forall|j: int| 0 <= j < i ==> value_view(#[trigger] out@[j]) == ValueView::Int(
                    bytes@[j] as int,
                ),
            decreases bytes.len() - i,
        {
            out.push(Value::Int(bytes[i] as i64));
            i = i + 1;
        }
        let r = Value::Arr(out);
        proof {
            lemma_arr_view(r->Arr_0@);
            assert(arr_view(r->Arr_0@) =~= Seq::new(bytes@.len(), |i: int| ValueView::Int(
                bytes@[i] as int,
            )));
        }
        r
    }

    /// Decode the bytes this value stands for, if it stands for any.
    #[verifier::loop_isolation(false)]
    pub fn as_bytes(&self) -> (r: Option<Vec<u8>>)
        ensures
            match decode_value(self@) {
                Some(s) => r matches Some(v) && v@ == s,
                None => r is None,
            },
    {
        match self {
            Value::Str(s) => Some(encode_utf8(s.as_str())),
            Value::Bytes(b) => {
                let mut out: Vec<u8> = Vec::new();
                let mut i: usize = 0;
                while i < b.len()
                    invariant
                        i <= b.len(),
                        out@ == b@.take(i as int),
                    decreases b.len() - i,
                {
                    out.push(b[i]);
                    proof {
                        assert(out@ =~= b@.take(i + 1));
                    }
                    i = i + 1;
                }
                proof {
                    assert(out@ =~= b@);
                }
                Some(out)
            },
            Value::Arr(a) => {
                proof {
                    lemma_arr_view(a@);
                }
                let ghost av = arr_view(a@);
                let mut out: Vec<u8> = Vec::new();
                let mut i: usize = 0;
                while i < a.len()
                    invariant
                        i <= a.len(),
                        out@.len() == i,
                        forall|j: int| 0 <= j < i ==> ((#[trigger] av[j]) matches ValueView::Int(
                            n,
                        ) && 0 <= n <= 255),
                        forall|j: int| 0 <= j < i ==> #[trigger] out@[j] == av[j]->Int_0 as u8,
                    decreases a.len() - i,
                {
                    match &a[i] {
                        Value::Int(n) => {
                            let n = *n;
                            if 0 <= n && n <= 255 {
                                out.push(n as u8);
                            } else {
                                proof {
                                    assert(av[i as int] matches ValueView::Int(m) && !(0 <= m
                                        <= 255));
                                }
                                return None;
                            }
                        },
                        _ => {
                            proof {
                                assert(!(av[i as int] is Int));
                            }
                            return None;
                        },
                    }
                    i = i + 1;
                }
                proof {
                    assert(out@ =~= Seq::new(av.len(), |j: int| av[j]->Int_0 as u8));
                }
                Some(out)
            },
            _ => None,
        }
    }
}

} // verus!
