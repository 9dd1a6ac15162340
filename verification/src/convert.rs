//! Conversions between strings, slot vectors and character code points: the
//! convenience encoding that stores one slot per character.

use vstd::prelude::*;
use vstd::std_specs::iter::IteratorSpec;
use vstd::utf8::{char_is_scalar, char_u32_cast, is_scalar};

verus! {

broadcast use vstd::string::group_string_axioms;

/// The slot encoding of a string: one `u32` code point per character.
pub open spec fn string_slots(s: Seq<char>) -> Seq<u32> {
    s.map_values(|c: char| c as u32)
}

/// The string a slot vector decodes to: each slot that holds a Unicode
/// scalar value becomes one character, the rest are skipped.
pub open spec fn decoded_slots(v: Seq<u32>) -> Seq<char>
    decreases v.len(),
{
    if v.len() == 0 {
        Seq::empty()
    } else {
        (if is_scalar(v[0]) {
            seq![v[0] as char]
        } else {
            Seq::empty()
        }) + decoded_slots(v.drop_first())
    }
}

/// Decoding treats a slot vector one slot at a time: appending a slot
/// appends its decoding.
pub proof fn lemma_decoded_slots_push(v: Seq<u32>, x: u32)
    ensures
        decoded_slots(v.push(x)) == decoded_slots(v) + (if is_scalar(x) {
            seq![x as char]
        } else {
            Seq::<char>::empty()
        }),
    decreases v.len(),
{
    let opt = if is_scalar(x) {
        seq![x as char]
    } else {
        Seq::<char>::empty()
    };
    if v.len() == 0 {
        assert(v.push(x)[0] == x);
        assert(v.push(x).drop_first() =~= Seq::<u32>::empty());
        assert(decoded_slots(v.push(x)) == opt + decoded_slots(Seq::<u32>::empty()));
        assert(opt + Seq::<char>::empty() =~= opt);
        assert(decoded_slots(v) + opt =~= opt);
    } else {
        let head = if is_scalar(v[0]) {
            seq![v[0] as char]
        } else {
            Seq::<char>::empty()
        };
        assert(v.push(x)[0] == v[0]);
        assert(v.push(x).drop_first() =~= v.drop_first().push(x));
        lemma_decoded_slots_push(v.drop_first(), x);
        assert(decoded_slots(v.push(x)) == head + (decoded_slots(v.drop_first()) + opt));
        assert(decoded_slots(v) + opt == (head + decoded_slots(v.drop_first())) + opt);
        assert(head + (decoded_slots(v.drop_first()) + opt) =~= (head + decoded_slots(
            v.drop_first(),
        )) + opt);
    }
}

/// The string round trip: encoding a string one code point per slot and
/// decoding the slots yields the same string, whatever the string was.
pub proof fn lemma_string_round_trip(s: Seq<char>)
    ensures
        decoded_slots(string_slots(s)) == s,
    decreases s.len(),
{
    if s.len() > 0 {
        char_is_scalar(s[0]);
        char_u32_cast(s[0], s[0] as u32);
        assert(string_slots(s)[0] == s[0] as u32);
        assert(string_slots(s).drop_first() =~= string_slots(s.drop_first()));
        lemma_string_round_trip(s.drop_first());
        assert(decoded_slots(string_slots(s)) =~= s);
    }
}

/// Relies on `char::from_u32`: `Some` exactly for the Unicode scalar
/// values, and the returned character carries the given code point.
#[verifier::external_body]
pub(crate) fn char_from_u32(v: u32) -> (r: Option<char>)
    ensures
        r == (if is_scalar(v) {
            Some(v as char)
        } else {
            None::<char>
        }),
{
    char::from_u32(v)
}

/// Relies on `String::push`: appends exactly one character.
#[verifier::external_body]
pub(crate) fn push_char(s: &mut String, c: char)
    ensures
        final(s)@ == old(s)@.push(c),
{
    s.push(c);
}

/// Encodes a string as one `u32` code point per character.
pub fn convert_string_to_int_array(s: &str) -> (r: Vec<u32>)
    ensures
        r@ == string_slots(s@),
{
    let mut out: Vec<u32> = Vec::new();
    let mut it = s.chars();
    proof {
        assert(it.remaining() == s@);
    }
    loop
        invariant
            out@.len() <= s@.len(),
            it.obeys_prophetic_iter_laws(),
            it.remaining() == s@.skip(out@.len() as int),
            out@ == string_slots(s@.take(out@.len() as int)),
        decreases s@.len() - out@.len(),
    {
        let ghost k = out@.len() as int;
        match it.next() {
            Some(c) => {
                proof {
                    assert(s@.skip(k)[0] == s@[k]);
                    assert(s@.skip(k).drop_first() =~= s@.skip(k + 1));
                }
                out.push(c as u32);
                proof {
                    assert(out@ =~= string_slots(s@.take(k + 1)));
                }
            },
            None => {
                proof {
                    assert(s@.skip(k).len() == 0);
                    assert(s@.take(k) =~= s@);
                }
                return out;
            },
        }
    }
}

/// Whether two slot arrays hold the same values in the same order.
pub fn compare_arrays(a: &[u32], b: &[u32]) -> (r: bool)
    ensures
        r == (a@ == b@),
{
    if a.len() != b.len() {
        proof {
            assert(a@ != b@);
        }
        return false;
    }
    let mut i: usize = 0;
    while i < a.len()
        invariant
            i <= a@.len(),
            a@.len() == b@.len(),
            forall|j: int| 0 <= j < i ==> a@[j] == b@[j],
        decreases a@.len() - i,
    {
        if a[i] != b[i] {
            proof {
                assert(a@ != b@);
            }
            return false;
        }
        i = i + 1;
    }
    proof {
        assert(a@ =~= b@);
    }
    true
}

/// Decodes an array of code points back into a string. Every value must be
/// a Unicode scalar value; the encoding side only ever produces such values.
pub fn convert_int_array_to_string(arr: &[u32]) -> (r: String)
    requires
        forall|i: int| 0 <= i < arr@.len() ==> is_scalar(arr@[i]),
    ensures
        r@ == arr@.map_values(|v: u32| v as char),
{
    let mut out = String::new();
    let mut i: usize = 0;
    while i < arr.len()
        invariant
            i <= arr@.len(),
            forall|j: int| 0 <= j < arr@.len() ==> is_scalar(arr@[j]),
            out@ == arr@.take(i as int).map_values(|v: u32| v as char),
        decreases arr@.len() - i,
    {
        match char_from_u32(arr[i]) {
            Some(c) => {
                push_char(&mut out, c);
            },
            None => {
                proof {
                    assert(false);
                }
            },
        }
        proof {
            assert(out@ =~= arr@.take(i as int + 1).map_values(|v: u32| v as char));
        }
        i = i + 1;
    }
    proof {
        assert(arr@.take(arr@.len() as int) =~= arr@);
    }
    out
}

/// Concatenates two slot arrays.
pub fn concatenate_arrays(a: &[u32], b: &[u32]) -> (r: Vec<u32>)
    ensures
        r@ == a@ + b@,
{
    let mut out: Vec<u32> = Vec::new();
    let mut i: usize = 0;
    while i < a.len()
        invariant
            i <= a@.len(),
            out@ == a@.take(i as int),
        decreases a@.len() - i,
    {
        out.push(a[i]);
        proof {
            assert(out@ =~= a@.take(i as int + 1));
        }
        i = i + 1;
    }
    let mut j: usize = 0;
    while j < b.len()
        invariant
            out@.len() == a@.len() + j,
            j <= b@.len(),
            out@ == a@.take(a@.len() as int) + b@.take(j as int),
        decreases b@.len() - j,
    {
        out.push(b[j]);
        proof {
            assert(out@ =~= a@.take(a@.len() as int) + b@.take(j as int + 1));
        }
        j = j + 1;
    }
    proof {
        assert(a@.take(a@.len() as int) =~= a@);
        assert(b@.take(b@.len() as int) =~= b@);
        assert(a@.take(a@.len() as int) + b@.take(b@.len() as int) =~= a@ + b@);
    }
    out
}

} // verus!
