//! Random passwords over chosen classes of characters.

use crate::primitives::random::{pick_one, pick_several, shuffle};
use crate::strings::{all_ascii, ascii_string, lemma_ascii_is_utf8};
use vstd::prelude::*;
use vstd::utf8::encode_utf8;

verus! {

/// The capital letters that a password may hold: all but `I` and `O`.
pub const UPPER: [u8; 24] = [
    65, 66, 67, 68, 69, 70, 71, 72, 74, 75, 76, 77, 78, 80, 81, 82, 83, 84, 85, 86, 87, 88, 89, 90,
];

/// The small letters that a password may hold: all but `l`.
pub const LOWER: [u8; 25] = [
    97, 98, 99, 100, 101, 102, 103, 104, 105, 106, 107, 109, 110, 111, 112, 113, 114, 115, 116,
    117, 118, 119, 120, 121, 122,
];

/// The digits that a password may hold: all but `0` and `1`.
pub const NUMBER: [u8; 8] = [50, 51, 52, 53, 54, 55, 56, 57];

/// The signs that a password may hold: `!@#$%^&*_`.
pub const SYMBOL: [u8; 9] = [33, 64, 35, 36, 37, 94, 38, 42, 95];

/// The characters of one class, or none where the class is not asked for.
pub open spec fn class(wanted: bool, letters: Seq<u8>) -> Seq<u8> {
    if wanted {
        letters
    } else {
        Seq::empty()
    }
}

/// All characters of the classes asked for.
pub open spec fn pool(upper: bool, lower: bool, number: bool, symbol: bool) -> Seq<u8> {
    class(upper, UPPER@) + class(lower, LOWER@) + class(number, NUMBER@) + class(symbol, SYMBOL@)
}

/// The number of classes asked for.
pub open spec fn classes(upper: bool, lower: bool, number: bool, symbol: bool) -> nat {
    (if upper { 1nat } else { 0 }) + (if lower { 1nat } else { 0 }) + (if number { 1nat } else { 0 })
        + (if symbol { 1nat } else { 0 })
}

/// The number of characters of a password: one for each class asked for,
/// then as many as are missing to `length`, but no more than the classes
/// have characters.
pub open spec fn password_len(length: u8, upper: bool, lower: bool, number: bool, symbol: bool) -> nat {
    let k = classes(upper, lower, number, symbol);
    let missing = if length > k { (length - k) as nat } else { 0 };
    let have = pool(upper, lower, number, symbol).len();
    k + if missing <= have { missing } else { have }
}

/// Whether `first` holds one character of each class asked for, in the order
/// capital letter, small letter, digit, sign.
pub open spec fn one_of_each(first: Seq<u8>, upper: bool, lower: bool, number: bool, symbol: bool) -> bool {
    let u = if upper { 1int } else { 0 };
    let l = if lower { 1int } else { 0 };
    let n = if number { 1int } else { 0 };
    &&& first.len() == classes(upper, lower, number, symbol)
    &&& upper ==> UPPER@.contains(first[0])
    &&& lower ==> LOWER@.contains(first[u])
    &&& number ==> NUMBER@.contains(first[u + l])
    &&& symbol ==> SYMBOL@.contains(first[u + l + n])
}

/// What holds of the bytes of every password: they are, in some order, one
/// character of each class asked for and further characters from different
/// positions of the pool.
pub open spec fn is_password(
    bytes: Seq<u8>,
    length: u8,
    upper: bool,
    lower: bool,
    number: bool,
    symbol: bool,
) -> bool {
    exists|first: Seq<u8>, rest: Seq<u8>|
        {
            &&& one_of_each(first, upper, lower, number, symbol)
            &&& rest.to_multiset().subset_of(pool(upper, lower, number, symbol).to_multiset())
            &&& (first + rest).len() == password_len(length, upper, lower, number, symbol)
            &&& #[trigger] (first + rest).to_multiset() == bytes.to_multiset()
        }
}

/// A random password of `length` characters over the classes asked for. One
/// character of each class comes first, whatever `length` is; the others are
/// drawn from different positions of the pool, so there are no more of them
/// than the pool has characters; then all are shuffled.
pub fn process_genpass(length: u8, upper: bool, lower: bool, number: bool, symbol: bool) -> (password:
    String)
    ensures
        is_password(encode_utf8(password@), length, upper, lower, number, symbol),
{
    let mut rng = rand::thread_rng();
    let mut chars: Vec<u8> = Vec::new();
    let mut password: Vec<u8> = Vec::new();
    if upper {
        chars.extend_from_slice(UPPER.as_slice());
        match pick_one(UPPER.as_slice(), &mut rng) {
            Some(c) => password.push(c),
            None => {},
        }
    }
    if lower {
        chars.extend_from_slice(LOWER.as_slice());
        match pick_one(LOWER.as_slice(), &mut rng) {
            Some(c) => password.push(c),
            None => {},
        }
    }
    if number {
        chars.extend_from_slice(NUMBER.as_slice());
        match pick_one(NUMBER.as_slice(), &mut rng) {
            Some(c) => password.push(c),
            None => {},
        }
    }
    if symbol {
        chars.extend_from_slice(SYMBOL.as_slice());
        match pick_one(SYMBOL.as_slice(), &mut rng) {
            Some(c) => password.push(c),
            None => {},
        }
    }
    assert(chars@ =~= pool(upper, lower, number, symbol));
    assert(one_of_each(password@, upper, lower, number, symbol));
    let ghost first = password@;
    let remain: usize = if (length as usize) > password.len() {
        length as usize - password.len()
    } else {
        0
    };
    let rest = pick_several(chars.as_slice(), &mut rng, remain);
    password.extend_from_slice(rest.as_slice());
    let ghost drawn = password@;
    assert(drawn == first + rest@);
    shuffle(&mut password, &mut rng);
    proof {
        lemma_password_is_ascii(password@, first, rest@, upper, lower, number, symbol);
        lemma_ascii_is_utf8(password@);
    }
    ascii_string(password)
}

/// A password has the number of characters that `password_len` gives.
pub proof fn lemma_password_len(
    bytes: Seq<u8>,
    length: u8,
    upper: bool,
    lower: bool,
    number: bool,
    symbol: bool,
)
    requires
        is_password(bytes, length, upper, lower, number, symbol),
    ensures
        bytes.len() == password_len(length, upper, lower, number, symbol),
{
    broadcast use vstd::seq_lib::group_to_multiset_ensures;

    let (first, rest) = choose|first: Seq<u8>, rest: Seq<u8>|
        {
            &&& one_of_each(first, upper, lower, number, symbol)
            &&& rest.to_multiset().subset_of(pool(upper, lower, number, symbol).to_multiset())
            &&& (first + rest).len() == password_len(length, upper, lower, number, symbol)
            &&& #[trigger] (first + rest).to_multiset() == bytes.to_multiset()
        };
    assert((first + rest).to_multiset().len() == (first + rest).len());
    assert(bytes.to_multiset().len() == bytes.len());
}

/// Every character of a password is one of the pool, and each class asked
/// for has a character in it.
pub proof fn lemma_password_chars(
    bytes: Seq<u8>,
    length: u8,
    upper: bool,
    lower: bool,
    number: bool,
    symbol: bool,
)
    requires
        is_password(bytes, length, upper, lower, number, symbol),
    ensures
        forall|i: int|
            0 <= i < bytes.len() ==> pool(upper, lower, number, symbol).contains(#[trigger] bytes[i]),
        upper ==> exists|i: int| 0 <= i < bytes.len() && UPPER@.contains(#[trigger] bytes[i]),
        lower ==> exists|i: int| 0 <= i < bytes.len() && LOWER@.contains(#[trigger] bytes[i]),
        number ==> exists|i: int| 0 <= i < bytes.len() && NUMBER@.contains(#[trigger] bytes[i]),
        symbol ==> exists|i: int| 0 <= i < bytes.len() && SYMBOL@.contains(#[trigger] bytes[i]),
{
    broadcast use vstd::seq_lib::group_to_multiset_ensures;

    let all = pool(upper, lower, number, symbol);
    let (first, rest) = choose|first: Seq<u8>, rest: Seq<u8>|
        {
            &&& one_of_each(first, upper, lower, number, symbol)
            &&& rest.to_multiset().subset_of(all.to_multiset())
            &&& (first + rest).len() == password_len(length, upper, lower, number, symbol)
            &&& #[trigger] (first + rest).to_multiset() == bytes.to_multiset()
        };
    let u = if upper { 1int } else { 0 };
    let l = if lower { 1int } else { 0 };
    let n = if number { 1int } else { 0 };
    assert forall|i: int| 0 <= i < bytes.len() implies all.contains(#[trigger] bytes[i]) by {
        let c = bytes[i];
        assert(bytes.contains(c));
        assert(bytes.to_multiset().count(c) > 0);
        assert((first + rest).contains(c));
        let j = choose|j: int| 0 <= j < (first + rest).len() && (first + rest)[j] == c;
        if j < first.len() {
            assert(first[j] == c);
            lemma_class_in_pool(c, upper, lower, number, symbol);
        } else {
            assert(rest[j - first.len()] == c);
            assert(rest.contains(c));
            assert(rest.to_multiset().count(c) > 0);
            assert(all.to_multiset().count(c) > 0);
        }
    }
    assert forall|k: int| 0 <= k < first.len() implies bytes.contains(#[trigger] first[k]) by {
        assert((first + rest)[k] == first[k]);
        assert((first + rest).contains(first[k]));
        assert((first + rest).to_multiset().count(first[k]) > 0);
    }
    if upper {
        assert(bytes.contains(first[0]));
    }
    if lower {
        assert(bytes.contains(first[u]));
    }
    if number {
        assert(bytes.contains(first[u + l]));
    }
    if symbol {
        assert(bytes.contains(first[u + l + n]));
    }
}

/// A character of a class asked for is a character of the pool.
proof fn lemma_class_in_pool(c: u8, upper: bool, lower: bool, number: bool, symbol: bool)
    ensures
        upper && UPPER@.contains(c) ==> pool(upper, lower, number, symbol).contains(c),
        lower && LOWER@.contains(c) ==> pool(upper, lower, number, symbol).contains(c),
        number && NUMBER@.contains(c) ==> pool(upper, lower, number, symbol).contains(c),
        symbol && SYMBOL@.contains(c) ==> pool(upper, lower, number, symbol).contains(c),
{
    let a = class(upper, UPPER@);
    let b = class(lower, LOWER@);
    let d = class(number, NUMBER@);
    let e = class(symbol, SYMBOL@);
    let all = pool(upper, lower, number, symbol);
    if upper && UPPER@.contains(c) {
        let i = choose|i: int| 0 <= i < UPPER@.len() && UPPER@[i] == c;
        assert(all[i] == c);
    }
    if lower && LOWER@.contains(c) {
        let i = choose|i: int| 0 <= i < LOWER@.len() && LOWER@[i] == c;
        assert(all[a.len() + i] == c);
    }
    if number && NUMBER@.contains(c) {
        let i = choose|i: int| 0 <= i < NUMBER@.len() && NUMBER@[i] == c;
        assert(all[a.len() + b.len() + i] == c);
    }
    if symbol && SYMBOL@.contains(c) {
        let i = choose|i: int| 0 <= i < SYMBOL@.len() && SYMBOL@[i] == c;
        assert(all[a.len() + b.len() + d.len() + i] == c);
    }
}

/// Every character that a password can hold is an ASCII character.
proof fn lemma_password_is_ascii(
    bytes: Seq<u8>,
    first: Seq<u8>,
    rest: Seq<u8>,
    upper: bool,
    lower: bool,
    number: bool,
    symbol: bool,
)
    requires
        one_of_each(first, upper, lower, number, symbol),
        rest.to_multiset().subset_of(pool(upper, lower, number, symbol).to_multiset()),
        (first + rest).to_multiset() == bytes.to_multiset(),
    ensures
        all_ascii(bytes),
{
    broadcast use vstd::seq_lib::group_to_multiset_ensures;

    let all = pool(upper, lower, number, symbol);
    assert forall|i: int| 0 <= i < bytes.len() implies #[trigger] bytes[i] < 128 by {
        let c = bytes[i];
        assert(bytes.contains(c));
        assert(bytes.to_multiset().count(c) > 0);
        assert((first + rest).contains(c));
        let j = choose|j: int| 0 <= j < (first + rest).len() && (first + rest)[j] == c;
        if j < first.len() {
            assert(first[j] == c);
            lemma_pool_is_ascii(c);
        } else {
            assert(rest[j - first.len()] == c);
            assert(rest.contains(c));
            assert(rest.to_multiset().count(c) > 0);
            assert(all.to_multiset().count(c) > 0);
            assert(all.contains(c));
            lemma_pool_is_ascii(c);
        }
    }
}

/// The four classes hold ASCII characters only.
proof fn lemma_pool_is_ascii(c: u8)
    ensures
        UPPER@.contains(c) || LOWER@.contains(c) || NUMBER@.contains(c) || SYMBOL@.contains(c) ==> c
            < 128,
{
    if UPPER@.contains(c) {
        let i = choose|i: int| 0 <= i < UPPER@.len() && UPPER@[i] == c;
        assert(UPPER@[i] < 128);
    }
    if LOWER@.contains(c) {
        let i = choose|i: int| 0 <= i < LOWER@.len() && LOWER@[i] == c;
        assert(LOWER@[i] < 128);
    }
    if NUMBER@.contains(c) {
        let i = choose|i: int| 0 <= i < NUMBER@.len() && NUMBER@[i] == c;
        assert(NUMBER@[i] < 128);
    }
    if SYMBOL@.contains(c) {
        let i = choose|i: int| 0 <= i < SYMBOL@.len() && SYMBOL@[i] == c;
        assert(SYMBOL@[i] < 128);
    }
}

} // verus!
