//! The paths that the record store serves: `GET /transaction/get/` and a
//! key, and `POST /transaction/post`.

use vstd::prelude::*;
use crate::bytes::bytes_eq;
use crate::decimal::all_digits;
use crate::decimal::decimal;
use crate::decimal::is_digit;
use crate::decimal::lemma_decimal_round_trip;
use crate::decimal::push_decimal;
use crate::decimal::number;
use crate::decimal::parse_number;

verus! {

/// The request that a method and a path stand for.
#[derive(Debug, Clone, Copy, PartialEq, Eq, Structural)]
pub enum Route {
    /// Read the record under `key`.
    GetTransaction { key: i32 },
    /// Store the record in the body.
    PostTransaction,
    /// The path is served, but not under this method.
    MethodNotAllowed,
    /// Nothing is served there.
    NotFound,
}

/// The bytes `GET`.
pub open spec fn method_get() -> Seq<u8> {
    seq![0x47u8, 0x45u8, 0x54u8]
}

/// The bytes `POST`.
pub open spec fn method_post() -> Seq<u8> {
    seq![0x50u8, 0x4fu8, 0x53u8, 0x54u8]
}

/// The bytes `/transaction/`.
pub open spec fn path_root() -> Seq<u8> {
    seq![
        0x2fu8,
        0x74u8,
        0x72u8,
        0x61u8,
        0x6eu8,
        0x73u8,
        0x61u8,
        0x63u8,
        0x74u8,
        0x69u8,
        0x6fu8,
        0x6eu8,
        0x2fu8,
    ]
}

/// The bytes `/transaction/get/`.
pub open spec fn path_get() -> Seq<u8> {
    path_root() + seq![0x67u8, 0x65u8, 0x74u8, 0x2fu8]
}

/// The bytes `/transaction/post`.
pub open spec fn path_post() -> Seq<u8> {
    path_root() + seq![0x70u8, 0x6fu8, 0x73u8, 0x74u8]
}

/// The key that a text writes: digits behind an optional sign, as long as
/// the number fits a key.
pub open spec fn key_of(text: Seq<u8>) -> Option<int> {
    if text.len() > 0 && text[0] == 0x2d {
        let digits = text.skip(1);
        if digits.len() > 0 && all_digits(digits) && number(digits) <= 0x80000000 {
            Some(-(number(digits) as int))
        } else {
            None
        }
    } else {
        let digits = if text.len() > 0 && text[0] == 0x2b {
            text.skip(1)
        } else {
            text
        };
        if digits.len() > 0 && all_digits(digits) && number(digits) <= 0x7fffffff {
            Some(number(digits) as int)
        } else {
            None
        }
    }
}

/// Whether `text` begins with `prefix`.
pub open spec fn begins_with(text: Seq<u8>, prefix: Seq<u8>) -> bool {
    prefix.len() <= text.len() && text.take(prefix.len() as int) == prefix
}

/// Whether a path is that of a read: `/transaction/get/` and a key.
pub open spec fn reads(path: Seq<u8>) -> bool {
    begins_with(path, path_get()) && key_of(path.skip(path_get().len() as int)) is Some
}

/// The request that a method and a path stand for. The path of a read is
/// served under `GET`, the path of a write under `POST`; either is known
/// under every other method, but not served. Any other path is not found.
pub open spec fn routed(method: Seq<u8>, path: Seq<u8>) -> Route {
    if reads(path) {
        if method == method_get() {
            Route::GetTransaction { key: key_of(path.skip(path_get().len() as int))->0 as i32 }
        } else {
            Route::MethodNotAllowed
        }
    } else if path == path_post() {
        if method == method_post() {
            Route::PostTransaction
        } else {
            Route::MethodNotAllowed
        }
    } else {
        Route::NotFound
    }
}

/// A key as text: its digits, behind `-` where it is negative.
pub open spec fn key_text(key: i32) -> Seq<u8> {
    if key < 0 {
        seq![0x2du8] + decimal((-key) as nat)
    } else {
        decimal(key as nat)
    }
}

/// Reading a key that was written gives the key.
pub proof fn lemma_key_round_trip(key: i32)
    ensures
        key_of(key_text(key)) == Some(key as int),
{
    if key < 0 {
        let n = (-key) as nat;
        lemma_decimal_round_trip(n);
        assert(key_text(key).skip(1) =~= decimal(n));
        assert(key_text(key)[0] == 0x2d);
    } else {
        let n = key as nat;
        lemma_decimal_round_trip(n);
        let d = decimal(n);
        assert(is_digit(d[0]));
    }
}

/// Appends a key as text.
pub fn push_key(out: &mut Vec<u8>, key: i32)
    ensures
        final(out)@ == old(out)@ + key_text(key),
{
    if key < 0 {
        out.push(0x2du8);
        let n: u64 = if key == i32::MIN {
            0x80000000u64
        } else {
            (-key) as u64
        };
        push_decimal(out, n);
        assert(out@ =~= old(out)@ + key_text(key));
    } else {
        push_decimal(out, key as u64);
    }
}

/// Whether `text` begins with `prefix`.
pub fn starts_with(text: &Vec<u8>, prefix: &Vec<u8>) -> (yes: bool)
    ensures
        yes == begins_with(text@, prefix@),
{
    if prefix.len() > text.len() {
        return false;
    }
    let mut i: usize = 0;
    while i < prefix.len()
        invariant
            i <= prefix.len() <= text.len(),
            forall|k: int| 0 <= k < i ==> text@[k] == prefix@[k],
        decreases prefix.len() - i,
    {
        if text[i] != prefix[i] {
            assert(text@.take(prefix.len() as int)[i as int] != prefix@[i as int]);
            return false;
        }
        i += 1;
    }
    assert(text@.take(prefix.len() as int) =~= prefix@);
    true
}

/// Reads the key that stands in `text` from `from` to the end.
pub fn parse_key(text: &Vec<u8>, from: usize) -> (key: Option<i32>)
    requires
        from <= text.len(),
    ensures
        key is Some <==> key_of(text@.skip(from as int)) is Some,
        key matches Some(k) ==> key_of(text@.skip(from as int)) == Some(k as int),
{
    let ghost rest = text@.skip(from as int);
    if from < text.len() && text[from] == 0x2d {
        assert(rest[0] == 0x2d);
        assert(rest.skip(1) =~= text@.skip(from + 1));
        match parse_number(text, from + 1, 0x80000000) {
            Some(v) => {
                if v == 0x80000000 {
                    Some(i32::MIN)
                } else {
                    Some(-(v as i32))
                }
            },
            None => None,
        }
    } else {
        let start = if from < text.len() && text[from] == 0x2b {
            assert(rest[0] == 0x2b);
            assert(rest.skip(1) =~= text@.skip(from + 1));
            from + 1
        } else {
            if from < text.len() {
                assert(rest[0] == text@[from as int]);
            }
            from
        };
        match parse_number(text, start, 0x7fffffff) {
            Some(v) => Some(v as i32),
            None => None,
        }
    }
}

/// The request that a method and a path stand for.
pub fn routes(method: &Vec<u8>, path: &Vec<u8>) -> (request: Route)
    ensures
        request == routed(method@, path@),
{
    let get: Vec<u8> = vec![0x47u8, 0x45u8, 0x54u8];
    let post: Vec<u8> = vec![0x50u8, 0x4fu8, 0x53u8, 0x54u8];
    let get_path: Vec<u8> = vec![
        0x2fu8,
        0x74u8,
        0x72u8,
        0x61u8,
        0x6eu8,
        0x73u8,
        0x61u8,
        0x63u8,
        0x74u8,
        0x69u8,
        0x6fu8,
        0x6eu8,
        0x2fu8,
        0x67u8,
        0x65u8,
        0x74u8,
        0x2fu8,
    ];
    let post_path: Vec<u8> = vec![
        0x2fu8,
        0x74u8,
        0x72u8,
        0x61u8,
        0x6eu8,
        0x73u8,
        0x61u8,
        0x63u8,
        0x74u8,
        0x69u8,
        0x6fu8,
        0x6eu8,
        0x2fu8,
        0x70u8,
        0x6fu8,
        0x73u8,
        0x74u8,
    ];
    assert(get@ =~= method_get());
    assert(post@ =~= method_post());
    assert(get_path@ =~= path_get());
    assert(post_path@ =~= path_post());
    let key = if starts_with(path, &get_path) {
        parse_key(path, get_path.len())
    } else {
        None
    };
    match key {
        Some(key) => {
            if bytes_eq(method, &get) {
                Route::GetTransaction { key }
            } else {
                Route::MethodNotAllowed
            }
        },
        None => {
            if !bytes_eq(path, &post_path) {
                Route::NotFound
            } else if bytes_eq(method, &post) {
                Route::PostTransaction
            } else {
                Route::MethodNotAllowed
            }
        },
    }
}

} // verus!
