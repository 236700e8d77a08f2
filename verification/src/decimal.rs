//! Decimal rendering of small integers, as `u8::to_string` renders them.

use vstd::prelude::*;

verus! {

/// The character for one decimal digit.
pub open spec fn digit_char(d: nat) -> char {
    if d == 0 {
        '0'
    } else if d == 1 {
        '1'
    } else if d == 2 {
        '2'
    } else if d == 3 {
        '3'
    } else if d == 4 {
        '4'
    } else if d == 5 {
        '5'
    } else if d == 6 {
        '6'
    } else if d == 7 {
        '7'
    } else if d == 8 {
        '8'
    } else {
        '9'
    }
}

/// The decimal form of a natural number, most significant digit first.
pub open spec fn dec_of(n: nat) -> Seq<char>
    decreases n,
{
    if n < 10 {
        seq![digit_char(n)]
    } else {
        dec_of(n / 10).push(digit_char(n % 10))
    }
}

/// Relies on `String::push`: appends exactly the given character.
#[verifier::external_body]
fn push_char(s: &mut String, c: char)
    ensures
        final(s)@ == old(s)@.push(c),
{
    s.push(c);
}

fn digit(d: u8) -> (c: char)
    requires
        d < 10,
    ensures
        c == digit_char(d as nat),
{
    if d == 0 {
        '0'
    } else if d == 1 {
        '1'
    } else if d == 2 {
        '2'
    } else if d == 3 {
        '3'
    } else if d == 4 {
        '4'
    } else if d == 5 {
        '5'
    } else if d == 6 {
        '6'
    } else if d == 7 {
        '7'
    } else if d == 8 {
        '8'
    } else {
        '9'
    }
}

/// The decimal string for a byte.
pub fn u8_to_dec(n: u8) -> (r: String)
    ensures
        r@ == dec_of(n as nat),
{
    let mut s = String::new();
    if n >= 100 {
        push_char(&mut s, digit(n / 100));
    }
    if n >= 10 {
        push_char(&mut s, digit((n / 10) % 10));
    }
    push_char(&mut s, digit(n % 10));
    proof {
        if n < 10 {
            assert(s@ =~= dec_of(n as nat));
        } else if n < 100 {
            assert(dec_of((n as nat) / 10) == seq![digit_char((n as nat) / 10)]);
            assert((n as nat) / 10 % 10 == (n as nat) / 10);
            assert(s@ =~= dec_of(n as nat));
        } else {
            assert((n as nat) / 10 / 10 == (n as nat) / 100);
            assert((n as nat) / 10 >= 10);
            assert(dec_of((n as nat) / 100) == seq![digit_char((n as nat) / 100)]);
            assert(dec_of((n as nat) / 10) == dec_of((n as nat) / 100).push(
                digit_char((n as nat) / 10 % 10),
            ));
            assert(s@ =~= dec_of(n as nat));
        }
    }
    s
}

} // verus!
