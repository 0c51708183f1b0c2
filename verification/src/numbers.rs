use vstd::prelude::*;
use vstd::string::*;

verus! {

/// Relies on std's String::push: appends the given character to the string.
pub assume_specification[ String::push ](s: &mut String, c: char)
    ensures
        final(s)@ == old(s)@.push(c),
;

/// The decimal digit character for `d`, meaningful for 0 <= d <= 9.
pub open spec fn digit_char(d: int) -> char {
    ((48 + d) as u8) as char
}

/// Decimal digits of `n`, most significant first, with no leading zero;
/// empty when `n <= 0`.
pub open spec fn spec_digits(n: int) -> Seq<char>
    decreases n,
{
    if n <= 0 {
        Seq::empty()
    } else {
        spec_digits(n / 10).push(digit_char(n % 10))
    }
}

/// Decimal rendering of a nonnegative integer, as `format!("{}", n)` writes it.
pub open spec fn spec_uint_str(n: int) -> Seq<char> {
    if n == 0 {
        seq!['0']
    } else {
        spec_digits(n)
    }
}

/// Decimal rendering of a signed integer: a leading `-` for negative values.
pub open spec fn spec_int_str(n: int) -> Seq<char> {
    if n < 0 {
        seq!['-'] + spec_uint_str(-n)
    } else {
        spec_uint_str(n)
    }
}

/// `s` left-padded with `'0'` up to width `w`; unchanged when already as wide.
pub open spec fn zero_pad(s: Seq<char>, w: int) -> Seq<char> {
    if s.len() >= w {
        s
    } else {
        Seq::new((w - s.len()) as nat, |i: int| '0') + s
    }
}

fn digit_to_char(d: u8) -> (c: char)
    requires
        d < 10,
    ensures
        c == digit_char(d as int),
{
    (48 + d) as char
}

fn push_digits(n: u64, s: &mut String)
    ensures
        final(s)@ == old(s)@ + spec_digits(n as int),
    decreases n,
{
    if n == 0 {
        proof {
            assert(old(s)@ + spec_digits(0) =~= old(s)@);
        }
        return;
    }
    let d = (n % 10) as u8;
    push_digits(n / 10, s);
    let c = digit_to_char(d);
    s.push(c);
    proof {
        assert((old(s)@ + spec_digits((n / 10) as int)).push(digit_char(d as int)) =~= old(s)@
            + spec_digits(n as int));
    }
}

/// Renders `n` in decimal, exactly as `format!("{}", n)` would.
pub fn u64_to_string(n: u64) -> (r: String)
    ensures
        r@ == spec_uint_str(n as int),
{
    if n == 0 {
        let r = String::from_str("0");
        proof {
            reveal_strlit("0");
            assert(r@ =~= seq!['0']);
        }
        return r;
    }
    let mut s = String::new();
    push_digits(n, &mut s);
    proof {
        assert(Seq::<char>::empty() + spec_digits(n as int) =~= spec_digits(n as int));
    }
    s
}

/// Renders `n` in decimal, left-padded with zeros to at least `width` characters.
pub fn u64_to_string_padded(n: u64, width: usize) -> (r: String)
    ensures
        r@ == zero_pad(spec_uint_str(n as int), width as int),
{
    let digits = u64_to_string(n);
    let dl = digits.as_str().unicode_len();
    if dl >= width {
        return digits;
    }
    let pad = width - dl;
    let mut s = String::new();
    let mut k: usize = 0;
    while k < pad
        invariant
            k <= pad,
            s@ =~= Seq::new(k as nat, |i: int| '0'),
        decreases pad - k,
    {
        s.push('0');
        k += 1;
        proof {
            assert(s@ =~= Seq::new(k as nat, |i: int| '0'));
        }
    }
    s.append(digits.as_str());
    proof {
        assert(s@ =~= zero_pad(spec_uint_str(n as int), width as int));
    }
    s
}

/// Renders a signed 32-bit integer in decimal, as `format!("{}", n)` would.
pub fn i32_to_string(n: i32) -> (r: String)
    ensures
        r@ == spec_int_str(n as int),
{
    if n >= 0 {
        u64_to_string(n as u64)
    } else {
        let mut s = String::from_str("-");
        let mag: u64 = (-(n as i64)) as u64;
        let d = u64_to_string(mag);
        s.append(d.as_str());
        proof {
            reveal_strlit("-");
            assert(s@ =~= seq!['-'] + spec_uint_str(-(n as int)));
        }
        s
    }
}

} // verus!
