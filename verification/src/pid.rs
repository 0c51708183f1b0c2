use vstd::prelude::*;
use vstd::string::*;
use crate::error::Error;

verus! {

pub open spec fn is_dec_digit(c: char) -> bool {
    48 <= (c as int) <= 57
}

pub open spec fn dec_digit_val(c: char) -> int {
    (c as int) - 48
}

/// A nonempty run of decimal digits.
pub open spec fn all_digits(s: Seq<char>) -> bool {
    s.len() > 0 && forall|i: int| 0 <= i < s.len() ==> is_dec_digit(s[i])
}

/// The value of a run of decimal digits, most significant first.
pub open spec fn digits_val(s: Seq<char>) -> int
    decreases s.len(),
{
    if s.len() == 0 {
        0
    } else {
        digits_val(s.drop_last()) * 10 + dec_digit_val(s.last())
    }
}

/// The digits of a pid token, behind an optional leading sign.
pub open spec fn pid_digits(s: Seq<char>) -> Seq<char> {
    if s.len() > 0 && (s[0] == '+' || s[0] == '-') {
        s.drop_first()
    } else {
        s
    }
}

pub open spec fn pid_sign(s: Seq<char>) -> int {
    if s.len() > 0 && s[0] == '-' {
        -1
    } else {
        1
    }
}

/// The integer a pid token denotes: an optional `+` or `-`, then digits.
pub open spec fn spec_pid_value(s: Seq<char>) -> int {
    pid_sign(s) * digits_val(pid_digits(s))
}

/// A pid token is accepted exactly when its digits are well formed and its
/// value fits a signed 32-bit integer.
pub open spec fn spec_pid_ok(s: Seq<char>) -> bool {
    all_digits(pid_digits(s)) && i32::MIN <= spec_pid_value(s) <= i32::MAX
}

proof fn lemma_digits_val_nonneg(s: Seq<char>)
    requires
        forall|i: int| 0 <= i < s.len() ==> is_dec_digit(s[i]),
    ensures
        digits_val(s) >= 0,
    decreases s.len(),
{
    if s.len() > 0 {
        lemma_digits_val_nonneg(s.drop_last());
    }
}

proof fn lemma_digits_val_prefix_le(s: Seq<char>, i: int)
    requires
        0 <= i <= s.len(),
        forall|k: int| 0 <= k < s.len() ==> is_dec_digit(s[k]),
    ensures
        digits_val(s.subrange(0, i)) <= digits_val(s),
    decreases s.len() - i,
{
    if i < s.len() {
        let t = s.subrange(0, i + 1);
        assert(t.drop_last() =~= s.subrange(0, i));
        lemma_digits_val_nonneg(t.drop_last());
        assert(digits_val(t) == digits_val(t.drop_last()) * 10 + dec_digit_val(t.last()));
        assert(digits_val(s.subrange(0, i)) <= digits_val(t));
        lemma_digits_val_prefix_le(s, i + 1);
        assert(s.subrange(0, s.len() as int) =~= s);
    } else {
        assert(s.subrange(0, i) =~= s);
    }
}

/// Parses the pid token as `str::parse::<i32>` does: an optional sign, then
/// decimal digits, with the value required to fit a signed 32-bit integer.
pub fn parse_pid(token: &str) -> (r: Result<i32, Error>)
    ensures
        r is Ok <==> spec_pid_ok(token@),
        r matches Ok(p) ==> p == spec_pid_value(token@),
        r is Err ==> r == Err::<i32, Error>(Error::Argument),
{
    let n = token.unicode_len();
    if n == 0 {
        return Err(Error::Argument);
    }
    let first = token.get_char(0);
    let negative = first == '-';
    let start: usize = if first == '-' || first == '+' {
        1
    } else {
        0
    };
    let ghost body = pid_digits(token@);
    proof {
        assert(body =~= token@.subrange(start as int, n as int));
    }
    if n == start {
        return Err(Error::Argument);
    }
    let mut i: usize = start;
    let mut acc: u64 = 0;
    while i < n
        invariant
            start <= i <= n,
            n == token@.len(),
            start < n,
            body == pid_digits(token@),
            body == token@.subrange(start as int, n as int),
            acc == digits_val(body.subrange(0, i - start)),
            acc <= 0x8000_0000,
            forall|k: int| 0 <= k < i - start ==> is_dec_digit(body[k]),
        decreases n - i,
    {
        let c = token.get_char(i);
        if c < '0' || c > '9' {
            proof {
                assert(!is_dec_digit(body[i - start]));
                assert(!all_digits(body));
                assert(!spec_pid_ok(token@));
            }
            return Err(Error::Argument);
        }
        let d = (c as u32 - 48) as u64;
        proof {
            assert(is_dec_digit(body[i - start]));
            assert(d == dec_digit_val(body[i - start]));
        }
        acc = acc * 10 + d;
        i += 1;
        proof {
            let pre = body.subrange(0, i - start);
            assert(pre.drop_last() =~= body.subrange(0, i - 1 - start));
            assert(pre.last() == body[i - 1 - start]);
            assert(acc == digits_val(pre));
        }
        if acc > 0x8000_0000 {
            proof {
                if all_digits(body) {
                    lemma_digits_val_prefix_le(body, i - start);
                    assert(digits_val(body) > 0x8000_0000);
                }
                assert(!spec_pid_ok(token@));
            }
            return Err(Error::Argument);
        }
    }
    proof {
        assert(body.subrange(0, n - start) =~= body);
        assert(acc == digits_val(body));
        assert(all_digits(body));
    }
    if negative {
        let v: i64 = -(acc as i64);
        if v < -0x8000_0000i64 {
            proof {
                assert(!spec_pid_ok(token@));
            }
            return Err(Error::Argument);
        }
        proof {
            assert(spec_pid_value(token@) == -digits_val(body));
        }
        Ok(v as i32)
    } else {
        if acc > 0x7fff_ffff {
            proof {
                assert(spec_pid_value(token@) == digits_val(body));
                assert(!spec_pid_ok(token@));
            }
            return Err(Error::Argument);
        }
        proof {
            assert(spec_pid_value(token@) == digits_val(body));
        }
        Ok(acc as i32)
    }
}

} // verus!
