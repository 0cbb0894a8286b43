//! The contents of the lock file that lets only one watcher run at a time.
//!
//! The lock itself is the operating system's; the file holds the pid of the
//! process that holds it, so that a second process can say who is in its way.
use vstd::prelude::*;

use crate::text::{chars_of, decimal, decimal_text, digit_char, trim, trim_bounds, trim_end, trim_start, is_white_space};

verus! {

/// A decimal digit.
pub open spec fn is_digit(c: char) -> bool {
    '0' <= c <= '9'
}

/// The value of a decimal digit.
pub open spec fn digit_value(c: char) -> nat {
    (c as u32 - '0' as u32) as nat
}

/// The value of a string of decimal digits.
pub open spec fn digits_value(s: Seq<char>) -> nat
    decreases s.len(),
{
    if s.len() == 0 {
        0
    } else {
        digits_value(s.drop_last()) * 10 + digit_value(s.last())
    }
}

/// Every character of `s` is a decimal digit.
pub open spec fn all_digits(s: Seq<char>) -> bool {
    forall|i: int| 0 <= i < s.len() ==> is_digit(#[trigger] s[i])
}

/// What `str::parse::<u32>` makes of `s`: an optional `+` followed by at least
/// one decimal digit, whose value fits in a `u32`.
pub open spec fn parsed_u32(s: Seq<char>) -> Option<u32> {
    digits_u32(
        if s.len() > 1 && s[0] == '+' {
            s.drop_first()
        } else {
            s
        },
    )
}

/// The value of at least one decimal digit, when it fits in a `u32`.
pub open spec fn digits_u32(d: Seq<char>) -> Option<u32> {
    if d.len() > 0 && all_digits(d) && digits_value(d) <= u32::MAX {
        Some(digits_value(d) as u32)
    } else {
        None
    }
}

/// The pid that a lock file holding `contents` names.
pub open spec fn pid_in(contents: Seq<char>) -> Option<u32> {
    parsed_u32(trim(contents))
}

/// Why a second watcher is refused, naming the holder's pid when the lock
/// file gives it and the lock file otherwise.
pub open spec fn refusal_text(pid: Option<u32>, lock_path: Seq<char>) -> Seq<char> {
    match pid {
        Some(p) => "another tidysync is already watching (pid "@ + decimal(p as nat)
            + "); stop it first or let it keep running"@,
        None => "another tidysync is already watching (lock held on "@ + lock_path + ")"@,
    }
}

/// What the lock file is made to hold for the process `pid`.
pub fn pid_text(pid: u32) -> (s: String)
    ensures
        s@ == decimal(pid as nat),
{
    decimal_text(pid as u64)
}

proof fn lemma_capped_step(x: nat, d: nat)
    requires
        d < 10,
    ensures
        ({
            let cap: nat = 0x1_0000_0000;
            let cx: nat = if x < cap {
                x
            } else {
                cap
            };
            let lhs: nat = if cx * 10 + d < cap {
                cx * 10 + d
            } else {
                cap
            };
            let rhs: nat = if x * 10 + d < cap {
                x * 10 + d
            } else {
                cap
            };
            lhs == rhs
        }),
{
    let cap: nat = 0x1_0000_0000;
    if x >= cap {
        assert(x * 10 >= cap * 10) by (nonlinear_arith)
            requires
                x >= cap,
        ;
        assert(cap * 10 >= cap);
    }
}

/// The pid a lock file holding `contents` names, read the way
/// `contents.trim().parse::<u32>()` reads it.
pub fn parse_pid(contents: &str) -> (r: Option<u32>)
    ensures
        r == pid_in(contents@),
{
    let v = chars_of(contents);
    let (a, b) = trim_bounds(&v, 0, v.len());
    assert(v@.subrange(0, v.len() as int) =~= v@);
    let ghost t = trim(contents@);
    assert(t =~= v@.subrange(a as int, b as int));
    let mut start = a;
    if b - a > 1 && v[a] == '+' {
        start = a + 1;
        assert(t.drop_first() =~= v@.subrange(start as int, b as int));
    } else {
        assert(t =~= v@.subrange(start as int, b as int));
    }
    let ghost d = v@.subrange(start as int, b as int);
    if start == b {
        assert(t.len() == 0);
        assert(parsed_u32(t) is None);
        return None;
    }
    assert(pid_in(contents@) == digits_u32(d));
    let cap: u64 = 0x1_0000_0000;
    let mut acc: u64 = 0;
    let mut i = start;
    while i < b
        invariant
            start <= i <= b <= v.len(),
            d == v@.subrange(start as int, b as int),
            pid_in(contents@) == digits_u32(d),
            acc as nat == if digits_value(v@.subrange(start as int, i as int)) < 0x1_0000_0000 {
                digits_value(v@.subrange(start as int, i as int))
            } else {
                0x1_0000_0000
            },
            all_digits(v@.subrange(start as int, i as int)),
            cap == 0x1_0000_0000,
        decreases b - i,
    {
        let c = v[i];
        if !('0' <= c && c <= '9') {
            assert(d[i - start] == c);
            return None;
        }
        let digit = (c as u32 - '0' as u32) as u64;
        let ghost prefix = v@.subrange(start as int, i as int);
        assert(v@.subrange(start as int, i + 1).drop_last() =~= prefix);
        proof {
            lemma_capped_step(digits_value(prefix), digit as nat);
        }
        let next = acc * 10 + digit;
        acc = if next < cap {
            next
        } else {
            cap
        };
        i = i + 1;
        assert(all_digits(v@.subrange(start as int, i as int))) by {
            assert forall|k: int| 0 <= k < i - start implies is_digit(
                #[trigger] v@.subrange(start as int, i as int)[k],
            ) by {
                if k < i - 1 - start {
                    assert(v@.subrange(start as int, i as int)[k] == prefix[k]);
                }
            }
        }
    }
    assert(v@.subrange(start as int, i as int) =~= d);
    if acc < cap {
        Some(acc as u32)
    } else {
        None
    }
}

proof fn lemma_decimal_digits(n: nat)
    ensures
        decimal(n).len() > 0,
        all_digits(decimal(n)),
        digits_value(decimal(n)) == n,
    decreases n,
{
    if n < 10 {
        assert(digit_value(digit_char(n)) == n);
        assert(decimal(n).drop_last() =~= Seq::<char>::empty());
        assert(digits_value(Seq::<char>::empty()) == 0);
        assert(decimal(n).last() == digit_char(n));
    } else {
        lemma_decimal_digits(n / 10);
        let d = n % 10;
        assert(digit_value(digit_char(d)) == d);
        assert(decimal(n).drop_last() =~= decimal(n / 10));
        assert(digits_value(decimal(n)) == (n / 10) * 10 + d);
        assert((n / 10) * 10 + n % 10 == n) by (nonlinear_arith);
        assert(all_digits(decimal(n))) by {
            assert forall|i: int| 0 <= i < decimal(n).len() implies is_digit(
                #[trigger] decimal(n)[i],
            ) by {
                if i < decimal(n / 10).len() {
                    assert(decimal(n)[i] == decimal(n / 10)[i]);
                }
            }
        }
    }
}

/// Reading a lock file back gives the pid that was written into it: the
/// holder recorded in the file is the one a contender reports.
pub proof fn law_pid_round_trip(pid: u32)
    ensures
        pid_in(decimal(pid as nat)) == Some(pid),
{
    let s = decimal(pid as nat);
    lemma_decimal_digits(pid as nat);
    assert(!is_white_space(s[0]));
    assert(trim_start(s) == s);
    assert(!is_white_space(s.last()));
    assert(trim_end(s) == s);
}

/// Why a second watcher is refused: the holder's pid when the lock file
/// names one, the lock file's path otherwise.
pub fn refusal_message(pid: Option<u32>, lock_path: &str) -> (r: String)
    ensures
        r@ == refusal_text(pid, lock_path@),
{
    match pid {
        Some(p) => String::from_str("another tidysync is already watching (pid ").concat(
            pid_text(p).as_str(),
        ).concat("); stop it first or let it keep running"),
        None => String::from_str("another tidysync is already watching (lock held on ").concat(
            lock_path,
        ).concat(")"),
    }
}

} // verus!
