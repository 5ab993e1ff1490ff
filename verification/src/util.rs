//! A readable rendering of machine text: each of the three instruction
//! characters becomes a letter, so encodings can be written down and
//! compared in tests.

use vstd::prelude::*;
use vstd::string::*;

verus! {

/// The letter form of machine text: space, tab and newline become the
/// letters `s`, `t` and `n`; any other character is dropped.
pub open spec fn spec_unbleach(s: Seq<char>) -> Seq<char>
    decreases s.len(),
{
    if s.len() == 0 {
        Seq::empty()
    } else {
        spec_unbleach(s.drop_last()) + (if s.last() == ' ' {
            seq!['s']
        } else if s.last() == '\t' {
            seq!['t']
        } else if s.last() == '\n' {
            seq!['n']
        } else {
            Seq::<char>::empty()
        })
    }
}

/// The decimal digits of `n`, most significant first; zero has no digits.
pub open spec fn spec_digits(n: nat) -> Seq<char>
    decreases n,
{
    if n == 0 {
        Seq::empty()
    } else {
        spec_digits(n / 10).push(spec_digit_char(n % 10))
    }
}

pub open spec fn spec_digit_char(d: nat) -> char {
    if d == 0 {
        '0'
    } else if d == 1 {
        '1'
    } else if d == 2 {
        '2'
    } else if d == 3 {
        '3'
    } else if d == 4 {
        '4'
    } else if d == 5 {
        '5'
    } else if d == 6 {
        '6'
    } else if d == 7 {
        '7'
    } else if d == 8 {
        '8'
    } else {
        '9'
    }
}

/// The usual decimal rendering of an integer.
pub open spec fn spec_decimal(n: int) -> Seq<char> {
    if n == 0 {
        seq!['0']
    } else if n < 0 {
        seq!['-'] + spec_digits((-n) as nat)
    } else {
        spec_digits(n as nat)
    }
}

fn push_digits(s: &mut String, n: u64)
    ensures
        final(s)@ == old(s)@ + spec_digits(n as nat),
    decreases n,
{
    if n > 0 {
        push_digits(s, n / 10);
        let d = n % 10;
        if d == 0 {
            s.append("0");
            proof {
                reveal_strlit("0");
            }
        } else if d == 1 {
            s.append("1");
            proof {
                reveal_strlit("1");
            }
        } else if d == 2 {
            s.append("2");
            proof {
                reveal_strlit("2");
            }
        } else if d == 3 {
            s.append("3");
            proof {
                reveal_strlit("3");
            }
        } else if d == 4 {
            s.append("4");
            proof {
                reveal_strlit("4");
            }
        } else if d == 5 {
            s.append("5");
            proof {
                reveal_strlit("5");
            }
        } else if d == 6 {
            s.append("6");
            proof {
                reveal_strlit("6");
            }
        } else if d == 7 {
            s.append("7");
            proof {
                reveal_strlit("7");
            }
        } else if d == 8 {
            s.append("8");
            proof {
                reveal_strlit("8");
            }
        } else {
            s.append("9");
            proof {
                reveal_strlit("9");
            }
        }
        assert(s@ =~= old(s)@ + spec_digits(n as nat));
    } else {
        assert(s@ =~= old(s)@ + spec_digits(n as nat));
    }
}

/// The decimal rendering of an integer, used by the mnemonic trace.
pub fn decimal_string(n: i32) -> (r: String)
    requires
        n != i32::MIN,
    ensures
        r@ == spec_decimal(n as int),
{
    let mut result = String::new();
    if n == 0 {
        result.append("0");
        proof {
            reveal_strlit("0");
        }
    } else if n < 0 {
        result.append("-");
        proof {
            reveal_strlit("-");
        }
        push_digits(&mut result, (-n) as u64);
    } else {
        push_digits(&mut result, n as u64);
    }
    assert(result@ =~= spec_decimal(n as int));
    result
}

/// The decimal rendering of a count, used in diagnostics.
pub fn decimal_usize(n: usize) -> (r: String)
    ensures
        r@ == spec_decimal(n as int),
{
    let mut result = String::new();
    if n == 0 {
        result.append("0");
        proof {
            reveal_strlit("0");
        }
    } else {
        push_digits(&mut result, n as u64);
    }
    assert(result@ =~= spec_decimal(n as int));
    result
}

/// Rewrites machine text into its letter form.
pub fn unbleach(code: String) -> (r: String)
    ensures
        r@ == spec_unbleach(code@),
{
    let src = code.as_str();
    let len = src.unicode_len();
    let mut result = String::new();
    let mut i: usize = 0;
    while i < len
        invariant
            0 <= i <= len,
            len == src@.len(),
            result@ == spec_unbleach(src@.subrange(0, i as int)),
        decreases len - i,
    {
        proof {
            reveal_strlit("s");
            reveal_strlit("t");
            reveal_strlit("n");
        }
        let ghost before = result@;
        let c = src.get_char(i);
        if c == ' ' {
            result.append("s");
            assert("s"@ =~= seq!['s']);
            assert(result@ =~= before + seq!['s']);
        } else if c == '\t' {
            result.append("t");
            assert("t"@ =~= seq!['t']);
            assert(result@ =~= before + seq!['t']);
        } else if c == '\n' {
            result.append("n");
            assert("n"@ =~= seq!['n']);
            assert(result@ =~= before + seq!['n']);
        }
        proof {
            let prefix = src@.subrange(0, i + 1 as int);
            assert(prefix.drop_last() =~= src@.subrange(0, i as int));
            assert(prefix.last() == src@[i as int]);
            assert(spec_unbleach(prefix) == spec_unbleach(prefix.drop_last()) + (if prefix.last()
                == ' ' {
                seq!['s']
            } else if prefix.last() == '\t' {
                seq!['t']
            } else if prefix.last() == '\n' {
                seq!['n']
            } else {
                Seq::<char>::empty()
            }));
            assert(result@ =~= spec_unbleach(prefix));
        }
        i = i + 1;
    }
    assert(src@.subrange(0, len as int) =~= src@);
    result
}

/// Character-for-character equality of two string slices.
pub fn str_eq(a: &str, b: &str) -> (r: bool)
    ensures
        r == (a@ == b@),
{
    let la = a.unicode_len();
    let lb = b.unicode_len();
    if la != lb {
        return false;
    }
    let mut i: usize = 0;
    while i < la
        invariant
            0 <= i <= la,
            la == a@.len(),
            la == b@.len(),
            forall|j: int| 0 <= j < i ==> a@[j] == b@[j],
        decreases la - i,
    {
        if a.get_char(i) != b.get_char(i) {
            return false;
        }
        i = i + 1;
    }
    proof {
        assert(a@ =~= b@);
    }
    true
}

} // verus!
