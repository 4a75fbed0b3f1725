//! Rendering a buffer's contents as text.
//!
//! The conventional sequence rendering: a bracketed, comma-separated list
//! of the elements in slot order, each integer in canonical decimal with a
//! leading minus sign when negative.

use vstd::prelude::*;
use vstd::string::StringExecFns;

use crate::buf::ArrayBuf;
use crate::interface::Array;

verus! {

/// The decimal digit characters.
pub open spec fn digit_char(d: nat) -> char {
    if d == 0 {
        '0'
    } else if d == 1 {
        '1'
    } else if d == 2 {
        '2'
    } else if d == 3 {
        '3'
    } else if d == 4 {
        '4'
    } else if d == 5 {
        '5'
    } else if d == 6 {
        '6'
    } else if d == 7 {
        '7'
    } else if d == 8 {
        '8'
    } else {
        '9'
    }
}

/// The decimal digits of `n`, most significant first.
pub open spec fn dec_chars(n: nat) -> Seq<char>
    decreases n,
{
    if n < 10 {
        seq![digit_char(n)]
    } else {
        dec_chars(n / 10).push(digit_char(n % 10))
    }
}

/// The canonical decimal rendering of `v`.
pub open spec fn int_chars(v: int) -> Seq<char> {
    if v < 0 {
        seq!['-'] + dec_chars((-v) as nat)
    } else {
        dec_chars(v as nat)
    }
}

/// The comma-separated renderings of the elements, in slot order.
pub open spec fn items_chars(s: Seq<isize>) -> Seq<char>
    decreases s.len(),
{
    if s.len() == 0 {
        Seq::empty()
    } else if s.len() == 1 {
        int_chars(s[0] as int)
    } else {
        items_chars(s.drop_last()) + seq![',', ' '] + int_chars(s.last() as int)
    }
}

/// The bracketed, comma-separated rendering of the whole sequence.
pub open spec fn list_chars(s: Seq<isize>) -> Seq<char> {
    seq!['['] + items_chars(s) + seq![']']
}

/// The one-character string for the digit `d`.
fn digit_str(d: u64) -> (r: &'static str)
    requires
        d < 10,
    ensures
        r@ == seq![digit_char(d as nat)],
{
    proof {
        reveal_strlit("0");
        reveal_strlit("1");
        reveal_strlit("2");
        reveal_strlit("3");
        reveal_strlit("4");
        reveal_strlit("5");
        reveal_strlit("6");
        reveal_strlit("7");
        reveal_strlit("8");
        reveal_strlit("9");
    }
    match d {
        0 => "0",
        1 => "1",
        2 => "2",
        3 => "3",
        4 => "4",
        5 => "5",
        6 => "6",
        7 => "7",
        8 => "8",
        _ => "9",
    }
}

/// Appends the decimal digits of `n` to `out`.
fn append_dec(out: &mut String, n: u64)
    ensures
        final(out)@ == old(out)@ + dec_chars(n as nat),
    decreases n,
{
    if n < 10 {
        out.append(digit_str(n));
    } else {
        proof {
            assert(n / 10 < n) by (nonlinear_arith)
                requires
                    n >= 10,
            ;
        }
        append_dec(out, n / 10);
        out.append(digit_str(n % 10));
        proof {
            assert(out@ =~= old(out)@ + dec_chars(n as nat));
        }
    }
}

/// Appends the decimal rendering of `v` to `out`, minus sign included.
fn append_int(out: &mut String, v: isize)
    ensures
        final(out)@ == old(out)@ + int_chars(v as int),
{
    proof {
        reveal_strlit("-");
    }
    if v < 0 {
        out.append("-");
        let m = (-(v as i128)) as u64;
        append_dec(out, m);
        proof {
            assert(out@ =~= old(out)@ + int_chars(v as int));
        }
    } else {
        append_dec(out, v as u64);
    }
}

impl<const N: usize> ArrayBuf<isize, N> {
    /// Renders the contents as `[a, b, c]`, the conventional bracketed,
    /// comma-separated sequence rendering.
    pub fn render(&self) -> (r: String)
        requires
            self.wf(),
        ensures
            r@ == list_chars(self@),
    {
        proof {
            reveal_strlit("[");
            reveal_strlit("]");
            reveal_strlit(", ");
        }
        let mut out = String::new();
        out.append("[");
        proof {
            reveal_strlit("[");
            assert(self@.subrange(0, 0) =~= Seq::<isize>::empty());
            assert(out@ =~= seq!['['] + items_chars(self@.subrange(0, 0)));
        }
        let n = self.len();
        let mut i: usize = 0;
        while i < n
            invariant
                self.wf(),
                n == self@.len(),
                i <= n,
                out@ == seq!['['] + items_chars(self@.subrange(0, i as int)),
            decreases n - i,
        {
            if i > 0 {
                out.append(", ");
                proof {
                    reveal_strlit(", ");
                    assert((", ")@ =~= seq![',', ' ']);
                }
            }
            let v = *self.get(i);
            append_int(&mut out, v);
            proof {
                reveal_strlit("[");
                assert(self@.subrange(0, i + 1).drop_last() =~= self@.subrange(0, i as int));
                assert(self@.subrange(0, i + 1).last() == self@[i as int]);
                assert(out@ =~= seq!['['] + items_chars(self@.subrange(0, i + 1)));
            }
            i += 1;
        }
        out.append("]");
        proof {
            reveal_strlit("[");
            reveal_strlit("]");
            assert(self@.subrange(0, self@.len() as int) =~= self@);
            assert(out@ =~= list_chars(self@));
        }
        out
    }
}

} // verus!
