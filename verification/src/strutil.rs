//! Small verified string helpers: decimal rendering of integers and
//! joining string lists with a separator.

use vstd::prelude::*;
use vstd::string::StringExecFns;
use crate::norm::chars_to_string;

verus! {

/// The decimal digit character for a value below ten.
pub open spec fn dec_digit(d: int) -> char {
    ((48 + d) as u8) as char
}

/// The decimal digits of a nonnegative number, most significant first.
pub open spec fn dec_seq(n: nat) -> Seq<char>
    decreases n,
{
    if n < 10 {
        seq![dec_digit(n as int)]
    } else {
        dec_seq(n / 10).push(dec_digit((n % 10) as int))
    }
}

/// The decimal rendering of an integer, with a leading minus sign when
/// negative.
pub open spec fn int_seq(i: int) -> Seq<char> {
    if i < 0 {
        seq!['-'] + dec_seq((-i) as nat)
    } else {
        dec_seq(i as nat)
    }
}

/// Renders a nonnegative number in decimal.
pub fn u64_to_string(n: u64) -> (s: String)
    ensures
        s@ == dec_seq(n as nat),
{
    let mut rev: Vec<char> = Vec::new();
    let mut x: u64 = n;
    if x == 0 {
        let v: Vec<char> = vec!['0'];
        let s = chars_to_string(&v);
        proof {
            assert(dec_digit(0) == '0');
        }
        return s;
    }
    while x > 0
        invariant
            dec_seq(n as nat) == if x > 0 {
                dec_seq(x as nat) + rev@.reverse()
            } else {
                rev@.reverse()
            },
        decreases x,
    {
        let d: u64 = x % 10;
        let c: char = ((48 + d) as u8) as char;
        proof {
            assert(c == dec_digit(d as int));
            assert(rev@.push(c).reverse() =~= seq![c] + rev@.reverse());
            if x >= 10 {
                assert(dec_seq(x as nat) == dec_seq((x as nat) / 10).push(dec_digit(
                    ((x as nat) % 10) as int,
                )));
                assert(dec_seq((x as nat) / 10).push(c) =~= dec_seq((x as nat) / 10) + seq![c]);
                assert(dec_seq((x as nat) / 10) + (seq![c] + rev@.reverse()) =~= (dec_seq(
                    (x as nat) / 10,
                ) + seq![c]) + rev@.reverse());
            } else {
                assert(dec_seq(x as nat) == seq![c]);
            }
            assert((x as nat) / 10 == (x / 10) as nat);
        }
        rev.push(c);
        x = x / 10;
    }
    // Reverse the collected digits.
    let mut v: Vec<char> = Vec::new();
    let len = rev.len();
    let mut i: usize = 0;
    while i < len
        invariant
            i <= len,
            len == rev@.len(),
            v@ == rev@.reverse().take(i as int),
        decreases len - i,
    {
        let c = rev[len - 1 - i];
        proof {
            assert(rev@.reverse()[i as int] == rev@[len - 1 - i as int]);
            assert(rev@.reverse().take(i + 1 as int) =~= rev@.reverse().take(i as int).push(
                rev@.reverse()[i as int],
            ));
        }
        v.push(c);
        i += 1;
    }
    proof {
        assert(rev@.reverse().take(len as int) =~= rev@.reverse());
    }
    chars_to_string(&v)
}

/// Renders a signed 32-bit integer in decimal.
pub fn i32_to_string(v: i32) -> (s: String)
    ensures
        s@ == int_seq(v as int),
{
    if v < 0 {
        let mag: u64 = (-(v as i64)) as u64;
        let digits = u64_to_string(mag);
        let mut s = String::new();
        s.append("-");
        s.append(digits.as_str());
        proof {
            reveal_strlit("-");
            assert(seq!['-'] =~= "-"@);
            assert(Seq::<char>::empty() + "-"@ =~= "-"@);
        }
        s
    } else {
        u64_to_string(v as u64)
    }
}

/// The number spelled by a digit sequence, most significant first.
pub open spec fn dec_value(s: Seq<char>) -> int
    decreases s.len(),
{
    if s.len() == 0 {
        0
    } else {
        dec_value(s.drop_last()) * 10 + ((s.last() as u32) - 48)
    }
}

/// Whether every character of the sequence is an ASCII digit.
pub open spec fn all_digits(s: Seq<char>) -> bool {
    forall|j: int| 0 <= j < s.len() ==> 48 <= ((#[trigger] s[j]) as u32) <= 57
}

/// What `str::parse::<i32>` accepts: an optional sign followed by at
/// least one digit and nothing else, spelling a value that fits.
pub open spec fn parse_i32_spec(s: Seq<char>) -> Option<i32> {
    if s.len() == 0 {
        None
    } else {
        let neg = s[0] == '-';
        let body = if s[0] == '-' || s[0] == '+' {
            s.drop_first()
        } else {
            s
        };
        if body.len() == 0 || !all_digits(body) {
            None
        } else {
            let v = if neg {
                -dec_value(body)
            } else {
                dec_value(body)
            };
            if -0x8000_0000 <= v <= 0x7FFF_FFFF {
                Some(v as i32)
            } else {
                None
            }
        }
    }
}

/// A digit sequence spells a nonnegative number.
proof fn lemma_dec_value_nonneg(s: Seq<char>)
    requires
        all_digits(s),
    ensures
        dec_value(s) >= 0,
    decreases s.len(),
{
    if s.len() > 0 {
        assert(all_digits(s.drop_last()));
        lemma_dec_value_nonneg(s.drop_last());
    }
}

/// Reading more digits never shrinks the value.
proof fn lemma_dec_value_grows(s: Seq<char>, j: int)
    requires
        all_digits(s),
        0 <= j <= s.len(),
    ensures
        dec_value(s) >= dec_value(s.take(j)),
    decreases s.len() - j,
{
    if j < s.len() {
        assert(all_digits(s.take(j))) by {
            assert(forall|q: int| 0 <= q < j ==> s.take(j)[q] == s[q]);
        }
        lemma_dec_value_nonneg(s.take(j));
        assert(s.take(j + 1).drop_last() =~= s.take(j));
        assert(s.take(j + 1).last() == s[j]);
        assert(dec_value(s.take(j + 1)) >= dec_value(s.take(j)));
        lemma_dec_value_grows(s, j + 1);
        assert(s.take(s.len() as int) =~= s);
    } else {
        assert(s.take(s.len() as int) =~= s);
    }
}

/// Parses a decimal integer exactly as `str::parse::<i32>` does: an
/// optional sign, then digits only.
pub fn parse_i32(s: &str) -> (r: Option<i32>)
    ensures
        r == parse_i32_spec(s@),
{
    let v = crate::norm::str_to_chars(s);
    let n = v.len();
    if n == 0 {
        return None;
    }
    let c0 = v[0];
    let neg = c0 == '-';
    let start: usize = if c0 == '-' || c0 == '+' {
        1
    } else {
        0
    };
    let ghost body = if v@[0] == '-' || v@[0] == '+' {
        v@.drop_first()
    } else {
        v@
    };
    proof {
        assert(body =~= v@.skip(start as int));
    }
    if n == start {
        return None;
    }
    let mut acc: u64 = 0;
    let mut i: usize = start;
    while i < n
        invariant
            start <= i <= n,
            n == v@.len(),
            v@ == s@,
            start <= 1,
            n > start,
            (start == 1) == (v@[0] == '-' || v@[0] == '+'),
            neg == (v@[0] == '-'),
            body == v@.skip(start as int),
            body.len() == n - start,
            all_digits(body.take(i - start)),
            acc == dec_value(body.take(i - start)),
            acc <= 0x8000_0000,
        decreases n - i,
    {
        let c = v[i];
        let u: u32 = c as u32;
        if !(48 <= u && u <= 57) {
            proof {
                assert(body[i - start] == v@[i as int]);
                assert(!all_digits(body));
                assert(v@.drop_first() =~= v@.skip(1));
                assert(v@.skip(0) =~= v@);
            }
            return None;
        }
        proof {
            let t = body.take(i + 1 - start);
            assert(t.drop_last() =~= body.take(i - start));
            assert(t.last() == body[i - start]);
            assert(body[i - start] == v@[i as int]);
        }
        let d: u64 = (u - 48) as u64;
        acc = acc * 10 + d;
        i += 1;
        if acc > 0x8000_0000 {
            proof {
                if all_digits(body) {
                    lemma_dec_value_grows(body, i - start);
                    assert(dec_value(body) >= dec_value(body.take(i - start)));
                    assert(dec_value(body) > 0x8000_0000);
                }
                assert(v@.drop_first() =~= v@.skip(1));
                assert(v@.skip(0) =~= v@);
            }
            return None;
        }
    }
    proof {
        assert(body.take(n - start) =~= body);
        assert(all_digits(body));
        assert(acc == dec_value(body));
    }
    if neg {
        let val: i64 = -(acc as i64);
        proof {
            assert(val >= -0x8000_0000);
        }
        Some(val as i32)
    } else {
        if acc > 0x7FFF_FFFF {
            return None;
        }
        Some(acc as i32)
    }
}

/// Character-wise string equality.
pub fn str_eq(a: &str, b: &str) -> (r: bool)
    ensures
        r == (a@ == b@),
{
    let na = a.unicode_len();
    let nb = b.unicode_len();
    if na != nb {
        return false;
    }
    let mut i: usize = 0;
    while i < na
        invariant
            i <= na,
            na == a@.len(),
            nb == b@.len(),
            na == nb,
            forall|j: int| 0 <= j < i ==> a@[j] == b@[j],
        decreases na - i,
    {
        if a.get_char(i) != b.get_char(i) {
            return false;
        }
        i += 1;
    }
    proof {
        assert(a@ =~= b@);
    }
    true
}

/// The parts joined by the separator: nothing for an empty list, and the
/// separator between each adjacent pair otherwise.
pub open spec fn join_seq(parts: Seq<Seq<char>>, sep: Seq<char>) -> Seq<char>
    decreases parts.len(),
{
    if parts.len() == 0 {
        Seq::empty()
    } else if parts.len() == 1 {
        parts.first()
    } else {
        parts.first() + sep + join_seq(parts.drop_first(), sep)
    }
}

/// Appending one more part to a nonempty list inserts one separator.
pub proof fn lemma_join_seq_push(parts: Seq<Seq<char>>, sep: Seq<char>, w: Seq<char>)
    ensures
        join_seq(parts.push(w), sep) == if parts.len() == 0 {
            w
        } else {
            join_seq(parts, sep) + sep + w
        },
    decreases parts.len(),
{
    if parts.len() == 0 {
        assert(parts.push(w).len() == 1);
        assert(parts.push(w).first() == w);
    } else if parts.len() == 1 {
        assert(parts.push(w).len() == 2);
        assert(parts.push(w).first() == parts.first());
        assert(parts.push(w).drop_first() =~= seq![w]);
        assert(join_seq(seq![w], sep) == w);
    } else {
        assert(parts.push(w).first() == parts.first());
        assert(parts.push(w).drop_first() =~= parts.drop_first().push(w));
        lemma_join_seq_push(parts.drop_first(), sep, w);
        assert(parts.first() + sep + (join_seq(parts.drop_first(), sep) + sep + w) =~= (
        parts.first() + sep + join_seq(parts.drop_first(), sep)) + sep + w);
    }
}

/// Joins the strings with the separator.
pub fn join_strings(parts: &Vec<String>, sep: &str) -> (s: String)
    ensures
        s@ == join_seq(parts.deep_view(), sep@),
{
    let mut s = String::new();
    let n = parts.len();
    let mut i: usize = 0;
    proof {
        assert(parts.deep_view().len() == parts@.len());
    }
    while i < n
        invariant
            i <= n,
            n == parts@.len(),
            parts.deep_view().len() == n,
            s@ == join_seq(parts.deep_view().take(i as int), sep@),
        decreases n - i,
    {
        if i > 0 {
            s.append(sep);
        }
        s.append(parts[i].as_str());
        proof {
            let pv = parts.deep_view();
            assert(pv.take(i + 1 as int) =~= pv.take(i as int).push(pv[i as int]));
            lemma_join_seq_push(pv.take(i as int), sep@, pv[i as int]);
            assert(pv[i as int] == parts@[i as int]@);
            if i == 0 {
                assert(pv.take(0) =~= Seq::<Seq<char>>::empty());
                assert(Seq::<char>::empty() + parts@[i as int]@ =~= parts@[i as int]@);
            }
        }
        i += 1;
    }
    proof {
        assert(parts.deep_view().take(n as int) =~= parts.deep_view());
    }
    s
}

} // verus!
