//! Numbers as text.
use vstd::prelude::*;
use vstd::string::StringExecFns;

verus! {

/// The decimal digit that stands for `d`, for `d` below ten.
pub open spec fn digit_char(d: nat) -> char
    recommends
        d < 10,
{
    (('0' as u32) + d) as char
}

/// `n` written in decimal, without leading zeros.
pub open spec fn decimal(n: nat) -> Seq<char>
    decreases n,
{
    if n < 10 {
        seq![digit_char(n)]
    } else {
        decimal(n / 10).push(digit_char(n % 10))
    }
}

/// `n` written in decimal, with a minus sign in front where it is negative.
pub open spec fn signed_decimal(n: int) -> Seq<char> {
    if n < 0 {
        seq!['-'] + decimal((-n) as nat)
    } else {
        decimal(n as nat)
    }
}

/// The one-character string of a decimal digit.
fn digit_str(d: u64) -> (s: &'static str)
    requires
        d < 10,
    ensures
        s@ == seq![digit_char(d as nat)],
{
    proof {
        reveal_strlit("0");
        reveal_strlit("1");
        reveal_strlit("2");
        reveal_strlit("3");
        reveal_strlit("4");
        reveal_strlit("5");
        reveal_strlit("6");
        reveal_strlit("7");
        reveal_strlit("8");
        reveal_strlit("9");
    }
    match d {
        0 => "0",
        1 => "1",
        2 => "2",
        3 => "3",
        4 => "4",
        5 => "5",
        6 => "6",
        7 => "7",
        8 => "8",
        _ => "9",
    }
}

/// Writes `n` in decimal.
pub fn format_u64(n: u64) -> (s: String)
    ensures
        s@ == decimal(n as nat),
    decreases n,
{
    if n < 10 {
        String::from_str(digit_str(n))
    } else {
        let mut s = format_u64(n / 10);
        s.append(digit_str(n % 10));
        s
    }
}

/// Writes `n` in decimal, with its sign where it is negative.
pub fn format_i32(n: i32) -> (s: String)
    ensures
        s@ == signed_decimal(n as int),
{
    if n < 0 {
        proof {
            reveal_strlit("-");
        }
        let magnitude: u64 = (-(n as i64)) as u64;
        let mut s = String::from_str("-");
        let digits = format_u64(magnitude);
        s.append(digits.as_str());
        assert(s@ =~= signed_decimal(n as int));
        s
    } else {
        format_u64(n as u64)
    }
}

/// The characters of a string.
pub fn chars_of(text: &str) -> (v: Vec<char>)
    ensures
        v@ == text@,
{
    let mut v: Vec<char> = Vec::new();
    for c in it: text.chars()
        invariant
            it.seq() == text@,
            v@.len() == it.index(),
            forall|i: int| 0 <= i < v@.len() ==> #[trigger] v@[i] == text@[i],
    {
        v.push(c);
    }
    assert(v@ =~= text@);
    v
}

/// Whether a text contains another, character by character.
pub open spec fn contains(text: Seq<char>, part: Seq<char>) -> bool {
    exists|i: int| #[trigger] is_part_at(text, part, i)
}

/// Whether a text goes on with another at place `i`.
pub open spec fn is_part_at(text: Seq<char>, part: Seq<char>, i: int) -> bool {
    0 <= i && i + part.len() <= text.len() && text.subrange(i, i + part.len()) == part
}

/// Tells whether a text contains another.
pub fn has_part(text: &str, part: &str) -> (b: bool)
    ensures
        b == contains(text@, part@),
{
    let t = chars_of(text);
    let p = chars_of(part);
    let n: usize = t.len();
    let m: usize = p.len();
    if m > n {
        return false;
    }
    let mut i: usize = 0;
    while i <= n - m
        invariant
            i <= n - m,
            m <= n,
            n == t@.len(),
            m == p@.len(),
            t@ == text@,
            p@ == part@,
            forall|k: int| 0 <= k < i ==> !#[trigger] is_part_at(text@, part@, k),
        decreases n - m - i,
    {
        let mut k: usize = 0;
        while k < m && t[i + k] == p[k]
            invariant
                k <= m <= n,
                i <= n - m,
                n == t@.len(),
                m == p@.len(),
                forall|j: int| 0 <= j < k ==> t@[i + j] == #[trigger] p@[j],
            decreases m - k,
        {
            k += 1;
        }
        if k == m {
            assert(text@.subrange(i as int, i + m) =~= part@);
            assert(is_part_at(text@, part@, i as int));
            return true;
        }
        proof {
            assert(t@[i + k] != p@[k as int]);
            if is_part_at(text@, part@, i as int) {
                assert(text@.subrange(i as int, i + m)[k as int] == part@[k as int]);
            }
        }
        if i == n - m {
            proof {
                assert forall|j: int| !is_part_at(text@, part@, j) by {
                    if is_part_at(text@, part@, j) {
                        assert(j <= i);
                    }
                }
            }
            return false;
        }
        i += 1;
    }
    false
}

/// A part is found wherever it stands.
pub proof fn law_part_is_found(before: Seq<char>, part: Seq<char>, behind: Seq<char>)
    ensures
        contains(before + part + behind, part),
{
    let text = before + part + behind;
    let i = before.len() as int;
    assert(text.subrange(i, i + part.len()) =~= part);
    assert(is_part_at(text, part, i));
}

/// A part that is found stands in the text, character by character, from the place
/// that is given on.
pub proof fn law_found_part_is_there(text: Seq<char>, part: Seq<char>) -> (i: int)
    requires
        contains(text, part),
    ensures
        0 <= i <= text.len() - part.len(),
        forall|k: int| 0 <= k < part.len() ==> text[i + k] == #[trigger] part[k],
        text == text.take(i) + part + text.skip(i + part.len()),
{
    let i = choose|i: int| #[trigger] is_part_at(text, part, i);
    assert forall|k: int| 0 <= k < part.len() implies text[i + k] == #[trigger] part[k] by {
        assert(text.subrange(i, i + part.len())[k] == part[k]);
    }
    assert(text =~= text.take(i) + part + text.skip(i + part.len()));
    i
}

/// The number that a text of digits reads as.
pub open spec fn number_read(s: Seq<char>) -> int
    decreases s.len(),
{
    if s.len() == 0 {
        0
    } else {
        10 * number_read(s.drop_last()) + (s.last() as int - 0x30)
    }
}

/// A number that is written reads as itself, in digits from 0 to 9, without leading
/// zeros.
pub proof fn law_written_numbers_read_as_themselves(n: nat)
    ensures
        number_read(decimal(n)) == n,
        decimal(n).len() > 0,
        n > 0 ==> decimal(n)[0] != '0',
        n == 0 ==> decimal(n).len() == 1,
        forall|i: int| 0 <= i < decimal(n).len() ==> 0x30 <= #[trigger] decimal(n)[i] as int <= 0x39,
    decreases n,
{
    if n < 10 {
        assert(decimal(n).drop_last() =~= Seq::empty());
        assert(number_read(decimal(n).drop_last()) == 0);
    } else {
        law_written_numbers_read_as_themselves(n / 10);
        let t = decimal(n / 10);
        assert(decimal(n).drop_last() =~= t);
        assert forall|i: int| 0 <= i < decimal(n).len() implies 0x30 <= #[trigger] decimal(
            n,
        )[i] as int <= 0x39 by {
            if i < t.len() {
                assert(decimal(n)[i] == t[i]);
            }
        }
    }
}

/// A sign stands in front of a number exactly if the number is negative, and what
/// follows is its magnitude.
pub proof fn law_signs_are_written(n: int)
    ensures
        n >= 0 ==> number_read(signed_decimal(n)) == n,
        n < 0 ==> signed_decimal(n)[0] == '-' && number_read(signed_decimal(n).skip(1)) == -n,
{
    if n < 0 {
        law_written_numbers_read_as_themselves((-n) as nat);
        assert(signed_decimal(n).skip(1) =~= decimal((-n) as nat));
    } else {
        law_written_numbers_read_as_themselves(n as nat);
    }
}

} // verus!
