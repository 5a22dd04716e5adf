//! Character-level helpers on strings: splitting on a separator, trimming,
//! comparing and replacing.
use vstd::prelude::*;

verus! {

/// The pieces of `s` between the occurrences of `sep`, in order; a string
/// without `sep` is a single piece, the empty string included.
pub open spec fn split_spec(s: Seq<char>, sep: char) -> Seq<Seq<char>>
    decreases s.len(),
{
    if s.len() == 0 {
        seq![Seq::<char>::empty()]
    } else {
        let init = split_spec(s.drop_last(), sep);
        if s.last() == sep {
            init.push(Seq::<char>::empty())
        } else {
            init.update(init.len() - 1, init.last().push(s.last()))
        }
    }
}

/// The views of a sequence of strings.
pub open spec fn views(v: Seq<String>) -> Seq<Seq<char>> {
    v.map_values(|p: String| p@)
}

/// What `str::trim` leaves of `s`: the text without leading and trailing
/// white space.
pub uninterp spec fn trimmed(s: Seq<char>) -> Seq<char>;

/// Relies on `str::trim`, which removes leading and trailing white space and
/// depends on the characters of `s` alone.
#[verifier::external_body]
pub(crate) fn trim_str<'a>(s: &'a str) -> (r: &'a str)
    ensures
        r@ == trimmed(s@),
{
    s.trim()
}

/// Whether two strings hold the same characters.
pub fn str_eq(a: &str, b: &str) -> (r: bool)
    ensures
        r == (a@ == b@),
{
    let x = a.to_owned();
    let y = b.to_owned();
    x == y
}

/// Splits `s` at every occurrence of `sep`.
pub fn split_on(s: &str, sep: char) -> (r: Vec<String>)
    ensures
        views(r@) == split_spec(s@, sep),
{
    let n = s.unicode_len();
    let mut pieces: Vec<String> = Vec::new();
    let mut start: usize = 0;
    let mut i: usize = 0;
    proof {
        assert(s@.subrange(0, 0) =~= Seq::<char>::empty());
        assert(views(pieces@).push(s@.subrange(0, 0)) =~= seq![Seq::<char>::empty()]);
    }
    while i < n
        invariant
            n == s@.len(),
            start <= i <= n,
            split_spec(s@.subrange(0, i as int), sep) == views(pieces@).push(
                s@.subrange(start as int, i as int),
            ),
        decreases n - i,
    {
        let c = s.get_char(i);
        proof {
            let pre = s@.subrange(0, i + 1);
            assert(pre.drop_last() =~= s@.subrange(0, i as int));
            assert(pre.last() == c);
        }
        if c == sep {
            let piece = s.substring_char(start, i).to_owned();
            proof {
                assert(views(pieces@.push(piece)) =~= views(pieces@).push(piece@));
            }
            pieces.push(piece);
            start = i + 1;
            proof {
                assert(s@.subrange(start as int, start as int) =~= Seq::<char>::empty());
            }
        } else {
            proof {
                assert(s@.subrange(start as int, i + 1) =~= s@.subrange(start as int, i as int).push(c));
            }
        }
        i = i + 1;
    }
    let last = s.substring_char(start, n).to_owned();
    proof {
        assert(s@.subrange(0, n as int) =~= s@);
        assert(views(pieces@.push(last)) =~= views(pieces@).push(last@));
    }
    pieces.push(last);
    pieces
}

pub open spec fn is_digit(c: char) -> bool {
    '0' <= c && c <= '9'
}

pub open spec fn all_digits(s: Seq<char>) -> bool {
    forall|i: int| 0 <= i < s.len() ==> is_digit(#[trigger] s[i])
}

pub open spec fn digit_value(c: char) -> int {
    c as int - '0' as int
}

/// The number that a run of decimal digits denotes.
pub open spec fn decimal_value(s: Seq<char>) -> int
    decreases s.len(),
{
    if s.len() == 0 {
        0
    } else {
        10 * decimal_value(s.drop_last()) + digit_value(s.last())
    }
}

/// The integer that `s` writes in decimal: an optional `+` or `-` followed by
/// at least one digit, nothing else.
pub open spec fn int_text_value(s: Seq<char>) -> Option<int> {
    if s.len() > 0 && (s[0] == '+' || s[0] == '-') {
        let d = s.drop_first();
        if d.len() > 0 && all_digits(d) {
            Some(
                if s[0] == '-' {
                    -decimal_value(d)
                } else {
                    decimal_value(d)
                },
            )
        } else {
            None
        }
    } else if s.len() > 0 && all_digits(s) {
        Some(decimal_value(s))
    } else {
        None
    }
}

/// The `i32` that `s` writes in decimal, where it fits.
pub open spec fn i32_text_value(s: Seq<char>) -> Option<i32> {
    match int_text_value(s) {
        Some(v) => if i32::MIN <= v <= i32::MAX {
            Some(v as i32)
        } else {
            None
        },
        None => None,
    }
}

pub proof fn lemma_decimal_step(s: Seq<char>, c: char)
    requires
        all_digits(s),
        is_digit(c),
    ensures
        decimal_value(s.push(c)) == 10 * decimal_value(s) + digit_value(c),
        decimal_value(s) >= 0,
        decimal_value(s.push(c)) >= decimal_value(s),
    decreases s.len(),
{
    assert(s.push(c).drop_last() =~= s);
    if s.len() > 0 {
        assert(all_digits(s.drop_last()));
        lemma_decimal_step(s.drop_last(), s.last());
        assert(s.drop_last().push(s.last()) =~= s);
    }
}

/// Reads a decimal `i32`: an optional sign and digits, as `str::parse` takes
/// them.
pub fn parse_i32(s: &str) -> (r: Option<i32>)
    ensures
        r == i32_text_value(s@),
{
    let n = s.unicode_len();
    if n == 0 {
        return None;
    }
    let c0 = s.get_char(0);
    let negative = c0 == '-';
    let start: usize = if c0 == '+' || c0 == '-' { 1 } else { 0 };
    if start == n {
        return None;
    }
    let ghost d = s@.subrange(start as int, n as int);
    proof {
        if start == 1 {
            assert(d =~= s@.drop_first());
        } else {
            assert(d =~= s@);
        }
    }
    // the magnitude read so far, or more than 2^31 once it has passed that
    let mut acc: i64 = 0;
    let mut i: usize = start;
    while i < n
        invariant
            n == s@.len(),
            start <= i <= n,
            d == s@.subrange(start as int, n as int),
            start <= 1,
            start == 1 ==> d == s@.drop_first(),
            start == 0 ==> d == s@,
            start == 1 <==> (s@[0] == '+' || s@[0] == '-'),
            negative == (s@[0] == '-'),
            all_digits(s@.subrange(start as int, i as int)),
            0 <= acc <= 2147483649,
            acc <= 2147483648 ==> acc == decimal_value(s@.subrange(start as int, i as int)),
            acc > 2147483648 ==> decimal_value(s@.subrange(start as int, i as int)) > 2147483648,
        decreases n - i,
    {
        let c = s.get_char(i);
        let ghost pre = s@.subrange(start as int, i as int);
        proof {
            assert(s@.subrange(start as int, i + 1) =~= pre.push(c));
        }
        if !('0' <= c && c <= '9') {
            proof {
                assert(d[i - start] == c);
                assert(!is_digit(d[i - start]));
                assert(!all_digits(d));
                if start == 1 {
                    assert(s@.drop_first() == d);
                } else {
                    assert(s@ == d);
                }
                assert(int_text_value(s@) is None);
            }
            return None;
        }
        proof {
            lemma_decimal_step(pre, c);
            assert(all_digits(pre.push(c)));
        }
        if acc <= 2147483648 {
            let v = 10 * acc + (c as i64 - '0' as i64);
            acc = if v > 2147483648 { 2147483649 } else { v };
        }
        i = i + 1;
    }
    proof {
        assert(s@.subrange(start as int, n as int) =~= d);
    }
    if negative {
        if acc > 2147483648 {
            None
        } else {
            Some((-acc) as i32)
        }
    } else {
        if acc > 2147483647 {
            None
        } else {
            Some(acc as i32)
        }
    }
}

} // verus!
