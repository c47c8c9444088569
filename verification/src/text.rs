//! Building text: decimal rendering of integers and comparison of strings.

use vstd::prelude::*;

verus! {

/// A result whose error text is taken as its characters.
pub open spec fn text_result<T>(r: Result<T, String>) -> Result<T, Seq<char>> {
    match r {
        Ok(t) => Ok(t),
        Err(e) => Err(e@),
    }
}

/// The character of a decimal digit.
pub open spec fn digit_char(d: nat) -> char
    recommends
        d < 10,
{
    (48 + d) as char
}

/// The shortest decimal rendering of `n`, most significant digit first.
pub open spec fn decimal(n: nat) -> Seq<char>
    decreases n,
{
    if n < 10 {
        seq![digit_char(n)]
    } else {
        decimal(n / 10).push(digit_char(n % 10))
    }
}

/// The text of one decimal digit.
pub(crate) fn digit_text(d: u8) -> (r: &'static str)
    requires
        d < 10,
    ensures
        r@ == seq![digit_char(d as nat)],
{
    proof {
        reveal_strlit("0");
        reveal_strlit("1");
        reveal_strlit("2");
        reveal_strlit("3");
        reveal_strlit("4");
        reveal_strlit("5");
        reveal_strlit("6");
        reveal_strlit("7");
        reveal_strlit("8");
        reveal_strlit("9");
    }
    let r = match d {
        0 => "0",
        1 => "1",
        2 => "2",
        3 => "3",
        4 => "4",
        5 => "5",
        6 => "6",
        7 => "7",
        8 => "8",
        _ => "9",
    };
    assert(r@ =~= seq![digit_char(d as nat)]);
    r
}

/// Appends one decimal digit.
pub(crate) fn push_digit(s: &mut String, d: u8)
    requires
        d < 10,
    ensures
        final(s)@ == old(s)@.push(digit_char(d as nat)),
{
    s.append(digit_text(d));
    assert(final(s)@ =~= old(s)@.push(digit_char(d as nat)));
}

/// Appends the decimal rendering of `n` to `s`.
pub fn push_decimal(s: &mut String, n: u64)
    ensures
        final(s)@ == old(s)@ + decimal(n as nat),
    decreases n,
{
    if n >= 10 {
        push_decimal(s, n / 10);
    }
    push_digit(s, (n % 10) as u8);
}

/// Whether two texts hold the same characters.
pub fn str_eq(a: &str, b: &str) -> (r: bool)
    ensures
        r == (a@ == b@),
{
    let n = a.unicode_len();
    if n != b.unicode_len() {
        return false;
    }
    let mut i: usize = 0;
    while i < n
        invariant
            n == a@.len(),
            n == b@.len(),
            i <= n,
            forall|j: int| 0 <= j < i ==> a@[j] == b@[j],
        decreases n - i,
    {
        if a.get_char(i) != b.get_char(i) {
            return false;
        }
        i = i + 1;
    }
    assert(a@ =~= b@);
    true
}

/// Whether `c` is one of the ASCII decimal digits.
pub open spec fn is_digit(c: char) -> bool {
    '0' <= c <= '9'
}

/// The value of a run of decimal digits, most significant first.
pub open spec fn digits_value(ds: Seq<char>) -> nat
    decreases ds.len(),
{
    if ds.len() == 0 {
        0
    } else {
        digits_value(ds.drop_last()) * 10 + (ds.last() as nat - 48) as nat
    }
}

/// The digits of an unsigned number's text: one leading `+` is allowed.
pub open spec fn unsigned_digits(s: Seq<char>) -> Seq<char> {
    if s.len() > 0 && s[0] == '+' {
        s.drop_first()
    } else {
        s
    }
}

/// The `u64` a text denotes, as std's `u64::from_str` reads it: an
/// optional `+`, then at least one decimal digit and nothing else, with a
/// value that fits.
pub open spec fn parse_u64_spec(s: Seq<char>) -> Option<u64> {
    let ds = unsigned_digits(s);
    if ds.len() > 0 && (forall|i: int| 0 <= i < ds.len() ==> is_digit(#[trigger] ds[i]))
        && digits_value(ds) <= u64::MAX {
        Some(digits_value(ds) as u64)
    } else {
        None
    }
}

/// A run of digits is worth at least as much as any of its prefixes.
proof fn lemma_digits_value_grows(ds: Seq<char>, k: int)
    requires
        0 <= k <= ds.len(),
        forall|i: int| 0 <= i < ds.len() ==> is_digit(#[trigger] ds[i]),
    ensures
        digits_value(ds.take(k)) <= digits_value(ds),
    decreases ds.len() - k,
{
    if k < ds.len() {
        lemma_digits_value_grows(ds, k + 1);
        assert(ds.take(k + 1).drop_last() =~= ds.take(k));
    } else {
        assert(ds.take(k) =~= ds);
    }
}

/// Reads a decimal `u64` the way `u64::from_str` does; `None` where it
/// would return an error.
pub fn parse_u64(s: &str) -> (r: Option<u64>)
    ensures
        r == parse_u64_spec(s@),
{
    let n = s.unicode_len();
    let mut start: usize = 0;
    if n > 0 && s.get_char(0) == '+' {
        start = 1;
    }
    let ghost ds = unsigned_digits(s@);
    assert(ds =~= s@.subrange(start as int, n as int));
    if start == n {
        return None;
    }
    let mut value: u64 = 0;
    let mut i: usize = start;
    while i < n
        invariant
            n == s@.len(),
            start <= i <= n,
            ds =~= s@.subrange(start as int, n as int),
            ds == unsigned_digits(s@),
            forall|j: int| 0 <= j < i - start ==> is_digit(#[trigger] ds[j]),
            value as nat == digits_value(ds.take(i - start)),
        decreases n - i,
    {
        let c = s.get_char(i);
        assert(c == ds[i - start]);
        let code: u32 = c as u32;
        if !(48 <= code && code <= 57) {
            assert(!is_digit(ds[i - start]));
            return None;
        }
        let d: u64 = (code - 48) as u64;
        assert(ds.take(i - start + 1).drop_last() =~= ds.take(i - start));
        if value > (u64::MAX - d) / 10 {
            proof {
                let k = i - start + 1;
                assert(digits_value(ds.take(k)) > u64::MAX) by (nonlinear_arith)
                    requires
                        digits_value(ds.take(k)) == value * 10 + d,
                        value > (u64::MAX - d) / 10,
                        d <= 9,
                ;
                if forall|j: int| 0 <= j < ds.len() ==> is_digit(#[trigger] ds[j]) {
                    lemma_digits_value_grows(ds, k);
                    assert(digits_value(ds) > u64::MAX);
                }
                assert(parse_u64_spec(s@) is None);
            }
            return None;
        }
        value = value * 10 + d;
        i = i + 1;
    }
    assert(ds.take(n - start) =~= ds);
    Some(value)
}

/// The part of a request target before its query: everything up to the
/// first `?`, or all of it where there is none.
pub open spec fn before_query(s: Seq<char>) -> Seq<char>
    decreases s.len(),
{
    if s.len() == 0 {
        s
    } else if s[0] == '?' {
        Seq::empty()
    } else {
        seq![s[0]] + before_query(s.drop_first())
    }
}

/// Past a stretch free of `?`, the part before the query continues with
/// what follows it.
proof fn lemma_before_query_split(s: Seq<char>, i: int)
    requires
        0 <= i <= s.len(),
        forall|j: int| 0 <= j < i ==> s[j] != '?',
    ensures
        before_query(s) == s.take(i) + before_query(s.skip(i)),
    decreases i,
{
    if i > 0 {
        lemma_before_query_split(s.drop_first(), i - 1);
        assert(s.drop_first().take(i - 1) =~= s.take(i).drop_first());
        assert(s.drop_first().skip(i - 1) =~= s.skip(i));
        assert(seq![s[0]] + s.take(i).drop_first() =~= s.take(i));
    } else {
        assert(s.skip(0) =~= s);
    }
}

/// The path of a request target: the part before its query.
pub fn request_path(target: &str) -> (r: String)
    ensures
        r@ == before_query(target@),
{
    let n = target.unicode_len();
    let mut i: usize = 0;
    while i < n
        invariant
            n == target@.len(),
            i <= n,
            forall|j: int| 0 <= j < i ==> target@[j] != '?',
        ensures
            i <= n,
            forall|j: int| 0 <= j < i ==> target@[j] != '?',
            i < n ==> target@[i as int] == '?',
        decreases n - i,
    {
        if target.get_char(i) == '?' {
            break;
        }
        i = i + 1;
    }
    let path = String::from_str(target.substring_char(0, i));
    assert(path@ =~= target@.take(i as int));
    proof {
        lemma_before_query_split(target@, i as int);
        if i < n {
            assert(target@.skip(i as int)[0] == '?');
        } else {
            assert(target@.skip(i as int).len() == 0);
        }
        assert(path@ + Seq::<char>::empty() =~= path@);
    }
    path
}

/// The path of a request target is the start of the target up to, and
/// not including, its first `?`; the whole target where there is none.
pub proof fn before_query_meaning(s: Seq<char>)
    ensures
        before_query(s).len() <= s.len(),
        before_query(s) == s.take(before_query(s).len() as int),
        forall|j: int| 0 <= j < before_query(s).len() ==> #[trigger] before_query(s)[j] != '?',
        before_query(s).len() < s.len() ==> s[before_query(s).len() as int] == '?',
    decreases s.len(),
{
    if s.len() > 0 && s[0] != '?' {
        before_query_meaning(s.drop_first());
        let b = before_query(s.drop_first());
        assert(before_query(s) =~= seq![s[0]] + b);
        assert(s.take(before_query(s).len() as int) =~= seq![s[0]] + s.drop_first().take(
            b.len() as int,
        ));
        assert forall|j: int| 0 <= j < before_query(s).len() implies #[trigger] before_query(s)[j]
            != '?' by {
            if j > 0 {
                assert(before_query(s)[j] == b[j - 1]);
            }
        }
        if before_query(s).len() < s.len() {
            assert(s[before_query(s).len() as int] == s.drop_first()[b.len() as int]);
        }
    } else {
        assert(s.take(0) =~= Seq::<char>::empty());
    }
}

/// Reading back the decimal rendering of a `u64` gives the number.
pub proof fn decimal_reads_back(n: u64)
    ensures
        parse_u64_spec(decimal(n as nat)) == Some(n),
{
    lemma_decimal_digits(n as nat);
}

/// The decimal rendering is made of digits worth the number.
proof fn lemma_decimal_digits(n: nat)
    ensures
        decimal(n).len() > 0,
        forall|i: int| 0 <= i < decimal(n).len() ==> is_digit(#[trigger] decimal(n)[i]),
        digits_value(decimal(n)) == n,
    decreases n,
{
    if n >= 10 {
        lemma_decimal_digits(n / 10);
        let d = decimal(n);
        assert(d.drop_last() =~= decimal(n / 10));
        assert(d.last() == digit_char(n % 10));
        assert(digit_char(n % 10) as nat == 48 + n % 10);
        assert(digits_value(d) == digits_value(decimal(n / 10)) * 10 + (d.last() as nat - 48) as nat);
        assert forall|i: int| 0 <= i < d.len() implies is_digit(#[trigger] d[i]) by {
            if i < d.len() - 1 {
                assert(d[i] == decimal(n / 10)[i]);
            }
        }
    } else {
        assert(decimal(n).drop_last() =~= Seq::<char>::empty());
        assert(digit_char(n) as nat == 48 + n);
        assert(digits_value(decimal(n)) == digits_value(decimal(n).drop_last()) * 10 + (decimal(n).last() as nat - 48) as nat);
    }
}

} // verus!
