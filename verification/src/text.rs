use vstd::prelude::*;

verus! {

/// The decimal digit for `d`, which is below ten.
pub open spec fn digit_char(d: nat) -> char {
    if d == 0 { '0' }
    else if d == 1 { '1' }
    else if d == 2 { '2' }
    else if d == 3 { '3' }
    else if d == 4 { '4' }
    else if d == 5 { '5' }
    else if d == 6 { '6' }
    else if d == 7 { '7' }
    else if d == 8 { '8' }
    else { '9' }
}

/// The decimal digits of `n`, most significant first, with no leading zero.
pub open spec fn decimal_digits(n: nat) -> Seq<char>
    decreases n,
{
    if n < 10 {
        seq![digit_char(n)]
    } else {
        decimal_digits(n / 10).push(digit_char(n % 10))
    }
}

/// `n` written in decimal, with a minus sign in front when it is negative.
pub open spec fn decimal(n: int) -> Seq<char> {
    if n < 0 {
        seq!['-'] + decimal_digits((-n) as nat)
    } else {
        decimal_digits(n as nat)
    }
}

/// The one-character text of the digit `d`, which is below ten.
fn digit_str(d: u64) -> (s: &'static str)
    requires
        d < 10,
    ensures
        s@ == seq![digit_char(d as nat)],
{
    proof {
        reveal_strlit("0");
        reveal_strlit("1");
        reveal_strlit("2");
        reveal_strlit("3");
        reveal_strlit("4");
        reveal_strlit("5");
        reveal_strlit("6");
        reveal_strlit("7");
        reveal_strlit("8");
        reveal_strlit("9");
    }
    let s = if d == 0 {
        "0"
    } else if d == 1 {
        "1"
    } else if d == 2 {
        "2"
    } else if d == 3 {
        "3"
    } else if d == 4 {
        "4"
    } else if d == 5 {
        "5"
    } else if d == 6 {
        "6"
    } else if d == 7 {
        "7"
    } else if d == 8 {
        "8"
    } else {
        "9"
    };
    assert(s@ =~= seq![digit_char(d as nat)]);
    s
}

/// Appends the decimal digits of `n` to `s`.
fn push_decimal_digits(s: &mut String, n: u64)
    ensures
        final(s)@ == old(s)@ + decimal_digits(n as nat),
    decreases n,
{
    if n >= 10 {
        push_decimal_digits(s, n / 10);
    }
    s.append(digit_str(n % 10));
    assert(s@ =~= old(s)@ + decimal_digits(n as nat));
}

/// `n` written in decimal, as `Display` for `i64` writes it.
pub(crate) fn decimal_string(n: i64) -> (s: String)
    ensures
        s@ == decimal(n as int),
{
    let mut s = String::new();
    if n < 0 {
        s.append("-");
        let magnitude: u64 = if n == i64::MIN {
            9223372036854775808u64
        } else {
            (-n) as u64
        };
        push_decimal_digits(&mut s, magnitude);
        proof {
            reveal_strlit("-");
        }
        assert(s@ =~= seq!['-'] + decimal_digits((-n) as nat));
    } else {
        push_decimal_digits(&mut s, n as u64);
        assert(s@ =~= decimal_digits(n as nat));
    }
    s
}

/// Whether `c` has the Unicode `White_Space` property.
pub open spec fn is_white_space(c: char) -> bool {
    let u = c as u32;
    ||| 0x09 <= u <= 0x0d
    ||| u == 0x20
    ||| u == 0x85
    ||| u == 0xa0
    ||| u == 0x1680
    ||| 0x2000 <= u <= 0x200a
    ||| u == 0x2028
    ||| u == 0x2029
    ||| u == 0x202f
    ||| u == 0x205f
    ||| u == 0x3000
}

/// `s` without its leading white space.
pub open spec fn trim_start(s: Seq<char>) -> Seq<char>
    decreases s.len(),
{
    if s.len() > 0 && is_white_space(s[0]) {
        trim_start(s.drop_first())
    } else {
        s
    }
}

/// `s` without its trailing white space.
pub open spec fn trim_end(s: Seq<char>) -> Seq<char>
    decreases s.len(),
{
    if s.len() > 0 && is_white_space(s.last()) {
        trim_end(s.drop_last())
    } else {
        s
    }
}

/// `s` without white space at either end.
pub open spec fn trim(s: Seq<char>) -> Seq<char> {
    trim_end(trim_start(s))
}

/// Whether `pattern` occurs in `s` as a run of consecutive characters.
pub open spec fn occurs_in(pattern: Seq<char>, s: Seq<char>) -> bool {
    exists|i: int|
        0 <= i && i + pattern.len() <= s.len() && #[trigger] s.subrange(i, i + pattern.len())
            == pattern
}

/// Whether `c` has the Unicode `White_Space` property.
pub fn white_space(c: char) -> (b: bool)
    ensures
        b == is_white_space(c),
{
    let u = c as u32;
    (0x09 <= u && u <= 0x0d) || u == 0x20 || u == 0x85 || u == 0xa0 || u == 0x1680 || (0x2000
        <= u && u <= 0x200a) || u == 0x2028 || u == 0x2029 || u == 0x202f || u == 0x205f || u
        == 0x3000
}

/// The characters of `s`, in order.
pub fn chars_of(s: &str) -> (v: Vec<char>)
    ensures
        v@ == s@,
{
    let n = s.unicode_len();
    let mut v: Vec<char> = Vec::new();
    for i in 0..n
        invariant
            n == s@.len(),
            v@ == s@.take(i as int),
    {
        v.push(s.get_char(i));
        assert(v@ =~= s@.take(i + 1));
    }
    assert(v@ =~= s@);
    v
}

proof fn lemma_trim_start_skip(s: Seq<char>, i: int)
    requires
        0 <= i < s.len(),
        is_white_space(s[i]),
    ensures
        trim_start(s.subrange(i, s.len() as int)) == trim_start(s.subrange(i + 1, s.len() as int)),
{
    assert(s.subrange(i, s.len() as int).drop_first() =~= s.subrange(i + 1, s.len() as int));
}

proof fn lemma_trim_end_skip(s: Seq<char>, j: int)
    requires
        0 < j <= s.len(),
        is_white_space(s[j - 1]),
    ensures
        trim_end(s.take(j)) == trim_end(s.take(j - 1)),
{
    assert(s.take(j).drop_last() =~= s.take(j - 1));
}

/// The bounds `(start, end)` of `s` without white space at either end.
pub fn trim_bounds(s: &Vec<char>) -> (r: (usize, usize))
    ensures
        r.0 <= r.1 <= s@.len(),
        s@.subrange(r.0 as int, r.1 as int) == trim(s@),
{
    let n = s.len();
    let mut i: usize = 0;
    assert(s@.subrange(0, n as int) =~= s@);
    while i < n && white_space(s[i])
        invariant
            n == s@.len(),
            i <= n,
            trim_start(s@) == trim_start(s@.subrange(i as int, n as int)),
        decreases n - i,
    {
        proof {
            lemma_trim_start_skip(s@, i as int);
        }
        i = i + 1;
    }
    let ghost rest = s@.subrange(i as int, n as int);
    assert(trim_start(s@) == rest);
    let mut j: usize = n;
    assert(rest.take((j - i) as int) =~= rest);
    while j > i && white_space(s[j - 1])
        invariant
            n == s@.len(),
            i <= j <= n,
            rest == s@.subrange(i as int, n as int),
            trim_end(rest) == trim_end(rest.take((j - i) as int)),
        decreases j,
    {
        proof {
            lemma_trim_end_skip(rest, (j - i) as int);
        }
        j = j - 1;
    }
    assert(rest.take((j - i) as int) =~= s@.subrange(i as int, j as int));
    (i, j)
}

/// Whether `pattern` occurs in `s[lo..hi]`.
pub fn occurs_between(pattern: &Vec<char>, s: &Vec<char>, lo: usize, hi: usize) -> (b: bool)
    requires
        lo <= hi <= s@.len(),
    ensures
        b == occurs_in(pattern@, s@.subrange(lo as int, hi as int)),
{
    let ghost t = s@.subrange(lo as int, hi as int);
    let m = pattern.len();
    if m > hi - lo {
        return false;
    }
    let last = hi - lo - m;
    let mut i: usize = 0;
    while i <= last
        invariant
            m == pattern@.len(),
            lo <= hi <= s@.len(),
            t == s@.subrange(lo as int, hi as int),
            last + m == t.len(),
            forall|k: int| 0 <= k < i ==> #[trigger] t.subrange(k, k + m) != pattern@,
        decreases last + 1 - i,
    {
        let mut k: usize = 0;
        let mut same = true;
        while k < m
            invariant
                m == pattern@.len(),
                lo <= hi <= s@.len(),
                t == s@.subrange(lo as int, hi as int),
                i <= last,
                last + m == t.len(),
                k <= m,
                same == (forall|x: int| 0 <= x < k ==> t[i + x] == pattern@[x]),
            decreases m - k,
        {
            if s[lo + i + k] != pattern[k] {
                same = false;
            }
            k = k + 1;
        }
        if same {
            assert(t.subrange(i as int, i + m) =~= pattern@);
            return true;
        }
        assert(t.subrange(i as int, i + m) != pattern@) by {
            let x = choose|x: int| 0 <= x < m && t[i + x] != pattern@[x];
            assert(t.subrange(i as int, i + m)[x] == t[i + x]);
        }
        i = i + 1;
    }
    assert forall|k: int|
        0 <= k && k + pattern@.len() <= t.len() implies #[trigger] t.subrange(
        k,
        k + pattern@.len(),
    ) != pattern@ by {
        assert(k < i);
    }
    false
}

/// Trimming the start drops exactly the leading run of white space: the
/// result is the text from the first character that is not white space.
pub proof fn lemma_trim_start_index(s: Seq<char>) -> (st: int)
    ensures
        0 <= st <= s.len(),
        trim_start(s) == s.subrange(st, s.len() as int),
        forall|k: int| 0 <= k < st ==> is_white_space(#[trigger] s[k]),
        st < s.len() ==> !is_white_space(s[st]),
    decreases s.len(),
{
    if s.len() > 0 && is_white_space(s[0]) {
        let r = lemma_trim_start_index(s.drop_first());
        assert(s.drop_first().subrange(r, s.len() - 1) =~= s.subrange(r + 1, s.len() as int));
        assert forall|k: int| 0 <= k < r + 1 implies is_white_space(#[trigger] s[k]) by {
            if k > 0 {
                assert(s[k] == s.drop_first()[k - 1]);
            }
        }
        if r + 1 < s.len() {
            assert(s[r + 1] == s.drop_first()[r]);
        }
        r + 1
    } else {
        assert(s.subrange(0, s.len() as int) =~= s);
        0
    }
}

/// Trimming the end drops exactly the trailing run of white space: the
/// result is the text up to the last character that is not white space.
pub proof fn lemma_trim_end_index(s: Seq<char>) -> (en: int)
    ensures
        0 <= en <= s.len(),
        trim_end(s) == s.take(en),
        forall|k: int| en <= k < s.len() ==> is_white_space(#[trigger] s[k]),
        en > 0 ==> !is_white_space(s[en - 1]),
    decreases s.len(),
{
    if s.len() > 0 && is_white_space(s.last()) {
        let r = lemma_trim_end_index(s.drop_last());
        assert(s.drop_last().take(r) =~= s.take(r));
        assert forall|k: int| r <= k < s.len() implies is_white_space(#[trigger] s[k]) by {
            if k < s.len() - 1 {
                assert(s[k] == s.drop_last()[k]);
            }
        }
        if r > 0 {
            assert(s[r - 1] == s.drop_last()[r - 1]);
        }
        r
    } else {
        assert(s.take(s.len() as int) =~= s);
        s.len() as int
    }
}

/// A pattern that neither begins nor ends with white space occurs in the
/// trimmed text exactly when it occurs in the text, at any position.
pub proof fn lemma_occurs_in_trim(p: Seq<char>, s: Seq<char>)
    requires
        p.len() > 0,
        !is_white_space(p[0]),
        !is_white_space(p.last()),
    ensures
        occurs_in(p, trim(s)) == occurs_in(p, s),
{
    let st = lemma_trim_start_index(s);
    let t1 = trim_start(s);
    let en = lemma_trim_end_index(t1);
    let t = trim(s);
    let l = p.len() as int;
    assert(t =~= s.subrange(st, st + en));
    if occurs_in(p, t) {
        let i = choose|i: int| 0 <= i && i + l <= t.len() && #[trigger] t.subrange(i, i + l) == p;
        assert(s.subrange(st + i, st + i + l) =~= t.subrange(i, i + l));
        assert(occurs_in(p, s));
    }
    if occurs_in(p, s) {
        let i = choose|i: int| 0 <= i && i + l <= s.len() && #[trigger] s.subrange(i, i + l) == p;
        assert(s[i] == s.subrange(i, i + l)[0]);
        assert(s[i + l - 1] == s.subrange(i, i + l)[l - 1]);
        assert(i >= st);
        if i + l - 1 >= st + en {
            assert(t1[i + l - 1 - st] == s[i + l - 1]);
        }
        assert(t.subrange(i - st, i - st + l) =~= s.subrange(i, i + l));
        assert(occurs_in(p, t));
    }
}

/// A run that occurs in the middle part of three texts put together occurs
/// in the whole.
pub proof fn lemma_occurs_in_context(p: Seq<char>, a: Seq<char>, m: Seq<char>, b: Seq<char>)
    requires
        occurs_in(p, m),
    ensures
        occurs_in(p, a + m + b),
{
    let l = p.len() as int;
    let i = choose|i: int| 0 <= i && i + l <= m.len() && #[trigger] m.subrange(i, i + l) == p;
    let w = a + m + b;
    assert(w.subrange(a.len() + i, a.len() + i + l) =~= m.subrange(i, i + l));
}

/// The value of a run of decimal digits, most significant first.
pub open spec fn digits_value(s: Seq<char>) -> int
    decreases s.len(),
{
    if s.len() == 0 {
        0
    } else {
        digits_value(s.drop_last()) * 10 + ((s.last() as u32) - ('0' as u32))
    }
}

/// Whether every character of `s` is one of the digits 0 to 9.
pub open spec fn all_digits(s: Seq<char>) -> bool {
    forall|i: int| 0 <= i < s.len() ==> '0' <= #[trigger] s[i] <= '9'
}

proof fn lemma_digit_char_value(d: nat)
    requires
        d < 10,
    ensures
        (digit_char(d) as u32) - ('0' as u32) == d,
        '0' <= digit_char(d) <= '9',
{
}

/// The decimal digits of a number are digits, begin with 0 only for zero,
/// and read back as the number.
pub proof fn law_decimal_digits_read_back(n: nat)
    ensures
        decimal_digits(n).len() > 0,
        all_digits(decimal_digits(n)),
        decimal_digits(n)[0] == '0' ==> n == 0,
        digits_value(decimal_digits(n)) == n,
    decreases n,
{
    if n >= 10 {
        law_decimal_digits_read_back(n / 10);
        lemma_digit_char_value(n % 10);
        let s = decimal_digits(n);
        assert(s.drop_last() =~= decimal_digits(n / 10));
        assert(s.last() == digit_char(n % 10));
        assert(digits_value(s) == digits_value(s.drop_last()) * 10 + ((s.last() as u32) - (
        '0' as u32)));
        assert(s[0] == decimal_digits(n / 10)[0]);
        assert forall|i: int| 0 <= i < s.len() implies '0' <= #[trigger] s[i] <= '9' by {
            if i < s.len() - 1 {
                assert(s[i] == decimal_digits(n / 10)[i]);
            }
        }
    } else {
        lemma_digit_char_value(n);
        let s = decimal_digits(n);
        assert(s.drop_last() =~= Seq::<char>::empty());
        assert(digits_value(s) == digits_value(s.drop_last()) * 10 + ((s.last() as u32) - (
        '0' as u32)));
    }
}

/// A number in decimal: a minus sign first exactly when it is negative, then
/// digits that read back as its magnitude.
pub proof fn law_decimal_read_back(n: int)
    ensures
        decimal(n).len() > 0,
        (decimal(n)[0] == '-') <==> n < 0,
        n < 0 ==> all_digits(decimal(n).drop_first()) && digits_value(decimal(n).drop_first()) == -n,
        n >= 0 ==> all_digits(decimal(n)) && digits_value(decimal(n)) == n,
{
    if n < 0 {
        law_decimal_digits_read_back((-n) as nat);
        assert(decimal(n).drop_first() =~= decimal_digits((-n) as nat));
    } else {
        law_decimal_digits_read_back(n as nat);
        assert('0' <= decimal(n)[0] <= '9');
    }
}

} // verus!
