//! Text primitives shared by the rest of the crate: white space, trimming and
//! decimal numbers.

use vstd::prelude::*;

verus! {

/// The texts of a list of strings.
pub open spec fn texts(v: Seq<String>) -> Seq<Seq<char>> {
    v.map_values(|s: String| s@)
}

/// The texts of a list of pairs of strings.
pub open spec fn pair_texts(v: Seq<(String, String)>) -> Seq<(Seq<char>, Seq<char>)> {
    v.map_values(|e: (String, String)| (e.0@, e.1@))
}

/// The code points that carry the Unicode `White_Space` property.
pub open spec fn is_white_space(c: char) -> bool {
    let n = c as u32;
    ||| 0x09 <= n <= 0x0d
    ||| n == 0x20
    ||| n == 0x85
    ||| n == 0xa0
    ||| n == 0x1680
    ||| 0x2000 <= n <= 0x200a
    ||| n == 0x2028
    ||| n == 0x2029
    ||| n == 0x202f
    ||| n == 0x205f
    ||| n == 0x3000
}

/// `s` without its leading white space.
pub open spec fn trim_start(s: Seq<char>) -> Seq<char>
    decreases s.len(),
{
    if s.len() > 0 && is_white_space(s[0]) {
        trim_start(s.drop_first())
    } else {
        s
    }
}

/// `s` without its trailing white space.
pub open spec fn trim_end(s: Seq<char>) -> Seq<char>
    decreases s.len(),
{
    if s.len() > 0 && is_white_space(s.last()) {
        trim_end(s.drop_last())
    } else {
        s
    }
}

/// `s` without leading and trailing white space.
pub open spec fn trimmed(s: Seq<char>) -> Seq<char> {
    trim_end(trim_start(s))
}

/// The character that writes the digit `d`.
pub open spec fn digit_char(d: nat) -> char {
    (0x30 + d) as char
}

/// Whether `c` is one of `0` to `9`.
pub open spec fn is_digit(c: char) -> bool {
    0x30 <= c as u32 <= 0x39
}

/// The digit that `c` writes.
pub open spec fn digit_value(c: char) -> nat {
    (c as u32 - 0x30) as nat
}

/// `n` written in decimal, without leading zeros.
pub open spec fn decimal(n: nat) -> Seq<char>
    decreases n,
{
    if n < 10 {
        seq![digit_char(n)]
    } else {
        decimal(n / 10).push(digit_char(n % 10))
    }
}

/// Whether `s` holds digits only.
pub open spec fn all_digits(s: Seq<char>) -> bool {
    forall|i: int| 0 <= i < s.len() ==> is_digit(#[trigger] s[i])
}

/// The number that a run of digits writes; leading zeros count for nothing.
pub open spec fn digits_value(s: Seq<char>) -> nat
    decreases s.len(),
{
    if s.len() == 0 {
        0
    } else {
        digits_value(s.drop_last()) * 10 + digit_value(s.last())
    }
}

/// What is left of a number's text once one leading `+` is taken away.
pub open spec fn unsigned_body(s: Seq<char>) -> Seq<char> {
    if s.len() > 0 && s[0] == '+' {
        s.drop_first()
    } else {
        s
    }
}

/// The 16-bit number that `s` writes: an optional `+`, then at least one
/// digit and nothing else, with a value of at most 65535.
pub open spec fn parsed_u16(s: Seq<char>) -> Option<u16> {
    let body = unsigned_body(s);
    if body.len() > 0 && all_digits(body) && digits_value(body) <= 0xffff {
        Some(digits_value(body) as u16)
    } else {
        None
    }
}

proof fn lemma_trim_start_is_skip(s: Seq<char>, k: int)
    requires
        0 <= k <= s.len(),
        forall|i: int| 0 <= i < k ==> is_white_space(#[trigger] s[i]),
        k < s.len() ==> !is_white_space(s[k]),
    ensures
        trim_start(s) == s.skip(k),
    decreases k,
{
    if k == 0 {
        assert(s.skip(0) =~= s);
    } else {
        let rest = s.drop_first();
        assert forall|i: int| 0 <= i < k - 1 implies is_white_space(#[trigger] rest[i]) by {
            assert(rest[i] == s[i + 1]);
        }
        lemma_trim_start_is_skip(rest, k - 1);
        assert(rest.skip(k - 1) =~= s.skip(k));
    }
}

proof fn lemma_trim_end_is_take(s: Seq<char>, k: int)
    requires
        0 <= k <= s.len(),
        forall|i: int| k <= i < s.len() ==> is_white_space(#[trigger] s[i]),
        k > 0 ==> !is_white_space(s[k - 1]),
    ensures
        trim_end(s) == s.take(k),
    decreases s.len() - k,
{
    if k == s.len() {
        assert(s.take(k) =~= s);
    } else {
        let rest = s.drop_last();
        assert forall|i: int| k <= i < rest.len() implies is_white_space(#[trigger] rest[i]) by {
            assert(rest[i] == s[i]);
        }
        lemma_trim_end_is_take(rest, k);
        assert(rest.take(k) =~= s.take(k));
    }
}

proof fn lemma_trim_start_shape(s: Seq<char>)
    ensures
        trim_start(s).len() > 0 ==> !is_white_space(trim_start(s)[0]),
    decreases s.len(),
{
    if s.len() > 0 && is_white_space(s[0]) {
        lemma_trim_start_shape(s.drop_first());
    }
}

proof fn lemma_trim_end_shape(s: Seq<char>)
    ensures
        trim_end(s).len() <= s.len(),
        trim_end(s) == s.take(trim_end(s).len() as int),
        trim_end(s).len() > 0 ==> !is_white_space(trim_end(s).last()),
    decreases s.len(),
{
    if s.len() > 0 && is_white_space(s.last()) {
        let rest = s.drop_last();
        lemma_trim_end_shape(rest);
        assert(rest.take(trim_end(s).len() as int) =~= s.take(trim_end(s).len() as int));
    } else {
        assert(s.take(s.len() as int) =~= s);
    }
}

/// What is left after trimming neither begins nor ends with white space,
/// so that trimming it again changes nothing.
pub proof fn lemma_trimmed_is_clean(s: Seq<char>)
    ensures
        trimmed(s).len() > 0 ==> !is_white_space(trimmed(s).first()) && !is_white_space(
            trimmed(s).last(),
        ),
        trimmed(trimmed(s)) == trimmed(s),
{
    lemma_trim_start_shape(s);
    lemma_trim_end_shape(trim_start(s));
    let t = trimmed(s);
    if t.len() > 0 {
        assert(t[0] == trim_start(s)[0]);
    }
}

/// A number's digits never make an empty text.
pub proof fn lemma_decimal_len(n: nat)
    ensures
        decimal(n).len() >= 1,
        n >= 10 ==> decimal(n).len() >= 2,
        all_digits(decimal(n)),
    decreases n,
{
    if n >= 10 {
        lemma_decimal_len(n / 10);
    }
}

/// Reading back what `decimal` wrote gives the number again.
pub proof fn lemma_digits_value_of_decimal(n: nat)
    ensures
        digits_value(decimal(n)) == n,
    decreases n,
{
    if n < 10 {
        assert(decimal(n).drop_last() =~= Seq::<char>::empty());
        assert(digits_value(decimal(n).drop_last()) == 0);
    } else {
        lemma_digits_value_of_decimal(n / 10);
        assert(decimal(n).drop_last() =~= decimal(n / 10));
    }
}

/// Two numbers with the same decimal text are the same number.
pub proof fn lemma_decimal_injective(a: nat, b: nat)
    requires
        decimal(a) == decimal(b),
    ensures
        a == b,
{
    lemma_digits_value_of_decimal(a);
    lemma_digits_value_of_decimal(b);
}

/// Every 16-bit number is read back from its own decimal text.
pub proof fn lemma_parse_of_decimal(n: u16)
    ensures
        parsed_u16(decimal(n as nat)) == Some(n),
{
    lemma_decimal_len(n as nat);
    lemma_digits_value_of_decimal(n as nat);
    assert(is_digit(decimal(n as nat)[0]));
}

proof fn lemma_digits_value_grows(s: Seq<char>, k: int)
    requires
        0 <= k <= s.len(),
    ensures
        digits_value(s.take(k)) <= digits_value(s),
    decreases s.len() - k,
{
    if k == s.len() {
        assert(s.take(k) =~= s);
    } else {
        lemma_digits_value_grows(s.drop_last(), k);
        assert(s.drop_last().take(k) =~= s.take(k));
    }
}

/// Tells whether `c` is white space.
pub fn white_space(c: char) -> (b: bool)
    ensures
        b == is_white_space(c),
{
    let n: u32 = c as u32;
    (0x09 <= n && n <= 0x0d) || n == 0x20 || n == 0x85 || n == 0xa0 || n == 0x1680 || (0x2000 <= n
        && n <= 0x200a) || n == 0x2028 || n == 0x2029 || n == 0x202f || n == 0x205f || n == 0x3000
}

/// Appends a copy of `s` to `v`.
pub fn push_text(v: &mut Vec<String>, s: &str)
    ensures
        texts(final(v)@) == texts(old(v)@).push(s@),
{
    v.push(String::from_str(s));
    assert(texts(v@) =~= texts(old(v)@).push(s@));
}

/// The characters of `s`, in order.
pub fn chars_of(s: &str) -> (v: Vec<char>)
    ensures
        v@ == s@,
{
    let mut v: Vec<char> = Vec::new();
    for c in it: s.chars()
        invariant
            it.seq() == s@,
            v@ == s@.take(it.index() as int),
    {
        v.push(c);
    }
    v
}

/// Cuts the white space off both ends of `s`.
pub fn trim<'a>(s: &'a str) -> (r: &'a str)
    ensures
        r@ == trimmed(s@),
{
    let chars = chars_of(s);
    let n: usize = chars.len();
    let mut start: usize = 0;
    while start < n && white_space(chars[start])
        invariant
            start <= n,
            n == chars.len(),
            forall|i: int| 0 <= i < start ==> is_white_space(#[trigger] chars@[i]),
        decreases n - start,
    {
        start += 1;
    }
    let mut end: usize = n;
    while end > start && white_space(chars[end - 1])
        invariant
            start <= end <= n,
            n == chars.len(),
            forall|i: int| end <= i < n ==> is_white_space(#[trigger] chars@[i]),
        decreases end,
    {
        end -= 1;
    }
    proof {
        let inner = s@.skip(start as int);
        lemma_trim_start_is_skip(s@, start as int);
        assert forall|i: int| end - start <= i < inner.len() implies is_white_space(
            #[trigger] inner[i],
        ) by {
            assert(inner[i] == chars@[i + start]);
        }
        lemma_trim_end_is_take(inner, end - start);
        assert(inner.take(end - start) =~= s@.subrange(start as int, end as int));
    }
    s.substring_char(start, end)
}

fn digit_text(d: u32) -> (r: &'static str)
    requires
        d < 10,
    ensures
        r@ == seq![digit_char(d as nat)],
{
    proof {
        reveal_strlit("0");
        reveal_strlit("1");
        reveal_strlit("2");
        reveal_strlit("3");
        reveal_strlit("4");
        reveal_strlit("5");
        reveal_strlit("6");
        reveal_strlit("7");
        reveal_strlit("8");
        reveal_strlit("9");
    }
    let r = match d {
        0 => "0",
        1 => "1",
        2 => "2",
        3 => "3",
        4 => "4",
        5 => "5",
        6 => "6",
        7 => "7",
        8 => "8",
        _ => "9",
    };
    assert(r@ =~= seq![digit_char(d as nat)]);
    r
}

/// Writes `n` in decimal.
pub fn render_decimal(n: u32) -> (r: String)
    ensures
        r@ == decimal(n as nat),
    decreases n,
{
    if n < 10 {
        String::from_str(digit_text(n))
    } else {
        let mut r = render_decimal(n / 10);
        r.append(digit_text(n % 10));
        r
    }
}

/// Reads a 16-bit number: an optional `+`, then decimal digits and nothing
/// else. Anything else, an empty text and a value over 65535 give `None`.
pub fn parse_u16(s: &str) -> (r: Option<u16>)
    ensures
        r == parsed_u16(s@),
{
    let chars = chars_of(s);
    let n: usize = chars.len();
    let first: usize = if n > 0 && chars[0] == '+' {
        1
    } else {
        0
    };
    let ghost body = unsigned_body(s@);
    assert(body =~= s@.skip(first as int));
    if first == n {
        return None;
    }
    let mut acc: u32 = 0;
    let mut i: usize = first;
    while i < n
        invariant
            first <= i <= n,
            n == chars.len(),
            chars@ == s@,
            body == s@.skip(first as int),
            body == unsigned_body(s@),
            all_digits(body.take(i - first)),
            acc == digits_value(body.take(i - first)),
            acc <= 0xffff,
        decreases n - i,
    {
        let code: u32 = chars[i] as u32;
        let ghost prefix = body.take(i - first + 1);
        assert(prefix.drop_last() =~= body.take(i - first));
        assert(prefix.last() == chars@[i as int]);
        if code < 0x30 || code > 0x39 {
            assert(!is_digit(body[i - first]));
            return None;
        }
        let next: u32 = acc * 10 + (code - 0x30);
        assert(digits_value(prefix) == next);
        if next > 0xffff {
            proof {
                lemma_digits_value_grows(body, i - first + 1);
            }
            return None;
        }
        assert forall|j: int| 0 <= j < prefix.len() implies is_digit(#[trigger] prefix[j]) by {
            if j < i - first {
                assert(prefix[j] == body.take(i - first)[j]);
            }
        }
        acc = next;
        i += 1;
    }
    assert(body.take(n - first) =~= body);
    Some(acc as u16)
}

} // verus!
