//! Small verified helpers on strings and characters: equality, prefix and
//! suffix tests, whitespace splitting, and decimal formatting and parsing.

use vstd::prelude::*;

verus! {

/// Character-wise equality of two string slices.
pub fn str_eq(a: &str, b: &str) -> (r: bool)
    ensures
        r == (a@ == b@),
{
    let alen = a.unicode_len();
    let blen = b.unicode_len();
    if alen != blen {
        assert(a@ != b@) by {
            assert(a@.len() != b@.len());
        }
        return false;
    }
    let mut i: usize = 0;
    while i < alen
        invariant
            alen == a@.len(),
            alen == b@.len(),
            0 <= i <= alen,
            forall|j: int| 0 <= j < i ==> a@[j] == b@[j],
        decreases alen - i,
    {
        if a.get_char(i) != b.get_char(i) {
            return false;
        }
        i = i + 1;
    }
    proof {
        assert(a@ =~= b@);
    }
    true
}

/// Copies a string slice into an owned string.
pub fn str_to_string(s: &str) -> (r: String)
    ensures
        r@ == s@,
{
    s.to_owned()
}

pub fn string_eq(a: &String, b: &String) -> (r: bool)
    ensures
        r == (a@ == b@),
{
    str_eq(a.as_str(), b.as_str())
}

/// Turns a vector of characters into a string with the same characters.
/// Relies on `String::from_iter` collecting every character in order.
#[verifier::external_body]
pub fn chars_to_string(v: &Vec<char>) -> (r: String)
    ensures
        r@ == v@,
{
    v.iter().collect()
}

pub fn starts_with(s: &str, prefix: &str) -> (r: bool)
    ensures
        r == (s@.len() >= prefix@.len() && s@.subrange(0, prefix@.len() as int) == prefix@),
{
    let slen = s.unicode_len();
    let plen = prefix.unicode_len();
    if slen < plen {
        return false;
    }
    let mut i: usize = 0;
    while i < plen
        invariant
            slen == s@.len(),
            plen == prefix@.len(),
            plen <= slen,
            0 <= i <= plen,
            forall|j: int| 0 <= j < i ==> s@[j] == prefix@[j],
        decreases plen - i,
    {
        if s.get_char(i) != prefix.get_char(i) {
            assert(s@.subrange(0, plen as int)[i as int] != prefix@[i as int]);
            return false;
        }
        i = i + 1;
    }
    proof {
        assert(s@.subrange(0, plen as int) =~= prefix@);
    }
    true
}

pub fn ends_with(s: &str, suffix: &str) -> (r: bool)
    ensures
        r == (s@.len() >= suffix@.len() && s@.subrange(
            s@.len() - suffix@.len(),
            s@.len() as int,
        ) == suffix@),
{
    let slen = s.unicode_len();
    let xlen = suffix.unicode_len();
    if slen < xlen {
        return false;
    }
    let off: usize = slen - xlen;
    let mut i: usize = 0;
    while i < xlen
        invariant
            slen == s@.len(),
            xlen == suffix@.len(),
            off == slen - xlen,
            0 <= i <= xlen,
            forall|j: int| 0 <= j < i ==> s@[off + j] == suffix@[j],
        decreases xlen - i,
    {
        if s.get_char(off + i) != suffix.get_char(i) {
            assert(s@.subrange(off as int, s@.len() as int)[i as int] != suffix@[i as int]);
            return false;
        }
        i = i + 1;
    }
    proof {
        assert(s@.subrange(off as int, s@.len() as int) =~= suffix@);
    }
    true
}

/// Owned copy of the characters `from..to` of `s`.
pub fn substring(s: &str, from: usize, to: usize) -> (r: String)
    requires
        from <= to <= s@.len(),
    ensures
        r@ == s@.subrange(from as int, to as int),
{
    str_to_string(s.substring_char(from, to))
}

/// The position of the first occurrence of `c` in `s`, if any.
pub fn find_char(s: &str, c: char) -> (r: Option<usize>)
    ensures
        match r {
            Some(i) => i < s@.len() && s@[i as int] == c && forall|j: int|
                0 <= j < i ==> s@[j] != c,
            None => forall|j: int| 0 <= j < s@.len() ==> s@[j] != c,
        },
{
    let len = s.unicode_len();
    let mut i: usize = 0;
    while i < len
        invariant
            len == s@.len(),
            0 <= i <= len,
            forall|j: int| 0 <= j < i ==> s@[j] != c,
        decreases len - i,
    {
        if s.get_char(i) == c {
            return Some(i);
        }
        i = i + 1;
    }
    None
}

/// The position of the last occurrence of `c` in `s`, if any.
pub fn rfind_char(s: &str, c: char) -> (r: Option<usize>)
    ensures
        match r {
            Some(i) => i < s@.len() && s@[i as int] == c && forall|j: int|
                i < j < s@.len() ==> s@[j] != c,
            None => forall|j: int| 0 <= j < s@.len() ==> s@[j] != c,
        },
{
    let len = s.unicode_len();
    let mut i: usize = len;
    while i > 0
        invariant
            len == s@.len(),
            0 <= i <= len,
            forall|j: int| i <= j < len ==> s@[j] != c,
        decreases i,
    {
        i = i - 1;
        if s.get_char(i) == c {
            return Some(i);
        }
    }
    None
}

/// The whitespace characters that separate fields of an event line.
pub open spec fn is_space(c: char) -> bool {
    c == ' ' || c == '\t' || c == '\n' || c == '\r'
}

pub fn space_char(c: char) -> (r: bool)
    ensures
        r == is_space(c),
{
    c == ' ' || c == '\t' || c == '\n' || c == '\r'
}

/// Whitespace splitting with an explicit word accumulator: `cur` is the word
/// read so far, `s` what is left of the input.
pub open spec fn split_ws_acc(s: Seq<char>, cur: Seq<char>) -> Seq<Seq<char>>
    decreases s.len(),
{
    if s.len() == 0 {
        if cur.len() == 0 {
            Seq::empty()
        } else {
            seq![cur]
        }
    } else if is_space(s[0]) {
        if cur.len() == 0 {
            split_ws_acc(s.drop_first(), Seq::empty())
        } else {
            seq![cur] + split_ws_acc(s.drop_first(), Seq::empty())
        }
    } else {
        split_ws_acc(s.drop_first(), cur.push(s[0]))
    }
}

/// The words of `s`, separated by runs of whitespace.
pub open spec fn split_ws(s: Seq<char>) -> Seq<Seq<char>> {
    split_ws_acc(s, Seq::empty())
}

/// Splits `s` on whitespace into its words.
pub fn split_whitespace(s: &str) -> (r: Vec<String>)
    ensures
        r.deep_view() == split_ws(s@),
{
    let len = s.unicode_len();
    let mut words: Vec<String> = Vec::new();
    let mut cur: Vec<char> = Vec::new();
    let mut i: usize = 0;
    proof {
        assert(s@.skip(0) =~= s@);
        assert(words.deep_view() =~= Seq::<Seq<char>>::empty());
        assert(cur@ =~= Seq::<char>::empty());
        assert(words.deep_view() + split_ws_acc(s@.skip(0), cur@) =~= split_ws(s@));
    }
    while i < len
        invariant
            len == s@.len(),
            0 <= i <= len,
            words.deep_view() + split_ws_acc(s@.skip(i as int), cur@) == split_ws(s@),
        decreases len - i,
    {
        let c = s.get_char(i);
        let ghost rest = s@.skip(i as int);
        let ghost oldcur = cur@;
        let ghost prev = words.deep_view();
        proof {
            assert(rest.drop_first() =~= s@.skip(i as int + 1));
            assert(rest[0] == c);
        }
        if space_char(c) {
            if cur.len() > 0 {
                let w = chars_to_string(&cur);
                words.push(w);
                cur = Vec::new();
                proof {
                    assert(words.deep_view() =~= prev.push(w@));
                    assert(cur@ =~= Seq::<char>::empty());
                    assert(split_ws_acc(rest, oldcur) == seq![oldcur] + split_ws_acc(
                        s@.skip(i as int + 1),
                        Seq::empty(),
                    ));
                    assert(prev.push(w@) + split_ws_acc(s@.skip(i as int + 1), Seq::empty())
                        =~= prev + (seq![oldcur] + split_ws_acc(
                        s@.skip(i as int + 1),
                        Seq::empty(),
                    )));
                }
            } else {
                proof {
                    assert(cur@ =~= Seq::<char>::empty());
                    assert(split_ws_acc(rest, oldcur) == split_ws_acc(
                        s@.skip(i as int + 1),
                        cur@,
                    ));
                }
            }
        } else {
            cur.push(c);
            proof {
                assert(cur@ =~= oldcur.push(c));
                assert(split_ws_acc(rest, oldcur) == split_ws_acc(
                    s@.skip(i as int + 1),
                    cur@,
                ));
            }
        }
        i = i + 1;
    }
    proof {
        assert(s@.skip(len as int) =~= Seq::<char>::empty());
    }
    let ghost prev = words.deep_view();
    let ghost oldcur = cur@;
    if cur.len() > 0 {
        let w = chars_to_string(&cur);
        words.push(w);
        proof {
            assert(words.deep_view() =~= prev.push(w@));
            assert(split_ws_acc(Seq::<char>::empty(), oldcur) =~= seq![oldcur]);
            assert(prev.push(oldcur) =~= prev + seq![oldcur]);
        }
    } else {
        proof {
            assert(oldcur =~= Seq::<char>::empty());
            assert(split_ws_acc(Seq::<char>::empty(), oldcur) =~= Seq::<Seq<char>>::empty());
            assert(prev + Seq::<Seq<char>>::empty() =~= prev);
        }
    }
    words
}

pub open spec fn is_digit(c: char) -> bool {
    '0' as u32 <= c as u32 <= '9' as u32
}

pub open spec fn digit_val(c: char) -> nat {
    (c as u32 - '0' as u32) as nat
}

pub open spec fn all_digits(s: Seq<char>) -> bool {
    forall|i: int| 0 <= i < s.len() ==> is_digit(#[trigger] s[i])
}

/// The numeric value of a digit string, most significant digit first.
pub open spec fn digits_val(s: Seq<char>) -> nat
    decreases s.len(),
{
    if s.len() == 0 {
        0
    } else {
        10 * digits_val(s.drop_last()) + digit_val(s.last())
    }
}

pub open spec fn dec_digit(d: nat) -> char {
    if d == 0 {
        '0'
    } else if d == 1 {
        '1'
    } else if d == 2 {
        '2'
    } else if d == 3 {
        '3'
    } else if d == 4 {
        '4'
    } else if d == 5 {
        '5'
    } else if d == 6 {
        '6'
    } else if d == 7 {
        '7'
    } else if d == 8 {
        '8'
    } else {
        '9'
    }
}

/// The decimal representation of `n`, without sign or leading zeroes.
pub open spec fn dec_rep(n: nat) -> Seq<char>
    decreases n,
{
    if n < 10 {
        seq![dec_digit(n)]
    } else {
        dec_rep(n / 10).push(dec_digit(n % 10))
    }
}

/// The decimal representation of a signed value: a minus sign before the
/// digits when the value is negative.
pub open spec fn dec_rep_signed(n: int) -> Seq<char> {
    if n < 0 {
        seq!['-'] + dec_rep((-n) as nat)
    } else {
        dec_rep(n as nat)
    }
}

fn digit_char(d: u64) -> (r: char)
    requires
        d < 10,
    ensures
        r == dec_digit(d as nat),
{
    if d == 0 {
        '0'
    } else if d == 1 {
        '1'
    } else if d == 2 {
        '2'
    } else if d == 3 {
        '3'
    } else if d == 4 {
        '4'
    } else if d == 5 {
        '5'
    } else if d == 6 {
        '6'
    } else if d == 7 {
        '7'
    } else if d == 8 {
        '8'
    } else {
        '9'
    }
}

/// Formats `n` in decimal.
pub fn u64_to_string(n: u64) -> (r: String)
    ensures
        r@ == dec_rep(n as nat),
{
    let mut low: Vec<char> = Vec::new();
    let mut m: u64 = n;
    if m == 0 {
        low.push('0');
        proof {
            assert(low@.reverse() =~= dec_rep(n as nat));
        }
    } else {
        while m > 0
            invariant
                if m > 0 {
                    dec_rep(n as nat) =~= dec_rep(m as nat) + low@.reverse()
                } else {
                    dec_rep(n as nat) =~= low@.reverse()
                },
            decreases m,
        {
            let ghost oldm = m as nat;
            let ghost oldlow = low@;
            let d = m % 10;
            low.push(digit_char(d));
            m = m / 10;
            proof {
                assert(low@.reverse() =~= seq![dec_digit(oldm % 10)] + oldlow.reverse());
                if oldm >= 10 {
                    assert(dec_rep(oldm) =~= dec_rep(oldm / 10) + seq![dec_digit(oldm % 10)]);
                    assert(dec_rep(oldm / 10) + seq![dec_digit(oldm % 10)] + oldlow.reverse()
                        =~= dec_rep(oldm / 10) + (seq![dec_digit(oldm % 10)] + oldlow.reverse()));
                } else {
                    assert(dec_rep(oldm) =~= seq![dec_digit(oldm % 10)]);
                }
            }
        }
    }
    let mut out: Vec<char> = Vec::new();
    let mut i: usize = low.len();
    while i > 0
        invariant
            0 <= i <= low.len(),
            out@ =~= low@.reverse().take(low.len() - i),
        decreases i,
    {
        i = i - 1;
        out.push(low[i]);
        proof {
            assert(out@ =~= low@.reverse().take(low.len() - i));
        }
    }
    proof {
        assert(out@ =~= low@.reverse());
    }
    chars_to_string(&out)
}

/// Formats `n` in decimal, with a leading minus sign when negative.
pub fn i64_to_string(n: i64) -> (r: String)
    ensures
        r@ == dec_rep_signed(n as int),
{
    if n >= 0 {
        u64_to_string(n as u64)
    } else {
        let mag: u64 = if n == i64::MIN {
            9223372036854775808u64
        } else {
            (-n) as u64
        };
        let digits = u64_to_string(mag);
        let mut out = str_to_string("-");
        out.append(digits.as_str());
        proof {
            reveal_strlit("-");
            assert(out@ =~= seq!['-'] + dec_rep(mag as nat));
        }
        out
    }
}

pub fn i32_to_string(n: i32) -> (r: String)
    ensures
        r@ == dec_rep_signed(n as int),
{
    i64_to_string(n as i64)
}

/// The display form of a boolean.
pub open spec fn bool_str(b: bool) -> Seq<char> {
    if b {
        "true"@
    } else {
        "false"@
    }
}

pub fn bool_to_string(b: bool) -> (r: String)
    ensures
        r@ == bool_str(b),
{
    if b {
        str_to_string("true")
    } else {
        str_to_string("false")
    }
}

/// What `str::parse` accepts for an unsigned integer: an optional plus sign,
/// then at least one digit, with the value in range.
pub open spec fn u64_parse(s: Seq<char>) -> Option<u64> {
    let body = if s.len() > 0 && s[0] == '+' {
        s.drop_first()
    } else {
        s
    };
    if body.len() > 0 && all_digits(body) && digits_val(body) <= u64::MAX {
        Some(digits_val(body) as u64)
    } else {
        None
    }
}

/// What `str::parse` accepts for a signed 32-bit integer: an optional sign,
/// then at least one digit, with the value in range.
pub open spec fn i32_parse(s: Seq<char>) -> Option<i32> {
    if s.len() > 0 && s[0] == '-' {
        let body = s.drop_first();
        if body.len() > 0 && all_digits(body) && -(digits_val(body) as int) >= i32::MIN {
            Some((-(digits_val(body) as int)) as i32)
        } else {
            None
        }
    } else {
        let body = if s.len() > 0 && s[0] == '+' {
            s.drop_first()
        } else {
            s
        };
        if body.len() > 0 && all_digits(body) && digits_val(body) <= i32::MAX {
            Some(digits_val(body) as i32)
        } else {
            None
        }
    }
}

proof fn lemma_digits_val_grows(s: Seq<char>, i: int)
    requires
        0 <= i <= s.len(),
    ensures
        digits_val(s.take(i)) <= digits_val(s),
    decreases s.len() - i,
{
    if i == s.len() {
        assert(s.take(i) =~= s);
    } else {
        lemma_digits_val_grows(s, i + 1);
        assert(s.take(i + 1).drop_last() =~= s.take(i));
        assert(s.take(i + 1).last() == s[i]);
        assert(digits_val(s.take(i + 1)) == 10 * digits_val(s.take(i)) + digit_val(s[i]));
    }
}

/// Parses the digits of `s` starting at `from`, with no sign.
fn parse_digits(s: &str, from: usize) -> (r: Option<u64>)
    requires
        from <= s@.len(),
    ensures
        ({
            let body = s@.skip(from as int);
            match r {
                Some(n) => body.len() > 0 && all_digits(body) && digits_val(body) == n,
                None => body.len() == 0 || !all_digits(body) || digits_val(body) > u64::MAX,
            }
        }),
{
    let ghost body = s@.skip(from as int);
    let len = s.unicode_len();
    if from == len {
        return None;
    }
    let mut acc: u64 = 0;
    let mut i: usize = from;
    while i < len
        invariant
            len == s@.len(),
            from <= i <= len,
            body == s@.skip(from as int),
            all_digits(body.take(i - from)),
            acc == digits_val(body.take(i - from)),
        decreases len - i,
    {
        let c = s.get_char(i);
        proof {
            assert(body[i - from] == s@[i as int]);
        }
        let cv = c as u32;
        if cv < '0' as u32 || cv > '9' as u32 {
            assert(!is_digit(body[i - from]));
            return None;
        }
        let d: u64 = (cv - '0' as u32) as u64;
        let ghost previ = i - from;
        proof {
            assert(is_digit(body[previ]));
            assert(d as nat == digit_val(body[previ]));
            assert(body.take(previ + 1).drop_last() =~= body.take(previ));
            assert(body.take(previ + 1).last() == body[previ]);
            assert(digits_val(body.take(previ + 1)) == 10 * digits_val(body.take(previ))
                + digit_val(body[previ]));
        }
        let shifted = match acc.checked_mul(10) {
            Some(v) => v,
            None => {
                proof {
                    assert(digits_val(body.take(previ + 1)) > u64::MAX);
                    lemma_digits_val_grows(body, previ + 1);
                }
                return None;
            },
        };
        acc = match shifted.checked_add(d) {
            Some(v) => v,
            None => {
                proof {
                    assert(digits_val(body.take(previ + 1)) > u64::MAX);
                    lemma_digits_val_grows(body, previ + 1);
                }
                return None;
            },
        };
        i = i + 1;
        proof {
            assert(forall|k: int| 0 <= k < previ + 1 ==> #[trigger] body.take(previ + 1)[k]
                == body[k]);
            assert(all_digits(body.take(i - from)));
        }
    }
    proof {
        assert(body.take(len - from) =~= body);
    }
    Some(acc)
}

/// Parses an unsigned 64-bit integer as `str::parse` does.
pub fn parse_u64(s: &str) -> (r: Option<u64>)
    ensures
        r == u64_parse(s@),
{
    let len = s.unicode_len();
    if len > 0 && s.get_char(0) == '+' {
        proof {
            assert(s@.skip(1) =~= s@.drop_first());
        }
        parse_digits(s, 1)
    } else {
        proof {
            assert(s@.skip(0) =~= s@);
        }
        parse_digits(s, 0)
    }
}

/// Parses a signed 32-bit integer as `str::parse` does.
pub fn parse_i32(s: &str) -> (r: Option<i32>)
    ensures
        r == i32_parse(s@),
{
    let len = s.unicode_len();
    if len > 0 && s.get_char(0) == '-' {
        proof {
            assert(s@.skip(1) =~= s@.drop_first());
        }
        match parse_digits(s, 1) {
            Some(n) => {
                if n <= 2147483648u64 {
                    let v: i64 = -(n as i64);
                    Some(v as i32)
                } else {
                    None
                }
            },
            None => None,
        }
    } else if len > 0 && s.get_char(0) == '+' {
        proof {
            assert(s@.skip(1) =~= s@.drop_first());
        }
        match parse_digits(s, 1) {
            Some(n) => {
                if n <= i32::MAX as u64 {
                    Some(n as i32)
                } else {
                    None
                }
            },
            None => None,
        }
    } else {
        proof {
            assert(s@.skip(0) =~= s@);
        }
        match parse_digits(s, 0) {
            Some(n) => {
                if n <= i32::MAX as u64 {
                    Some(n as i32)
                } else {
                    None
                }
            },
            None => None,
        }
    }
}

} // verus!

verus! {

pub open spec fn is_hex_digit(c: char) -> bool {
    is_digit(c) || ('a' as u32 <= c as u32 <= 'f' as u32) || ('A' as u32 <= c as u32 <= 'F' as u32)
}

pub open spec fn hex_digit_val(c: char) -> nat {
    if is_digit(c) {
        digit_val(c)
    } else if 'a' as u32 <= c as u32 <= 'f' as u32 {
        (c as u32 - 'a' as u32 + 10) as nat
    } else {
        (c as u32 - 'A' as u32 + 10) as nat
    }
}

pub open spec fn all_hex_digits(s: Seq<char>) -> bool {
    forall|i: int| 0 <= i < s.len() ==> is_hex_digit(#[trigger] s[i])
}

/// The numeric value of a hex digit string, most significant digit first.
pub open spec fn hex_val(s: Seq<char>) -> nat
    decreases s.len(),
{
    if s.len() == 0 {
        0
    } else {
        16 * hex_val(s.drop_last()) + hex_digit_val(s.last())
    }
}

proof fn lemma_hex_val_grows(s: Seq<char>, i: int)
    requires
        0 <= i <= s.len(),
    ensures
        hex_val(s.take(i)) <= hex_val(s),
    decreases s.len() - i,
{
    if i == s.len() {
        assert(s.take(i) =~= s);
    } else {
        lemma_hex_val_grows(s, i + 1);
        assert(s.take(i + 1).drop_last() =~= s.take(i));
        assert(s.take(i + 1).last() == s[i]);
        assert(hex_val(s.take(i + 1)) == 16 * hex_val(s.take(i)) + hex_digit_val(s[i]));
    }
}

/// Parses a nonempty string of hex digits into a 32-bit value, as
/// `u32::from_str_radix(s, 16)` does on such a string.
pub fn parse_hex_u32(s: &str) -> (r: Option<u32>)
    ensures
        match r {
            Some(n) => s@.len() > 0 && all_hex_digits(s@) && hex_val(s@) == n,
            None => s@.len() == 0 || !all_hex_digits(s@) || hex_val(s@) > u32::MAX,
        },
{
    let len = s.unicode_len();
    if len == 0 {
        return None;
    }
    let mut acc: u32 = 0;
    let mut i: usize = 0;
    while i < len
        invariant
            len == s@.len(),
            0 <= i <= len,
            all_hex_digits(s@.take(i as int)),
            acc == hex_val(s@.take(i as int)),
        decreases len - i,
    {
        let c = s.get_char(i);
        let cv = c as u32;
        let d: u32 = if cv >= '0' as u32 && cv <= '9' as u32 {
            cv - '0' as u32
        } else if cv >= 'a' as u32 && cv <= 'f' as u32 {
            cv - 'a' as u32 + 10
        } else if cv >= 'A' as u32 && cv <= 'F' as u32 {
            cv - 'A' as u32 + 10
        } else {
            assert(!is_hex_digit(s@[i as int]));
            return None;
        };
        let ghost previ = i as int;
        proof {
            assert(is_hex_digit(s@[previ]));
            assert(d as nat == hex_digit_val(s@[previ]));
            assert(s@.take(previ + 1).drop_last() =~= s@.take(previ));
            assert(s@.take(previ + 1).last() == s@[previ]);
            assert(hex_val(s@.take(previ + 1)) == 16 * hex_val(s@.take(previ)) + hex_digit_val(
                s@[previ],
            ));
        }
        let shifted = match acc.checked_mul(16) {
            Some(v) => v,
            None => {
                proof {
                    assert(hex_val(s@.take(previ + 1)) > u32::MAX);
                    lemma_hex_val_grows(s@, previ + 1);
                }
                return None;
            },
        };
        acc = match shifted.checked_add(d) {
            Some(v) => v,
            None => {
                proof {
                    assert(hex_val(s@.take(previ + 1)) > u32::MAX);
                    lemma_hex_val_grows(s@, previ + 1);
                }
                return None;
            },
        };
        i = i + 1;
        proof {
            assert(forall|k: int| 0 <= k < previ + 1 ==> #[trigger] s@.take(previ + 1)[k]
                == s@[k]);
            assert(all_hex_digits(s@.take(i as int)));
        }
    }
    proof {
        assert(s@.take(len as int) =~= s@);
    }
    Some(acc)
}

} // verus!

verus! {

/// Copies a vector of strings, value for value.
pub fn clone_string_vec(v: &Vec<String>) -> (r: Vec<String>)
    ensures
        r.deep_view() == v.deep_view(),
{
    let mut r: Vec<String> = Vec::new();
    let mut i: usize = 0;
    while i < v.len()
        invariant
            0 <= i <= v@.len(),
            r@.len() == i,
            forall|j: int| 0 <= j < i ==> #[trigger] r@[j]@ == v@[j]@,
        decreases v@.len() - i,
    {
        let c = v[i].clone();
        assert(c@ == v@[i as int]@);
        r.push(c);
        i = i + 1;
    }
    proof {
        assert(r.deep_view() =~= v.deep_view());
    }
    r
}

/// Element-wise equality of two string vectors.
pub fn string_vecs_eq(a: &Vec<String>, b: &Vec<String>) -> (r: bool)
    ensures
        r == (a.deep_view() == b.deep_view()),
{
    if a.len() != b.len() {
        assert(a.deep_view().len() != b.deep_view().len());
        return false;
    }
    let mut i: usize = 0;
    while i < a.len()
        invariant
            a@.len() == b@.len(),
            0 <= i <= a@.len(),
            forall|j: int| 0 <= j < i ==> a.deep_view()[j] == b.deep_view()[j],
        decreases a@.len() - i,
    {
        if !string_eq(&a[i], &b[i]) {
            assert(a.deep_view()[i as int] != b.deep_view()[i as int]);
            return false;
        }
        i = i + 1;
    }
    proof {
        assert(a.deep_view() =~= b.deep_view());
    }
    true
}

/// The first index at which `name` stands in `names`, if any.
pub fn position_of(names: &Vec<String>, name: &str) -> (r: Option<usize>)
    ensures
        match r {
            Some(i) => i < names@.len() && names@[i as int]@ == name@ && forall|j: int|
                0 <= j < i ==> names@[j]@ != name@,
            None => forall|j: int| 0 <= j < names@.len() ==> names@[j]@ != name@,
        },
{
    let mut i: usize = 0;
    while i < names.len()
        invariant
            0 <= i <= names@.len(),
            forall|j: int| 0 <= j < i ==> names@[j]@ != name@,
        decreases names@.len() - i,
    {
        if str_eq(names[i].as_str(), name) {
            return Some(i);
        }
        i = i + 1;
    }
    None
}

/// Whether `name` stands in `names`.
pub open spec fn seq_contains_str(names: Seq<Seq<char>>, name: Seq<char>) -> bool {
    exists|i: int| 0 <= i < names.len() && names[i] == name
}

pub fn contains_str(names: &Vec<String>, name: &str) -> (r: bool)
    ensures
        r == seq_contains_str(names.deep_view(), name@),
{
    match position_of(names, name) {
        Some(i) => {
            proof {
                assert(names.deep_view()[i as int] == name@);
            }
            true
        },
        None => {
            proof {
                assert(forall|j: int| 0 <= j < names.deep_view().len()
                    ==> #[trigger] names.deep_view()[j] == names@[j]@);
            }
            false
        },
    }
}

/// `s` without its leading whitespace.
pub open spec fn drop_leading_ws(s: Seq<char>) -> Seq<char>
    decreases s.len(),
{
    if s.len() > 0 && is_space(s[0]) {
        drop_leading_ws(s.drop_first())
    } else {
        s
    }
}

/// `s` without its trailing whitespace.
pub open spec fn drop_trailing_ws(s: Seq<char>) -> Seq<char>
    decreases s.len(),
{
    if s.len() > 0 && is_space(s.last()) {
        drop_trailing_ws(s.drop_last())
    } else {
        s
    }
}

/// `s` without leading and trailing whitespace.
pub open spec fn trim_spec(s: Seq<char>) -> Seq<char> {
    drop_trailing_ws(drop_leading_ws(s))
}

proof fn lemma_drop_leading_ws(s: Seq<char>, a: int)
    requires
        0 <= a <= s.len(),
        forall|j: int| 0 <= j < a ==> is_space(s[j]),
        a < s.len() ==> !is_space(s[a]),
    ensures
        drop_leading_ws(s) == s.skip(a),
    decreases a,
{
    if a == 0 {
        assert(s.skip(0) =~= s);
    } else {
        assert(is_space(s[0]));
        let rest = s.drop_first();
        assert(forall|j: int| 0 <= j < rest.len() ==> rest[j] == s[j + 1]);
        assert(drop_leading_ws(s) == drop_leading_ws(rest));
        lemma_drop_leading_ws(rest, a - 1);
        assert(rest.skip(a - 1) =~= s.skip(a));
    }
}

proof fn lemma_drop_trailing_ws(s: Seq<char>, b: int)
    requires
        0 <= b <= s.len(),
        forall|j: int| b <= j < s.len() ==> is_space(s[j]),
        b > 0 ==> !is_space(s[b - 1]),
    ensures
        drop_trailing_ws(s) == s.take(b),
    decreases s.len() - b,
{
    if b == s.len() {
        assert(s.take(b) =~= s);
    } else {
        assert(is_space(s.last()));
        assert(drop_trailing_ws(s) == drop_trailing_ws(s.drop_last()));
        assert(s.drop_last() =~= s.take(s.len() - 1));
        lemma_drop_trailing_ws(s.drop_last(), b);
        assert(s.drop_last().take(b) =~= s.take(b));
    }
}

/// Strips leading and trailing whitespace.
pub fn trim(s: &str) -> (r: String)
    ensures
        r@ == trim_spec(s@),
{
    let len = s.unicode_len();
    let mut a: usize = 0;
    while a < len && space_char(s.get_char(a))
        invariant
            len == s@.len(),
            0 <= a <= len,
            forall|j: int| 0 <= j < a ==> is_space(s@[j]),
        decreases len - a,
    {
        a = a + 1;
    }
    if a == len {
        proof {
            lemma_drop_leading_ws(s@, a as int);
            assert(s@.skip(len as int) =~= Seq::<char>::empty());
            assert(trim_spec(s@) =~= Seq::<char>::empty());
        }
        return String::new();
    }
    let mut b: usize = len;
    while b > a && space_char(s.get_char(b - 1))
        invariant
            len == s@.len(),
            0 <= a <= b <= len,
            !is_space(s@[a as int]),
            forall|j: int| b <= j < len ==> is_space(s@[j]),
        decreases b,
    {
        b = b - 1;
    }
    let r = substring(s, a, b);
    proof {
        lemma_drop_leading_ws(s@, a as int);
        let mid = s@.skip(a as int);
        assert(forall|j: int| 0 <= j < mid.len() ==> mid[j] == s@[a + j]);
        assert(b > a);
        assert(!is_space(mid[b - a - 1]));
        lemma_drop_trailing_ws(mid, b - a);
        assert(mid.take(b - a) =~= s@.subrange(a as int, b as int));
    }
    r
}

} // verus!
