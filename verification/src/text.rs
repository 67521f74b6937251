use vstd::prelude::*;

verus! {

/// Turns a string slice into its vector of characters.
pub fn chars_of(s: &str) -> (r: Vec<char>)
    ensures
        r@ == s@,
{
    let n = s.unicode_len();
    let mut out: Vec<char> = Vec::new();
    for i in 0..n
        invariant
            n == s@.len(),
            out@ == s@.take(i as int),
    {
        out.push(s.get_char(i));
        proof {
            assert(out@ =~= s@.take(i as int + 1));
        }
    }
    proof {
        assert(s@.take(n as int) =~= s@);
    }
    out
}

/// Relies on `core::iter::Iterator::collect`: collecting characters into a
/// `String` concatenates exactly those characters in order.
#[verifier::external_body]
pub fn string_of(v: &Vec<char>) -> (r: String)
    ensures
        r@ == v@,
{
    v.iter().collect()
}

/// Character-for-character equality of two string slices.
pub fn str_eq(a: &str, b: &str) -> (r: bool)
    ensures
        r == (a@ == b@),
{
    let na = a.unicode_len();
    let nb = b.unicode_len();
    if na != nb {
        proof {
            assert(a@ != b@) by {
                if a@ == b@ {
                    assert(a@.len() == b@.len());
                }
            }
        }
        return false;
    }
    for i in 0..na
        invariant
            na == a@.len(),
            na == b@.len(),
            forall|k: int| 0 <= k < i ==> a@[k] == b@[k],
    {
        if a.get_char(i) != b.get_char(i) {
            return false;
        }
    }
    proof {
        assert(a@ =~= b@);
    }
    true
}

/// The ASCII lowering of one character: letters `A` through `Z` move to their
/// lower-case forms, everything else is untouched.
pub open spec fn lower_char(c: char) -> char {
    if 'A' <= c && c <= 'Z' {
        (((c as u32) + 32) as u8) as char
    } else {
        c
    }
}

pub fn to_lower_char(c: char) -> (r: char)
    ensures
        r == lower_char(c),
{
    if 'A' <= c && c <= 'Z' {
        (((c as u32) + 32) as u8) as char
    } else {
        c
    }
}

/// The ASCII lowering of a whole character sequence.
pub open spec fn lower(s: Seq<char>) -> Seq<char> {
    s.map_values(|c: char| lower_char(c))
}

/// Lower-cases the ASCII letters of a string.
pub fn to_lower_string(s: &str) -> (r: String)
    ensures
        r@ == lower(s@),
{
    let cs = chars_of(s);
    let n = cs.len();
    let mut out: Vec<char> = Vec::new();
    for i in 0..n
        invariant
            n == cs@.len(),
            cs@ == s@,
            out@ == lower(s@).take(i as int),
    {
        out.push(to_lower_char(cs[i]));
        proof {
            assert(out@ =~= lower(s@).take(i as int + 1));
        }
    }
    proof {
        assert(lower(s@).take(n as int) =~= lower(s@));
    }
    string_of(&out)
}

/// `needle` occurs in `hay` starting at position `i`.
pub open spec fn match_at(hay: Seq<char>, needle: Seq<char>, i: int) -> bool {
    &&& 0 <= i
    &&& i + needle.len() <= hay.len()
    &&& forall|k: int| 0 <= k < needle.len() ==> hay[i + k] == needle[k]
}

/// `needle` occurs somewhere in `hay`.
pub open spec fn contains_seq(hay: Seq<char>, needle: Seq<char>) -> bool {
    exists|i: int| match_at(hay, needle, i)
}

pub fn match_at_exec(hay: &Vec<char>, needle: &Vec<char>, i: usize) -> (r: bool)
    requires
        i + needle@.len() <= hay@.len(),
    ensures
        r == match_at(hay@, needle@, i as int),
{
    let m = needle.len();
    let hn = hay.len();
    for k in 0..m
        invariant
            m == needle@.len(),
            hn == hay@.len(),
            i + m <= hn,
            forall|t: int| 0 <= t < k ==> hay@[i + t] == needle@[t],
    {
        if hay[i + k] != needle[k] {
            return false;
        }
    }
    true
}

/// Substring search with the standard library's convention: the empty needle
/// is contained in every string.
pub fn contains_str(hay: &str, needle: &str) -> (r: bool)
    ensures
        r == contains_seq(hay@, needle@),
{
    let h = chars_of(hay);
    let nd = chars_of(needle);
    let n = h.len();
    let m = nd.len();
    if m > n {
        proof {
            assert(forall|i: int| !match_at(hay@, needle@, i));
        }
        return false;
    }
    if m == 0 {
        proof {
            assert(match_at(hay@, needle@, 0));
        }
        return true;
    }
    let last = n - m;
    for i in 0..last + 1
        invariant
            h@ == hay@,
            nd@ == needle@,
            n == hay@.len(),
            m == needle@.len(),
            last == n - m,
            forall|t: int| 0 <= t < i ==> !match_at(hay@, needle@, t),
    {
        if match_at_exec(&h, &nd, i) {
            return true;
        }
    }
    proof {
        assert(forall|t: int| match_at(hay@, needle@, t) ==> 0 <= t <= last);
    }
    false
}

/// `prefix` starts `s`.
pub open spec fn starts_with_seq(s: Seq<char>, prefix: Seq<char>) -> bool {
    match_at(s, prefix, 0)
}

pub fn starts_with_str(s: &str, prefix: &str) -> (r: bool)
    ensures
        r == starts_with_seq(s@, prefix@),
{
    let cs = chars_of(s);
    let p = chars_of(prefix);
    if p.len() > cs.len() {
        return false;
    }
    match_at_exec(&cs, &p, 0)
}

/// `suffix` ends `s`.
pub open spec fn ends_with_seq(s: Seq<char>, suffix: Seq<char>) -> bool {
    match_at(s, suffix, s.len() - suffix.len())
}

pub fn ends_with_str(s: &str, suffix: &str) -> (r: bool)
    ensures
        r == ends_with_seq(s@, suffix@),
{
    let cs = chars_of(s);
    let p = chars_of(suffix);
    if p.len() > cs.len() {
        return false;
    }
    match_at_exec(&cs, &p, cs.len() - p.len())
}

/// A decimal digit.
pub open spec fn is_digit(c: char) -> bool {
    '0' <= c && c <= '9'
}

pub open spec fn digit_val(c: char) -> int {
    c as int - '0' as int
}

pub open spec fn all_digits(s: Seq<char>) -> bool {
    forall|i: int| 0 <= i < s.len() ==> is_digit(s[i])
}

/// The number a digit string denotes, most significant digit first.
pub open spec fn digits_val(s: Seq<char>) -> int
    decreases s.len(),
{
    if s.len() == 0 {
        0
    } else {
        digits_val(s.drop_last()) * 10 + digit_val(s.last())
    }
}

pub proof fn lemma_digits_val_nonneg(s: Seq<char>)
    requires
        all_digits(s),
    ensures
        digits_val(s) >= 0,
    decreases s.len(),
{
    if s.len() > 0 {
        assert(all_digits(s.drop_last())) by {
            assert(forall|i: int| 0 <= i < s.len() - 1 ==> s.drop_last()[i] == s[i]);
        }
        lemma_digits_val_nonneg(s.drop_last());
    }
}

/// Extending a digit string by one digit multiplies its value by ten and adds
/// the digit.
pub proof fn lemma_digits_val_take(s: Seq<char>, i: int)
    requires
        0 <= i < s.len(),
    ensures
        digits_val(s.take(i + 1)) == digits_val(s.take(i)) * 10 + digit_val(s[i]),
{
    assert(s.take(i + 1).drop_last() =~= s.take(i));
    assert(s.take(i + 1).last() == s[i]);
}

/// What `str::parse::<u64>` yields: an optional plus sign, then at least one
/// digit, denoting a value that fits.
pub open spec fn spec_parse_u64(s: Seq<char>) -> Option<u64> {
    let digits = if s.len() > 0 && s[0] == '+' {
        s.drop_first()
    } else {
        s
    };
    if digits.len() > 0 && all_digits(digits) && digits_val(digits) <= u64::MAX {
        Some(digits_val(digits) as u64)
    } else {
        None
    }
}

fn parse_digits_u64(cs: &Vec<char>, from: usize) -> (r: Option<u64>)
    requires
        from <= cs@.len(),
    ensures
        ({
            let digits = cs@.skip(from as int);
            match r {
                Some(v) => digits.len() > 0 && all_digits(digits) && digits_val(digits) == v as int,
                None => !(digits.len() > 0 && all_digits(digits) && digits_val(digits)
                    <= u64::MAX),
            }
        }),
{
    let ghost digits = cs@.skip(from as int);
    let n = cs.len();
    if from == n {
        return None;
    }
    let mut acc: u64 = 0;
    for i in from..n
        invariant
            from < n,
            n == cs@.len(),
            digits == cs@.skip(from as int),
            all_digits(digits.take(i - from)),
            acc as int == digits_val(digits.take(i - from)),
    {
        let c = cs[i];
        proof {
            assert(digits[i - from] == cs@[i as int]);
            lemma_digits_val_take(digits, i - from);
        }
        if !('0' <= c && c <= '9') {
            proof {
                assert(!is_digit(digits[i - from]));
            }
            return None;
        }
        let d: u64 = (c as u32 - 48) as u64;
        if acc > u64::MAX / 10 || (acc == u64::MAX / 10 && d > u64::MAX % 10) {
            proof {
                assert(digits_val(digits.take(i - from + 1)) > u64::MAX);
                if all_digits(digits) {
                    lemma_digits_prefix_bound(digits, i - from + 1);
                }
            }
            return None;
        }
        acc = acc * 10 + d;
        proof {
            assert(all_digits(digits.take(i - from + 1))) by {
                assert(forall|t: int| 0 <= t < i - from ==> #[trigger] digits.take(i - from + 1)[t]
                    == digits.take(i - from)[t]);
            }
        }
    }
    proof {
        assert(digits.take(n - from) =~= digits);
    }
    Some(acc)
}

/// A digit string is worth at least any of its prefixes.
pub proof fn lemma_digits_prefix_bound(s: Seq<char>, i: int)
    requires
        0 <= i <= s.len(),
        all_digits(s),
    ensures
        digits_val(s) >= digits_val(s.take(i)),
    decreases s.len() - i,
{
    if i < s.len() {
        lemma_digits_val_take(s, i);
        assert(all_digits(s.take(i))) by {
            assert(forall|t: int| 0 <= t < i ==> s.take(i)[t] == s[t]);
        }
        lemma_digits_val_nonneg(s.take(i));
        assert(digits_val(s.take(i + 1)) >= digits_val(s.take(i)));
        lemma_digits_prefix_bound(s, i + 1);
    } else {
        assert(s.take(i) =~= s);
    }
}

/// `str::parse::<u64>` as this library uses it.
pub fn parse_u64(s: &str) -> (r: Option<u64>)
    ensures
        r == spec_parse_u64(s@),
{
    let cs = chars_of(s);
    let from: usize = if cs.len() > 0 && cs[0] == '+' {
        1
    } else {
        0
    };
    proof {
        if from == 1 {
            assert(cs@.skip(1) =~= s@.drop_first());
        } else {
            assert(cs@.skip(0) =~= s@);
        }
    }
    parse_digits_u64(&cs, from)
}

/// What `str::parse::<i64>` yields: an optional sign, then at least one
/// digit, denoting a value that fits.
pub open spec fn spec_parse_i64(s: Seq<char>) -> Option<i64> {
    let neg = s.len() > 0 && s[0] == '-';
    let digits = if s.len() > 0 && (s[0] == '-' || s[0] == '+') {
        s.drop_first()
    } else {
        s
    };
    if digits.len() > 0 && all_digits(digits) {
        let v = if neg {
            -digits_val(digits)
        } else {
            digits_val(digits)
        };
        if i64::MIN <= v <= i64::MAX {
            Some(v as i64)
        } else {
            None
        }
    } else {
        None
    }
}

/// `str::parse::<i64>` as this library uses it.
pub fn parse_i64(s: &str) -> (r: Option<i64>)
    ensures
        r == spec_parse_i64(s@),
{
    let cs = chars_of(s);
    let neg = cs.len() > 0 && cs[0] == '-';
    let from: usize = if cs.len() > 0 && (cs[0] == '-' || cs[0] == '+') {
        1
    } else {
        0
    };
    proof {
        if from == 1 {
            assert(cs@.skip(1) =~= s@.drop_first());
        } else {
            assert(cs@.skip(0) =~= s@);
        }
    }
    let mag = parse_digits_u64(&cs, from);
    proof {
        if mag is None {
            let digits = cs@.skip(from as int);
            if digits.len() > 0 && all_digits(digits) {
                lemma_digits_val_nonneg(digits);
            }
        }
    }
    match mag {
        None => None,
        Some(m) => {
            if neg {
                if m <= 9223372036854775807u64 {
                    Some(-(m as i64))
                } else if m == 9223372036854775808u64 {
                    Some(i64::MIN)
                } else {
                    None
                }
            } else {
                if m <= 9223372036854775807u64 {
                    Some(m as i64)
                } else {
                    None
                }
            }
        },
    }
}

/// The character for one decimal digit.
pub open spec fn dec_digit(d: int) -> char {
    (('0' as u32 + d) as u8) as char
}

/// The decimal numeral of a nonnegative number, most significant digit first.
pub open spec fn spec_u64_digits(n: int) -> Seq<char>
    decreases n,
{
    if n < 10 {
        seq![dec_digit(if n >= 0 { n } else { 0 })]
    } else {
        spec_u64_digits(n / 10) + seq![dec_digit(n % 10)]
    }
}

/// What `i64::to_string` yields.
pub open spec fn spec_i64_string(n: int) -> Seq<char> {
    if n < 0 {
        seq!['-'] + spec_u64_digits(-n)
    } else {
        spec_u64_digits(n)
    }
}

fn u64_digit_chars(n: u64) -> (r: Vec<char>)
    ensures
        r@ == spec_u64_digits(n as int),
{
    let mut rev: Vec<char> = Vec::new();
    let mut cur: u64 = n;
    loop
        invariant_except_break
            if cur > 0 {
                spec_u64_digits(n as int) == spec_u64_digits(cur as int) + rev@.reverse()
            } else {
                rev@.len() > 0 ==> spec_u64_digits(n as int) == rev@.reverse()
            },
            cur == 0 && rev@.len() == 0 ==> n == 0,
        ensures
            spec_u64_digits(n as int) == rev@.reverse(),
        decreases cur,
    {
        if cur == 0 {
            if rev.len() == 0 {
                proof {
                    assert(seq!['0'].reverse() =~= seq!['0']);
                    assert(spec_u64_digits(0) =~= seq!['0']);
                }
                rev.push('0');
            }
            break;
        }
        let d: u64 = cur % 10;
        let c: char = ((48 + d as u32) as u8) as char;
        let ghost old_rev = rev@;
        let ghost old_cur = cur as int;
        rev.push(c);
        cur = cur / 10;
        proof {
            assert(rev@.reverse() =~= seq![c] + old_rev.reverse());
            if old_cur >= 10 {
                assert(spec_u64_digits(old_cur) == spec_u64_digits(old_cur / 10) + seq![c]);
                assert(spec_u64_digits(old_cur) + old_rev.reverse() =~= spec_u64_digits(
                    old_cur / 10,
                ) + rev@.reverse());
            } else {
                assert(spec_u64_digits(old_cur) =~= seq![c]);
                assert(spec_u64_digits(old_cur) + old_rev.reverse() =~= rev@.reverse());
            }
        }
    }
    let m = rev.len();
    let mut out: Vec<char> = Vec::new();
    for i in 0..m
        invariant
            m == rev@.len(),
            out@ == rev@.reverse().take(i as int),
    {
        out.push(rev[m - 1 - i]);
        proof {
            assert(out@ =~= rev@.reverse().take(i as int + 1));
        }
    }
    proof {
        assert(rev@.reverse().take(m as int) =~= rev@.reverse());
    }
    out
}

/// Renders an integer as decimal text, as `i64::to_string` does.
pub fn i64_to_string(n: i64) -> (r: String)
    ensures
        r@ == spec_i64_string(n as int),
{
    if n >= 0 {
        let digits = u64_digit_chars(n as u64);
        string_of(&digits)
    } else {
        let mag: u64 = ((-(n + 1)) as u64) + 1;
        let digits = u64_digit_chars(mag);
        let mut out: Vec<char> = Vec::new();
        out.push('-');
        let m = digits.len();
        for i in 0..m
            invariant
                m == digits@.len(),
                out@ == seq!['-'] + digits@.take(i as int),
        {
            out.push(digits[i]);
            proof {
                assert(out@ =~= seq!['-'] + digits@.take(i as int + 1));
            }
        }
        proof {
            assert(digits@.take(m as int) =~= digits@);
            assert(out@ =~= spec_i64_string(n as int));
        }
        string_of(&out)
    }
}

/// Renders a nonnegative count as decimal text.
pub fn u64_to_string(n: u64) -> (r: String)
    ensures
        r@ == spec_u64_digits(n as int),
{
    let digits = u64_digit_chars(n);
    string_of(&digits)
}

/// Division by a thousand that truncates toward zero, as the machine's signed
/// division does.
pub open spec fn spec_div1000_trunc(v: int) -> int {
    if v >= 0 {
        v / 1000
    } else {
        -((-v) / 1000)
    }
}

pub fn div1000_trunc(n: i64) -> (r: i64)
    ensures
        r as int == spec_div1000_trunc(n as int),
{
    if n >= 0 {
        ((n as u64) / 1000) as i64
    } else {
        let mag: u64 = ((-(n + 1)) as u64) + 1;
        let q: u64 = mag / 1000;
        -(q as i64)
    }
}

/// The white-space characters, as the standard library's `char::is_whitespace`
/// classifies them.
pub open spec fn is_space(c: char) -> bool {
    ||| c == ' '
    ||| c == '\t'
    ||| c == '\n'
    ||| c == '\u{0B}'
    ||| c == '\u{0C}'
    ||| c == '\r'
    ||| c == '\u{85}'
    ||| c == '\u{A0}'
    ||| c == '\u{1680}'
    ||| ('\u{2000}' <= c && c <= '\u{200A}')
    ||| c == '\u{2028}'
    ||| c == '\u{2029}'
    ||| c == '\u{202F}'
    ||| c == '\u{205F}'
    ||| c == '\u{3000}'
}

pub fn is_space_char(c: char) -> (r: bool)
    ensures
        r == is_space(c),
{
    c == ' ' || c == '\t' || c == '\n' || c == '\u{0B}' || c == '\u{0C}' || c == '\r' || c
        == '\u{85}' || c == '\u{A0}' || c == '\u{1680}' || ('\u{2000}' <= c && c <= '\u{200A}') || c
        == '\u{2028}' || c == '\u{2029}' || c == '\u{202F}' || c == '\u{205F}' || c == '\u{3000}'
}

/// What is left after the leading white space goes.
pub open spec fn trim_start_spec(s: Seq<char>) -> Seq<char>
    decreases s.len(),
{
    if s.len() > 0 && is_space(s[0]) {
        trim_start_spec(s.drop_first())
    } else {
        s
    }
}

/// What is left after the trailing white space goes.
pub open spec fn trim_end_spec(s: Seq<char>) -> Seq<char>
    decreases s.len(),
{
    if s.len() > 0 && is_space(s.last()) {
        trim_end_spec(s.drop_last())
    } else {
        s
    }
}

/// What `str::trim` keeps.
pub open spec fn trim_spec(s: Seq<char>) -> Seq<char> {
    trim_end_spec(trim_start_spec(s))
}

proof fn lemma_trim_start_skip(s: Seq<char>, i: int)
    requires
        0 <= i <= s.len(),
        forall|t: int| 0 <= t < i ==> is_space(s[t]),
        i < s.len() ==> !is_space(s[i]),
    ensures
        trim_start_spec(s) == s.skip(i),
    decreases i,
{
    if i == 0 {
        assert(s.skip(0) =~= s);
    } else {
        assert(is_space(s[0]));
        assert(s.drop_first() =~= s.skip(1));
        lemma_trim_start_skip(s.skip(1), i - 1);
        assert(s.skip(1).skip(i - 1) =~= s.skip(i));
    }
}

proof fn lemma_trim_end_take(s: Seq<char>, i: int)
    requires
        0 <= i <= s.len(),
        forall|t: int| i <= t < s.len() ==> is_space(s[t]),
        i > 0 ==> !is_space(s[i - 1]),
    ensures
        trim_end_spec(s) == s.take(i),
    decreases s.len() - i,
{
    if i == s.len() {
        assert(s.take(i) =~= s);
    } else {
        assert(is_space(s.last()));
        assert(s.drop_last() =~= s.take(s.len() - 1));
        lemma_trim_end_take(s.take(s.len() - 1), i);
        assert(s.take(s.len() - 1).take(i) =~= s.take(i));
    }
}

/// Removes leading and trailing white space, as `str::trim` does.
pub fn trim_str(s: &str) -> (r: String)
    ensures
        r@ == trim_spec(s@),
{
    let cs = chars_of(s);
    let n = cs.len();
    let mut start: usize = 0;
    while start < n && is_space_char(cs[start])
        invariant
            n == cs@.len(),
            cs@ == s@,
            0 <= start <= n,
            forall|t: int| 0 <= t < start ==> is_space(s@[t]),
        decreases n - start,
    {
        start += 1;
    }
    proof {
        lemma_trim_start_skip(s@, start as int);
    }
    let mut end: usize = n;
    while end > start && is_space_char(cs[end - 1])
        invariant
            n == cs@.len(),
            cs@ == s@,
            start <= end <= n,
            forall|t: int| end <= t < n ==> is_space(s@[t]),
        decreases end,
    {
        end -= 1;
    }
    let ghost mid = s@.skip(start as int);
    proof {
        assert(forall|t: int| end - start <= t < mid.len() ==> is_space(#[trigger] mid[t]));
        lemma_trim_end_take(mid, end - start);
    }
    let mut out: Vec<char> = Vec::new();
    for i in start..end
        invariant
            n == cs@.len(),
            cs@ == s@,
            start <= end <= n,
            out@ == s@.subrange(start as int, i as int),
    {
        out.push(cs[i]);
        proof {
            assert(out@ =~= s@.subrange(start as int, i as int + 1));
        }
    }
    proof {
        assert(mid.take(end - start) =~= s@.subrange(start as int, end as int));
    }
    string_of(&out)
}

/// Equality up to ASCII letter case, as `str::eq_ignore_ascii_case` has it.
pub fn eq_ignore_case(a: &str, b: &str) -> (r: bool)
    ensures
        r == (lower(a@) == lower(b@)),
{
    let ca = chars_of(a);
    let cb = chars_of(b);
    let na = ca.len();
    if na != cb.len() {
        proof {
            assert(lower(a@).len() != lower(b@).len());
        }
        return false;
    }
    for i in 0..na
        invariant
            na == a@.len(),
            na == b@.len(),
            ca@ == a@,
            cb@ == b@,
            forall|k: int| 0 <= k < i ==> lower(a@)[k] == lower(b@)[k],
    {
        if to_lower_char(ca[i]) != to_lower_char(cb[i]) {
            proof {
                assert(lower(a@)[i as int] != lower(b@)[i as int]);
            }
            return false;
        }
    }
    proof {
        assert(lower(a@) =~= lower(b@));
    }
    true
}

/// The position of the last occurrence of `c`, scanning from the end.
pub open spec fn rfind_spec(s: Seq<char>, c: char) -> Option<int>
    decreases s.len(),
{
    if s.len() == 0 {
        None
    } else if s.last() == c {
        Some(s.len() - 1)
    } else {
        rfind_spec(s.drop_last(), c)
    }
}

proof fn lemma_rfind_extend(s: Seq<char>, c: char, i: int)
    requires
        0 <= i <= s.len(),
        forall|t: int| i <= t < s.len() ==> s[t] != c,
    ensures
        rfind_spec(s, c) == rfind_spec(s.take(i), c),
    decreases s.len() - i,
{
    if i < s.len() {
        assert(s.last() != c);
        assert(s.drop_last() =~= s.take(s.len() - 1));
        lemma_rfind_extend(s.take(s.len() - 1), c, i);
        assert(s.take(s.len() - 1).take(i) =~= s.take(i));
    } else {
        assert(s.take(i) =~= s);
    }
}

/// Finds the last occurrence of a character, as `str::rfind` does.
pub fn rfind_char(cs: &Vec<char>, c: char) -> (r: Option<usize>)
    ensures
        match r {
            Some(i) => rfind_spec(cs@, c) == Some(i as int) && i < cs@.len() && cs@[i as int]
                == c,
            None => rfind_spec(cs@, c) is None,
        },
{
    let n = cs.len();
    let mut i = n;
    while i > 0
        invariant
            n == cs@.len(),
            0 <= i <= n,
            forall|t: int| i <= t < n ==> cs@[t] != c,
        decreases i,
    {
        i -= 1;
        if cs[i] == c {
            proof {
                lemma_rfind_extend(cs@, c, i + 1);
                assert(cs@.take(i + 1).last() == cs@[i as int]);
            }
            return Some(i);
        }
    }
    proof {
        lemma_rfind_extend(cs@, c, 0);
        assert(cs@.take(0) =~= Seq::<char>::empty());
    }
    None
}

/// Drops one trailing carriage return, as line splitting does before a line
/// feed.
pub open spec fn strip_cr(t: Seq<char>) -> Seq<char> {
    if t.len() > 0 && t.last() == '\r' {
        t.drop_last()
    } else {
        t
    }
}

/// The lines of `s` when `cur` has been read of the current line so far: a
/// line ends at each line feed (a carriage return just before it goes), and a
/// last unterminated line counts when it is nonempty.
pub open spec fn lines_rec(s: Seq<char>, cur: Seq<char>) -> Seq<Seq<char>>
    decreases s.len(),
{
    if s.len() == 0 {
        if cur.len() == 0 {
            Seq::empty()
        } else {
            seq![cur]
        }
    } else if s[0] == '\n' {
        seq![strip_cr(cur)] + lines_rec(s.drop_first(), Seq::empty())
    } else {
        lines_rec(s.drop_first(), cur + seq![s[0]])
    }
}

/// What `str::lines` yields.
pub open spec fn spec_lines(s: Seq<char>) -> Seq<Seq<char>> {
    lines_rec(s, Seq::empty())
}

/// The views of a vector of strings.
pub open spec fn views_of(ss: Seq<String>) -> Seq<Seq<char>> {
    ss.map_values(|x: String| x@)
}

/// Splits a string into its lines, as `str::lines` does.
pub fn split_lines(s: &str) -> (r: Vec<String>)
    ensures
        views_of(r@) == spec_lines(s@),
{
    let cs = chars_of(s);
    let n = cs.len();
    let mut out: Vec<String> = Vec::new();
    let mut cur: Vec<char> = Vec::new();
    proof {
        assert(s@.skip(0) =~= s@);
        assert(views_of(out@) + lines_rec(s@, cur@) =~= lines_rec(s@, cur@));
    }
    for i in 0..n
        invariant
            n == cs@.len(),
            cs@ == s@,
            spec_lines(s@) == views_of(out@) + lines_rec(s@.skip(i as int), cur@),
    {
        let ghost old_out = out@;
        let ghost old_cur = cur@;
        proof {
            assert(s@.skip(i as int)[0] == s@[i as int]);
            assert(s@.skip(i as int).drop_first() =~= s@.skip(i as int + 1));
        }
        if cs[i] == '\n' {
            if cur.len() > 0 && cur[cur.len() - 1] == '\r' {
                cur.pop();
                proof {
                    assert(cur@ =~= strip_cr(old_cur));
                }
            }
            proof {
                assert(cur@ == strip_cr(old_cur));
            }
            let line = string_of(&cur);
            out.push(line);
            cur = Vec::new();
            proof {
                assert(views_of(out@) =~= views_of(old_out) + seq![strip_cr(old_cur)]);
                assert(views_of(old_out) + lines_rec(s@.skip(i as int), old_cur) =~= views_of(out@)
                    + lines_rec(s@.skip(i as int + 1), cur@));
            }
        } else {
            cur.push(cs[i]);
            proof {
                assert(cur@ =~= old_cur + seq![s@[i as int]]);
            }
        }
    }
    proof {
        assert(s@.skip(n as int) =~= Seq::<char>::empty());
    }
    if cur.len() > 0 {
        let ghost old_out = out@;
        let line = string_of(&cur);
        out.push(line);
        proof {
            assert(views_of(out@) =~= views_of(old_out) + seq![cur@]);
            assert(views_of(out@) =~= spec_lines(s@));
        }
    } else {
        proof {
            assert(views_of(out@) + lines_rec(Seq::<char>::empty(), cur@) =~= views_of(out@));
        }
    }
    out
}

} // verus!
