//! Text helpers: characters of a string, decimal numbers, splitting and
//! comparison without regard to ASCII case.
//!
//! All contracts speak of a string through its view, a `Seq<char>`.

use vstd::prelude::*;
use vstd::std_specs::iter::IteratorSpec;
use vstd::string::StrSliceExecFns;

verus! {

/// The characters of `s`, in order.
pub fn chars_of(s: &str) -> (v: Vec<char>)
    ensures
        v@ == s@,
{
    let mut v: Vec<char> = Vec::new();
    for c in it: s.chars()
        invariant
            v@ == it.seq().take(it.index() as int),
            it.seq() == s@,
    {
        v.push(c);
    }
    v
}

/// Whether `c` is one of `0` to `9`.
pub open spec fn spec_is_digit(c: char) -> bool {
    '0' <= c && c <= '9'
}

/// The value of the decimal digit `c`.
pub open spec fn spec_digit_value(c: char) -> int {
    c as u32 as int - '0' as u32 as int
}

/// Whether every character of `s` is a decimal digit.
pub open spec fn spec_all_digits(s: Seq<char>) -> bool {
    forall|i: int| 0 <= i < s.len() ==> spec_is_digit(#[trigger] s[i])
}

/// The number that the decimal digits `s` write, most significant digit first.
pub open spec fn spec_decimal_value(s: Seq<char>) -> int
    decreases s.len(),
{
    if s.len() == 0 {
        0
    } else {
        10 * spec_decimal_value(s.drop_last()) + spec_digit_value(s.last())
    }
}

/// `s` without one leading plus sign.
pub open spec fn spec_unsigned_body(s: Seq<char>) -> Seq<char> {
    if s.len() > 0 && s[0] == '+' {
        s.skip(1)
    } else {
        s
    }
}

/// What `s` is as an unsigned decimal number of at most `max`: an optional
/// plus sign, then one or more digits. `None` for any other text and for a
/// number above `max`.
pub open spec fn spec_parse_unsigned(s: Seq<char>, max: int) -> Option<int> {
    let body = spec_unsigned_body(s);
    if body.len() > 0 && spec_all_digits(body) && spec_decimal_value(body) <= max {
        Some(spec_decimal_value(body))
    } else {
        None
    }
}

/// A prefix of decimal digits writes no more than the whole does.
pub proof fn lemma_decimal_prefix_le(s: Seq<char>, k: int)
    requires
        spec_all_digits(s),
        0 <= k <= s.len(),
    ensures
        0 <= spec_decimal_value(s.take(k)) <= spec_decimal_value(s),
    decreases s.len() - k,
{
    if k == s.len() {
        assert(s.take(k) == s);
        lemma_decimal_nonnegative(s);
    } else {
        lemma_decimal_prefix_le(s, k + 1);
        let t = s.take(k + 1);
        assert(t.drop_last() == s.take(k));
        assert(spec_is_digit(s[k]));
        lemma_decimal_nonnegative(s.take(k));
    }
}

/// Decimal digits write a number that is not negative.
pub proof fn lemma_decimal_nonnegative(s: Seq<char>)
    requires
        spec_all_digits(s),
    ensures
        0 <= spec_decimal_value(s),
    decreases s.len(),
{
    if s.len() > 0 {
        assert(spec_is_digit(s[s.len() - 1]));
        lemma_decimal_nonnegative(s.drop_last());
    }
}

/// Reads `chars` as an unsigned decimal number of at most `max`.
pub fn parse_unsigned_chars(chars: &Vec<char>, max: u64) -> (r: Option<u64>)
    ensures
        r.is_some() == spec_parse_unsigned(chars@, max as int).is_some(),
        r matches Some(v) ==> spec_parse_unsigned(chars@, max as int) == Some(v as int),
{
    let n = chars.len();
    let start: usize = if n > 0 && chars[0] == '+' {
        1
    } else {
        0
    };
    let ghost body = spec_unsigned_body(chars@);
    assert(body == chars@.skip(start as int));
    if start == n {
        return None;
    }
    let mut acc: u64 = 0;
    let mut i: usize = start;
    while i < n
        invariant
            start <= i <= n,
            n == chars.len(),
            body == chars@.skip(start as int),
            body == spec_unsigned_body(chars@),
            spec_all_digits(body.take(i - start)),
            acc as int == spec_decimal_value(body.take(i - start)),
            acc <= max,
        decreases n - i,
    {
        let c = chars[i];
        let ghost k = i - start;
        assert(body[k] == c);
        if !(c >= '0' && c <= '9') {
            assert(!spec_is_digit(body[k]));
            return None;
        }
        let d: u64 = (c as u32 - '0' as u32) as u64;
        proof {
            let next = body.take(k + 1);
            assert(next.drop_last() == body.take(k));
            assert(next.last() == c);
            assert forall|j: int| 0 <= j < next.len() implies spec_is_digit(#[trigger] next[j]) by {
                if j < k {
                    assert(body.take(k)[j] == next[j]);
                }
            }
            assert(spec_decimal_value(next) == 10 * acc + d);
        }
        if d > max || acc > (max - d) / 10 {
            proof {
                assert(10 * acc + d > max);
                if spec_all_digits(body) {
                    lemma_decimal_prefix_le(body, k + 1);
                }
            }
            return None;
        }
        acc = acc * 10 + d;
        i += 1;
    }
    assert(body.take(n - start) == body);
    Some(acc)
}

/// Reads `s` as a `u8`.
pub fn parse_u8(s: &str) -> (r: Option<u8>)
    ensures
        r.is_some() == spec_parse_unsigned(s@, 255).is_some(),
        r matches Some(v) ==> spec_parse_unsigned(s@, 255) == Some(v as int),
{
    let chars = chars_of(s);
    match parse_unsigned_chars(&chars, 255) {
        Some(v) => Some(v as u8),
        None => None,
    }
}

/// Reads `s` as a `u32`.
pub fn parse_u32(s: &str) -> (r: Option<u32>)
    ensures
        r.is_some() == spec_parse_unsigned(s@, 0xffff_ffff).is_some(),
        r matches Some(v) ==> spec_parse_unsigned(s@, 0xffff_ffff) == Some(v as int),
{
    let chars = chars_of(s);
    match parse_unsigned_chars(&chars, 0xffff_ffff) {
        Some(v) => Some(v as u32),
        None => None,
    }
}

/// Reads `s` as a `u64`.
pub fn parse_u64(s: &str) -> (r: Option<u64>)
    ensures
        r.is_some() == spec_parse_unsigned(s@, u64::MAX as int).is_some(),
        r matches Some(v) ==> spec_parse_unsigned(s@, u64::MAX as int) == Some(v as int),
{
    let chars = chars_of(s);
    parse_unsigned_chars(&chars, u64::MAX)
}

/// Where `c` first stands in `s`; the length of `s` when it stands nowhere.
pub open spec fn spec_first_index(s: Seq<char>, c: char) -> int
    decreases s.len(),
{
    if s.len() == 0 {
        0
    } else if s[0] == c {
        0
    } else {
        1 + spec_first_index(s.skip(1), c)
    }
}

/// `spec_first_index` is the least index that holds `c`.
pub proof fn lemma_first_index(s: Seq<char>, c: char, k: int)
    requires
        0 <= k <= s.len(),
        forall|j: int| 0 <= j < k ==> s[j] != c,
        k == s.len() || s[k] == c,
    ensures
        spec_first_index(s, c) == k,
    decreases s.len(),
{
    if s.len() > 0 && k > 0 {
        let t = s.skip(1);
        assert forall|j: int| 0 <= j < k - 1 implies t[j] != c by {
            assert(t[j] == s[j + 1]);
        }
        lemma_first_index(t, c, k - 1);
    }
}

/// The pieces of `s` between occurrences of `sep`. There is always at least
/// one piece; the pieces of the empty text are one empty piece.
pub open spec fn spec_split(s: Seq<char>, sep: char) -> Seq<Seq<char>>
    decreases s.len(),
{
    let k = spec_first_index(s, sep);
    if 0 <= k < s.len() {
        seq![s.take(k)] + spec_split(s.skip(k + 1), sep)
    } else {
        seq![s]
    }
}

/// Where `c` first stands in `chars` at or after `from`.
pub fn find_from(chars: &Vec<char>, from: usize, c: char) -> (r: usize)
    requires
        from <= chars.len(),
    ensures
        from <= r <= chars.len(),
        r - from == spec_first_index(chars@.skip(from as int), c),
{
    let n = chars.len();
    let mut i: usize = from;
    while i < n && chars[i] != c
        invariant
            from <= i <= n,
            n == chars.len(),
            forall|j: int| from <= j < i ==> chars[j] != c,
        decreases n - i,
    {
        i += 1;
    }
    proof {
        let t = chars@.skip(from as int);
        assert forall|j: int| 0 <= j < i - from implies t[j] != c by {
            assert(t[j] == chars[j + from]);
        }
        lemma_first_index(t, c, i - from);
    }
    i
}

/// The views of the strings of `v`, in order.
pub open spec fn spec_views(v: Seq<String>) -> Seq<Seq<char>> {
    Seq::new(v.len(), |i: int| v[i]@)
}

/// Splits `s` at every occurrence of `sep`.
pub fn split(s: &str, sep: char) -> (r: Vec<String>)
    ensures
        spec_views(r@) == spec_split(s@, sep),
{
    let chars = chars_of(s);
    let n = chars.len();
    let mut out: Vec<String> = Vec::new();
    let mut start: usize = 0;
    proof {
        assert(s@.skip(0) == s@);
        assert(spec_views(out@) + spec_split(s@, sep) == spec_split(s@, sep));
    }
    loop
        invariant
            start <= n,
            n == chars.len(),
            chars@ == s@,
            spec_split(s@, sep) == spec_views(out@) + spec_split(s@.skip(start as int), sep),
        decreases n - start,
    {
        let end = find_from(&chars, start, sep);
        let piece = s.substring_char(start, end).to_owned();
        let ghost rest = s@.skip(start as int);
        let ghost before = spec_views(out@);
        out.push(piece);
        proof {
            assert(piece@ == rest.take(end - start));
            assert(spec_views(out@) == before + seq![piece@]);
        }
        if end == n {
            assert(spec_split(rest, sep) == seq![rest]);
            assert(rest.take(end - start) == rest);
            return out;
        }
        proof {
            assert(rest.skip(end - start + 1) == s@.skip(end + 1));
            assert(spec_split(rest, sep) == seq![piece@] + spec_split(s@.skip(end + 1), sep));
            assert(before + (seq![piece@] + spec_split(s@.skip(end + 1), sep)) == (before + seq![
                piece@,
            ]) + spec_split(s@.skip(end + 1), sep));
        }
        start = end + 1;
    }
}

/// The code of `c`, with the upper-case ASCII letters mapped to their
/// lower-case ones.
pub open spec fn spec_fold_case(c: char) -> int {
    if 'A' <= c && c <= 'Z' {
        c as u32 as int + 32
    } else {
        c as u32 as int
    }
}

/// Whether `a` and `b` are equal when ASCII letters are compared without
/// regard to case.
pub open spec fn spec_eq_ignore_case(a: Seq<char>, b: Seq<char>) -> bool {
    &&& a.len() == b.len()
    &&& forall|i: int| 0 <= i < a.len() ==> spec_fold_case(#[trigger] a[i]) == spec_fold_case(b[i])
}

/// Whether `s` begins with `prefix`, ASCII letters compared without regard
/// to case.
pub open spec fn spec_starts_with_ignore_case(s: Seq<char>, prefix: Seq<char>) -> bool {
    prefix.len() <= s.len() && spec_eq_ignore_case(s.take(prefix.len() as int), prefix)
}

fn fold_case(c: char) -> (r: u32)
    ensures
        r as int == spec_fold_case(c),
{
    if c >= 'A' && c <= 'Z' {
        c as u32 + 32
    } else {
        c as u32
    }
}

/// Whether the first `len` characters of `a` and of `b` agree without regard
/// to ASCII case.
fn prefix_eq_ignore_case(a: &Vec<char>, b: &Vec<char>, len: usize) -> (r: bool)
    requires
        len <= a.len(),
        len <= b.len(),
    ensures
        r == spec_eq_ignore_case(a@.take(len as int), b@.take(len as int)),
{
    let mut i: usize = 0;
    while i < len
        invariant
            i <= len,
            len <= a.len(),
            len <= b.len(),
            forall|j: int| 0 <= j < i ==> spec_fold_case(#[trigger] a[j]) == spec_fold_case(b[j]),
        decreases len - i,
    {
        if fold_case(a[i]) != fold_case(b[i]) {
            assert(a@.take(len as int)[i as int] == a[i as int]);
            assert(b@.take(len as int)[i as int] == b[i as int]);
            return false;
        }
        i += 1;
    }
    true
}

/// Compares two strings without regard to ASCII case.
pub fn eq_ignore_ascii_case(a: &str, b: &str) -> (r: bool)
    ensures
        r == spec_eq_ignore_case(a@, b@),
{
    let ca = chars_of(a);
    let cb = chars_of(b);
    if ca.len() != cb.len() {
        return false;
    }
    assert(ca@.take(ca.len() as int) == ca@);
    assert(cb@.take(cb.len() as int) == cb@);
    prefix_eq_ignore_case(&ca, &cb, ca.len())
}

/// Whether `s` begins with `prefix`, without regard to ASCII case.
pub fn starts_with_ignore_ascii_case(s: &str, prefix: &str) -> (r: bool)
    ensures
        r == spec_starts_with_ignore_case(s@, prefix@),
{
    let cs = chars_of(s);
    let cp = chars_of(prefix);
    if cp.len() > cs.len() {
        return false;
    }
    assert(cp@.take(cp.len() as int) == cp@);
    prefix_eq_ignore_case(&cs, &cp, cp.len())
}

/// Whether `s` begins with `prefix`, character for character.
pub fn starts_with(s: &str, prefix: &str) -> (r: bool)
    ensures
        r == (prefix@.len() <= s@.len() && s@.take(prefix@.len() as int) == prefix@),
{
    let cs = chars_of(s);
    let cp = chars_of(prefix);
    if cp.len() > cs.len() {
        return false;
    }
    let len = cp.len();
    let mut i: usize = 0;
    while i < len
        invariant
            i <= len,
            len == cp.len(),
            len <= cs.len(),
            cs@ == s@,
            cp@ == prefix@,
            forall|j: int| 0 <= j < i ==> cs[j] == cp[j],
        decreases len - i,
    {
        if cs[i] != cp[i] {
            assert(s@.take(len as int)[i as int] != prefix@[i as int]);
            return false;
        }
        i += 1;
    }
    assert(cs@.take(len as int) =~= cp@);
    true
}

/// Whether two strings hold the same characters.
pub fn str_eq(a: &str, b: &str) -> (r: bool)
    ensures
        r == (a@ == b@),
{
    let ca = chars_of(a);
    let cb = chars_of(b);
    if ca.len() != cb.len() {
        return false;
    }
    let len = ca.len();
    let mut i: usize = 0;
    while i < len
        invariant
            i <= len,
            len == ca.len(),
            len == cb.len(),
            ca@ == a@,
            cb@ == b@,
            forall|j: int| 0 <= j < i ==> ca[j] == cb[j],
        decreases len - i,
    {
        if ca[i] != cb[i] {
            assert(a@[i as int] != b@[i as int]);
            return false;
        }
        i += 1;
    }
    assert(ca@ =~= cb@);
    true
}

/// Whether one of the first `n` of `args` is `text`, ASCII letters compared
/// without regard to case.
pub open spec fn spec_has_arg(args: Seq<String>, n: int, text: Seq<char>) -> bool {
    exists|i: int| 0 <= i < n && i < args.len() && spec_eq_ignore_case((#[trigger] args[i])@, text)
}

/// The place of the first of `args` that is `text`, ASCII letters compared
/// without regard to case.
pub fn position_ignore_case(args: &Vec<String>, text: &str) -> (r: Option<usize>)
    ensures
        r.is_some() == spec_has_arg(args@, args.len() as int, text@),
        r matches Some(i) ==> i < args.len() && spec_eq_ignore_case(args[i as int]@, text@)
            && !spec_has_arg(args@, i as int, text@),
{
    let mut i: usize = 0;
    while i < args.len()
        invariant
            i <= args.len(),
            !spec_has_arg(args@, i as int, text@),
        decreases args.len() - i,
    {
        if eq_ignore_ascii_case(args[i].as_str(), text) {
            return Some(i);
        }
        i += 1;
    }
    None
}



/// The character that writes the digit `d`.
pub open spec fn spec_digit_char(d: int) -> char {
    if d == 0 {
        '0'
    } else if d == 1 {
        '1'
    } else if d == 2 {
        '2'
    } else if d == 3 {
        '3'
    } else if d == 4 {
        '4'
    } else if d == 5 {
        '5'
    } else if d == 6 {
        '6'
    } else if d == 7 {
        '7'
    } else if d == 8 {
        '8'
    } else {
        '9'
    }
}

/// The decimal digits that write `n`, without leading zeros.
pub open spec fn spec_decimal(n: nat) -> Seq<char>
    decreases n,
{
    if n < 10 {
        seq![spec_digit_char(n as int)]
    } else {
        spec_decimal(n / 10).push(spec_digit_char((n % 10) as int))
    }
}

/// The text of the one digit `d`.
fn digit_str(d: u64) -> (r: &'static str)
    requires
        d < 10,
    ensures
        r@ == seq![spec_digit_char(d as int)],
{
    proof {
        reveal_strlit("0");
        reveal_strlit("1");
        reveal_strlit("2");
        reveal_strlit("3");
        reveal_strlit("4");
        reveal_strlit("5");
        reveal_strlit("6");
        reveal_strlit("7");
        reveal_strlit("8");
        reveal_strlit("9");
    }
    let r = if d == 0 {
        "0"
    } else if d == 1 {
        "1"
    } else if d == 2 {
        "2"
    } else if d == 3 {
        "3"
    } else if d == 4 {
        "4"
    } else if d == 5 {
        "5"
    } else if d == 6 {
        "6"
    } else if d == 7 {
        "7"
    } else if d == 8 {
        "8"
    } else {
        "9"
    };
    assert(r@ =~= seq![spec_digit_char(d as int)]);
    r
}

/// Writes `n` in decimal digits.
pub fn decimal(n: u64) -> (r: String)
    ensures
        r@ == spec_decimal(n as nat),
    decreases n,
{
    if n < 10 {
        digit_str(n).to_owned()
    } else {
        let mut s = decimal(n / 10);
        s.append(digit_str(n % 10));
        assert(s@ =~= spec_decimal(n as nat));
        s
    }
}

/// `n` spaces.
pub open spec fn spec_spaces(n: nat) -> Seq<char> {
    Seq::new(n, |i: int| ' ')
}

/// `s` with spaces before it, so that it has at least `width` characters.
pub open spec fn spec_pad_left(s: Seq<char>, width: nat) -> Seq<char> {
    if s.len() >= width {
        s
    } else {
        spec_spaces((width - s.len()) as nat) + s
    }
}

/// Puts spaces before `s`, so that it has at least `width` characters.
pub fn pad_left(s: &str, width: usize) -> (r: String)
    ensures
        r@ == spec_pad_left(s@, width as nat),
{
    let len = s.unicode_len();
    let mut out = String::new();
    let mut i: usize = len;
    proof {
        reveal_strlit(" ");
        assert(out@ =~= spec_spaces(0));
    }
    while i < width
        invariant
            len <= i,
            i <= width || i == len,
            len == s@.len(),
            out@ == spec_spaces((i - len) as nat),
        decreases width - i,
    {
        proof {
            reveal_strlit(" ");
        }
        out.append(" ");
        i += 1;
        assert(out@ =~= spec_spaces((i - len) as nat));
    }
    let ghost pad = out@;
    out.append(s);
    proof {
        if len >= width {
            assert(pad =~= Seq::<char>::empty());
            assert(out@ =~= s@);
        }
    }
    out
}

/// What stands in `s` before the first `sep`; all of `s` where it holds
/// none.
pub open spec fn spec_first_piece(s: Seq<char>, sep: char) -> Seq<char> {
    let k = spec_first_index(s, sep);
    if 0 <= k < s.len() {
        s.take(k)
    } else {
        s
    }
}

/// What stands in `s` before the first `sep`.
pub fn first_piece(s: &str, sep: char) -> (r: String)
    ensures
        r@ == spec_first_piece(s@, sep),
{
    let chars = chars_of(s);
    let k = find_from(&chars, 0, sep);
    assert(chars@.skip(0) == chars@);
    if k < chars.len() {
        s.substring_char(0, k).to_owned()
    } else {
        s.to_owned()
    }
}

/// `a` and then `b`.
pub fn concat(a: &str, b: &str) -> (r: String)
    ensures
        r@ == a@ + b@,
{
    let mut out = a.to_owned();
    out.append(b);
    out
}


/// The texts `pieces` one behind the other.
pub open spec fn spec_flatten(pieces: Seq<Seq<char>>) -> Seq<char>
    decreases pieces.len(),
{
    if pieces.len() == 0 {
        Seq::empty()
    } else {
        spec_flatten(pieces.drop_last()) + pieces.last()
    }
}

/// `s` without the character `c`.
pub open spec fn spec_remove(s: Seq<char>, c: char) -> Seq<char> {
    spec_flatten(spec_split(s, c))
}

/// Takes every `c` out of `s`.
pub fn remove_char(s: &str, c: char) -> (r: String)
    ensures
        r@ == spec_remove(s@, c),
{
    let pieces = split(s, c);
    let ghost all = spec_split(s@, c);
    let mut out = String::new();
    let mut i: usize = 0;
    assert(all.take(0) =~= Seq::empty());
    while i < pieces.len()
        invariant
            i <= pieces.len(),
            spec_views(pieces@) == all,
            out@ == spec_flatten(all.take(i as int)),
        decreases pieces.len() - i,
    {
        proof {
            assert(all.take(i + 1).drop_last() == all.take(i as int));
            assert(spec_views(pieces@)[i as int] == pieces[i as int]@);
        }
        out.append(pieces[i].as_str());
        i += 1;
    }
    assert(all.take(pieces.len() as int) == all);
    out
}

/// Ten to the power of `n`.
pub open spec fn spec_pow10(n: nat) -> int
    decreases n,
{
    if n == 0 {
        1
    } else {
        10 * spec_pow10((n - 1) as nat)
    }
}

/// The digits of `chars` from `from` up to `to`, as a number; `None` where
/// one of them is no digit. No more than eighteen digits are read.
pub fn digits_value(chars: &Vec<char>, from: usize, to: usize) -> (r: Option<u64>)
    requires
        from <= to <= chars.len(),
        to - from <= 18,
    ensures
        r.is_some() == spec_all_digits(chars@.subrange(from as int, to as int)),
        r matches Some(v) ==> v as int == spec_decimal_value(chars@.subrange(from as int, to as int))
            && v < spec_pow10((to - from) as nat),
{
    let ghost part = chars@.subrange(from as int, to as int);
    let mut acc: u64 = 0;
    let mut i: usize = from;
    assert(part.take(0) =~= Seq::empty());
    proof {
        lemma_pow10_grows(0, 18);
    }
    while i < to
        invariant
            from <= i <= to <= chars.len(),
            to - from <= 18,
            part == chars@.subrange(from as int, to as int),
            spec_all_digits(part.take(i - from)),
            acc as int == spec_decimal_value(part.take(i - from)),
            acc < spec_pow10((i - from) as nat),
            spec_pow10((i - from) as nat) <= spec_pow10(18),
        decreases to - i,
    {
        let c = chars[i];
        let ghost k = i - from;
        assert(part[k] == c);
        if !(c >= '0' && c <= '9') {
            assert(!spec_is_digit(part[k]));
            return None;
        }
        let d: u64 = (c as u32 - '0' as u32) as u64;
        proof {
            let next = part.take(k + 1);
            assert(next.drop_last() == part.take(k));
            assert(next.last() == c);
            assert forall|j: int| 0 <= j < next.len() implies spec_is_digit(#[trigger] next[j]) by {
                if j < k {
                    assert(part.take(k)[j] == next[j]);
                }
            }
            lemma_pow10_grows((k + 1) as nat, 18);
            assert(spec_pow10(18) == 1_000_000_000_000_000_000) by {
                reveal_with_fuel(spec_pow10, 19);
            }
        }
        acc = acc * 10 + d;
        i += 1;
    }
    assert(part.take(to - from) == part);
    Some(acc)
}

/// Powers of ten grow with the exponent.
pub proof fn lemma_pow10_grows(a: nat, b: nat)
    requires
        a <= b,
    ensures
        0 < spec_pow10(a) <= spec_pow10(b),
    decreases b,
{
    if b > 0 {
        if a == b {
            lemma_pow10_grows((a - 1) as nat, (b - 1) as nat);
        } else {
            lemma_pow10_grows(a, (b - 1) as nat);
        }
    }
}


/// How often `c` stands in `s`: once for every piece between its
/// occurrences but the first.
pub open spec fn spec_count(s: Seq<char>, c: char) -> int {
    spec_split(s, c).len() - 1
}

/// How often `c` stands in `s`.
pub fn count_char(s: &str, c: char) -> (r: usize)
    ensures
        r as int == spec_count(s@, c),
{
    let pieces = split(s, c);
    assert(spec_views(pieces@).len() == pieces.len());
    assert(spec_split(s@, c).len() > 0);
    pieces.len() - 1
}

} // verus!
