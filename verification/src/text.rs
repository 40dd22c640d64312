use vstd::prelude::*;
use vstd::utf8::{encode_utf8, encode_scalar};

verus! {

/// The number of bytes that `cs` takes in UTF-8.
pub open spec fn byte_len(cs: Seq<char>) -> int {
    encode_utf8(cs).len() as int
}

/// Byte offset `b` of the UTF-8 form of `cs` starts a character (or is the end).
pub open spec fn is_boundary(cs: Seq<char>, b: int) -> bool {
    exists|k: int| 0 <= k <= cs.len() && #[trigger] byte_len(cs.take(k)) == b
}

/// The character index whose UTF-8 offset is `b`.
pub open spec fn char_pos(cs: Seq<char>, b: int) -> int {
    choose|k: int| 0 <= k <= cs.len() && #[trigger] byte_len(cs.take(k)) == b
}

/// The UTF-8 form of a concatenation is the concatenation of the forms.
pub proof fn lemma_encode_concat(a: Seq<char>, b: Seq<char>)
    ensures
        encode_utf8(a + b) == encode_utf8(a) + encode_utf8(b),
    decreases a.len(),
{
    if a.len() == 0 {
        assert(a + b =~= b);
        assert(encode_utf8(a) =~= Seq::<u8>::empty());
        assert(encode_utf8(a) + encode_utf8(b) =~= encode_utf8(b));
    } else {
        assert((a + b).drop_first() =~= a.drop_first() + b);
        assert((a + b)[0] == a[0]);
        lemma_encode_concat(a.drop_first(), b);
        assert(encode_utf8(a + b) =~= encode_utf8(a) + encode_utf8(b));
    }
}

/// Every character takes at least one byte.
pub proof fn lemma_chars_le_bytes(cs: Seq<char>)
    ensures
        cs.len() <= byte_len(cs),
    decreases cs.len(),
{
    if cs.len() > 0 {
        lemma_chars_le_bytes(cs.drop_first());
        vstd::utf8::char_is_scalar(cs[0]);
    }
}

/// The number of bytes of one character in UTF-8.
pub fn len_utf8(c: char) -> (n: usize)
    ensures
        n == byte_len(seq![c]),
        1 <= n <= 4,
{
    proof {
        vstd::utf8::char_is_scalar(c);
        assert(seq![c].drop_first() =~= Seq::<char>::empty());
        assert(encode_utf8(seq![c]) =~= encode_scalar(c as u32) + encode_utf8(Seq::<char>::empty()));
    }
    let u = c as u32;
    if u <= 0x7f {
        1
    } else if u <= 0x7ff {
        2
    } else if u <= 0xffff {
        3
    } else {
        4
    }
}

/// The length of a string in bytes.
pub fn byte_length(s: &String) -> (n: usize)
    ensures
        byte_len(s@) <= usize::MAX ==> n == byte_len(s@),
{
    s.as_str().len()
}

/// `String::insert`: puts `c` into `s` at byte offset `idx`, which the std
/// documentation requires to lie on a character boundary (else it panics).
#[verifier::external_body]
pub(crate) fn string_insert(s: &mut String, idx: usize, c: char)
    requires
        is_boundary(old(s)@, idx as int),
    ensures
        forall|k: int|
            0 <= k <= old(s)@.len() && #[trigger] byte_len(old(s)@.take(k)) == idx ==> final(s)@
                == old(s)@.take(k).push(c) + old(s)@.skip(k),
{
    s.insert(idx, c)
}

/// `String::remove`: takes out the character that starts at byte offset
/// `idx`, which the std documentation requires to be a character boundary
/// before the end of the string (else it panics).
#[verifier::external_body]
pub(crate) fn string_remove(s: &mut String, idx: usize) -> (c: char)
    requires
        is_boundary(old(s)@, idx as int),
        idx < byte_len(old(s)@),
    ensures
        forall|k: int|
            0 <= k <= old(s)@.len() && #[trigger] byte_len(old(s)@.take(k)) == idx ==> {
                &&& k < old(s)@.len()
                &&& c == old(s)@[k]
                &&& final(s)@ == old(s)@.take(k) + old(s)@.skip(k + 1)
            },
{
    s.remove(idx)
}

/// `String::push`: appends `c` at the end of `s`.
#[verifier::external_body]
pub(crate) fn string_push(s: &mut String, c: char)
    ensures
        final(s)@ == old(s)@.push(c),
{
    s.push(c)
}

/// The characters of a string, in order.
pub fn chars_of(s: &str) -> (v: Vec<char>)
    ensures
        v@ == s@,
{
    let n = s.unicode_len();
    let mut v: Vec<char> = Vec::new();
    let mut i: usize = 0;
    while i < n
        invariant
            n == s@.len(),
            i <= n,
            v@ == s@.take(i as int),
        decreases n - i,
    {
        let c = s.get_char(i);
        v.push(c);
        i = i + 1;
        assert(v@ =~= s@.take(i as int));
    }
    assert(s@.take(n as int) =~= s@);
    v
}

/// The string made of the characters `cs`.
pub fn string_of(cs: &[char]) -> (s: String)
    ensures
        s@ == cs@,
{
    let mut s = String::new();
    let mut i: usize = 0;
    while i < cs.len()
        invariant
            i <= cs@.len(),
            s@ == cs@.take(i as int),
        decreases cs@.len() - i,
    {
        string_push(&mut s, cs[i]);
        i = i + 1;
        assert(s@ =~= cs@.take(i as int));
    }
    assert(cs@.take(cs@.len() as int) =~= cs@);
    s
}

/// The decimal digit for `d`, which is below ten.
pub open spec fn digit_char(d: int) -> char {
    if d == 0 { '0' } else if d == 1 { '1' } else if d == 2 { '2' } else if d == 3 { '3' }
    else if d == 4 { '4' } else if d == 5 { '5' } else if d == 6 { '6' } else if d == 7 { '7' }
    else if d == 8 { '8' } else { '9' }
}

/// `n` written in decimal, without leading zeros.
pub open spec fn decimal(n: nat) -> Seq<char>
    decreases n,
{
    if n < 10 {
        seq![digit_char(n as int)]
    } else {
        decimal(n / 10).push(digit_char((n % 10) as int))
    }
}

fn digit(d: u64) -> (c: char)
    requires
        d < 10,
    ensures
        c == digit_char(d as int),
{
    if d == 0 { '0' } else if d == 1 { '1' } else if d == 2 { '2' } else if d == 3 { '3' }
    else if d == 4 { '4' } else if d == 5 { '5' } else if d == 6 { '6' } else if d == 7 { '7' }
    else if d == 8 { '8' } else { '9' }
}

/// `n` written in decimal, as `to_string` writes it.
pub fn decimal_string(n: u64) -> (s: String)
    ensures
        s@ == decimal(n as nat),
{
    let mut rev: Vec<char> = Vec::new();
    let mut m = n;
    // rev holds the low digits of n, least significant first
    while m >= 10
        invariant
            decimal(n as nat) == decimal(m as nat) + rev@.reverse(),
        decreases m,
    {
        let d = m % 10;
        let c = digit(d);
        proof {
            assert(decimal(m as nat) == decimal((m / 10) as nat).push(c));
            assert(rev@.push(c).reverse() =~= seq![c] + rev@.reverse());
            assert(decimal((m / 10) as nat).push(c) + rev@.reverse() =~= decimal((m / 10) as nat) + rev@.push(c).reverse());
        }
        rev.push(c);
        m = m / 10;
    }
    let c = digit(m);
    rev.push(c);
    proof {
        assert(rev@.reverse() =~= seq![c] + rev@.drop_last().reverse());
    }
    let mut out: Vec<char> = Vec::new();
    let mut i: usize = rev.len();
    while i > 0
        invariant
            i <= rev@.len(),
            out@ == rev@.skip(i as int).reverse(),
        decreases i,
    {
        i = i - 1;
        out.push(rev[i]);
        assert(out@ =~= rev@.skip(i as int).reverse());
    }
    assert(rev@.skip(0) =~= rev@);
    string_of(out.as_slice())
}

/// Unicode `White_Space`, the property that `char::is_whitespace` tests.
pub open spec fn is_space(c: char) -> bool {
    let u = c as u32;
    ||| 0x09 <= u <= 0x0d
    ||| u == 0x20
    ||| u == 0x85
    ||| u == 0xa0
    ||| u == 0x1680
    ||| 0x2000 <= u <= 0x200a
    ||| u == 0x2028
    ||| u == 0x2029
    ||| u == 0x202f
    ||| u == 0x205f
    ||| u == 0x3000
}

pub fn is_whitespace(c: char) -> (r: bool)
    ensures
        r == is_space(c),
{
    let u = c as u32;
    (0x09 <= u && u <= 0x0d) || u == 0x20 || u == 0x85 || u == 0xa0 || u == 0x1680 || (0x2000 <= u
        && u <= 0x200a) || u == 0x2028 || u == 0x2029 || u == 0x202f || u == 0x205f || u == 0x3000
}

/// The maximal runs of non-whitespace characters of `cs`, in order.
pub open spec fn words(cs: Seq<char>) -> Seq<Seq<char>>
    decreases cs.len(),
{
    if cs.len() == 0 {
        Seq::empty()
    } else {
        let w = words(cs.drop_last());
        let c = cs.last();
        if is_space(c) {
            w
        } else if cs.len() >= 2 && !is_space(cs[cs.len() - 2]) {
            w.update(w.len() - 1, w.last().push(c))
        } else {
            w.push(seq![c])
        }
    }
}

proof fn lemma_words_last(cs: Seq<char>)
    requires
        cs.len() > 0,
        !is_space(cs.last()),
    ensures
        words(cs).len() > 0,
    decreases cs.len(),
{
    if cs.len() >= 2 && !is_space(cs[cs.len() - 2]) {
        assert(cs.drop_last().last() == cs[cs.len() - 2]);
        lemma_words_last(cs.drop_last());
    }
}

/// `str::split_whitespace`: the words of `s`.
pub fn split_whitespace(s: &str) -> (r: Vec<String>)
    ensures
        r@.map_values(|w: String| w@) == words(s@),
{
    let cs = chars_of(s);
    let mut out: Vec<String> = Vec::new();
    let mut cur: Vec<char> = Vec::new();
    let mut i: usize = 0;
    while i < cs.len()
        invariant
            cs@ == s@,
            i <= cs@.len(),
            cur@.len() > 0 <==> (i > 0 && !is_space(cs@[i - 1])),
            cur@.len() == 0 ==> out@.map_values(|w: String| w@) == words(cs@.take(i as int)),
            cur@.len() > 0 ==> out@.map_values(|w: String| w@).push(cur@) == words(cs@.take(i as int)),
        decreases cs@.len() - i,
    {
        let c = cs[i];
        let ghost before = cs@.take(i as int);
        proof {
            assert(cs@.take(i + 1).drop_last() =~= before);
            assert(cs@.take(i + 1).last() == c);
        }
        if is_whitespace(c) {
            if cur.len() > 0 {
                let w = string_of(cur.as_slice());
                out.push(w);
                cur = Vec::new();
                assert(out@.map_values(|w: String| w@) =~= words(cs@.take(i + 1)));
            } else {
                assert(out@.map_values(|w: String| w@) =~= words(cs@.take(i + 1)));
            }
        } else {
            let ghost had = cur@.len() > 0;
            let ghost old_cur = cur@;
            let ghost old_out = out@.map_values(|w: String| w@);
            cur.push(c);
            proof {
                if had {
                    assert(cs@.take(i + 1)[i - 1] == cs@[i - 1]);
                    assert(before.last() == cs@[i - 1]);
                    lemma_words_last(before);
                    let wb = words(before);
                    assert(old_out.push(old_cur) == wb);
                    assert(wb.last() == old_cur);
                    assert(words(cs@.take(i + 1)) == wb.update(wb.len() - 1, wb.last().push(c)));
                    assert(out@.map_values(|w: String| w@) == old_out);
                    assert(out@.map_values(|w: String| w@).push(cur@) =~= wb.update(wb.len() - 1, wb.last().push(c)));
                } else {
                    if i > 0 {
                        assert(cs@.take(i + 1)[i - 1] == cs@[i - 1]);
                    }
                    assert(old_cur.len() == 0);
                    assert(old_out == words(before));
                    assert(words(cs@.take(i + 1)) == words(before).push(seq![c]));
                    assert(cur@ =~= seq![c]);
                    assert(out@.map_values(|w: String| w@).push(cur@) =~= words(cs@.take(i + 1)));
                }
            }
        }
        i = i + 1;
    }
    if cur.len() > 0 {
        let w = string_of(cur.as_slice());
        out.push(w);
        assert(out@.map_values(|w: String| w@) =~= words(cs@.take(i as int)));
    }
    assert(cs@.take(i as int) =~= cs@);
    out
}

/// The value of a string of decimal digits.
pub open spec fn digits_value(ds: Seq<char>) -> nat
    decreases ds.len(),
{
    if ds.len() == 0 {
        0
    } else {
        digits_value(ds.drop_last()) * 10 + ((ds.last() as u32) - ('0' as u32)) as nat
    }
}

pub open spec fn is_digit(c: char) -> bool {
    '0' <= c <= '9'
}

pub open spec fn all_digits(ds: Seq<char>) -> bool {
    forall|i: int| 0 <= i < ds.len() ==> is_digit(#[trigger] ds[i])
}

/// What `str::parse` gives for an unsigned type whose largest value is
/// `max`: an optional `+`, then at least one decimal digit, with a value
/// that fits.
pub open spec fn parsed_bounded(cs: Seq<char>, max: nat) -> Option<nat> {
    let ds = if cs.len() > 1 && cs[0] == '+' { cs.drop_first() } else { cs };
    if ds.len() > 0 && all_digits(ds) && digits_value(ds) <= max {
        Some(digits_value(ds))
    } else {
        None
    }
}

pub open spec fn parsed_u16(cs: Seq<char>) -> Option<u16> {
    match parsed_bounded(cs, u16::MAX as nat) {
        Some(v) => Some(v as u16),
        None => None,
    }
}

pub open spec fn parsed_u64(cs: Seq<char>) -> Option<u64> {
    match parsed_bounded(cs, u64::MAX as nat) {
        Some(v) => Some(v as u64),
        None => None,
    }
}

/// Parses an unsigned decimal number no larger than `max`.
fn parse_bounded(s: &str, max: u64) -> (r: Option<u64>)
    ensures
        r matches Some(v) ==> parsed_bounded(s@, max as nat) == Some(v as nat),
        r is None ==> parsed_bounded(s@, max as nat) is None,
{
    let cs = chars_of(s);
    let mut start: usize = 0;
    if cs.len() > 1 && cs[0] == '+' {
        start = 1;
    }
    let ghost ds = if cs@.len() > 1 && cs@[0] == '+' { cs@.drop_first() } else { cs@ };
    assert(ds =~= cs@.skip(start as int));
    if start >= cs.len() {
        return None;
    }
    let mut value: u128 = 0;
    let mut over = false;
    let mut i: usize = start;
    while i < cs.len()
        invariant
            cs@ == s@,
            ds == cs@.skip(start as int),
            ds == (if s@.len() > 1 && s@[0] == '+' { s@.drop_first() } else { s@ }),
            start <= i <= cs@.len(),
            all_digits(cs@.subrange(start as int, i as int)),
            !over ==> value == digits_value(cs@.subrange(start as int, i as int)),
            !over ==> value <= max,
            over ==> digits_value(cs@.subrange(start as int, i as int)) > max,
        decreases cs@.len() - i,
    {
        let c = cs[i];
        let ghost pre = cs@.subrange(start as int, i as int);
        assert(cs@.subrange(start as int, i + 1).drop_last() =~= pre);
        if !('0' <= c && c <= '9') {
            assert(ds[i - start] == c);
            assert(!is_digit(ds[i - start]));
            assert(!all_digits(ds));
            return None;
        }
        let d = (c as u32) - ('0' as u32);
        if !over {
            value = value * 10 + (d as u128);
            if value > (max as u128) {
                over = true;
            }
        } else {
            assert(digits_value(cs@.subrange(start as int, i + 1)) >= digits_value(pre));
        }
        i = i + 1;
        assert(all_digits(cs@.subrange(start as int, i as int)));
    }
    assert(cs@.subrange(start as int, cs@.len() as int) =~= ds);
    if over {
        None
    } else {
        Some(value as u64)
    }
}

/// `str::parse::<u16>`.
pub fn parse_u16(s: &str) -> (r: Option<u16>)
    ensures
        r == parsed_u16(s@),
{
    match parse_bounded(s, 65535) {
        Some(v) => Some(v as u16),
        None => None,
    }
}

/// `str::parse::<u64>`.
pub fn parse_u64(s: &str) -> (r: Option<u64>)
    ensures
        r == parsed_u64(s@),
{
    parse_bounded(s, 0xffff_ffff_ffff_ffff)
}

/// Whether two strings hold the same text.
pub fn same_text(a: &str, b: &str) -> (r: bool)
    ensures
        r == (a@ == b@),
{
    String::from_str(a) == String::from_str(b)
}

/// The strings of `list` with `sep` between each two.
pub open spec fn joined(list: Seq<Seq<char>>, sep: Seq<char>) -> Seq<char>
    decreases list.len(),
{
    if list.len() == 0 {
        Seq::empty()
    } else if list.len() == 1 {
        list[0]
    } else {
        joined(list.drop_last(), sep) + sep + list.last()
    }
}

/// `[String]::join`: the strings of `list` with `sep` between each two.
pub fn join(list: &[String], sep: &str) -> (r: String)
    ensures
        r@ == joined(list@.map_values(|s: String| s@), sep@),
{
    let ghost all = list@.map_values(|s: String| s@);
    let mut r = String::new();
    let mut i: usize = 0;
    while i < list.len()
        invariant
            all == list@.map_values(|s: String| s@),
            i <= list@.len(),
            r@ == joined(all.take(i as int), sep@),
        decreases list@.len() - i,
    {
        assert(all.take(i + 1).drop_last() =~= all.take(i as int));
        if i != 0 {
            r.append(sep);
        }
        r.append(list[i].as_str());
        i = i + 1;
        proof {
            if i == 1 {
                assert(r@ =~= all.take(1)[0]);
            }
        }
    }
    assert(all.take(list@.len() as int) =~= all);
    r
}

/// `s` holds exactly one `=`.
pub open spec fn one_equals_sign(s: Seq<char>) -> bool {
    exists|k: int| 0 <= k < s.len() && s[k] == '=' && forall|j: int| 0 <= j < s.len() && j != k ==> s[j] != '='
}

/// `s` holds no `=`.
pub open spec fn no_equals_sign(s: Seq<char>) -> bool {
    forall|j: int| 0 <= j < s.len() ==> s[j] != '='
}

/// Splits `s` at its one `=`: what `str::split("=")` gives for it.
pub fn split_at_equals(s: &str) -> (r: (String, String))
    requires
        one_equals_sign(s@),
    ensures
        r.0@ + seq!['='] + r.1@ == s@,
        no_equals_sign(r.0@),
        no_equals_sign(r.1@),
{
    let cs = chars_of(s);
    let mut k: usize = 0;
    while k < cs.len()
        invariant
            cs@ == s@,
            k <= cs@.len(),
            one_equals_sign(s@),
            forall|j: int| 0 <= j < k ==> cs@[j] != '=',
        ensures
            k <= cs@.len(),
            forall|j: int| 0 <= j < k ==> cs@[j] != '=',
            k < cs@.len() ==> cs@[k as int] == '=',
        decreases cs@.len() - k,
    {
        if cs[k] == '=' {
            break;
        }
        k = k + 1;
    }
    proof {
        if k >= cs@.len() {
            let w = choose|w: int| 0 <= w < s@.len() && s@[w] == '=' && forall|j: int| 0 <= j < s@.len() && j != w ==> s@[j] != '=';
            assert(s@[w] == '=');
            assert(cs@[w] != '=');
            assert(false);
        }
    }
    assert(k < cs.len());
    assert(cs@[k as int] == '=');
    let a = string_of(vstd::slice::slice_subrange(cs.as_slice(), 0, k));
    let b = string_of(vstd::slice::slice_subrange(cs.as_slice(), k + 1, cs.len()));
    proof {
        let w = choose|w: int| 0 <= w < s@.len() && s@[w] == '=' && forall|j: int| 0 <= j < s@.len() && j != w ==> s@[j] != '=';
        assert(w == k);
        assert(a@ + seq!['='] + b@ =~= s@);
    }
    (a, b)
}

/// `PathBuf::join` on Unix: a path that starts with `/` replaces the base;
/// otherwise it is appended, with a `/` in between unless the base is
/// empty or already ends in one.
pub open spec fn joined_path(base: Seq<u8>, rel: Seq<u8>) -> Seq<u8> {
    if rel.len() > 0 && rel[0] == 47u8 {
        rel
    } else if base.len() == 0 || base.last() == 47u8 {
        base + rel
    } else {
        base + seq![47u8] + rel
    }
}

pub fn join_path(base: &[u8], rel: &[u8]) -> (r: Vec<u8>)
    ensures
        r@ == joined_path(base@, rel@),
{
    let mut r: Vec<u8> = Vec::new();
    if rel.len() > 0 && rel[0] == 47u8 {
        append_bytes(&mut r, rel);
        return r;
    }
    append_bytes(&mut r, base);
    if base.len() > 0 && base[base.len() - 1] != 47u8 {
        r.push(47u8);
    }
    append_bytes(&mut r, rel);
    r
}

/// Appends the bytes of `b` to `v`.
pub fn append_bytes(v: &mut Vec<u8>, b: &[u8])
    ensures
        final(v)@ == old(v)@ + b@,
{
    let mut i: usize = 0;
    while i < b.len()
        invariant
            i <= b@.len(),
            v@ == old(v)@ + b@.take(i as int),
        decreases b@.len() - i,
    {
        v.push(b[i]);
        i = i + 1;
        assert(v@ =~= old(v)@ + b@.take(i as int));
    }
    assert(b@.take(b@.len() as int) =~= b@);
}

/// One more character adds its UTF-8 length to the byte count of a prefix.
pub proof fn lemma_prefix_step(cs: Seq<char>, k: int)
    requires
        0 <= k < cs.len(),
    ensures
        byte_len(cs.take(k + 1)) == byte_len(cs.take(k)) + byte_len(seq![cs[k]]),
        byte_len(cs.take(k)) < byte_len(cs.take(k + 1)),
{
    assert(cs.take(k + 1) =~= cs.take(k) + seq![cs[k]]);
    lemma_encode_concat(cs.take(k), seq![cs[k]]);
    lemma_chars_le_bytes(seq![cs[k]]);
}

/// Longer prefixes take more bytes.
pub proof fn lemma_prefix_bytes_grow(cs: Seq<char>, i: int, j: int)
    requires
        0 <= i < j <= cs.len(),
    ensures
        byte_len(cs.take(i)) < byte_len(cs.take(j)),
    decreases j - i,
{
    lemma_prefix_step(cs, j - 1);
    if i < j - 1 {
        lemma_prefix_bytes_grow(cs, i, j - 1);
    }
}

/// The number of bytes of `s` in UTF-8, if it fits in a `usize`.
pub fn utf8_len(s: &str) -> (r: Option<usize>)
    ensures
        r matches Some(n) ==> n == byte_len(s@),
        r is None ==> byte_len(s@) > usize::MAX,
{
    let cs = chars_of(s);
    let mut k: usize = 0;
    let mut acc: usize = 0;
    while k < cs.len()
        invariant
            cs@ == s@,
            k <= cs@.len(),
            acc == byte_len(cs@.take(k as int)),
        decreases cs@.len() - k,
    {
        proof {
            lemma_prefix_step(cs@, k as int);
        }
        let n = len_utf8(cs[k]);
        if acc > usize::MAX - n {
            proof {
                if k + 1 < cs@.len() {
                    lemma_prefix_bytes_grow(cs@, k + 1, cs@.len() as int);
                }
                assert(cs@.take(cs@.len() as int) =~= s@);
            }
            return None;
        }
        acc = acc + n;
        k = k + 1;
    }
    assert(cs@.take(cs@.len() as int) =~= s@);
    Some(acc)
}

/// Whether byte offset `b` of `s` starts a character (or is the end).
pub fn boundary_at(s: &str, b: usize) -> (r: bool)
    ensures
        r == is_boundary(s@, b as int),
{
    let cs = chars_of(s);
    let mut k: usize = 0;
    let mut acc: usize = 0;
    while k < cs.len()
        invariant
            cs@ == s@,
            k <= cs@.len(),
            acc == byte_len(cs@.take(k as int)),
            acc <= b,
            forall|j: int| 0 <= j < k ==> byte_len(#[trigger] cs@.take(j)) < b,
        decreases cs@.len() - k,
    {
        if acc == b {
            return true;
        }
        proof {
            lemma_prefix_step(cs@, k as int);
        }
        let n = len_utf8(cs[k]);
        if b - acc < n {
            proof {
                assert forall|j: int| 0 <= j <= cs@.len() implies #[trigger] byte_len(cs@.take(j)) != b by {
                    if j > k + 1 {
                        lemma_prefix_bytes_grow(cs@, k + 1, j);
                    }
                }
            }
            return false;
        }
        acc = acc + n;
        k = k + 1;
    }
    if acc == b {
        return true;
    }
    proof {
        assert forall|j: int| 0 <= j <= cs@.len() implies #[trigger] byte_len(cs@.take(j)) != b by {}
    }
    false
}

/// Whether `s` holds exactly one `=`.
pub fn has_one_equals_sign(s: &str) -> (r: bool)
    ensures
        r == one_equals_sign(s@),
{
    let cs = chars_of(s);
    let mut count: usize = 0;
    let mut first: usize = 0;
    let mut k: usize = 0;
    while k < cs.len()
        invariant
            cs@ == s@,
            k <= cs@.len(),
            count <= 1,
            count == 0 ==> forall|j: int| 0 <= j < k ==> cs@[j] != '=',
            count == 1 ==> first < k && cs@[first as int] == '=' && forall|j: int|
                0 <= j < k && j != first ==> cs@[j] != '=',
        decreases cs@.len() - k,
    {
        if cs[k] == '=' {
            if count == 1 {
                proof {
                    assert forall|w: int| 0 <= w < s@.len() && s@[w] == '=' implies exists|j: int|
                        0 <= j < s@.len() && j != w && s@[j] == '=' by {
                        if w == first {
                            assert(s@[k as int] == '=');
                        } else {
                            assert(s@[first as int] == '=');
                        }
                    }
                }
                return false;
            }
            count = 1;
            first = k;
        }
        k = k + 1;
    }
    count == 1
}

/// The index of the first `\n` of `t` at or after `i`, or the length of
/// `t` when there is none.
pub open spec fn next_newline(t: Seq<char>, i: int) -> int
    decreases t.len() - i,
{
    if i >= t.len() {
        t.len() as int
    } else if t[i] == '\n' {
        i
    } else {
        next_newline(t, i + 1)
    }
}

/// The first `\n` at or after `i` lies between `i` and the end of `t`.
pub proof fn lemma_next_newline(t: Seq<char>, i: int)
    requires
        0 <= i,
    ensures
        i <= next_newline(t, i) || i > t.len(),
        next_newline(t, i) <= t.len(),
        next_newline(t, i) < t.len() ==> t[next_newline(t, i)] == '\n',
    decreases t.len() - i,
{
    if i < t.len() && t[i] != '\n' {
        lemma_next_newline(t, i + 1);
    }
}

/// The line of `t` that starts at `start` and ends at `nl` (a `\n`, or the
/// end of `t`), without its line ending: a `\r` right before the `\n` goes
/// with it.
pub open spec fn line_body(t: Seq<char>, start: int, nl: int) -> Seq<char> {
    if start < nl < t.len() && t[nl - 1] == '\r' {
        t.subrange(start, nl - 1)
    } else {
        t.subrange(start, nl)
    }
}

/// The lines of `t` from index `i` on.
pub open spec fn lines_from(t: Seq<char>, i: int) -> Seq<Seq<char>>
    decreases t.len() + 1 - i,
{
    if i < 0 || i >= t.len() {
        Seq::empty()
    } else {
        let nl = next_newline(t, i);
        proof {
            lemma_next_newline(t, i);
        }
        seq![line_body(t, i, nl)] + lines_from(t, nl + 1)
    }
}

/// The lines of `t` as `str::lines` gives them: split at each `\n`, with a
/// `\r` right before it dropped too, and no empty line after a final `\n`.
pub open spec fn text_lines(t: Seq<char>) -> Seq<Seq<char>> {
    lines_from(t, 0)
}

/// `str::lines`: the lines of `text`, without their line endings.
pub fn lines(text: &str) -> (r: Vec<String>)
    ensures
        r@.map_values(|l: String| l@) == text_lines(text@),
{
    let cs = chars_of(text);
    let ghost t = cs@;
    let n = cs.len();
    let mut out: Vec<String> = Vec::new();
    let mut i: usize = 0;
    while i < n
        invariant
            t == cs@,
            t == text@,
            n == t.len(),
            i <= n,
            out@.map_values(|l: String| l@) + lines_from(t, i as int) == text_lines(t),
        decreases n - i,
    {
        let mut j: usize = i;
        while j < n && cs[j] != '\n'
            invariant
                t == cs@,
                n == t.len(),
                i <= j <= n,
                next_newline(t, i as int) == next_newline(t, j as int),
            decreases n - j,
        {
            j = j + 1;
        }
        proof {
            lemma_next_newline(t, i as int);
        }
        assert(next_newline(t, i as int) == j);
        let end = if i < j && j < n && cs[j - 1] == '\r' {
            j - 1
        } else {
            j
        };
        let line = string_of(vstd::slice::slice_subrange(cs.as_slice(), i, end));
        assert(line@ == line_body(t, i as int, j as int));
        let ghost before = out@.map_values(|l: String| l@);
        out.push(line);
        assert(out@.map_values(|l: String| l@) =~= before.push(line_body(t, i as int, j as int)));
        assert(lines_from(t, i as int) == seq![line_body(t, i as int, j as int)] + lines_from(t, j + 1));
        assert(before + lines_from(t, i as int) =~= before.push(line_body(t, i as int, j as int)) + lines_from(t, j + 1));
        if j < n {
            i = j + 1;
        } else {
            assert(lines_from(t, j + 1) =~= Seq::<Seq<char>>::empty());
            assert(lines_from(t, n as int) =~= Seq::<Seq<char>>::empty());
            i = n;
        }
    }
    assert(lines_from(t, i as int) =~= Seq::<Seq<char>>::empty());
    assert(out@.map_values(|l: String| l@) + Seq::<Seq<char>>::empty() =~= out@.map_values(|l: String| l@));
    out
}

} // verus!
