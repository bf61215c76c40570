//! Characters, UTF-8 byte offsets and small string utilities.

use vstd::prelude::*;
use vstd::utf8::*;

verus! {

broadcast use vstd::string::group_string_axioms, vstd::slice::group_slice_axioms;

/// Number of bytes in the UTF-8 encoding of `c`.
pub open spec fn utf8_width(c: char) -> nat {
    encode_scalar(c as u32).len()
}

/// Byte offset, in the UTF-8 encoding of `chars`, at which the char with index `i` starts.
pub open spec fn byte_offset(chars: Seq<char>, i: int) -> int {
    encode_utf8(chars.take(i)).len() as int
}

/// The White_Space property of the Unicode Character Database, which `char::is_whitespace` reports.
pub open spec fn is_white_space(c: char) -> bool {
    let v = c as u32;
    ||| 0x9 <= v <= 0xD
    ||| v == 0x20
    ||| v == 0x85
    ||| v == 0xA0
    ||| v == 0x1680
    ||| 0x2000 <= v <= 0x200A
    ||| v == 0x2028
    ||| v == 0x2029
    ||| v == 0x202F
    ||| v == 0x205F
    ||| v == 0x3000
}

/// Whether `c` has the Unicode White_Space property.
pub fn is_whitespace(c: char) -> (r: bool)
    ensures
        r == is_white_space(c),
{
    let v = c as u32;
    (0x9 <= v && v <= 0xD) || v == 0x20 || v == 0x85 || v == 0xA0 || v == 0x1680 || (0x2000 <= v
        && v <= 0x200A) || v == 0x2028 || v == 0x2029 || v == 0x202F || v == 0x205F || v == 0x3000
}

/// Number of bytes that `c` takes in UTF-8.
pub fn utf8_len(c: char) -> (r: usize)
    ensures
        r == utf8_width(c),
        1 <= r <= 4,
{
    proof {
        char_is_scalar(c);
    }
    let v = c as u32;
    if v <= 0x7F {
        1
    } else if v <= 0x7FF {
        2
    } else if v <= 0xFFFF {
        3
    } else {
        4
    }
}

/// UTF-8 encoding distributes over concatenation.
pub proof fn lemma_encode_utf8_concat(a: Seq<char>, b: Seq<char>)
    ensures
        encode_utf8(a + b) == encode_utf8(a) + encode_utf8(b),
    decreases a.len(),
{
    if a.len() == 0 {
        assert(a + b =~= b);
        assert(encode_utf8(a) + encode_utf8(b) =~= encode_utf8(b));
    } else {
        assert((a + b).drop_first() =~= a.drop_first() + b);
        assert((a + b)[0] == a[0]);
        lemma_encode_utf8_concat(a.drop_first(), b);
        assert(encode_utf8(a + b) =~= encode_scalar(a[0] as u32) + (encode_utf8(a.drop_first())
            + encode_utf8(b)));
        assert(encode_utf8(a) + encode_utf8(b) =~= encode_scalar(a[0] as u32) + (encode_utf8(
            a.drop_first(),
        ) + encode_utf8(b)));
    }
}

/// The UTF-8 encoding of a single char is its scalar encoding.
pub proof fn lemma_encode_utf8_single(c: char)
    ensures
        encode_utf8(seq![c]) == encode_scalar(c as u32),
{
    assert(seq![c].drop_first() =~= Seq::<char>::empty());
    assert(encode_utf8(seq![c]) =~= encode_scalar(c as u32) + encode_utf8(Seq::<char>::empty()));
}

/// Stepping over one char advances the byte offset by the width of that char.
pub proof fn lemma_byte_offset_step(s: Seq<char>, i: int)
    requires
        0 <= i < s.len(),
    ensures
        byte_offset(s, i + 1) == byte_offset(s, i) + utf8_width(s[i]),
{
    assert(s.take(i + 1) =~= s.take(i) + seq![s[i]]);
    lemma_encode_utf8_concat(s.take(i), seq![s[i]]);
    lemma_encode_utf8_single(s[i]);
}

/// Byte offsets grow with the char index, from 0 up to the encoded length.
pub proof fn lemma_byte_offset_bounds(s: Seq<char>, i: int, j: int)
    requires
        0 <= i <= j <= s.len(),
    ensures
        0 <= byte_offset(s, i) <= byte_offset(s, j) <= encode_utf8(s).len(),
        byte_offset(s, 0) == 0,
        byte_offset(s, s.len() as int) == encode_utf8(s).len(),
        i < j ==> byte_offset(s, i) < byte_offset(s, j),
    decreases j - i,
{
    assert(s.take(0) =~= Seq::<char>::empty());
    assert(s.take(s.len() as int) =~= s);
    if i < j {
        lemma_byte_offset_bounds(s, i, j - 1);
        lemma_byte_offset_step(s, j - 1);
        char_is_scalar(s[j - 1]);
    }
    lemma_byte_offset_bounds_to_end(s, j);
}

proof fn lemma_byte_offset_bounds_to_end(s: Seq<char>, j: int)
    requires
        0 <= j <= s.len(),
    ensures
        byte_offset(s, j) <= encode_utf8(s).len(),
    decreases s.len() - j,
{
    assert(s.take(s.len() as int) =~= s);
    if j < s.len() {
        lemma_byte_offset_bounds_to_end(s, j + 1);
        lemma_byte_offset_step(s, j);
    }
}

/// The chars of `s`, in order.
pub fn chars_of(s: &str) -> (r: Vec<char>)
    ensures
        r@ == s@,
{
    let mut out: Vec<char> = Vec::new();
    for c in it: s.chars()
        invariant
            it.seq() == s@,
            out@ == s@.take(it.index()),
    {
        out.push(c);
        proof {
            assert(out@ =~= s@.take(it.index() + 1));
        }
    }
    proof {
        assert(out@ =~= s@);
    }
    out
}

/// The byte offsets at which the chars of `s` start, followed by the byte length of `s`.
pub fn char_byte_offsets(s: &str) -> (r: Vec<usize>)
    ensures
        r@.len() == s@.len() + 1,
        forall|i: int| 0 <= i <= s@.len() ==> #[trigger] r@[i] == byte_offset(s@, i),
        r@[s@.len() as int] == encode_utf8(s@).len(),
{
    let chars = chars_of(s);
    let total = s.as_bytes().len();
    let mut out: Vec<usize> = Vec::new();
    let mut offset: usize = 0;
    let mut i: usize = 0;
    proof {
        lemma_byte_offset_bounds(s@, 0, 0);
    }
    while i < chars.len()
        invariant
            chars@ == s@,
            total == encode_utf8(s@).len(),
            i <= chars@.len(),
            out@.len() == i,
            offset == byte_offset(s@, i as int),
            forall|k: int| 0 <= k < i ==> #[trigger] out@[k] == byte_offset(s@, k),
        decreases chars.len() - i,
    {
        out.push(offset);
        proof {
            lemma_byte_offset_step(s@, i as int);
            lemma_byte_offset_bounds(s@, i as int + 1, s@.len() as int);
        }
        let w = utf8_len(chars[i]);
        offset = offset + w;
        i = i + 1;
    }
    out.push(offset);
    proof {
        lemma_byte_offset_bounds(s@, 0, s@.len() as int);
    }
    out
}

/// Index of the first char at or after `i` that is not white space (or the length of `s`).
pub open spec fn first_ink_from(s: Seq<char>, i: int) -> int
    decreases s.len() - i,
{
    if 0 <= i < s.len() && is_white_space(s[i]) {
        first_ink_from(s, i + 1)
    } else {
        i
    }
}

/// One past the index of the last char before `j` that is not white space (or 0).
pub open spec fn last_ink_end_from(s: Seq<char>, j: int) -> int
    decreases j,
{
    if 0 < j <= s.len() && is_white_space(s[j - 1]) {
        last_ink_end_from(s, j - 1)
    } else {
        j
    }
}

/// `s` without its leading and trailing white space, as `str::trim` gives it.
pub open spec fn trimmed(s: Seq<char>) -> Seq<char> {
    let a = first_ink_from(s, 0);
    let b = last_ink_end_from(s, s.len() as int);
    if a < b {
        s.subrange(a, b)
    } else {
        Seq::empty()
    }
}

pub proof fn lemma_first_ink_from_bounds(s: Seq<char>, i: int)
    requires
        0 <= i <= s.len(),
    ensures
        i <= first_ink_from(s, i) <= s.len(),
        first_ink_from(s, i) < s.len() ==> !is_white_space(s[first_ink_from(s, i)]),
    decreases s.len() - i,
{
    if i < s.len() && is_white_space(s[i]) {
        lemma_first_ink_from_bounds(s, i + 1);
    }
}

pub proof fn lemma_last_ink_end_from_bounds(s: Seq<char>, j: int)
    requires
        0 <= j <= s.len(),
    ensures
        0 <= last_ink_end_from(s, j) <= j,
        last_ink_end_from(s, j) > 0 ==> !is_white_space(s[last_ink_end_from(s, j) - 1]),
    decreases j,
{
    if 0 < j && is_white_space(s[j - 1]) {
        lemma_last_ink_end_from_bounds(s, j - 1);
    }
}

/// Trimming is idempotent: trimmed text has no surrounding white space left.
pub proof fn lemma_trimmed_idempotent(s: Seq<char>)
    ensures
        trimmed(trimmed(s)) == trimmed(s),
{
    let a = first_ink_from(s, 0);
    let b = last_ink_end_from(s, s.len() as int);
    lemma_first_ink_from_bounds(s, 0);
    lemma_last_ink_end_from_bounds(s, s.len() as int);
    let t = trimmed(s);
    if a < b {
        assert(t[0] == s[a]);
        assert(t[t.len() - 1] == s[b - 1]);
        assert(first_ink_from(t, 0) == 0);
        assert(last_ink_end_from(t, t.len() as int) == t.len());
        assert(t.subrange(0, t.len() as int) =~= t);
    } else {
        assert(first_ink_from(t, 0) == 0);
    }
}

/// Whether every char of `s` is white space.
pub open spec fn all_white_space(s: Seq<char>) -> bool {
    forall|i: int| 0 <= i < s.len() ==> #[trigger] is_white_space(s[i])
}

proof fn lemma_first_ink_over_white(u: Seq<char>, i: int, j: int)
    requires
        0 <= i <= j <= u.len(),
        forall|k: int| i <= k < j ==> #[trigger] is_white_space(u[k]),
    ensures
        first_ink_from(u, i) == first_ink_from(u, j),
    decreases j - i,
{
    if i < j {
        lemma_first_ink_over_white(u, i + 1, j);
    }
}

proof fn lemma_last_ink_over_white(u: Seq<char>, i: int, j: int)
    requires
        0 <= i <= j <= u.len(),
        forall|k: int| i <= k < j ==> #[trigger] is_white_space(u[k]),
    ensures
        last_ink_end_from(u, j) == last_ink_end_from(u, i),
    decreases j - i,
{
    if i < j {
        lemma_last_ink_over_white(u, i, j - 1);
    }
}

proof fn lemma_first_ink_shifted(p: Seq<char>, s: Seq<char>, q: Seq<char>, j: int)
    requires
        0 <= j <= s.len(),
        all_white_space(q),
    ensures
        first_ink_from(s, j) < s.len() ==> first_ink_from(p + s + q, p.len() + j) == p.len()
            + first_ink_from(s, j),
        first_ink_from(s, j) >= s.len() ==> first_ink_from(p + s + q, p.len() + j) == (p + s
            + q).len(),
    decreases s.len() - j,
{
    let u = p + s + q;
    if j < s.len() {
        assert(u[p.len() + j] == s[j]);
        if is_white_space(s[j]) {
            lemma_first_ink_shifted(p, s, q, j + 1);
        }
    } else {
        assert forall|k: int| p.len() + s.len() <= k < u.len() implies #[trigger] is_white_space(u[k]) by {
            assert(u[k] == q[k - p.len() - s.len()]);
        }
        lemma_first_ink_over_white(u, (p.len() + s.len()) as int, u.len() as int);
    }
}

proof fn lemma_last_ink_shifted(p: Seq<char>, s: Seq<char>, q: Seq<char>, j: int)
    requires
        0 <= j <= s.len(),
    ensures
        last_ink_end_from(s, j) > 0 ==> last_ink_end_from(p + s + q, p.len() + j) == p.len()
            + last_ink_end_from(s, j),
    decreases j,
{
    let u = p + s + q;
    if j > 0 {
        assert(u[p.len() + j - 1] == s[j - 1]);
        if is_white_space(s[j - 1]) {
            lemma_last_ink_shifted(p, s, q, j - 1);
        }
    }
}

/// White space around a value does not change its trimmed form.
pub proof fn lemma_trimmed_padded(p: Seq<char>, s: Seq<char>, q: Seq<char>)
    requires
        all_white_space(p),
        all_white_space(q),
    ensures
        trimmed(p + s + q) == trimmed(s),
{
    let u = p + s + q;
    lemma_first_ink_from_bounds(s, 0);
    lemma_last_ink_end_from_bounds(s, s.len() as int);
    assert forall|k: int| 0 <= k < p.len() implies #[trigger] is_white_space(u[k]) by {
        assert(u[k] == p[k]);
    }
    lemma_first_ink_over_white(u, 0, p.len() as int);
    lemma_first_ink_shifted(p, s, q, 0);
    assert forall|k: int| p.len() + s.len() <= k < u.len() implies #[trigger] is_white_space(u[k]) by {
        assert(u[k] == q[k - p.len() - s.len()]);
    }
    lemma_last_ink_over_white(u, (p.len() + s.len()) as int, u.len() as int);
    lemma_last_ink_shifted(p, s, q, s.len() as int);
    lemma_last_ink_end_from_bounds(u, u.len() as int);
    let a = first_ink_from(s, 0);
    let b = last_ink_end_from(s, s.len() as int);
    if a < b {
        assert(u.subrange(p.len() + a, p.len() + b) =~= s.subrange(a, b));
    } else {
        if a < s.len() {
            assert(!is_white_space(s[a]));
            // an ink char at `a` means the last ink end is past it
            lemma_last_ink_after(s, a, s.len() as int);
        }
        assert(first_ink_from(u, 0) == u.len());
    }
}

proof fn lemma_last_ink_after(s: Seq<char>, a: int, j: int)
    requires
        0 <= a < j <= s.len(),
        !is_white_space(s[a]),
    ensures
        last_ink_end_from(s, j) > a,
    decreases j,
{
    if is_white_space(s[j - 1]) {
        lemma_last_ink_after(s, a, j - 1);
    }
}

/// Char range `(start, end)` of `s` without its leading and trailing white space; `start ==
/// end` when `s` holds nothing but white space.
pub fn trim_range(s: &Vec<char>) -> (r: (usize, usize))
    ensures
        r.0 <= r.1 <= s@.len(),
        s@.subrange(r.0 as int, r.1 as int) == trimmed(s@),
{
    let mut a: usize = 0;
    while a < s.len() && is_whitespace(s[a])
        invariant
            a <= s@.len(),
            first_ink_from(s@, a as int) == first_ink_from(s@, 0),
        decreases s@.len() - a,
    {
        a = a + 1;
    }
    let mut b: usize = s.len();
    while b > a && is_whitespace(s[b - 1])
        invariant
            a <= b <= s@.len(),
            a == first_ink_from(s@, 0),
            last_ink_end_from(s@, b as int) == last_ink_end_from(s@, s@.len() as int),
        decreases b,
    {
        b = b - 1;
    }
    proof {
        if b > a {
            assert(last_ink_end_from(s@, b as int) == b);
        } else {
            lemma_last_ink_end_from_bounds(s@, b as int);
            assert(s@.subrange(a as int, b as int) =~= Seq::<char>::empty());
        }
    }
    (a, b)
}

/// A `String` holding exactly `chars`: std's `String: FromIterator<&char>`, which
/// appends each char in order.
#[verifier::external_body]
pub(crate) fn string_from_chars(chars: &[char]) -> (r: String)
    ensures
        r@ == chars@,
{
    chars.iter().collect()
}

/// Whether `a[lo..hi]` holds exactly the chars of `b`.
pub fn chars_range_eq(a: &Vec<char>, lo: usize, hi: usize, b: &Vec<char>) -> (r: bool)
    requires
        lo <= hi <= a@.len(),
    ensures
        r == (a@.subrange(lo as int, hi as int) == b@),
{
    if hi - lo != b.len() {
        return false;
    }
    let mut k: usize = 0;
    while k < b.len()
        invariant
            lo <= hi <= a@.len(),
            hi - lo == b@.len(),
            k <= b@.len(),
            a@.subrange(lo as int, lo + k) == b@.take(k as int),
        decreases b@.len() - k,
    {
        if a[lo + k] != b[k] {
            proof {
                assert(a@.subrange(lo as int, hi as int)[k as int] != b@[k as int]);
            }
            return false;
        }
        proof {
            assert(a@.subrange(lo as int, lo + k + 1) =~= a@.subrange(lo as int, lo + k).push(
                a@[lo + k],
            ));
            assert(b@.take(k + 1) =~= b@.take(k as int).push(b@[k as int]));
        }
        k = k + 1;
    }
    proof {
        assert(b@.take(b@.len() as int) =~= b@);
    }
    true
}

/// The decimal digit of `d`, for `d < 10`.
pub open spec fn digit_char(d: int) -> char {
    ((48 + d) as u32) as char
}

/// The decimal digits of `n`, most significant first, without leading zeros (`0` is `"0"`).
pub open spec fn decimal_digits(n: nat) -> Seq<char>
    decreases n,
{
    if n < 10 {
        seq![digit_char(n as int)]
    } else {
        decimal_digits(n / 10).push(digit_char((n % 10) as int))
    }
}

/// How `Display` writes the integer `n`: a `-` before the digits of a negative number.
pub open spec fn decimal(n: int) -> Seq<char> {
    if n < 0 {
        seq!['-'] + decimal_digits((-n) as nat)
    } else {
        decimal_digits(n as nat)
    }
}

/// The decimal digits of `n`.
pub fn decimal_digit_chars(n: u64) -> (r: Vec<char>)
    ensures
        r@ == decimal_digits(n as nat),
    decreases n,
{
    if n < 10 {
        let c = ((48 + n) as u8) as char;
        proof {
            assert(c == digit_char(n as int));
        }
        vec![c]
    } else {
        let mut r = decimal_digit_chars(n / 10);
        let c = ((48 + n % 10) as u8) as char;
        proof {
            assert(c == digit_char((n % 10) as int));
        }
        r.push(c);
        r
    }
}

/// How `Display` writes the integer `n`.
pub fn decimal_chars(n: i64) -> (r: Vec<char>)
    ensures
        r@ == decimal(n as int),
{
    if n < 0 {
        let magnitude: u64 = if n == i64::MIN {
            9223372036854775808u64
        } else {
            (-n) as u64
        };
        let digits = decimal_digit_chars(magnitude);
        let mut r = vec!['-'];
        let mut i: usize = 0;
        while i < digits.len()
            invariant
                r@ == seq!['-'] + digits@.take(i as int),
                i <= digits@.len(),
            decreases digits@.len() - i,
        {
            r.push(digits[i]);
            proof {
                assert(digits@.take(i + 1) =~= digits@.take(i as int).push(digits@[i as int]));
            }
            i = i + 1;
        }
        proof {
            assert(digits@.take(digits@.len() as int) =~= digits@);
        }
        r
    } else {
        decimal_digit_chars(n as u64)
    }
}

/// `c` with an ASCII upper-case letter turned to lower case.
pub open spec fn ascii_lower(c: char) -> char {
    if 'A' <= c <= 'Z' {
        ((c as u32) + 32) as char
    } else {
        c
    }
}

/// `c` with an ASCII upper-case letter turned to lower case, as `char::to_ascii_lowercase`.
pub fn to_ascii_lower(c: char) -> (r: char)
    ensures
        r == ascii_lower(c),
{
    if 'A' <= c && c <= 'Z' {
        ((c as u32) + 32) as u8 as char
    } else {
        c
    }
}

/// The pieces of `parts` with `sep` between each two of them.
pub open spec fn joined(parts: Seq<Seq<char>>, sep: Seq<char>) -> Seq<char>
    decreases parts.len(),
{
    if parts.len() == 0 {
        Seq::empty()
    } else if parts.len() == 1 {
        parts[0]
    } else {
        joined(parts.drop_last(), sep) + sep + parts.last()
    }
}

/// Appends the chars of `s` to `out`.
pub fn push_str_chars(out: &mut Vec<char>, s: &str)
    ensures
        final(out)@ == old(out)@ + s@,
{
    let chars = chars_of(s);
    let mut i: usize = 0;
    let ghost start = out@;
    while i < chars.len()
        invariant
            chars@ == s@,
            i <= chars@.len(),
            out@ == start + chars@.take(i as int),
        decreases chars@.len() - i,
    {
        out.push(chars[i]);
        proof {
            assert(chars@.take(i + 1) =~= chars@.take(i as int).push(chars@[i as int]));
        }
        i = i + 1;
    }
    proof {
        assert(chars@.take(chars@.len() as int) =~= chars@);
    }
}

/// The views of a list of strings.
pub open spec fn str_views(v: Seq<&str>) -> Seq<Seq<char>> {
    v.map_values(|s: &str| s@)
}

/// Appends `parts`, with `sep` between each two of them, to `out`.
pub fn push_joined(out: &mut Vec<char>, parts: &[&str], sep: &str)
    ensures
        final(out)@ == old(out)@ + joined(str_views(parts@), sep@),
{
    let ghost start = out@;
    let ghost views = str_views(parts@);
    let mut i: usize = 0;
    proof {
        assert(views.take(0) =~= Seq::<Seq<char>>::empty());
        assert(out@ =~= start + joined(views.take(0), sep@));
    }
    while i < parts.len()
        invariant
            views == str_views(parts@),
            i <= parts@.len(),
            out@ == start + joined(views.take(i as int), sep@),
        decreases parts@.len() - i,
    {
        if i > 0 {
            push_str_chars(out, sep);
        }
        push_str_chars(out, parts[i]);
        proof {
            let t = views.take(i + 1);
            assert(t.drop_last() =~= views.take(i as int));
            assert(t.last() == parts@[i as int]@);
            if i == 0 {
                assert(t =~= seq![parts@[0]@]);
                assert(joined(views.take(0), sep@) =~= Seq::<char>::empty());
            }
            assert(out@ =~= start + joined(t, sep@));
        }
        i = i + 1;
    }
    proof {
        assert(views.take(parts@.len() as int) =~= views);
    }
}

/// Whether `t` occurs in `s` at index `i`.
pub open spec fn occurs_at(s: Seq<char>, t: Seq<char>, i: int) -> bool {
    0 <= i && i + t.len() <= s.len() && s.subrange(i, i + t.len()) == t
}

/// Whether `t` occurs somewhere in `s`.
pub open spec fn contains_chars(s: Seq<char>, t: Seq<char>) -> bool {
    exists|i: int| occurs_at(s, t, i)
}

/// Whether `s` ends with `t`.
pub open spec fn ends_with_chars(s: Seq<char>, t: Seq<char>) -> bool {
    occurs_at(s, t, s.len() - t.len())
}

/// Whether `needle` occurs in `hay` at index `i`.
pub fn occurs_at_exec(hay: &Vec<char>, needle: &Vec<char>, i: usize) -> (r: bool)
    ensures
        r == occurs_at(hay@, needle@, i as int),
{
    if i > hay.len() || hay.len() - i < needle.len() {
        return false;
    }
    chars_range_eq(hay, i, i + needle.len(), needle)
}

/// Whether `needle` occurs in `hay`.
pub fn contains_str(hay: &str, needle: &str) -> (r: bool)
    ensures
        r == contains_chars(hay@, needle@),
{
    let h = chars_of(hay);
    let n = chars_of(needle);
    let mut i: usize = 0;
    loop
        invariant
            h@ == hay@,
            n@ == needle@,
            i <= h@.len(),
            forall|k: int| 0 <= k < i ==> !occurs_at(hay@, needle@, k),
        decreases h@.len() - i,
    {
        if occurs_at_exec(&h, &n, i) {
            return true;
        }
        if i == h.len() {
            proof {
                assert forall|k: int| !occurs_at(hay@, needle@, k) by {
                    if 0 <= k < i {
                    }
                }
            }
            return false;
        }
        i = i + 1;
    }
}

/// Whether `hay` ends with `suffix`.
pub fn ends_with_str(hay: &str, suffix: &str) -> (r: bool)
    ensures
        r == ends_with_chars(hay@, suffix@),
{
    let h = chars_of(hay);
    let n = chars_of(suffix);
    if h.len() < n.len() {
        return false;
    }
    occurs_at_exec(&h, &n, h.len() - n.len())
}

/// Index of the first char, at or after `i`, whose byte offset in `t` is at least `off`
/// (the length of `t` when there is none). At a char boundary `off`, the char that starts there.
pub open spec fn offset_index_from(t: Seq<char>, off: int, i: int) -> int
    decreases t.len() - i,
{
    if 0 <= i < t.len() && byte_offset(t, i) < off {
        offset_index_from(t, off, i + 1)
    } else {
        i
    }
}

/// Index of the char of `t` that starts at byte offset `off`, for a char boundary `off`.
pub open spec fn offset_index(t: Seq<char>, off: int) -> int {
    offset_index_from(t, off, 0)
}

/// Whether `off` is a char boundary of `t` (its end included).
pub open spec fn is_char_offset(t: Seq<char>, off: int) -> bool {
    exists|e: int| 0 <= e <= t.len() && byte_offset(t, e) == off
}

/// `offset_index_from` stays within `i..=len`, and below it every char starts before `off`.
pub proof fn lemma_offset_index_from(t: Seq<char>, off: int, i: int)
    requires
        0 <= i <= t.len(),
    ensures
        i <= offset_index_from(t, off, i) <= t.len(),
        offset_index_from(t, off, i) < t.len() ==> byte_offset(t, offset_index_from(t, off, i))
            >= off,
        forall|j: int| i <= j < offset_index_from(t, off, i) ==> byte_offset(t, j) < off,
    decreases t.len() - i,
{
    if i < t.len() && byte_offset(t, i) < off {
        lemma_offset_index_from(t, off, i + 1);
    }
}

/// At a char boundary `off`, `offset_index` finds the char that starts there.
pub proof fn lemma_offset_index_exact(t: Seq<char>, e: int)
    requires
        0 <= e <= t.len(),
    ensures
        offset_index(t, byte_offset(t, e)) == e,
{
    let off = byte_offset(t, e);
    lemma_offset_index_from(t, off, 0);
    let k = offset_index(t, off);
    if k < e {
        lemma_byte_offset_bounds(t, k, e);
    } else if k > e {
        assert(byte_offset(t, e) < off);
    }
}

/// Offsets that lie within the text map to chars that start at or after them, and larger
/// offsets to later chars.
pub proof fn lemma_offset_index_order(t: Seq<char>, a: int, b: int)
    requires
        a <= b <= encode_utf8(t).len(),
    ensures
        0 <= offset_index(t, a) <= offset_index(t, b) <= t.len(),
        byte_offset(t, offset_index(t, a)) >= a,
        byte_offset(t, offset_index(t, b)) >= b,
{
    lemma_offset_index_from(t, a, 0);
    lemma_offset_index_from(t, b, 0);
    lemma_byte_offset_bounds(t, 0, t.len() as int);
    let ia = offset_index(t, a);
    let ib = offset_index(t, b);
    if ib < ia {
        assert(byte_offset(t, ib) < a);
    }
}

/// The bytes of a run of chars are the difference of the byte offsets at its ends.
pub proof fn lemma_subrange_bytes(t: Seq<char>, i: int, j: int)
    requires
        0 <= i <= j <= t.len(),
    ensures
        encode_utf8(t.subrange(i, j)).len() == byte_offset(t, j) - byte_offset(t, i),
        byte_offset(t.subrange(i, t.len() as int), j - i) == byte_offset(t, j) - byte_offset(t, i),
{
    assert(t.take(j) =~= t.take(i) + t.subrange(i, j));
    lemma_encode_utf8_concat(t.take(i), t.subrange(i, j));
    assert(t.subrange(i, t.len() as int).take(j - i) =~= t.subrange(i, j));
}

/// The index of the char that starts at byte offset `off`, found in the table `offsets` of
/// char byte offsets of `t` (as `char_byte_offsets` gives it).
pub(crate) fn index_of_offset(offsets: &Vec<usize>, Ghost(t): Ghost<Seq<char>>, off: usize) -> (r: usize)
    requires
        offsets@.len() == t.len() + 1,
        forall|k: int| 0 <= k <= t.len() ==> #[trigger] offsets@[k] == byte_offset(t, k),
    ensures
        r == offset_index(t, off as int),
        r <= t.len(),
{
    let mut i: usize = 0;
    proof {
        lemma_offset_index_from(t, off as int, 0);
    }
    while i < offsets.len() - 1 && offsets[i] < off
        invariant
            offsets@.len() == t.len() + 1,
            forall|k: int| 0 <= k <= t.len() ==> #[trigger] offsets@[k] == byte_offset(t, k),
            i <= t.len(),
            offset_index_from(t, off as int, i as int) == offset_index(t, off as int),
        decreases t.len() - i,
    {
        i = i + 1;
    }
    i
}

} // verus!
