//! Character-level helpers shared by the validators and formatters.

use vstd::prelude::*;
use vstd::string::*;

verus! {

broadcast use vstd::string::group_string_axioms;

/// `c` is an ASCII lowercase letter.
pub open spec fn is_lower(c: char) -> bool {
    'a' <= c && c <= 'z'
}

/// `c` is an ASCII uppercase letter.
pub open spec fn is_upper(c: char) -> bool {
    'A' <= c && c <= 'Z'
}

/// `c` is an ASCII decimal digit.
pub open spec fn is_digit(c: char) -> bool {
    '0' <= c && c <= '9'
}

/// `c` is an ASCII letter.
pub open spec fn is_alpha(c: char) -> bool {
    is_lower(c) || is_upper(c)
}

/// `c` is an ASCII letter or digit.
pub open spec fn is_alnum(c: char) -> bool {
    is_alpha(c) || is_digit(c)
}

/// Number of bytes of the UTF-8 encoding of one character.
pub open spec fn char_utf8_width(c: char) -> nat {
    if (c as u32) < 0x80 {
        1
    } else if (c as u32) < 0x800 {
        2
    } else if (c as u32) < 0x10000 {
        3
    } else {
        4
    }
}

/// Number of bytes of the UTF-8 encoding of a character sequence.
pub open spec fn utf8_len(s: Seq<char>) -> nat
    decreases s.len(),
{
    if s.len() == 0 {
        0
    } else {
        utf8_len(s.drop_last()) + char_utf8_width(s.last())
    }
}

pub fn lower(c: char) -> (r: bool)
    ensures
        r == is_lower(c),
{
    'a' <= c && c <= 'z'
}

pub fn upper(c: char) -> (r: bool)
    ensures
        r == is_upper(c),
{
    'A' <= c && c <= 'Z'
}

pub fn digit(c: char) -> (r: bool)
    ensures
        r == is_digit(c),
{
    '0' <= c && c <= '9'
}

pub fn alpha(c: char) -> (r: bool)
    ensures
        r == is_alpha(c),
{
    lower(c) || upper(c)
}

pub fn alnum(c: char) -> (r: bool)
    ensures
        r == is_alnum(c),
{
    alpha(c) || digit(c)
}

/// The characters of `s`, in order.
pub fn chars_of(s: &str) -> (v: Vec<char>)
    ensures
        v@ == s@,
{
    let mut v: Vec<char> = Vec::new();
    let n = s.unicode_len();
    let mut i: usize = 0;
    while i < n
        invariant
            n == s@.len(),
            i <= n,
            v@ == s@.subrange(0, i as int),
        decreases n - i,
    {
        let c = s.get_char(i);
        v.push(c);
        i = i + 1;
        assert(v@ =~= s@.subrange(0, i as int));
    }
    assert(v@ =~= s@);
    v
}


/// Appends one character to a string (`String::push`).
#[verifier::external_body]
pub(crate) fn push_char(s: &mut String, c: char)
    ensures
        final(s)@ == old(s)@.push(c),
{
    s.push(c);
}

/// A string holding exactly the given characters.
pub fn string_of(v: &Vec<char>) -> (r: String)
    ensures
        r@ == v@,
{
    let mut r = String::new();
    let mut i: usize = 0;
    while i < v.len()
        invariant
            i <= v.len(),
            r@ == v@.subrange(0, i as int),
        decreases v.len() - i,
    {
        push_char(&mut r, v[i]);
        i = i + 1;
        assert(r@ =~= v@.subrange(0, i as int));
    }
    assert(r@ =~= v@);
    r
}

/// The texts of a list of strings.
pub open spec fn strings_view(v: Seq<String>) -> Seq<Seq<char>> {
    Seq::new(v.len(), |i: int| v[i]@)
}

/// A copy of an optional string.
pub fn copy_opt(o: &Option<String>) -> (r: Option<String>)
    ensures
        r == *o,
{
    match o {
        Some(s) => Some(s.clone()),
        None => None,
    }
}

/// A string built from a literal.
pub fn lit(s: &str) -> (r: String)
    ensures
        r@ == s@,
{
    String::from_str(s)
}

/// The UTF-8 length of a prefix never exceeds that of the whole sequence.
pub proof fn lemma_utf8_len_prefix(s: Seq<char>, i: int)
    requires
        0 <= i <= s.len(),
    ensures
        utf8_len(s.subrange(0, i)) <= utf8_len(s),
    decreases s.len() - i,
{
    if i < s.len() {
        lemma_utf8_len_prefix(s, i + 1);
        assert(s.subrange(0, i + 1).drop_last() =~= s.subrange(0, i));
    } else {
        assert(s.subrange(0, i) =~= s);
    }
}

/// Whether the UTF-8 encoding of `v` is longer than `bound` bytes.
pub fn utf8_longer_than(v: &Vec<char>, bound: usize) -> (r: bool)
    ensures
        r == (utf8_len(v@) > bound),
{
    let mut total: usize = 0;
    let mut i: usize = 0;
    while i < v.len()
        invariant
            i <= v.len(),
            total == utf8_len(v@.subrange(0, i as int)),
            total <= bound,
        decreases v.len() - i,
    {
        let c = v[i];
        let w: usize = if (c as u32) < 0x80 {
            1
        } else if (c as u32) < 0x800 {
            2
        } else if (c as u32) < 0x10000 {
            3
        } else {
            4
        };
        assert(v@.subrange(0, i + 1).drop_last() =~= v@.subrange(0, i as int));
        if w > bound - total {
            proof {
                lemma_utf8_len_prefix(v@, i + 1);
            }
            return true;
        }
        total = total + w;
        i = i + 1;
    }
    assert(v@.subrange(0, i as int) =~= v@);
    false
}

/// Whether `c` occurs in `v`.
pub fn contains_char(v: &Vec<char>, c: char) -> (r: bool)
    ensures
        r == v@.contains(c),
{
    let mut i: usize = 0;
    while i < v.len()
        invariant
            i <= v.len(),
            forall|j: int| 0 <= j < i ==> v@[j] != c,
        decreases v.len() - i,
    {
        if v[i] == c {
            assert(v@[i as int] == c);
            return true;
        }
        i = i + 1;
    }
    false
}

/// `s` split at every occurrence of `sep`, as `str::split` does: `k`
/// separators give `k + 1` pieces, empty pieces included.
pub open spec fn split_at_char(s: Seq<char>, sep: char) -> Seq<Seq<char>>
    decreases s.len(),
{
    if s.len() == 0 {
        seq![Seq::<char>::empty()]
    } else {
        let prev = split_at_char(s.drop_last(), sep);
        if s.last() == sep {
            prev.push(Seq::<char>::empty())
        } else {
            prev.update(prev.len() - 1, prev.last().push(s.last()))
        }
    }
}

pub proof fn lemma_split_nonempty(s: Seq<char>, sep: char)
    ensures
        split_at_char(s, sep).len() >= 1,
    decreases s.len(),
{
    if s.len() > 0 {
        lemma_split_nonempty(s.drop_last(), sep);
    }
}

/// The pieces of `v` between occurrences of `sep`.
pub fn split_chars(v: &Vec<char>, sep: char) -> (r: Vec<Vec<char>>)
    ensures
        r@.len() == split_at_char(v@, sep).len(),
        forall|i: int| 0 <= i < r@.len() ==> (#[trigger] r@[i])@ == split_at_char(v@, sep)[i],
{
    let mut parts: Vec<Vec<char>> = Vec::new();
    let mut cur: Vec<char> = Vec::new();
    let mut i: usize = 0;
    while i < v.len()
        invariant
            i <= v.len(),
            parts@.len() + 1 == split_at_char(v@.subrange(0, i as int), sep).len(),
            forall|j: int|
                0 <= j < parts@.len() ==> (#[trigger] parts@[j])@ == split_at_char(
                    v@.subrange(0, i as int),
                    sep,
                )[j],
            cur@ == split_at_char(v@.subrange(0, i as int), sep).last(),
        decreases v.len() - i,
    {
        let c = v[i];
        proof {
            let pre = v@.subrange(0, i as int);
            let post = v@.subrange(0, i + 1);
            assert(post.drop_last() =~= pre);
            assert(post.last() == c);
            lemma_split_nonempty(pre, sep);
        }
        if c == sep {
            let done = cur;
            parts.push(done);
            cur = Vec::new();
        } else {
            cur.push(c);
        }
        i = i + 1;
        proof {
            let post = v@.subrange(0, i as int);
            let prev = split_at_char(post.drop_last(), sep);
            assert(split_at_char(post, sep) == (if post.last() == sep {
                prev.push(Seq::<char>::empty())
            } else {
                prev.update(prev.len() - 1, prev.last().push(post.last()))
            }));
        }
    }
    assert(v@.subrange(0, i as int) =~= v@);
    parts.push(cur);
    parts
}

// ---------------------------------------------------------------------------
// Decimal numbers
// ---------------------------------------------------------------------------

/// The ASCII digit for `d < 10`.
pub open spec fn digit_char(d: nat) -> char {
    seq!['0', '1', '2', '3', '4', '5', '6', '7', '8', '9'][d as int]
}

/// The decimal representation of a natural number, without leading zeros.
pub open spec fn decimal(n: nat) -> Seq<char>
    decreases n,
{
    if n < 10 {
        seq![digit_char(n)]
    } else {
        decimal(n / 10).push(digit_char(n % 10))
    }
}

/// Each digit character is the digit's ASCII code.
proof fn lemma_digit_char(d: nat)
    requires
        d < 10,
    ensures
        digit_char(d) as u32 == 48 + d,
{
    let s = seq!['0', '1', '2', '3', '4', '5', '6', '7', '8', '9'];
    if d == 0 {
        assert(s[0] == '0');
    } else if d == 1 {
        assert(s[1] == '1');
    } else if d == 2 {
        assert(s[2] == '2');
    } else if d == 3 {
        assert(s[3] == '3');
    } else if d == 4 {
        assert(s[4] == '4');
    } else if d == 5 {
        assert(s[5] == '5');
    } else if d == 6 {
        assert(s[6] == '6');
    } else if d == 7 {
        assert(s[7] == '7');
    } else if d == 8 {
        assert(s[8] == '8');
    } else {
        assert(s[9] == '9');
    }
}

/// A decimal representation has one digit below ten and more from ten on.
proof fn lemma_decimal_len(n: nat)
    ensures
        decimal(n).len() >= 1,
        n >= 10 ==> decimal(n).len() >= 2,
    decreases n,
{
    if n >= 10 {
        lemma_decimal_len(n / 10);
    }
}

/// Different numbers have different decimal representations.
pub proof fn lemma_decimal_injective(a: nat, b: nat)
    ensures
        decimal(a) == decimal(b) ==> a == b,
    decreases a + b,
{
    if decimal(a) == decimal(b) {
        lemma_decimal_len(a);
        lemma_decimal_len(b);
        if a < 10 && b < 10 {
            assert(decimal(a)[0] == digit_char(a));
            assert(decimal(b)[0] == digit_char(b));
            lemma_digit_char(a);
            lemma_digit_char(b);
        } else if a >= 10 && b >= 10 {
            let da = decimal(a);
            assert(da.last() == digit_char(a % 10));
            assert(decimal(b).last() == digit_char(b % 10));
            lemma_digit_char(a % 10);
            lemma_digit_char(b % 10);
            assert(da.drop_last() =~= decimal(a / 10));
            assert(decimal(b).drop_last() =~= decimal(b / 10));
            lemma_decimal_injective(a / 10, b / 10);
        } else if a < 10 {
            assert(decimal(a).len() == 1);
        } else {
            assert(decimal(b).len() == 1);
        }
    }
}

/// The decimal representation of an integer, with a leading `-` when negative.
pub open spec fn signed_decimal(i: int) -> Seq<char> {
    if i < 0 {
        seq!['-'] + decimal((-i) as nat)
    } else {
        decimal(i as nat)
    }
}

fn digit_of(d: u64) -> (c: char)
    requires
        d < 10,
    ensures
        c == digit_char(d as nat),
{
    let digits = vec!['0', '1', '2', '3', '4', '5', '6', '7', '8', '9'];
    assert(digits@ =~= seq!['0', '1', '2', '3', '4', '5', '6', '7', '8', '9']);
    digits[d as usize]
}

/// The decimal representation of `n`.
pub fn decimal_string(n: u64) -> (r: String)
    ensures
        r@ == decimal(n as nat),
    decreases n,
{
    if n < 10 {
        let mut r = String::new();
        push_char(&mut r, digit_of(n));
        assert(r@ =~= seq![digit_char(n as nat)]);
        r
    } else {
        let mut r = decimal_string(n / 10);
        push_char(&mut r, digit_of(n % 10));
        r
    }
}

/// The decimal representation of a 128-bit `n`.
pub fn decimal_string_u128(n: u128) -> (r: String)
    ensures
        r@ == decimal(n as nat),
    decreases n,
{
    if n < 10 {
        let mut r = String::new();
        push_char(&mut r, digit_of(n as u64));
        assert(r@ =~= seq![digit_char(n as nat)]);
        r
    } else {
        let mut r = decimal_string_u128(n / 10);
        push_char(&mut r, digit_of((n % 10) as u64));
        r
    }
}

/// The decimal representation of `n`, signed.
pub fn signed_decimal_string(n: i64) -> (r: String)
    ensures
        r@ == signed_decimal(n as int),
{
    if n < 0 {
        let m: u64 = if n == i64::MIN {
            9223372036854775808u64
        } else {
            (-n) as u64
        };
        let d = decimal_string(m);
        let mut r = lit("-");
        r.append(d.as_str());
        proof {
            reveal_strlit("-");
        }
        assert(r@ =~= seq!['-'] + decimal((-(n as int)) as nat));
        r
    } else {
        decimal_string(n as u64)
    }
}

// ---------------------------------------------------------------------------
// Whitespace
// ---------------------------------------------------------------------------

/// A character with the Unicode `White_Space` property (what
/// `char::is_whitespace` tests).
pub open spec fn is_space(c: char) -> bool {
    let u = c as u32;
    (9 <= u && u <= 13) || u == 32 || u == 0x85 || u == 0xA0 || u == 0x1680 || (0x2000 <= u && u
        <= 0x200A) || u == 0x2028 || u == 0x2029 || u == 0x202F || u == 0x205F || u == 0x3000
}

pub fn space(c: char) -> (r: bool)
    ensures
        r == is_space(c),
{
    let u = c as u32;
    (9 <= u && u <= 13) || u == 32 || u == 0x85 || u == 0xA0 || u == 0x1680 || (0x2000 <= u && u
        <= 0x200A) || u == 0x2028 || u == 0x2029 || u == 0x202F || u == 0x205F || u == 0x3000
}

/// `s` without leading whitespace.
pub open spec fn trim_start(s: Seq<char>) -> Seq<char>
    decreases s.len(),
{
    if s.len() > 0 && is_space(s[0]) {
        trim_start(s.drop_first())
    } else {
        s
    }
}

/// `s` without trailing whitespace.
pub open spec fn trim_end(s: Seq<char>) -> Seq<char>
    decreases s.len(),
{
    if s.len() > 0 && is_space(s.last()) {
        trim_end(s.drop_last())
    } else {
        s
    }
}

/// `s` without leading and trailing whitespace (`str::trim`).
pub open spec fn trim(s: Seq<char>) -> Seq<char> {
    trim_end(trim_start(s))
}

proof fn lemma_trim_start(s: Seq<char>, a: int)
    requires
        0 <= a <= s.len(),
        forall|i: int| 0 <= i < a ==> is_space(#[trigger] s[i]),
        a == s.len() || !is_space(s[a]),
    ensures
        trim_start(s) == s.subrange(a, s.len() as int),
    decreases a,
{
    if a == 0 {
        assert(s.subrange(0, s.len() as int) =~= s);
    } else {
        let t = s.drop_first();
        assert forall|i: int| 0 <= i < a - 1 implies is_space(#[trigger] t[i]) by {
            assert(t[i] == s[i + 1]);
        }
        if a - 1 < t.len() {
            assert(t[a - 1] == s[a]);
        }
        lemma_trim_start(t, a - 1);
        assert(t.subrange(a - 1, t.len() as int) =~= s.subrange(a, s.len() as int));
    }
}

proof fn lemma_trim_end(s: Seq<char>, b: int)
    requires
        0 <= b <= s.len(),
        forall|i: int| b <= i < s.len() ==> is_space(#[trigger] s[i]),
        b == 0 || !is_space(s[b - 1]),
    ensures
        trim_end(s) == s.subrange(0, b),
    decreases s.len() - b,
{
    if b == s.len() {
        assert(s.subrange(0, b) =~= s);
    } else {
        let t = s.drop_last();
        assert forall|i: int| b <= i < t.len() implies is_space(#[trigger] t[i]) by {
            assert(t[i] == s[i]);
        }
        lemma_trim_end(t, b);
        assert(t.subrange(0, b) =~= s.subrange(0, b));
    }
}

/// `v` with leading and trailing whitespace removed.
pub fn trim_chars(v: &Vec<char>) -> (r: Vec<char>)
    ensures
        r@ == trim(v@),
{
    let n = v.len();
    let mut a: usize = 0;
    while a < n && space(v[a])
        invariant
            a <= n,
            n == v@.len(),
            forall|i: int| 0 <= i < a ==> is_space(#[trigger] v@[i]),
        decreases n - a,
    {
        a = a + 1;
    }
    proof {
        lemma_trim_start(v@, a as int);
    }
    let ghost t = v@.subrange(a as int, n as int);
    let mut b: usize = n;
    while b > a && space(v[b - 1])
        invariant
            a <= b <= n,
            n == v@.len(),
            forall|i: int| b <= i < n ==> is_space(#[trigger] v@[i]),
        decreases b,
    {
        b = b - 1;
    }
    proof {
        assert forall|i: int| (b - a) <= i < t.len() implies is_space(#[trigger] t[i]) by {
            assert(t[i] == v@[i + a]);
        }
        if b > a {
            assert(t[b - a - 1] == v@[b - 1]);
        }
        lemma_trim_end(t, b - a);
        assert(t.subrange(0, b - a) =~= v@.subrange(a as int, b as int));
    }
    let mut r: Vec<char> = Vec::new();
    let mut i: usize = a;
    while i < b
        invariant
            a <= i <= b,
            b <= v@.len(),
            r@ == v@.subrange(a as int, i as int),
        decreases b - i,
    {
        r.push(v[i]);
        i = i + 1;
        assert(r@ =~= v@.subrange(a as int, i as int));
    }
    r
}

// ---------------------------------------------------------------------------
// Lines
// ---------------------------------------------------------------------------

/// `s` without one trailing `c`, if it ends with `c`.
pub open spec fn strip_last(s: Seq<char>, c: char) -> Seq<char> {
    if s.len() > 0 && s.last() == c {
        s.drop_last()
    } else {
        s
    }
}

/// Lines of `s` as `str::lines` yields them: split at `\n`, a `\r` before a
/// `\n` dropped, and no final empty line after a trailing newline.
pub open spec fn lines_of(s: Seq<char>) -> Seq<Seq<char>> {
    let parts = split_at_char(s, '\n');
    let body = Seq::new((parts.len() - 1) as nat, |i: int| strip_last(parts[i], '\r'));
    if parts.last().len() == 0 {
        body
    } else {
        body.push(parts.last())
    }
}

/// The lines of `v` (see `lines_of`).
pub fn lines_chars(v: &Vec<char>) -> (r: Vec<Vec<char>>)
    ensures
        r@.len() == lines_of(v@).len(),
        forall|i: int| 0 <= i < r@.len() ==> (#[trigger] r@[i])@ == lines_of(v@)[i],
{
    let parts = split_chars(v, '\n');
    let ghost sp = split_at_char(v@, '\n');
    proof {
        lemma_split_nonempty(v@, '\n');
    }
    let mut r: Vec<Vec<char>> = Vec::new();
    let mut i: usize = 0;
    let last = parts.len() - 1;
    while i < last
        invariant
            i <= last,
            last + 1 == parts@.len(),
            parts@.len() == sp.len(),
            forall|k: int| 0 <= k < parts@.len() ==> (#[trigger] parts@[k])@ == sp[k],
            r@.len() == i,
            forall|k: int| 0 <= k < i ==> (#[trigger] r@[k])@ == strip_last(sp[k], '\r'),
        decreases last - i,
    {
        let p = &parts[i];
        let mut line: Vec<char> = p.clone();
        if line.len() > 0 && line[line.len() - 1] == '\r' {
            line.pop();
            assert(line@ =~= p@.drop_last());
        }
        r.push(line);
        i = i + 1;
    }
    if parts[last].len() > 0 {
        r.push(parts[last].clone());
    }
    r
}

// ---------------------------------------------------------------------------
// Prefixes and paths
// ---------------------------------------------------------------------------

/// `p` is a prefix of `s`.
pub open spec fn starts_with(s: Seq<char>, p: Seq<char>) -> bool {
    p.len() <= s.len() && s.subrange(0, p.len() as int) == p
}

/// `p` is a suffix of `s`.
pub open spec fn ends_with(s: Seq<char>, p: Seq<char>) -> bool {
    p.len() <= s.len() && s.subrange(s.len() - p.len(), s.len() as int) == p
}

/// `s` without the prefix `p`, when it has it (`str::strip_prefix`).
pub open spec fn strip_prefix(s: Seq<char>, p: Seq<char>) -> Option<Seq<char>> {
    if starts_with(s, p) {
        Some(s.subrange(p.len() as int, s.len() as int))
    } else {
        None
    }
}

/// `s` without the suffix `p`, when it has it (`str::strip_suffix`).
pub open spec fn strip_suffix(s: Seq<char>, p: Seq<char>) -> Option<Seq<char>> {
    if ends_with(s, p) {
        Some(s.subrange(0, s.len() - p.len()))
    } else {
        None
    }
}

/// Whether `v` begins with `p`.
pub fn has_prefix(v: &Vec<char>, p: &Vec<char>) -> (r: bool)
    ensures
        r == starts_with(v@, p@),
{
    if p.len() > v.len() {
        return false;
    }
    let mut i: usize = 0;
    while i < p.len()
        invariant
            p@.len() <= v@.len(),
            i <= p@.len(),
            forall|j: int| 0 <= j < i ==> v@[j] == p@[j],
        decreases p.len() - i,
    {
        if v[i] != p[i] {
            assert(v@.subrange(0, p@.len() as int)[i as int] != p@[i as int]);
            return false;
        }
        i = i + 1;
    }
    assert(v@.subrange(0, p@.len() as int) =~= p@);
    true
}

/// Whether `v` ends with `p`.
pub fn has_suffix(v: &Vec<char>, p: &Vec<char>) -> (r: bool)
    ensures
        r == ends_with(v@, p@),
{
    if p.len() > v.len() {
        return false;
    }
    let off = v.len() - p.len();
    let mut i: usize = 0;
    while i < p.len()
        invariant
            p@.len() <= v@.len(),
            off == v@.len() - p@.len(),
            off + p@.len() == v@.len(),
            off + p.len() == v.len(),
            i <= p@.len(),
            forall|j: int| 0 <= j < i ==> v@[off + j] == p@[j],
        decreases p.len() - i,
    {
        if v[off + i] != p[i] {
            assert(v@.subrange(off as int, v@.len() as int)[i as int] != p@[i as int]);
            return false;
        }
        i = i + 1;
    }
    assert(v@.subrange(off as int, v@.len() as int) =~= p@);
    true
}

/// The elements of `v` from `lo` to `hi`.
pub fn slice_chars(v: &Vec<char>, lo: usize, hi: usize) -> (r: Vec<char>)
    requires
        lo <= hi <= v@.len(),
    ensures
        r@ == v@.subrange(lo as int, hi as int),
{
    let mut r: Vec<char> = Vec::new();
    let mut i: usize = lo;
    while i < hi
        invariant
            lo <= i <= hi,
            hi <= v@.len(),
            r@ == v@.subrange(lo as int, i as int),
        decreases hi - i,
    {
        r.push(v[i]);
        i = i + 1;
        assert(r@ =~= v@.subrange(lo as int, i as int));
    }
    r
}

/// `base` joined with `p` as `Path::join` does on Unix: an absolute `p`
/// replaces `base`; otherwise a `/` separates them unless `base` is empty
/// or already ends with one.
pub open spec fn path_join(base: Seq<char>, p: Seq<char>) -> Seq<char> {
    if p.len() > 0 && p[0] == '/' {
        p
    } else if base.len() == 0 || base.last() == '/' {
        base + p
    } else {
        base + seq!['/'] + p
    }
}

/// Joins two paths (see `path_join`).
pub fn join_path(base: &str, p: &str) -> (r: String)
    ensures
        r@ == path_join(base@, p@),
{
    let pv = chars_of(p);
    let bv = chars_of(base);
    if pv.len() > 0 && pv[0] == '/' {
        return lit(p);
    }
    let mut r = lit(base);
    if !(bv.len() == 0 || bv[bv.len() - 1] == '/') {
        push_char(&mut r, '/');
    }
    r.append(p);
    r
}

/// The last normal component among `parts`, skipping empty and `.` pieces.
pub open spec fn last_component(parts: Seq<Seq<char>>) -> Option<Seq<char>>
    decreases parts.len(),
{
    if parts.len() == 0 {
        None
    } else if parts.last().len() == 0 || parts.last() == seq!['.'] {
        last_component(parts.drop_last())
    } else {
        Some(parts.last())
    }
}

/// The final component of a Unix path, as `Path::file_name` gives it: `None`
/// when the path has no components or ends in `..`.
pub open spec fn file_name(s: Seq<char>) -> Option<Seq<char>> {
    match last_component(split_at_char(s, '/')) {
        Some(c) => if c == seq!['.', '.'] {
            None
        } else {
            Some(c)
        },
        None => None,
    }
}

/// The final component of a path (see `file_name`).
pub fn path_file_name(path: &str) -> (r: Option<Vec<char>>)
    ensures
        match file_name(path@) {
            Some(c) => r matches Some(v) && v@ == c,
            None => r is None,
        },
{
    let v = chars_of(path);
    let parts = split_chars(&v, '/');
    let ghost sp = split_at_char(path@, '/');
    let mut i: usize = parts.len();
    assert(sp.subrange(0, sp.len() as int) =~= sp);
    while i > 0
        invariant
            i <= parts@.len(),
            parts@.len() == sp.len(),
            forall|k: int| 0 <= k < parts@.len() ==> (#[trigger] parts@[k])@ == sp[k],
            sp == split_at_char(path@, '/'),
            last_component(sp) == last_component(sp.subrange(0, i as int)),
        decreases i,
    {
        let part = &parts[i - 1];
        let ghost pre = sp.subrange(0, i as int);
        assert(pre.last() == part@);
        assert(pre.drop_last() =~= sp.subrange(0, i - 1));
        let is_dot = part.len() == 1 && part[0] == '.';
        if is_dot {
            assert(part@ =~= seq!['.']);
        } else if part.len() == 1 {
            assert(part@ != seq!['.']);
        }
        if part.len() == 0 || is_dot {
            i = i - 1;
        } else {
            let is_dotdot = part.len() == 2 && part[0] == '.' && part[1] == '.';
            if is_dotdot {
                assert(part@ =~= seq!['.', '.']);
                assert(last_component(pre) == Some(part@));
                assert(last_component(sp) == Some(part@));
                assert(file_name(path@) is None);
                return None;
            }
            if part.len() == 2 {
                assert(part@ != seq!['.', '.']);
            }
            let out = slice_chars(part, 0, part.len());
            assert(out@ =~= part@);
            assert(last_component(pre) == Some(part@));
            assert(last_component(sp) == Some(part@));
            assert(part@ != seq!['.', '.']);
            assert(file_name(path@) == Some(part@));
            return Some(out);
        }
    }
    None
}

// ---------------------------------------------------------------------------
// Case mapping (Unicode, from the standard library)
// ---------------------------------------------------------------------------

/// The ASCII lowercase of one character: `A`..`Z` become `a`..`z`.
pub open spec fn ascii_lower(c: char) -> char {
    if is_upper(c) {
        ((c as u32) + 32) as char
    } else {
        c
    }
}

/// The ASCII lowercase of `c` (`char::to_ascii_lowercase`).
pub fn ascii_lower_char(c: char) -> (r: char)
    ensures
        r == ascii_lower(c),
{
    if upper(c) {
        let b = c as u8;
        (b + 32) as char
    } else {
        c
    }
}

/// What `str::to_lowercase` returns for `s`.
pub uninterp spec fn lowercase_of(s: Seq<char>) -> Seq<char>;

/// The Unicode lowercase of `s` (`str::to_lowercase`). The contract names the
/// result and states the one fact the Unicode tables give plainly: an
/// all-ASCII string is lowercased letter by letter, `A`..`Z` to `a`..`z`.
#[verifier::external_body]
pub(crate) fn to_lowercase(s: &str) -> (r: String)
    ensures
        r@ == lowercase_of(s@),
        (forall|i: int| 0 <= i < s@.len() ==> (#[trigger] s@[i] as u32) < 0x80) ==> r@ == Seq::new(
            s@.len(),
            |i: int| ascii_lower(s@[i]),
        ),
{
    s.to_lowercase()
}

/// What `char::to_uppercase`, collected into a string, gives for `c`.
pub uninterp spec fn uppercase_of(c: char) -> Seq<char>;

/// The Unicode uppercase of one character (`char::to_uppercase`), as a
/// string: one or more characters. The contract names the result and states
/// that an ASCII lowercase letter maps to its capital.
#[verifier::external_body]
pub(crate) fn char_to_uppercase(c: char) -> (r: String)
    ensures
        r@ == uppercase_of(c),
        is_lower(c) ==> r@ == seq![((c as u32) - 32) as char],
{
    c.to_uppercase().collect()
}

// ---------------------------------------------------------------------------
// Substrings
// ---------------------------------------------------------------------------

/// `p` occurs in `s` at position `i`.
pub open spec fn occurs_at(s: Seq<char>, p: Seq<char>, i: int) -> bool {
    0 <= i && i + p.len() <= s.len() && s.subrange(i, i + p.len()) == p
}

/// `p` occurs somewhere in `s` (`str::contains` with a string pattern).
pub open spec fn contains_seq(s: Seq<char>, p: Seq<char>) -> bool {
    exists|i: int| occurs_at(s, p, i)
}

/// Whether `p` occurs in `v` at `i`.
fn matches_at(v: &Vec<char>, p: &Vec<char>, i: usize) -> (r: bool)
    requires
        i + p@.len() <= v@.len(),
    ensures
        r == occurs_at(v@, p@, i as int),
{
    let mut k: usize = 0;
    while k < p.len()
        invariant
            i + p@.len() <= v@.len(),
            i + p.len() <= v.len(),
            k <= p@.len(),
            forall|j: int| 0 <= j < k ==> v@[i + j] == p@[j],
        decreases p.len() - k,
    {
        if v[i + k] != p[k] {
            assert(v@.subrange(i as int, i + p@.len())[k as int] != p@[k as int]);
            return false;
        }
        k = k + 1;
    }
    assert(v@.subrange(i as int, i + p@.len()) =~= p@);
    true
}

/// Whether `p` occurs in `v`.
pub fn contains_chars(v: &Vec<char>, p: &Vec<char>) -> (r: bool)
    ensures
        r == contains_seq(v@, p@),
{
    if p.len() > v.len() {
        assert forall|i: int| !occurs_at(v@, p@, i) by {}
        return false;
    }
    let last = v.len() - p.len();
    let mut i: usize = 0;
    while i < last
        invariant
            last + p@.len() == v@.len(),
            last + p.len() == v.len(),
            i <= last,
            forall|j: int| 0 <= j < i ==> !occurs_at(v@, p@, j),
        decreases last - i,
    {
        if matches_at(v, p, i) {
            return true;
        }
        i = i + 1;
    }
    if matches_at(v, p, last) {
        return true;
    }
    assert forall|j: int| !occurs_at(v@, p@, j) by {
        if 0 <= j && j + p@.len() <= v@.len() {
            assert(j <= last);
        }
    }
    false
}

/// The first position at or after `from` where `p` occurs in `s`.
pub open spec fn first_at(s: Seq<char>, p: Seq<char>, from: int) -> Option<int>
    decreases s.len() + 1 - from,
{
    if from < 0 || from + p.len() > s.len() {
        None
    } else if occurs_at(s, p, from) {
        Some(from)
    } else {
        first_at(s, p, from + 1)
    }
}

/// The second piece of `s` split at `p` (`s.split(p).nth(1)` for a
/// non-empty `p`): the text after the first occurrence of `p`, up to the
/// next one.
pub open spec fn second_piece(s: Seq<char>, p: Seq<char>) -> Option<Seq<char>> {
    match first_at(s, p, 0) {
        None => None,
        Some(i) => {
            let rest = s.subrange(i + p.len(), s.len() as int);
            match first_at(rest, p, 0) {
                Some(j) => Some(rest.take(j)),
                None => Some(rest),
            }
        },
    }
}

/// A first occurrence found at or after `from` is an occurrence there.
pub proof fn lemma_first_at(s: Seq<char>, p: Seq<char>, from: int)
    ensures
        first_at(s, p, from) matches Some(i) ==> from <= i && occurs_at(s, p, i),
    decreases s.len() + 1 - from,
{
    if !(from < 0 || from + p.len() > s.len()) && !occurs_at(s, p, from) {
        lemma_first_at(s, p, from + 1);
    }
}

/// The first position at or after `from` where `p` occurs in `v`.
pub fn find_from(v: &Vec<char>, p: &Vec<char>, from: usize) -> (r: Option<usize>)
    ensures
        match first_at(v@, p@, from as int) {
            Some(i) => r matches Some(k) && k == i,
            None => r is None,
        },
        r matches Some(i) ==> from <= i && i + p@.len() <= v@.len() && occurs_at(v@, p@, i as int),
{
    proof {
        lemma_first_at(v@, p@, from as int);
    }
    let mut i: usize = from;
    while p.len() <= v.len() && i <= v.len() - p.len()
        invariant
            from <= i,
            first_at(v@, p@, from as int) == first_at(v@, p@, i as int),
        decreases v.len() - i,
    {
        if matches_at(v, p, i) {
            return Some(i);
        }
        if i == v.len() - p.len() {
            assert(first_at(v@, p@, i + 1) is None);
            return None;
        }
        i = i + 1;
    }
    None
}

/// The second piece of `v` split at `p` (see `second_piece`).
pub fn second_piece_chars(v: &Vec<char>, p: &Vec<char>) -> (r: Option<Vec<char>>)
    ensures
        match second_piece(v@, p@) {
            Some(x) => r matches Some(y) && y@ == x,
            None => r is None,
        },
{
    let found = find_from(v, p, 0);
    match found {
        None => None,
        Some(i) => {
            let n = v.len();
            let m = p.len();
            let rest = slice_chars(v, i + m, n);
            let next = find_from(&rest, p, 0);
            match next {
                Some(j) => {
                    assert(occurs_at(rest@, p@, j as int));
                    let head = slice_chars(&rest, 0, j);
                    assert(head@ =~= rest@.take(j as int));
                    Some(head)
                },
                None => Some(rest),
            }
        },
    }
}

/// Whether the string `s` contains the string `p`.
pub fn str_contains(s: &str, p: &str) -> (r: bool)
    ensures
        r == contains_seq(s@, p@),
{
    let v = chars_of(s);
    let q = chars_of(p);
    contains_chars(&v, &q)
}


// ---------------------------------------------------------------------------
// Lexicographic order
// ---------------------------------------------------------------------------

/// `a` sorts strictly before `b`, comparing characters (equivalently, the
/// UTF-8 bytes, as `str`'s `Ord` does) from the front, a proper prefix
/// first.
pub open spec fn lex_lt(a: Seq<char>, b: Seq<char>) -> bool
    decreases a.len(),
{
    if a.len() == 0 {
        b.len() > 0
    } else if b.len() == 0 {
        false
    } else if a[0] != b[0] {
        a[0] < b[0]
    } else {
        lex_lt(a.drop_first(), b.drop_first())
    }
}

/// `lex_lt` is a strict total order.
pub proof fn lemma_lex_order(a: Seq<char>, b: Seq<char>, c: Seq<char>)
    ensures
        !(lex_lt(a, b) && lex_lt(b, a)),
        lex_lt(a, b) && lex_lt(b, c) ==> lex_lt(a, c),
        a != b ==> lex_lt(a, b) || lex_lt(b, a),
        !lex_lt(a, a),
    decreases a.len(),
{
    if a.len() > 0 && b.len() > 0 && c.len() > 0 {
        lemma_lex_order(a.drop_first(), b.drop_first(), c.drop_first());
        if a[0] == b[0] && a.drop_first() == b.drop_first() {
            assert(a =~= seq![a[0]] + a.drop_first());
            assert(b =~= seq![b[0]] + b.drop_first());
        }
    } else if a.len() > 0 && b.len() > 0 {
        lemma_lex_order(a.drop_first(), b.drop_first(), b.drop_first());
        if a[0] == b[0] && a.drop_first() == b.drop_first() {
            assert(a =~= seq![a[0]] + a.drop_first());
            assert(b =~= seq![b[0]] + b.drop_first());
        }
    } else if a.len() > 0 {
        lemma_lex_order(a.drop_first(), a.drop_first(), a.drop_first());
    }
    if a.len() == 0 && b.len() == 0 {
        assert(a =~= b);
    }
}

/// Whether `a` sorts strictly before `b` (see `lex_lt`).
pub fn chars_lt(a: &Vec<char>, b: &Vec<char>) -> (r: bool)
    ensures
        r == lex_lt(a@, b@),
{
    let mut i: usize = 0;
    assert(a@.subrange(0, a@.len() as int) =~= a@);
    assert(b@.subrange(0, b@.len() as int) =~= b@);
    while i < a.len() && i < b.len() && a[i] == b[i]
        invariant
            i <= a@.len(),
            i <= b@.len(),
            a@.subrange(0, i as int) == b@.subrange(0, i as int),
            lex_lt(a@, b@) == lex_lt(a@.subrange(i as int, a@.len() as int), b@.subrange(i as int, b@.len() as int)),
        decreases a.len() - i,
    {
        proof {
            let sa = a@.subrange(i as int, a@.len() as int);
            let sb = b@.subrange(i as int, b@.len() as int);
            assert(sa.drop_first() =~= a@.subrange(i + 1, a@.len() as int));
            assert(sb.drop_first() =~= b@.subrange(i + 1, b@.len() as int));
            assert(a@.subrange(0, i + 1) =~= a@.subrange(0, i as int).push(a@[i as int]));
            assert(b@.subrange(0, i + 1) =~= b@.subrange(0, i as int).push(b@[i as int]));
        }
        i = i + 1;
    }
    proof {
        let sa = a@.subrange(i as int, a@.len() as int);
        let sb = b@.subrange(i as int, b@.len() as int);
        if i < a.len() && i < b.len() {
            assert(sa[0] == a@[i as int] && sb[0] == b@[i as int]);
        }
    }
    if i == a.len() {
        i < b.len()
    } else if i == b.len() {
        false
    } else {
        a[i] < b[i]
    }
}

/// Texts in `s` never decrease.
pub open spec fn strings_sorted(s: Seq<Seq<char>>) -> bool {
    forall|i: int, j: int| 0 <= i < j < s.len() ==> !lex_lt(#[trigger] s[j], #[trigger] s[i])
}

/// `names` in ascending order (a stable sort).
pub fn sort_strings(names: Vec<String>) -> (r: Vec<String>)
    ensures
        r@.to_multiset() == names@.to_multiset(),
        r@.len() == names@.len(),
        strings_sorted(strings_view(r@)),
{
    broadcast use vstd::seq_lib::group_to_multiset_ensures;

    let mut r: Vec<String> = Vec::new();
    let mut i: usize = 0;
    while i < names.len()
        invariant
            i <= names@.len(),
            r@.to_multiset() == names@.subrange(0, i as int).to_multiset(),
            strings_sorted(strings_view(r@)),
        decreases names.len() - i,
    {
        let x = names[i].clone();
        let xv = chars_of(x.as_str());
        let mut p: usize = 0;
        while p < r.len() && !chars_lt(&xv, &chars_of(r[p].as_str()))
            invariant
                p <= r@.len(),
                xv@ == x@,
                forall|q: int| 0 <= q < p ==> !lex_lt(x@, #[trigger] r@[q]@),
            decreases r.len() - p,
        {
            p = p + 1;
        }
        let ghost old_r = r@;
        proof {
            assert forall|q: int| p <= q < old_r.len() implies !lex_lt(#[trigger] old_r[q]@, x@) by {
                assert(lex_lt(x@, old_r[p as int]@));
                lemma_lex_order(x@, old_r[p as int]@, old_r[q]@);
                lemma_lex_order(old_r[p as int]@, old_r[q]@, x@);
                lemma_lex_order(old_r[q]@, x@, old_r[p as int]@);
                if q > p {
                    assert(!lex_lt(strings_view(old_r)[q], strings_view(old_r)[p as int]));
                }
            }
        }
        r.insert(p, x);
        proof {
            assert(r@ == old_r.insert(p as int, x));
            vstd::seq_lib::to_multiset_insert(old_r, p as int, x);
            let pre = names@.subrange(0, i as int);
            assert(names@.subrange(0, i + 1) =~= pre.push(names@[i as int]));
            vstd::seq_lib::to_multiset_build(pre, x);
            let rv = strings_view(r@);
            assert forall|a: int, b: int| 0 <= a < b < rv.len() implies !lex_lt(#[trigger] rv[b], #[trigger] rv[a]) by {
                let ov = strings_view(old_r);
                if b < p {
                    assert(rv[a] == ov[a] && rv[b] == ov[b]);
                } else if a > p {
                    assert(rv[a] == ov[a - 1] && rv[b] == ov[b - 1]);
                } else if a < p && b == p {
                    assert(rv[a] == ov[a] && rv[b] == x@);
                } else if a < p && b > p {
                    assert(rv[a] == ov[a] && rv[b] == ov[b - 1]);
                } else {
                    assert(rv[a] == x@ && rv[b] == ov[b - 1]);
                }
            }
        }
        i = i + 1;
    }
    assert(names@.subrange(0, i as int) =~= names@);
    assert(r@.to_multiset().len() == r@.len());
    assert(names@.to_multiset().len() == names@.len());
    r
}

/// The text of `s` after the prefix `p`, when it starts with it.
pub fn strip_prefix_str(s: &str, p: &str) -> (r: Option<String>)
    ensures
        match strip_prefix(s@, p@) {
            Some(x) => r matches Some(y) && y@ == x,
            None => r is None,
        },
{
    let v = chars_of(s);
    let pv = chars_of(p);
    if has_prefix(&v, &pv) {
        let rest = slice_chars(&v, pv.len(), v.len());
        Some(string_of(&rest))
    } else {
        None
    }
}

/// The text of `s` before the suffix `p`, when it ends with it.
pub fn strip_suffix_str(s: &str, p: &str) -> (r: Option<String>)
    ensures
        match strip_suffix(s@, p@) {
            Some(x) => r matches Some(y) && y@ == x,
            None => r is None,
        },
{
    let v = chars_of(s);
    let pv = chars_of(p);
    if has_suffix(&v, &pv) {
        let rest = slice_chars(&v, 0, v.len() - pv.len());
        Some(string_of(&rest))
    } else {
        None
    }
}

} // verus!
