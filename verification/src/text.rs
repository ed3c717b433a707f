//! Character-level text helpers shared by the whole library: decimal
//! numbers, line splitting, joining, and substring tests, each with a
//! specification over `Seq<char>`.
use vstd::prelude::*;
use vstd::utf8::{char_is_scalar, encode_scalar, encode_utf8};

verus! {

// ---------------------------------------------------------------------------
// Conversions between strings and character vectors.
// ---------------------------------------------------------------------------

/// The characters of `s` in order.
pub fn chars_of(s: &str) -> (r: Vec<char>)
    ensures
        r@ == s@,
{
    broadcast use vstd::string::axiom_spec_iter;
    let mut out: Vec<char> = Vec::new();
    for c in it: s.chars()
        invariant
            it.seq() == s@,
            out@ == it.seq().take(it.index()),
    {
        let ghost before = out@;
        out.push(c);
        assert(out@ == before.push(c));
    }
    assert(out@ == s@);
    out
}

/// Appends one character to a string.
///
/// Trusted: calls `String::push`; the claim is that the string gains
/// exactly that character at its end.
#[verifier::external_body]
pub(crate) fn push_char(s: &mut String, c: char)
    ensures
        final(s)@ == old(s)@.push(c),
{
    s.push(c);
}

/// A new string holding `cs[from..to]`.
pub fn string_of_range(cs: &Vec<char>, from: usize, to: usize) -> (r: String)
    requires
        from <= to <= cs@.len(),
    ensures
        r@ == cs@.subrange(from as int, to as int),
{
    let mut r = String::new();
    let mut i = from;
    while i < to
        invariant
            from <= i <= to <= cs@.len(),
            r@ == cs@.subrange(from as int, i as int),
        decreases to - i,
    {
        push_char(&mut r, cs[i]);
        assert(cs@.subrange(from as int, i + 1) == cs@.subrange(from as int, i as int).push(cs@[i as int]));
        i = i + 1;
    }
    r
}

/// A new string with the same characters as `s`.
pub fn copy_str(s: &str) -> (r: String)
    ensures
        r@ == s@,
{
    let mut r = String::new();
    r.append(s);
    r
}

/// The views of a sequence of strings.
pub open spec fn views(v: Seq<String>) -> Seq<Seq<char>> {
    v.map_values(|l: String| l@)
}

// ---------------------------------------------------------------------------
// Decimal numbers.
// ---------------------------------------------------------------------------

/// The character of a decimal digit.
pub open spec fn digit_char(d: nat) -> char {
    (48 + d) as char
}

/// The decimal text of a natural number, without sign or leading zeros.
pub open spec fn decimal(n: nat) -> Seq<char>
    decreases n,
{
    if n < 10 {
        seq![digit_char(n)]
    } else {
        decimal(n / 10).push(digit_char(n % 10))
    }
}

fn digit(d: u64) -> (c: char)
    requires
        d < 10,
    ensures
        c == digit_char(d as nat),
{
    let b: u8 = 48u8 + (d as u8);
    b as char
}

/// The decimal text of `n`, as `format!("{}", n)` writes it.
pub fn decimal_string(n: u64) -> (r: String)
    ensures
        r@ == decimal(n as nat),
    decreases n,
{
    if n < 10 {
        let mut s = String::new();
        push_char(&mut s, digit(n));
        s
    } else {
        let mut s = decimal_string(n / 10);
        push_char(&mut s, digit(n % 10));
        s
    }
}

// ---------------------------------------------------------------------------
// Lines.
// ---------------------------------------------------------------------------

/// The index of the first `'\n'` in `s`, or `s.len()` when there is none.
pub open spec fn newline_index(s: Seq<char>) -> nat
    decreases s.len(),
{
    if s.len() == 0 {
        0
    } else if s[0] == '\n' {
        0
    } else {
        1 + newline_index(s.drop_first())
    }
}

/// A line cut at a `'\n'` loses one `'\r'` just before it.
pub open spec fn strip_cr(l: Seq<char>) -> Seq<char> {
    if l.len() > 0 && l.last() == '\r' {
        l.drop_last()
    } else {
        l
    }
}

/// The lines of a text, as `str::lines` yields them: split at `'\n'` (and
/// `"\r\n"`), terminators removed, a final terminator optional.
pub open spec fn lines_of(s: Seq<char>) -> Seq<Seq<char>>
    decreases s.len(),
{
    if s.len() == 0 {
        seq![]
    } else {
        let k = newline_index(s);
        if k >= s.len() {
            seq![s]
        } else {
            seq![strip_cr(s.take(k as int))] + lines_of(s.skip(k as int + 1))
        }
    }
}

proof fn lemma_newline_index(s: Seq<char>, k: int)
    requires
        0 <= k <= s.len(),
        forall|j: int| 0 <= j < k ==> s[j] != '\n',
        k == s.len() || s[k] == '\n',
    ensures
        newline_index(s) == k,
    decreases k,
{
    if k > 0 {
        let t = s.drop_first();
        lemma_newline_index(t, k - 1);
    }
}

/// The lines of `s`, as `s.lines()` yields them.
pub fn split_lines(s: &str) -> (r: Vec<String>)
    ensures
        views(r@) == lines_of(s@),
{
    let cs = chars_of(s);
    let n = cs.len();
    let mut lines: Vec<String> = Vec::new();
    let mut start: usize = 0;
    let mut i: usize = 0;
    assert(cs@.skip(0) == cs@);
    while i < n
        invariant
            n == cs@.len(),
            cs@ == s@,
            start <= i <= n,
            forall|j: int| start <= j < i ==> cs@[j] != '\n',
            views(lines@) + lines_of(cs@.skip(start as int)) == lines_of(cs@),
        decreases n - i,
    {
        if cs[i] == '\n' {
            let ghost t = cs@.skip(start as int);
            proof {
                lemma_newline_index(t, (i - start) as int);
                assert(t.take((i - start) as int) == cs@.subrange(start as int, i as int));
                assert(t.skip((i - start) + 1) == cs@.skip(i + 1));
            }
            let end = if i > start && cs[i - 1] == '\r' {
                i - 1
            } else {
                i
            };
            let line = string_of_range(&cs, start, end);
            proof {
                let full = cs@.subrange(start as int, i as int);
                if i > start && cs@[i - 1] == '\r' {
                    assert(full.drop_last() == cs@.subrange(start as int, end as int));
                }
                assert(line@ == strip_cr(full));
            }
            let ghost old_lines = lines@;
            lines.push(line);
            proof {
                assert(views(lines@) == views(old_lines).push(line@));
                assert(views(lines@) + lines_of(cs@.skip(i + 1)) == views(old_lines) + (seq![
                    line@,
                ] + lines_of(cs@.skip(i + 1))));
            }
            start = i + 1;
        }
        i = i + 1;
    }
    if start < n {
        let ghost t = cs@.skip(start as int);
        proof {
            lemma_newline_index(t, t.len() as int);
        }
        let line = string_of_range(&cs, start, n);
        assert(line@ == t);
        let ghost old_lines = lines@;
        lines.push(line);
        assert(views(lines@) == views(old_lines).push(line@));
    } else {
        assert(cs@.skip(start as int).len() == 0);
    }
    lines
}

// ---------------------------------------------------------------------------
// Joining.
// ---------------------------------------------------------------------------

/// The parts joined by `sep`, as `[..].join(sep)` makes it.
pub open spec fn join(parts: Seq<Seq<char>>, sep: Seq<char>) -> Seq<char>
    decreases parts.len(),
{
    if parts.len() == 0 {
        seq![]
    } else if parts.len() == 1 {
        parts[0]
    } else {
        join(parts.drop_last(), sep) + sep + parts.last()
    }
}

/// The strings joined by `sep`.
pub fn join_strings(parts: &Vec<String>, sep: &str) -> (r: String)
    ensures
        r@ == join(views(parts@), sep@),
{
    let mut r = String::new();
    let n = parts.len();
    let mut i: usize = 0;
    while i < n
        invariant
            n == parts@.len(),
            i <= n,
            r@ == join(views(parts@).take(i as int), sep@),
        decreases n - i,
    {
        assert(views(parts@).take(i + 1).drop_last() == views(parts@).take(i as int));
        if i > 0 {
            r.append(sep);
        }
        r.append(parts[i].as_str());
        i = i + 1;
    }
    assert(views(parts@).take(n as int) == views(parts@));
    r
}

// ---------------------------------------------------------------------------
// Substrings.
// ---------------------------------------------------------------------------

/// `p` occurs in `s` starting at index `i`.
pub open spec fn occurs_at(s: Seq<char>, p: Seq<char>, i: int) -> bool {
    0 <= i && i + p.len() <= s.len() && s.subrange(i, i + p.len()) == p
}

/// `p` occurs somewhere in `s` (the empty sequence occurs in every one).
pub open spec fn contains_seq(s: Seq<char>, p: Seq<char>) -> bool {
    exists|i: int| occurs_at(s, p, i)
}

/// `s` begins with `p`.
pub open spec fn has_prefix(s: Seq<char>, p: Seq<char>) -> bool {
    occurs_at(s, p, 0)
}

/// `s` ends with `p`.
pub open spec fn has_suffix(s: Seq<char>, p: Seq<char>) -> bool {
    p.len() <= s.len() && occurs_at(s, p, s.len() - p.len())
}

fn occurs_at_exec(s: &Vec<char>, p: &Vec<char>, i: usize) -> (r: bool)
    ensures
        r == occurs_at(s@, p@, i as int),
{
    if p.len() > s.len() || i > s.len() - p.len() {
        return false;
    }
    let mut k: usize = 0;
    while k < p.len()
        invariant
            i + p@.len() <= s@.len(),
            s@.len() == s.len(),
            k <= p@.len(),
            forall|j: int| 0 <= j < k ==> s@[i + j] == p@[j],
        decreases p@.len() - k,
    {
        if s[i + k] != p[k] {
            assert(s@.subrange(i as int, i + p@.len())[k as int] != p@[k as int]);
            return false;
        }
        k = k + 1;
    }
    assert(s@.subrange(i as int, i + p@.len()) == p@);
    true
}

/// Whether `p` occurs in `s`, as `s.contains(p)` decides it.
pub fn contains_str(s: &str, p: &str) -> (r: bool)
    ensures
        r == contains_seq(s@, p@),
{
    let sc = chars_of(s);
    let pc = chars_of(p);
    if pc.len() > sc.len() {
        return false;
    }
    let last = sc.len() - pc.len();
    let mut i: usize = 0;
    loop
        invariant
            sc@ == s@,
            pc@ == p@,
            last == sc@.len() - pc@.len(),
            i <= last,
            forall|j: int| 0 <= j < i ==> !occurs_at(s@, p@, j),
        decreases last - i,
    {
        if occurs_at_exec(&sc, &pc, i) {
            return true;
        }
        if i == last {
            return false;
        }
        i = i + 1;
    }
}

/// Whether `s` begins with `p`, as `s.starts_with(p)` decides it.
pub fn starts_with_str(s: &str, p: &str) -> (r: bool)
    ensures
        r == has_prefix(s@, p@),
{
    let sc = chars_of(s);
    let pc = chars_of(p);
    occurs_at_exec(&sc, &pc, 0)
}

/// Whether `s` ends with `p`, as `s.ends_with(p)` decides it.
pub fn ends_with_str(s: &str, p: &str) -> (r: bool)
    ensures
        r == has_suffix(s@, p@),
{
    let sc = chars_of(s);
    let pc = chars_of(p);
    if pc.len() > sc.len() {
        return false;
    }
    occurs_at_exec(&sc, &pc, sc.len() - pc.len())
}

/// `c` occurs in `s`.
pub open spec fn has_char(s: Seq<char>, c: char) -> bool {
    exists|i: int| 0 <= i < s.len() && s[i] == c
}

/// Whether `c` occurs in `s`, as `s.contains(c)` decides it.
pub fn contains_char(s: &str, c: char) -> (r: bool)
    ensures
        r == has_char(s@, c),
{
    let sc = chars_of(s);
    let mut i: usize = 0;
    while i < sc.len()
        invariant
            sc@ == s@,
            i <= sc@.len(),
            forall|j: int| 0 <= j < i ==> sc@[j] != c,
        decreases sc@.len() - i,
    {
        if sc[i] == c {
            return true;
        }
        i = i + 1;
    }
    false
}

/// Whether two strings hold the same characters.
pub fn str_eq(a: &str, b: &str) -> (r: bool)
    ensures
        r == (a@ == b@),
{
    let ac = chars_of(a);
    let bc = chars_of(b);
    if ac.len() != bc.len() {
        return false;
    }
    let mut i: usize = 0;
    while i < ac.len()
        invariant
            ac@ == a@,
            bc@ == b@,
            ac@.len() == bc@.len(),
            i <= ac@.len(),
            forall|j: int| 0 <= j < i ==> ac@[j] == bc@[j],
        decreases ac@.len() - i,
    {
        if ac[i] != bc[i] {
            return false;
        }
        i = i + 1;
    }
    assert(ac@ == bc@);
    true
}

// ---------------------------------------------------------------------------
// Character classes (Unicode), as `char` defines them.
// ---------------------------------------------------------------------------

/// A character of the ASCII range.
pub open spec fn is_ascii_char(c: char) -> bool {
    (c as u32) < 128
}

/// Every character of the text is ASCII.
pub open spec fn all_ascii(s: Seq<char>) -> bool {
    forall|i: int| 0 <= i < s.len() ==> is_ascii_char(#[trigger] s[i])
}

/// An ASCII letter `A` to `Z`.
pub open spec fn ascii_upper(c: char) -> bool {
    65 <= (c as u32) <= 90
}

/// An ASCII letter `a` to `z`.
pub open spec fn ascii_lower_letter(c: char) -> bool {
    97 <= (c as u32) <= 122
}

/// An ASCII digit `0` to `9`.
pub open spec fn ascii_digit(c: char) -> bool {
    48 <= (c as u32) <= 57
}

/// `char::is_alphanumeric` on characters beyond ASCII: the character has
/// the Unicode `Alphabetic` property or a numeric general category.
pub uninterp spec fn alphanumeric_beyond_ascii(c: char) -> bool;

/// `char::is_numeric` on characters beyond ASCII: the general category is
/// `Nd`, `Nl` or `No`.
pub uninterp spec fn numeric_beyond_ascii(c: char) -> bool;

/// `char::is_uppercase` on characters beyond ASCII: the character has the
/// Unicode `Uppercase` property.
pub uninterp spec fn uppercase_beyond_ascii(c: char) -> bool;

/// `char::is_whitespace` on characters beyond ASCII: the character has the
/// Unicode `White_Space` property.
pub uninterp spec fn whitespace_beyond_ascii(c: char) -> bool;

/// `char::is_alphanumeric`: in ASCII exactly the letters and digits (the
/// only ASCII characters with the `Alphabetic` property or a numeric
/// category).
pub open spec fn char_is_alphanumeric(c: char) -> bool {
    if is_ascii_char(c) {
        ascii_upper(c) || ascii_lower_letter(c) || ascii_digit(c)
    } else {
        alphanumeric_beyond_ascii(c)
    }
}

/// `char::is_numeric`: in ASCII exactly the digits.
pub open spec fn char_is_numeric(c: char) -> bool {
    if is_ascii_char(c) {
        ascii_digit(c)
    } else {
        numeric_beyond_ascii(c)
    }
}

/// `char::is_uppercase`: in ASCII exactly `A` to `Z`.
pub open spec fn char_is_uppercase(c: char) -> bool {
    if is_ascii_char(c) {
        ascii_upper(c)
    } else {
        uppercase_beyond_ascii(c)
    }
}

/// `char::is_whitespace`: in ASCII exactly the space and the controls
/// U+0009 to U+000D (the ASCII characters with `White_Space`).
pub open spec fn char_is_whitespace(c: char) -> bool {
    if is_ascii_char(c) {
        (c as u32) == 32 || 9 <= (c as u32) <= 13
    } else {
        whitespace_beyond_ascii(c)
    }
}

/// Trusted: calls `char::is_alphanumeric`; the claim is `char_is_alphanumeric`:
/// its documented Unicode property, which on ASCII holds of exactly the
/// characters listed there, and is named beyond ASCII.
#[verifier::external_body]
pub(crate) fn is_alphanumeric(c: char) -> (r: bool)
    ensures
        r == char_is_alphanumeric(c),
        !is_ascii_char(c) ==> r == alphanumeric_beyond_ascii(c),
{
    c.is_alphanumeric()
}

/// Trusted: calls `char::is_numeric`; the claim is `char_is_numeric`:
/// its documented Unicode property, which on ASCII holds of exactly the
/// characters listed there, and is named beyond ASCII.
#[verifier::external_body]
pub(crate) fn is_numeric(c: char) -> (r: bool)
    ensures
        r == char_is_numeric(c),
        !is_ascii_char(c) ==> r == numeric_beyond_ascii(c),
{
    c.is_numeric()
}

/// Trusted: calls `char::is_uppercase`; the claim is `char_is_uppercase`:
/// its documented Unicode property, which on ASCII holds of exactly the
/// characters listed there, and is named beyond ASCII.
#[verifier::external_body]
pub(crate) fn is_uppercase(c: char) -> (r: bool)
    ensures
        r == char_is_uppercase(c),
        !is_ascii_char(c) ==> r == uppercase_beyond_ascii(c),
{
    c.is_uppercase()
}

/// Trusted: calls `char::is_whitespace`; the claim is `char_is_whitespace`:
/// its documented Unicode property, which on ASCII holds of exactly the
/// characters listed there, and is named beyond ASCII.
#[verifier::external_body]
pub(crate) fn is_whitespace(c: char) -> (r: bool)
    ensures
        r == char_is_whitespace(c),
        !is_ascii_char(c) ==> r == whitespace_beyond_ascii(c),
{
    c.is_whitespace()
}

// ---------------------------------------------------------------------------
// UTF-8 length.
// ---------------------------------------------------------------------------

fn utf8_width(c: char) -> (w: usize)
    ensures
        w == encode_scalar(c as u32).len(),
        1 <= w <= 4,
{
    proof {
        char_is_scalar(c);
    }
    let u = c as u32;
    if u <= 0x7f {
        1
    } else if u <= 0x7ff {
        2
    } else if u <= 0xffff {
        3
    } else {
        4
    }
}

/// Whether the UTF-8 encoding of `s` (what `str::len` counts) is longer
/// than `limit` bytes.
pub fn utf8_longer_than(s: &str, limit: usize) -> (r: bool)
    ensures
        r == (encode_utf8(s@).len() > limit),
{
    let cs = chars_of(s);
    let n = cs.len();
    let mut count: usize = 0;
    let mut i: usize = 0;
    assert(cs@.skip(0) == cs@);
    while i < n
        invariant
            n == cs@.len(),
            cs@ == s@,
            i <= n,
            count <= limit,
            encode_utf8(s@).len() == count + encode_utf8(cs@.skip(i as int)).len(),
        decreases n - i,
    {
        let w = utf8_width(cs[i]);
        assert(cs@.skip(i as int).drop_first() == cs@.skip(i + 1));
        assert(cs@.skip(i as int)[0] == cs@[i as int]);
        if w > limit - count {
            return true;
        }
        count = count + w;
        i = i + 1;
    }
    assert(cs@.skip(n as int).len() == 0);
    false
}

} // verus!
