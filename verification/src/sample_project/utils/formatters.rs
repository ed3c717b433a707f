//! Formatting of user names and dates.
use vstd::prelude::*;
use crate::text::{
    all_ascii,
    ascii_upper,
    char_is_whitespace,
    chars_of,
    decimal,
    is_ascii_char,
    is_whitespace,
    string_of_range,
};

verus! {

/// The text without its leading whitespace.
pub open spec fn trim_start(s: Seq<char>) -> Seq<char>
    decreases s.len(),
{
    if s.len() > 0 && char_is_whitespace(s[0]) {
        trim_start(s.drop_first())
    } else {
        s
    }
}

/// The text without its trailing whitespace.
pub open spec fn trim_end(s: Seq<char>) -> Seq<char>
    decreases s.len(),
{
    if s.len() > 0 && char_is_whitespace(s.last()) {
        trim_end(s.drop_last())
    } else {
        s
    }
}

/// The text without leading or trailing whitespace, as `str::trim` gives
/// it.
pub open spec fn trimmed(s: Seq<char>) -> Seq<char> {
    trim_end(trim_start(s))
}

proof fn lemma_trim_start_shape(s: Seq<char>)
    ensures
        trim_start(s).len() > 0 ==> !char_is_whitespace(trim_start(s)[0]),
        exists|k: int| 0 <= k <= s.len() && trim_start(s) == s.skip(k),
    decreases s.len(),
{
    if s.len() > 0 && char_is_whitespace(s[0]) {
        lemma_trim_start_shape(s.drop_first());
        let k = choose|k: int| 0 <= k <= s.drop_first().len() && trim_start(s.drop_first()) == s.drop_first().skip(k);
        assert(s.drop_first().skip(k) == s.skip(k + 1));
    } else {
        assert(s.skip(0) == s);
    }
}

proof fn lemma_trim_end_shape(s: Seq<char>)
    ensures
        trim_end(s).len() > 0 ==> !char_is_whitespace(trim_end(s).last()),
        exists|k: int| 0 <= k <= s.len() && trim_end(s) == s.take(k),
    decreases s.len(),
{
    if s.len() > 0 && char_is_whitespace(s.last()) {
        lemma_trim_end_shape(s.drop_last());
        let k = choose|k: int| 0 <= k <= s.drop_last().len() && trim_end(s.drop_last()) == s.drop_last().take(k);
        assert(s.drop_last().take(k) == s.take(k));
    } else {
        assert(s.take(s.len() as int) == s);
    }
}

/// Law: trimming trimmed text changes nothing.
pub proof fn law_trim_idempotent(s: Seq<char>)
    ensures
        trimmed(trimmed(s)) == trimmed(s),
{
    let a = trim_start(s);
    let t = trim_end(a);
    lemma_trim_start_shape(s);
    lemma_trim_end_shape(a);
    let k = choose|k: int| 0 <= k <= a.len() && t == a.take(k);
    if t.len() > 0 {
        assert(t[0] == a[0]);
    }
    assert(trim_start(t) == t);
    assert(trim_end(t) == t);
}

/// The lowercase of an ASCII character: `A` to `Z` become `a` to `z`,
/// every other character stays.
pub open spec fn ascii_to_lower(c: char) -> char {
    if ascii_upper(c) {
        ((c as u32) + 32) as char
    } else {
        c
    }
}

/// `str::to_lowercase` on text that is not all ASCII: each character
/// replaced by its Unicode lowercase mapping (which may be several
/// characters).
pub uninterp spec fn lowercase_beyond_ascii(s: Seq<char>) -> Seq<char>;

/// `str::to_lowercase`: on ASCII text, `A` to `Z` become `a` to `z` and
/// every other character stays (the Unicode lowercase mapping of ASCII);
/// other text is named.
pub open spec fn lowercase_of(s: Seq<char>) -> Seq<char> {
    if all_ascii(s) {
        s.map_values(|c: char| ascii_to_lower(c))
    } else {
        lowercase_beyond_ascii(s)
    }
}

/// Trusted: calls `str::to_lowercase`; the claim is `lowercase_of`: the
/// Unicode lowercase mapping, stated on ASCII text and named beyond it.
#[verifier::external_body]
pub(crate) fn to_lowercase(s: &str) -> (r: String)
    ensures
        r@ == lowercase_of(s@),
        !all_ascii(s@) ==> r@ == lowercase_beyond_ascii(s@),
{
    s.to_lowercase()
}

/// The text without leading or trailing whitespace.
pub fn trim(s: &str) -> (r: String)
    ensures
        r@ == trimmed(s@),
{
    let cs = chars_of(s);
    let n = cs.len();
    let mut i: usize = 0;
    assert(cs@.skip(0) == cs@);
    while i < n && is_whitespace(cs[i])
        invariant
            n == cs@.len(),
            i <= n,
            trim_start(cs@.skip(i as int)) == trim_start(cs@),
        decreases n - i,
    {
        assert(cs@.skip(i as int).drop_first() == cs@.skip(i + 1));
        i = i + 1;
    }
    let ghost t = cs@.skip(i as int);
    assert(trim_start(cs@) == t);
    let mut j: usize = n;
    assert(t.take((n - i) as int) == t);
    while j > i && is_whitespace(cs[j - 1])
        invariant
            i <= j <= n == cs@.len(),
            t == cs@.skip(i as int),
            trim_end(t.take(j - i)) == trim_end(t),
        decreases j,
    {
        assert(t.take(j - i).drop_last() == t.take(j - 1 - i));
        assert(t.take(j - i).last() == cs@[j - 1]);
        j = j - 1;
    }
    proof {
        if j > i {
            assert(t.take(j - i).last() == cs@[j - 1]);
        }
        assert(t.take(j - i) == cs@.subrange(i as int, j as int));
    }
    string_of_range(&cs, i, j)
}

/// A user name as stored: trimmed and lowercased.
pub fn format_username(username: &str) -> (r: String)
    ensures
        r@ == lowercase_of(trimmed(username@)),
{
    let t = trim(username);
    to_lowercase(t.as_str())
}

proof fn lemma_ascii_to_lower(c: char)
    requires
        is_ascii_char(c),
    ensures
        is_ascii_char(ascii_to_lower(c)),
        !ascii_upper(ascii_to_lower(c)),
        ascii_to_lower(ascii_to_lower(c)) == ascii_to_lower(c),
        char_is_whitespace(ascii_to_lower(c)) == char_is_whitespace(c),
{
    if ascii_upper(c) {
        let x = (c as u32) + 32;
        assert((x as char) as u32 == x);
    }
}

proof fn lemma_trimmed_is_inside(s: Seq<char>)
    ensures
        forall|i: int|
            0 <= i < trimmed(s).len() ==> exists|j: int| 0 <= j < s.len() && #[trigger] trimmed(s)[i] == s[j],
        trimmed(s).len() > 0 ==> !char_is_whitespace(trimmed(s)[0]) && !char_is_whitespace(
            trimmed(s).last(),
        ),
{
    let a = trim_start(s);
    let t = trim_end(a);
    lemma_trim_start_shape(s);
    lemma_trim_end_shape(a);
    let k = choose|k: int| 0 <= k <= s.len() && a == s.skip(k);
    let k2 = choose|k2: int| 0 <= k2 <= a.len() && t == a.take(k2);
    assert forall|i: int| 0 <= i < t.len() implies exists|j: int| 0 <= j < s.len() && #[trigger] t[i]
        == s[j] by {
        assert(t[i] == s[k + i]);
    }
    if t.len() > 0 {
        assert(t[0] == a[0]);
    }
}

/// Law: on ASCII user names, formatting a formatted name changes nothing.
/// (Beyond ASCII nothing here states what `str::to_lowercase` does to its
/// own output, so the law is stated for ASCII names.)
pub proof fn law_format_username_settles_on_ascii(u: Seq<char>)
    requires
        all_ascii(u),
    ensures
        lowercase_of(trimmed(lowercase_of(trimmed(u)))) == lowercase_of(trimmed(u)),
{
    let t = trimmed(u);
    lemma_trimmed_is_inside(u);
    assert(all_ascii(t)) by {
        assert forall|i: int| 0 <= i < t.len() implies is_ascii_char(#[trigger] t[i]) by {
            let j = choose|j: int| 0 <= j < u.len() && t[i] == u[j];
        }
    }
    let l = lowercase_of(t);
    assert(l == t.map_values(|c: char| ascii_to_lower(c)));
    assert forall|i: int| 0 <= i < l.len() implies is_ascii_char(#[trigger] l[i]) && !ascii_upper(l[i])
        && ascii_to_lower(l[i]) == l[i] by {
        lemma_ascii_to_lower(t[i]);
    }
    assert(all_ascii(l));
    if l.len() > 0 {
        lemma_ascii_to_lower(t[0]);
        lemma_ascii_to_lower(t[t.len() - 1]);
        assert(l[0] == ascii_to_lower(t[0]));
        assert(l.last() == ascii_to_lower(t.last()));
    }
    assert(trim_start(l) == l);
    assert(trim_end(l) == l);
    assert(trimmed(l) == l);
    assert(lowercase_of(l) =~= l);
}

/// A leap year of the proleptic Gregorian calendar.
pub open spec fn leap_year(y: int) -> bool {
    y % 4 == 0 && (y % 100 != 0 || y % 400 == 0)
}

/// The number of days of month `m` (1 to 12) of year `y`.
pub open spec fn days_in_month(y: int, m: int) -> int {
    if m == 2 {
        if leap_year(y) {
            29
        } else {
            28
        }
    } else if m == 4 || m == 6 || m == 9 || m == 11 {
        30
    } else {
        31
    }
}

/// A calendar date that exists and lies in the years that chrono's
/// `NaiveDate` can hold (-262143 to 262142).
pub open spec fn valid_ymd(y: int, m: int, d: int) -> bool {
    &&& -262143 <= y <= 262142
    &&& 1 <= m <= 12
    &&& 1 <= d <= days_in_month(y, m)
}

/// `n` in decimal, with zeros in front up to `width` digits.
pub open spec fn zero_padded(n: nat, width: nat) -> Seq<char> {
    let digits = decimal(n);
    if digits.len() < width {
        Seq::new((width - digits.len()) as nat, |i: int| '0') + digits
    } else {
        digits
    }
}

/// A year as `%Y` writes it: four digits at least, with a sign in front
/// when the year is below 0 or above 9999.
pub open spec fn year_text(y: int) -> Seq<char> {
    if 0 <= y <= 9999 {
        zero_padded(y as nat, 4)
    } else if y > 9999 {
        "+"@ + zero_padded(y as nat, 4)
    } else {
        "-"@ + zero_padded((-y) as nat, 4)
    }
}

/// A date as `%Y-%m-%d` writes it.
pub open spec fn date_text(y: int, m: int, d: int) -> Seq<char> {
    year_text(y) + "-"@ + zero_padded(m as nat, 2) + "-"@ + zero_padded(d as nat, 2)
}

/// Trusted: builds chrono's `NaiveDate::from_ymd_opt(year, month, day)`,
/// which exists for every valid date, and formats it with `%Y-%m-%d`.
/// The claim is chrono's documented `%Y`, `%m` and `%d`: the year with at
/// least four digits and a sign outside 0..=9999, month and day with two.
#[verifier::external_body]
fn chrono_date_text(year: i32, month: u32, day: u32) -> (r: String)
    requires
        valid_ymd(year as int, month as int, day as int),
    ensures
        r@ == date_text(year as int, month as int, day as int),
{
    chrono::NaiveDate::from_ymd_opt(year, month, day).unwrap().format("%Y-%m-%d").to_string()
}

/// A day of the proleptic Gregorian calendar, in the range of years that
/// chrono's `NaiveDate` holds.
#[derive(Debug, Clone, Copy)]
pub struct CalendarDate {
    year: i32,
    month: u32,
    day: u32,
}

impl View for CalendarDate {
    type V = (int, int, int);

    /// Year, month and day.
    closed spec fn view(&self) -> (int, int, int) {
        (self.year as int, self.month as int, self.day as int)
    }
}

impl CalendarDate {
    #[verifier::type_invariant]
    spec fn exists_in_calendar(self) -> bool {
        valid_ymd(self.year as int, self.month as int, self.day as int)
    }

    /// The date `year`-`month`-`day`, if it exists in the calendar and the
    /// year is one that chrono holds.
    pub fn from_ymd(year: i32, month: u32, day: u32) -> (r: Option<Self>)
        ensures
            r is Some <==> valid_ymd(year as int, month as int, day as int),
            r matches Some(d) ==> d@ == (year as int, month as int, day as int),
    {
        if year < -262143 || year > 262142 || month < 1 || month > 12 || day < 1 {
            return None;
        }
        // Shifting by a multiple of 400 keeps the leap-year residues.
        let shifted: u64 = (year as i64 + 400_000) as u64;
        assert(shifted % 4 == year % 4 && shifted % 100 == year % 100 && shifted % 400 == year % 400)
            by (nonlinear_arith)
            requires
                shifted == year + 400_000,
        ;
        let leap = shifted % 4 == 0 && (shifted % 100 != 0 || shifted % 400 == 0);
        let days: u32 = if month == 2 {
            if leap {
                29
            } else {
                28
            }
        } else if month == 4 || month == 6 || month == 9 || month == 11 {
            30
        } else {
            31
        };
        if day > days {
            None
        } else {
            Some(CalendarDate { year, month, day })
        }
    }

    /// The year.
    pub fn year(&self) -> (r: i32)
        ensures
            r == self@.0,
    {
        self.year
    }

    /// The month, 1 to 12.
    pub fn month(&self) -> (r: u32)
        ensures
            r == self@.1,
            1 <= r <= 12,
    {
        proof {
            use_type_invariant(self);
        }
        self.month
    }

    /// The day of the month, from 1.
    pub fn day(&self) -> (r: u32)
        ensures
            r == self@.2,
            1 <= r <= 31,
    {
        proof {
            use_type_invariant(self);
        }
        self.day
    }
}

/// A date as `YYYY-MM-DD` (chrono's `%Y-%m-%d`).
pub fn format_date(date: CalendarDate) -> (r: String)
    ensures
        r@ == date_text(date@.0, date@.1, date@.2),
{
    proof {
        use_type_invariant(&date);
    }
    chrono_date_text(date.year, date.month, date.day)
}

} // verus!
