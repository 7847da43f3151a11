//! Text helpers shared by the configuration and code generation modules.
//!
//! Strings are modelled by their characters, `Seq<char>`.

use vstd::prelude::*;

verus! {

// ---------------------------------------------------------------------------
// Characters
// ---------------------------------------------------------------------------

/// The characters that Unicode lists under `White_Space`.
pub open spec fn is_space(c: char) -> bool {
    let n = c as u32;
    ||| 0x09 <= n <= 0x0d
    ||| n == 0x20
    ||| n == 0x85
    ||| n == 0xa0
    ||| n == 0x1680
    ||| 0x2000 <= n <= 0x200a
    ||| n == 0x2028
    ||| n == 0x2029
    ||| n == 0x202f
    ||| n == 0x205f
    ||| n == 0x3000
}

/// An ASCII decimal digit.
pub open spec fn is_digit(c: char) -> bool {
    '0' as u32 <= c as u32 <= '9' as u32
}

/// The ASCII lower case of one character; others stay as they are.
pub open spec fn ascii_lower_char(c: char) -> char {
    if 'A' as u32 <= c as u32 <= 'Z' as u32 {
        (c as u32 + 32) as char
    } else {
        c
    }
}

pub open spec fn all_ascii(s: Seq<char>) -> bool {
    forall|i: int| 0 <= i < s.len() ==> (#[trigger] s[i]) as u32 <= 0x7f
}

/// The ASCII lower case of a text, character by character.
pub open spec fn ascii_lower(s: Seq<char>) -> Seq<char> {
    s.map_values(|c: char| ascii_lower_char(c))
}

pub fn is_white_space(c: char) -> (r: bool)
    ensures
        r == is_space(c),
{
    let n: u32 = c as u32;
    (0x09 <= n && n <= 0x0d) || n == 0x20 || n == 0x85 || n == 0xa0 || n == 0x1680 || (0x2000 <= n
        && n <= 0x200a) || n == 0x2028 || n == 0x2029 || n == 0x202f || n == 0x205f || n == 0x3000
}

pub fn is_ascii_digit(c: char) -> (r: bool)
    ensures
        r == is_digit(c),
{
    let n: u32 = c as u32;
    '0' as u32 <= n && n <= '9' as u32
}

// ---------------------------------------------------------------------------
// Lower case
// ---------------------------------------------------------------------------

/// What `str::to_lowercase` makes of a text: its Unicode lower case.
pub uninterp spec fn unicode_lower(s: Seq<char>) -> Seq<char>;

/// `str::to_lowercase` of std. The result is the Unicode lower case of the text,
/// which for ASCII text is its ASCII lower case.
#[verifier::external_body]
pub(crate) fn to_lowercase(s: &str) -> (r: String)
    ensures
        r@ == unicode_lower(s@),
        all_ascii(s@) ==> r@ == ascii_lower(s@),
{
    s.to_lowercase()
}

/// What `str::to_uppercase` makes of a text: its Unicode upper case.
pub uninterp spec fn unicode_upper(s: Seq<char>) -> Seq<char>;

/// The ASCII upper case of one character; others stay as they are.
pub open spec fn ascii_upper_char(c: char) -> char {
    if 'a' as u32 <= c as u32 <= 'z' as u32 {
        (c as u32 - 32) as char
    } else {
        c
    }
}

/// The ASCII upper case of a text, character by character.
pub open spec fn ascii_upper(s: Seq<char>) -> Seq<char> {
    s.map_values(|c: char| ascii_upper_char(c))
}

/// `str::to_uppercase` of std. The result is the Unicode upper case of the text,
/// which for ASCII text is its ASCII upper case.
#[verifier::external_body]
pub(crate) fn to_uppercase(s: &str) -> (r: String)
    ensures
        r@ == unicode_upper(s@),
        all_ascii(s@) ==> r@ == ascii_upper(s@),
{
    s.to_uppercase()
}

/// What the `Debug` formatting of a text shows: the text in double quotes, with
/// some characters escaped.
pub uninterp spec fn debug_form(s: Seq<char>) -> Seq<char>;

/// A character of a plain name: an ASCII letter or digit, or an underscore.
pub open spec fn is_name_char(c: char) -> bool {
    ||| 'a' as u32 <= c as u32 <= 'z' as u32
    ||| 'A' as u32 <= c as u32 <= 'Z' as u32
    ||| is_digit(c)
    ||| c == '_'
}

/// The `Debug` formatting of a `str`, by `format!`. A text of plain name
/// characters is shown as it is, between double quotes. Which other characters
/// are escaped, and how, is left unsaid.
#[verifier::external_body]
pub(crate) fn debug_text(s: &str) -> (r: String)
    ensures
        r@ == debug_form(s@),
        (forall|i: int| 0 <= i < s@.len() ==> is_name_char(#[trigger] s@[i])) ==> r@ == seq!['"']
            + s@ + seq!['"'],
{
    format!("{:?}", s)
}

// ---------------------------------------------------------------------------
// Comparing and searching
// ---------------------------------------------------------------------------

/// Whether two texts hold the same characters.
pub fn same(a: &str, b: &str) -> (r: bool)
    ensures
        r == (a@ == b@),
{
    let n: usize = a.unicode_len();
    if n != b.unicode_len() {
        return false;
    }
    let mut i: usize = 0;
    while i < n
        invariant
            n == a@.len(),
            n == b@.len(),
            i <= n,
            forall|j: int| 0 <= j < i ==> a@[j] == b@[j],
        decreases n - i,
    {
        if a.get_char(i) != b.get_char(i) {
            return false;
        }
        i = i + 1;
    }
    assert(a@ =~= b@);
    true
}

pub fn starts_with(s: &str, prefix: &str) -> (r: bool)
    ensures
        r == prefix@.is_prefix_of(s@),
{
    let n: usize = prefix.unicode_len();
    if n > s.unicode_len() {
        return false;
    }
    let head = s.substring_char(0, n);
    let r = same(head, prefix);
    proof {
        assert(s@.subrange(0, n as int) =~= head@);
    }
    r
}

/// The first position of `c`, or the length where it does not occur.
pub open spec fn index_of_char(s: Seq<char>, c: char) -> int
    decreases s.len(),
{
    if s.len() == 0 {
        0
    } else if s[0] == c {
        0
    } else {
        1 + index_of_char(s.drop_first(), c)
    }
}

pub proof fn lemma_index_of_char(s: Seq<char>, c: char, k: int)
    requires
        0 <= k <= s.len(),
        forall|j: int| 0 <= j < k ==> s[j] != c,
        k == s.len() || s[k] == c,
    ensures
        index_of_char(s, c) == k,
    decreases s.len(),
{
    if s.len() > 0 && k > 0 {
        assert forall|j: int| 0 <= j < k - 1 implies s.drop_first()[j] != c by {
            assert(s[j + 1] != c);
        }
        lemma_index_of_char(s.drop_first(), c, k - 1);
    }
}

pub fn find_char(s: &str, c: char) -> (r: Option<usize>)
    ensures
        match r {
            Some(k) => k == index_of_char(s@, c) && k < s@.len() && s@[k as int] == c,
            None => index_of_char(s@, c) == s@.len() && !s@.contains(c),
        },
{
    let n: usize = s.unicode_len();
    let mut i: usize = 0;
    while i < n
        invariant
            n == s@.len(),
            i <= n,
            forall|j: int| 0 <= j < i ==> s@[j] != c,
        decreases n - i,
    {
        if s.get_char(i) == c {
            proof {
                lemma_index_of_char(s@, c, i as int);
            }
            return Some(i);
        }
        i = i + 1;
    }
    proof {
        lemma_index_of_char(s@, c, n as int);
    }
    None
}

/// The parts of a text between the occurrences of a character.
pub open spec fn split_on(s: Seq<char>, c: char) -> Seq<Seq<char>>
    decreases s.len(),
{
    let k = index_of_char(s, c);
    if 0 <= k < s.len() {
        seq![s.subrange(0, k)] + split_on(s.subrange(k + 1, s.len() as int), c)
    } else {
        seq![s]
    }
}

/// Two texts with the character between them are split into the parts of the one and then
/// those of the other.
pub proof fn lemma_split_on_joined(a: Seq<char>, c: char, b: Seq<char>)
    ensures
        split_on(a + seq![c] + b, c) == split_on(a, c) + split_on(b, c),
    decreases a.len(),
{
    let s = a + seq![c] + b;
    let k = index_of_char(a, c);
    lemma_index_of_char_place(a, c);
    assert forall|j: int| 0 <= j < k implies s[j] != c by {
        assert(s[j] == a[j]);
    }
    if k < a.len() {
        assert(s[k] == c);
        lemma_index_of_char(s, c, k);
        let rest = a.subrange(k + 1, a.len() as int);
        lemma_split_on_joined(rest, c, b);
        assert(s.subrange(0, k) =~= a.subrange(0, k));
        assert(s.subrange(k + 1, s.len() as int) =~= rest + seq![c] + b);
        assert(split_on(s, c) =~= split_on(a, c) + split_on(b, c));
    } else {
        assert(s[k] == c);
        lemma_index_of_char(s, c, k);
        assert(s.subrange(0, k) =~= a);
        assert(s.subrange(k + 1, s.len() as int) =~= b);
        assert(split_on(s, c) =~= split_on(a, c) + split_on(b, c));
    }
}

proof fn lemma_index_of_char_place(s: Seq<char>, c: char)
    ensures
        0 <= index_of_char(s, c) <= s.len(),
        forall|j: int| 0 <= j < index_of_char(s, c) ==> s[j] != c,
        index_of_char(s, c) < s.len() ==> s[index_of_char(s, c)] == c,
    decreases s.len(),
{
    if s.len() > 0 && s[0] != c {
        let t = s.drop_first();
        lemma_index_of_char_place(t, c);
        assert forall|j: int| 0 <= j < index_of_char(s, c) implies s[j] != c by {
            if j > 0 {
                assert(t[j - 1] == s[j]);
            }
        }
    }
}

/// The texts of some strings.
pub open spec fn texts(v: Seq<String>) -> Seq<Seq<char>> {
    v.map_values(|s: String| s@)
}

/// The parts of a text between the occurrences of a character.
pub fn split_at_char(s: &str, c: char) -> (r: Vec<String>)
    ensures
        texts(r@) == split_on(s@, c),
{
    let n: usize = s.unicode_len();
    let mut out: Vec<String> = Vec::new();
    let mut from: usize = 0;
    assert(s@.subrange(0, n as int) =~= s@);
    assert(texts(out@) + split_on(s@, c) =~= split_on(s@, c));
    loop
        invariant
            n == s@.len(),
            from <= n,
            texts(out@) + split_on(s@.subrange(from as int, n as int), c) == split_on(s@, c),
        decreases n - from,
    {
        let rest = s.substring_char(from, n);
        let ghost before = texts(out@);
        match find_char(rest, c) {
            None => {
                out.push(String::from_str(rest));
                assert(texts(out@) =~= before + seq![rest@]);
                return out;
            },
            Some(k) => {
                let part = rest.substring_char(0, k);
                out.push(String::from_str(part));
                proof {
                    assert(texts(out@) =~= before + seq![part@]);
                    let tail = rest@.subrange(k + 1, rest@.len() as int);
                    assert(tail =~= s@.subrange(from + k + 1, n as int));
                    assert(before + (seq![part@] + split_on(tail, c)) =~= texts(out@) + split_on(
                        tail,
                        c,
                    ));
                }
                from = from + k + 1;
            },
        }
    }
}

// ---------------------------------------------------------------------------
// Trimming
// ---------------------------------------------------------------------------

pub open spec fn trimmed_start(s: Seq<char>) -> Seq<char>
    decreases s.len(),
{
    if s.len() > 0 && is_space(s[0]) {
        trimmed_start(s.drop_first())
    } else {
        s
    }
}

pub open spec fn trimmed_end(s: Seq<char>) -> Seq<char>
    decreases s.len(),
{
    if s.len() > 0 && is_space(s.last()) {
        trimmed_end(s.drop_last())
    } else {
        s
    }
}

/// A text without the white space at both of its ends.
pub open spec fn trimmed(s: Seq<char>) -> Seq<char> {
    trimmed_end(trimmed_start(s))
}

pub proof fn lemma_trimmed_start(s: Seq<char>, k: int)
    requires
        0 <= k <= s.len(),
        forall|j: int| 0 <= j < k ==> is_space(s[j]),
        k == s.len() || !is_space(s[k]),
    ensures
        trimmed_start(s) == s.subrange(k, s.len() as int),
    decreases k,
{
    if k == 0 {
        assert(s.subrange(0, s.len() as int) =~= s);
    } else {
        let t = s.drop_first();
        assert forall|j: int| 0 <= j < k - 1 implies is_space(t[j]) by {
            assert(is_space(s[j + 1]));
        }
        lemma_trimmed_start(t, k - 1);
        assert(t.subrange(k - 1, t.len() as int) =~= s.subrange(k, s.len() as int));
    }
}

pub proof fn lemma_trimmed_end(s: Seq<char>, k: int)
    requires
        0 <= k <= s.len(),
        forall|j: int| k <= j < s.len() ==> is_space(s[j]),
        k == 0 || !is_space(s[k - 1]),
    ensures
        trimmed_end(s) == s.subrange(0, k),
    decreases s.len() - k,
{
    if k == s.len() {
        assert(s.subrange(0, k) =~= s);
    } else {
        let t = s.drop_last();
        lemma_trimmed_end(t, k);
        assert(t.subrange(0, k) =~= s.subrange(0, k));
    }
}

/// Where a trimmed text stands in the text: what lies around it is white space, and it
/// neither starts nor ends with any.
pub proof fn lemma_trimmed_place(s: Seq<char>) -> (place: (int, int))
    ensures
        0 <= place.0 <= place.1 <= s.len(),
        trimmed(s) == s.subrange(place.0, place.1),
        forall|j: int| 0 <= j < place.0 ==> is_space(s[j]),
        forall|j: int| place.1 <= j < s.len() ==> is_space(s[j]),
        place.0 < place.1 ==> !is_space(s[place.0]) && !is_space(s[place.1 - 1]),
    decreases s.len(),
{
    if s.len() > 0 && is_space(s[0]) {
        let t = s.drop_first();
        let (a, b) = lemma_trimmed_place(t);
        assert(s.subrange(a + 1, b + 1) =~= t.subrange(a, b));
        assert forall|j: int| 0 <= j < a + 1 implies is_space(s[j]) by {
            if j > 0 {
                assert(t[j - 1] == s[j]);
            }
        }
        assert forall|j: int| b + 1 <= j < s.len() implies is_space(s[j]) by {
            assert(t[j - 1] == s[j]);
        }
        (a + 1, b + 1)
    } else if s.len() > 0 && is_space(s.last()) {
        let t = s.drop_last();
        let (a, b) = lemma_trimmed_place(t);
        assert(trimmed_start(t) == t);
        assert(s.subrange(a, b) =~= t.subrange(a, b));
        assert forall|j: int| b <= j < s.len() implies is_space(s[j]) by {
            if j < t.len() {
                assert(t[j] == s[j]);
            }
        }
        (a, b)
    } else {
        assert(s.subrange(0, s.len() as int) =~= s);
        (0, s.len() as int)
    }
}

pub fn trim<'a>(s: &'a str) -> (r: &'a str)
    ensures
        r@ == trimmed(s@),
{
    let n: usize = s.unicode_len();
    let mut a: usize = 0;
    while a < n && is_white_space(s.get_char(a))
        invariant
            n == s@.len(),
            a <= n,
            forall|j: int| 0 <= j < a ==> is_space(s@[j]),
        decreases n - a,
    {
        a = a + 1;
    }
    let mut b: usize = n;
    while b > a && is_white_space(s.get_char(b - 1))
        invariant
            n == s@.len(),
            a <= b <= n,
            forall|j: int| b <= j < n ==> is_space(s@[j]),
        decreases b,
    {
        b = b - 1;
    }
    proof {
        lemma_trimmed_start(s@, a as int);
        let t = s@.subrange(a as int, n as int);
        lemma_trimmed_end(t, b - a);
        assert(t.subrange(0, b - a) =~= s@.subrange(a as int, b as int));
    }
    s.substring_char(a, b)
}

// ---------------------------------------------------------------------------
// Numbers
// ---------------------------------------------------------------------------

pub open spec fn digit_char(d: nat) -> char {
    if d == 0 {
        '0'
    } else if d == 1 {
        '1'
    } else if d == 2 {
        '2'
    } else if d == 3 {
        '3'
    } else if d == 4 {
        '4'
    } else if d == 5 {
        '5'
    } else if d == 6 {
        '6'
    } else if d == 7 {
        '7'
    } else if d == 8 {
        '8'
    } else {
        '9'
    }
}

/// A number written in decimal, without leading zeros.
pub open spec fn decimal(n: nat) -> Seq<char>
    decreases n,
{
    if n < 10 {
        seq![digit_char(n)]
    } else {
        decimal(n / 10).push(digit_char(n % 10))
    }
}

fn digit_text(d: u64) -> (r: &'static str)
    requires
        d < 10,
    ensures
        r@ == seq![digit_char(d as nat)],
{
    proof {
        reveal_strlit("0");
        reveal_strlit("1");
        reveal_strlit("2");
        reveal_strlit("3");
        reveal_strlit("4");
        reveal_strlit("5");
        reveal_strlit("6");
        reveal_strlit("7");
        reveal_strlit("8");
        reveal_strlit("9");
    }
    let r = if d == 0 {
        "0"
    } else if d == 1 {
        "1"
    } else if d == 2 {
        "2"
    } else if d == 3 {
        "3"
    } else if d == 4 {
        "4"
    } else if d == 5 {
        "5"
    } else if d == 6 {
        "6"
    } else if d == 7 {
        "7"
    } else if d == 8 {
        "8"
    } else {
        "9"
    };
    assert(r@ =~= seq![digit_char(d as nat)]);
    r
}

/// `n` in decimal.
pub fn decimal_text(n: u64) -> (r: String)
    ensures
        r@ == decimal(n as nat),
    decreases n,
{
    if n < 10 {
        String::from_str(digit_text(n))
    } else {
        let mut s = decimal_text(n / 10);
        s.append(digit_text(n % 10));
        assert(s@ =~= decimal(n as nat / 10).push(digit_char(n as nat % 10)));
        s
    }
}

/// The value of a run of decimal digits.
pub open spec fn digits_value(s: Seq<char>) -> nat
    decreases s.len(),
{
    if s.len() == 0 {
        0
    } else {
        digits_value(s.drop_last()) * 10 + (s.last() as u32 - '0' as u32) as nat
    }
}

pub open spec fn all_digits(s: Seq<char>) -> bool {
    forall|i: int| 0 <= i < s.len() ==> is_digit(#[trigger] s[i])
}

/// The digits of a number: what follows an optional `+`.
pub open spec fn unsigned_digits(s: Seq<char>) -> Seq<char> {
    if s.len() > 0 && s[0] == '+' {
        s.drop_first()
    } else {
        s
    }
}

/// The byte that a text names: an optional `+`, then one or more decimal digits
/// whose value fits. Anything else names none.
pub open spec fn byte_value(s: Seq<char>) -> Option<u8> {
    let d = unsigned_digits(s);
    if d.len() > 0 && all_digits(d) && digits_value(d) <= 255 {
        Some(digits_value(d) as u8)
    } else {
        None
    }
}

proof fn lemma_digits_value_grows(s: Seq<char>, k: int)
    requires
        0 <= k <= s.len(),
        all_digits(s),
    ensures
        digits_value(s.subrange(0, k)) <= digits_value(s),
    decreases s.len() - k,
{
    if k == s.len() {
        assert(s.subrange(0, k) =~= s);
    } else {
        let t = s.drop_last();
        assert forall|i: int| 0 <= i < t.len() implies is_digit(#[trigger] t[i]) by {
            assert(is_digit(s[i]));
        }
        lemma_digits_value_grows(t, k);
        assert(t.subrange(0, k) =~= s.subrange(0, k));
        assert(is_digit(s.last()));
    }
}

/// Reads a byte from its decimal text.
pub fn parse_byte(s: &str) -> (r: Option<u8>)
    ensures
        r == byte_value(s@),
{
    let n: usize = s.unicode_len();
    let start: usize = if n > 0 && s.get_char(0) == '+' {
        1
    } else {
        0
    };
    let ghost d = unsigned_digits(s@);
    proof {
        assert(d =~= s@.subrange(start as int, n as int));
    }
    if start == n {
        return None;
    }
    let mut value: u32 = 0;
    let mut i: usize = start;
    while i < n
        invariant
            n == s@.len(),
            start <= i <= n,
            d == s@.subrange(start as int, n as int),
            d == unsigned_digits(s@),
            all_digits(d.subrange(0, i - start)),
            value == digits_value(d.subrange(0, i - start)),
            value <= 255,
        decreases n - i,
    {
        let c = s.get_char(i);
        let ghost k = i - start;
        assert(d[k] == c);
        if !is_ascii_digit(c) {
            assert(!is_digit(d[k]));
            return None;
        }
        let next: u32 = value * 10 + (c as u32 - '0' as u32);
        proof {
            let p = d.subrange(0, k + 1);
            assert(p.drop_last() =~= d.subrange(0, k));
            assert(p.last() == c);
            assert forall|j: int| 0 <= j < p.len() implies is_digit(#[trigger] p[j]) by {
                if j < k {
                    assert(d.subrange(0, k)[j] == p[j]);
                }
            }
            assert(digits_value(p) == next);
        }
        if next > 255 {
            proof {
                if all_digits(d) {
                    lemma_digits_value_grows(d, k + 1);
                }
            }
            return None;
        }
        value = next;
        i = i + 1;
    }
    assert(d.subrange(0, n - start) =~= d);
    Some(value as u8)
}

// ---------------------------------------------------------------------------
// Laws
// ---------------------------------------------------------------------------

/// A text is split at every occurrence of the character and nowhere else: no part holds the
/// character, a text without it is its only part, and what is split of two texts with the
/// character between them is what is split of each.
pub proof fn law_a_text_is_split_at_every_occurrence(s: Seq<char>, c: char, rest: Seq<char>)
    ensures
        split_on(s, c).len() >= 1,
        forall|k: int|
            0 <= k < split_on(s, c).len() ==> !(#[trigger] split_on(s, c)[k]).contains(c),
        !s.contains(c) ==> split_on(s, c) == seq![s],
        split_on(s + seq![c] + rest, c) == split_on(s, c) + split_on(rest, c),
    decreases s.len(),
{
    lemma_split_on_joined(s, c, rest);
    lemma_index_of_char_place(s, c);
    let k = index_of_char(s, c);
    if k < s.len() {
        let head = s.subrange(0, k);
        let tail = s.subrange(k + 1, s.len() as int);
        law_a_text_is_split_at_every_occurrence(tail, c, rest);
        let parts = split_on(s, c);
        assert(parts =~= seq![head] + split_on(tail, c));
        assert(s[k] == c);
        assert forall|j: int| 0 <= j < parts.len() implies !(#[trigger] parts[j]).contains(c) by {
            if j == 0 {
                assert(parts[0] == head);
            } else {
                assert(parts[j] == split_on(tail, c)[j - 1]);
            }
        }
    } else {
        assert(split_on(s, c) == seq![s]);
    }
}

/// Trimming takes off the white space at both ends and nothing else.
pub proof fn law_trimming_takes_white_space_off_both_ends(
    before: Seq<char>,
    s: Seq<char>,
    after: Seq<char>,
)
    requires
        forall|i: int| 0 <= i < before.len() ==> is_space(before[i]),
        forall|i: int| 0 <= i < after.len() ==> is_space(after[i]),
        s.len() > 0 ==> !is_space(s[0]) && !is_space(s.last()),
    ensures
        trimmed(before + s + after) == s,
{
    let all = before + s + after;
    if s.len() == 0 {
        assert forall|j: int| 0 <= j < all.len() implies is_space(all[j]) by {
            if j < before.len() {
                assert(all[j] == before[j]);
            } else {
                assert(all[j] == after[j - before.len()]);
            }
        }
        lemma_trimmed_start(all, all.len() as int);
        assert(trimmed(all) =~= s);
    } else {
        assert forall|j: int| 0 <= j < before.len() implies is_space(all[j]) by {
            assert(all[j] == before[j]);
        }
        assert(all[before.len() as int] == s[0]);
        lemma_trimmed_start(all, before.len() as int);
        let t = all.subrange(before.len() as int, all.len() as int);
        assert(t =~= s + after);
        assert forall|j: int| s.len() <= j < t.len() implies is_space(t[j]) by {
            assert(t[j] == after[j - s.len()]);
        }
        assert(t[s.len() - 1] == s.last());
        lemma_trimmed_end(t, s.len() as int);
        assert(t.subrange(0, s.len() as int) =~= s);
    }
}

/// Of ASCII, the white space is the space and what moves the cursor: tabs, line feed, form feed
/// and carriage return.
pub proof fn law_ascii_white_space(c: char)
    requires
        c as u32 <= 0x7f,
    ensures
        is_space(c) <==> c == ' ' || c == '\t' || c == '\n' || c == '\r' || c as u32 == 0x0b
            || c as u32 == 0x0c,
{
}

/// The case of an ASCII letter is changed to the other letter of its pair and back; what is no
/// letter has no case.
pub proof fn law_ascii_case_comes_in_pairs(c: char)
    ensures
        0x61 <= c as u32 <= 0x7a ==> ascii_upper_char(c) as u32 + 0x20 == c as u32
            && ascii_lower_char(ascii_upper_char(c)) == c && ascii_lower_char(c) == c,
        0x41 <= c as u32 <= 0x5a ==> ascii_lower_char(c) as u32 == c as u32 + 0x20
            && ascii_upper_char(ascii_lower_char(c)) == c && ascii_upper_char(c) == c,
        !(0x61 <= c as u32 <= 0x7a) && !(0x41 <= c as u32 <= 0x5a) ==> ascii_lower_char(c) == c
            && ascii_upper_char(c) == c,
{
}

/// A number is read back from its decimal digits, which start with no zero.
pub proof fn law_a_number_is_read_back_from_its_digits(n: nat)
    ensures
        decimal(n).len() > 0,
        forall|i: int|
            0 <= i < decimal(n).len() ==> '0' as u32 <= (#[trigger] decimal(n)[i]) as u32
                <= '9' as u32,
        n > 0 ==> decimal(n)[0] != '0',
        digits_value(decimal(n)) == n,
        n <= 255 ==> byte_value(decimal(n)) == Some(n as u8) && byte_value(
            seq!['+'] + decimal(n),
        ) == Some(n as u8),
        n > 255 ==> byte_value(decimal(n)) is None && byte_value(seq!['+'] + decimal(n)) is None,
    decreases n,
{
    let d = decimal(n);
    if n < 10 {
        assert(d.drop_last() =~= Seq::<char>::empty());
        assert(digits_value(d.drop_last()) == 0);
        assert(d.last() == digit_char(n));
        assert(digit_char(n) as u32 - '0' as u32 == n);
    } else {
        law_a_number_is_read_back_from_its_digits(n / 10);
        let h = decimal(n / 10);
        assert(d.drop_last() =~= h);
        assert(d.last() == digit_char(n % 10));
        assert(digit_char(n % 10) as u32 - '0' as u32 == n % 10);
        assert forall|i: int| 0 <= i < d.len() implies '0' as u32 <= (#[trigger] d[i]) as u32
            <= '9' as u32 by {
            if i < h.len() {
                assert(d[i] == h[i]);
            }
        }
        assert(d[0] == h[0]);
    }
    assert(d[0] != '+');
    let signed = seq!['+'] + d;
    assert(signed[0] == '+');
    assert(signed.drop_first() =~= d);
}

/// A text of anything but digits after an optional plus, or of nothing, names no byte.
pub proof fn law_only_digits_name_a_byte(s: Seq<char>, i: int)
    ensures
        byte_value(Seq::<char>::empty()) is None,
        byte_value(seq!['+']) is None,
        1 <= i < s.len() && !('0' as u32 <= s[i] as u32 <= '9' as u32) ==> byte_value(s) is None,
        s.len() > 0 && !('0' as u32 <= s[0] as u32 <= '9' as u32) && s[0] != '+' ==> byte_value(
            s,
        ) is None,
{
    if 1 <= i < s.len() {
        let d = unsigned_digits(s);
        if s[0] == '+' {
            assert(d[i - 1] == s[i]);
        } else {
            assert(d[i] == s[i]);
        }
    }
    if s.len() > 0 && s[0] != '+' {
        assert(unsigned_digits(s)[0] == s[0]);
    }
    assert(seq!['+'].drop_first().len() == 0);
}

} // verus!
