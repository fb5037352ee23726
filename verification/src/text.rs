//! Text primitives shared by the configuration and protocol modules.

use vstd::prelude::*;
use vstd::string::*;

verus! {

/// The Unicode `White_Space` property.
pub open spec fn is_white_space(c: char) -> bool {
    let u = c as u32;
    ||| 0x09 <= u <= 0x0d
    ||| u == 0x20
    ||| u == 0x85
    ||| u == 0xa0
    ||| u == 0x1680
    ||| 0x2000 <= u <= 0x200a
    ||| u == 0x2028
    ||| u == 0x2029
    ||| u == 0x202f
    ||| u == 0x205f
    ||| u == 0x3000
}

/// `s` without its leading white space.
pub open spec fn without_leading_space(s: Seq<char>) -> Seq<char>
    decreases s.len(),
{
    if s.len() > 0 && is_white_space(s[0]) {
        without_leading_space(s.drop_first())
    } else {
        s
    }
}

/// `s` without its trailing white space.
pub open spec fn without_trailing_space(s: Seq<char>) -> Seq<char>
    decreases s.len(),
{
    if s.len() > 0 && is_white_space(s.last()) {
        without_trailing_space(s.drop_last())
    } else {
        s
    }
}

/// `s` without white space at either end.
pub open spec fn trimmed(s: Seq<char>) -> Seq<char> {
    without_trailing_space(without_leading_space(s))
}

/// `c` in lower case if it is an ASCII letter, `c` itself otherwise.
pub open spec fn ascii_lower(c: char) -> char {
    if 'A' <= c && c <= 'Z' {
        (c as u32 + 32) as char
    } else {
        c
    }
}

/// `s` with every ASCII letter in lower case.
pub open spec fn lowered(s: Seq<char>) -> Seq<char> {
    s.map_values(|c: char| ascii_lower(c))
}

/// The form in which setting values are compared: trimmed, in ASCII lower case.
pub open spec fn normalized(s: Seq<char>) -> Seq<char> {
    lowered(trimmed(s))
}

/// `str::trim` returns the text without the white space, by the Unicode
/// `White_Space` property, at its two ends.
pub assume_specification[ str::trim ](s: &str) -> (res: &str)
    ensures
        res@ == trimmed(s@),
;

/// `str::to_ascii_lowercase` maps the letters `A` to `Z` to `a` to `z` and
/// leaves every other character as it is.
pub assume_specification[ str::to_ascii_lowercase ](s: &str) -> (res: String)
    ensures
        res@ == lowered(s@),
;

/// `==` on `str` holds exactly when the two texts have the same characters.
pub assume_specification[ <str as PartialEq>::eq ](s: &str, other: &str) -> (res: bool)
    ensures
        res == (s@ == other@),
;

/// Brings a setting value into the form in which it is compared.
pub fn normalize(value: &str) -> (res: String)
    ensures
        res@ == normalized(value@),
        res@ == lowered(trimmed(value@)),
{
    value.trim().to_ascii_lowercase()
}

/// The character of a decimal digit.
pub open spec fn digit_char(d: nat) -> char {
    (48 + d) as char
}

/// `n` in decimal, without leading zeros.
pub open spec fn decimal_digits(n: nat) -> Seq<char>
    decreases n,
{
    if n < 10 {
        seq![digit_char(n)]
    } else {
        decimal_digits(n / 10).push(digit_char(n % 10))
    }
}

/// The text of a single decimal digit.
fn digit_text(d: u32) -> (res: &'static str)
    requires
        d < 10,
    ensures
        res@ == seq![digit_char(d as nat)],
{
    proof {
        reveal_strlit("0");
        reveal_strlit("1");
        reveal_strlit("2");
        reveal_strlit("3");
        reveal_strlit("4");
        reveal_strlit("5");
        reveal_strlit("6");
        reveal_strlit("7");
        reveal_strlit("8");
        reveal_strlit("9");
    }
    match d {
        0 => "0",
        1 => "1",
        2 => "2",
        3 => "3",
        4 => "4",
        5 => "5",
        6 => "6",
        7 => "7",
        8 => "8",
        _ => "9",
    }
}

/// Writes `n` in decimal.
pub fn decimal(n: u32) -> (res: String)
    ensures
        res@ == decimal_digits(n as nat),
        decimal_value(res@) == n,
    decreases n,
{
    proof {
        decimal_text_reads_back(n as nat);
    }
    if n < 10 {
        digit_text(n).to_owned()
    } else {
        let mut res = decimal(n / 10);
        res.append(digit_text(n % 10));
        res
    }
}

/// Every character of `s` is white space.
pub open spec fn all_white_space(s: Seq<char>) -> bool {
    forall|i: int| 0 <= i < s.len() ==> is_white_space(#[trigger] s[i])
}

proof fn lemma_leading_space_dropped(a: Seq<char>, s: Seq<char>)
    requires
        all_white_space(a),
    ensures
        without_leading_space(a + s) == without_leading_space(s),
    decreases a.len(),
{
    if a.len() == 0 {
        assert(a + s == s);
    } else {
        assert((a + s)[0] == a[0]);
        assert((a + s).drop_first() == a.drop_first() + s);
        lemma_leading_space_dropped(a.drop_first(), s);
    }
}

proof fn lemma_trailing_space_dropped(s: Seq<char>, b: Seq<char>)
    requires
        all_white_space(b),
    ensures
        without_trailing_space(s + b) == without_trailing_space(s),
    decreases b.len(),
{
    if b.len() == 0 {
        assert(s + b == s);
    } else {
        assert((s + b).last() == b.last());
        assert((s + b).drop_last() == s + b.drop_last());
        lemma_trailing_space_dropped(s, b.drop_last());
    }
}

/// A text without white space at its start, in front of white space: either
/// both start in the same place or all of it is white space.
proof fn lemma_leading_space_before_tail(s: Seq<char>, b: Seq<char>)
    requires
        all_white_space(b),
    ensures
        without_trailing_space(without_leading_space(s + b)) == without_trailing_space(
            without_leading_space(s),
        ),
    decreases s.len(),
{
    if s.len() == 0 {
        assert(s + b == b);
        assert(b + s == b);
        lemma_leading_space_dropped(b, s);
    } else if is_white_space(s[0]) {
        assert((s + b)[0] == s[0]);
        assert((s + b).drop_first() == s.drop_first() + b);
        lemma_leading_space_before_tail(s.drop_first(), b);
    } else {
        assert((s + b)[0] == s[0]);
        lemma_trailing_space_dropped(s, b);
    }
}

/// White space around a text does not change its trimmed form.
pub proof fn outer_space_is_ignored(a: Seq<char>, s: Seq<char>, b: Seq<char>)
    requires
        all_white_space(a),
        all_white_space(b),
    ensures
        trimmed(a + s + b) == trimmed(s),
        normalized(a + s + b) == normalized(s),
{
    assert(a + s + b == a + (s + b));
    lemma_leading_space_dropped(a, s + b);
    lemma_leading_space_before_tail(s, b);
}

/// Two texts that differ only in the case of ASCII letters have the same
/// normalized form.
pub proof fn letter_case_is_ignored(s: Seq<char>, t: Seq<char>)
    requires
        lowered(s) == lowered(t),
    ensures
        normalized(s) == normalized(t),
{
    lemma_lowering_keeps_space(s);
    lemma_lowering_keeps_space(t);
}

proof fn lemma_ascii_lower_keeps_space(c: char)
    ensures
        is_white_space(ascii_lower(c)) == is_white_space(c),
{
}

/// Lowering commutes with trimming.
proof fn lemma_lowering_keeps_space(s: Seq<char>)
    ensures
        lowered(trimmed(s)) == trimmed(lowered(s)),
{
    lemma_lowering_keeps_leading(s);
    lemma_lowering_keeps_trailing(without_leading_space(s));
}

proof fn lemma_lowering_keeps_leading(s: Seq<char>)
    ensures
        lowered(without_leading_space(s)) == without_leading_space(lowered(s)),
    decreases s.len(),
{
    if s.len() > 0 {
        lemma_ascii_lower_keeps_space(s[0]);
        assert(lowered(s).drop_first() == lowered(s.drop_first()));
        lemma_lowering_keeps_leading(s.drop_first());
    }
}

proof fn lemma_lowering_keeps_trailing(s: Seq<char>)
    ensures
        lowered(without_trailing_space(s)) == without_trailing_space(lowered(s)),
    decreases s.len(),
{
    if s.len() > 0 {
        lemma_ascii_lower_keeps_space(s.last());
        assert(lowered(s).drop_last() == lowered(s.drop_last()));
        lemma_lowering_keeps_trailing(s.drop_last());
    }
}

/// A text without upper-case ASCII letters and without white space at its ends
/// is its own normalized form.
pub proof fn lemma_already_normalized(s: Seq<char>)
    requires
        s.len() > 0,
        !is_white_space(s[0]),
        !is_white_space(s.last()),
        forall|i: int| 0 <= i < s.len() ==> ascii_lower(#[trigger] s[i]) == s[i],
    ensures
        normalized(s) == s,
{
    assert(lowered(s) =~= s);
}

proof fn lemma_core_is_its_own_trim(core: Seq<char>)
    requires
        core.len() > 0 ==> !is_white_space(core[0]) && !is_white_space(core.last()),
    ensures
        trimmed(core) == core,
{
}

/// Trimming takes away exactly the white space at the two ends: a text that is
/// a core between white space, where the core neither starts nor ends with
/// white space, is trimmed to that core.
pub proof fn trimming_leaves_the_core(a: Seq<char>, core: Seq<char>, b: Seq<char>)
    requires
        all_white_space(a),
        all_white_space(b),
        core.len() > 0 ==> !is_white_space(core[0]) && !is_white_space(core.last()),
    ensures
        trimmed(a + core + b) == core,
{
    outer_space_is_ignored(a, core, b);
    lemma_core_is_its_own_trim(core);
}

proof fn lemma_leading_cut(s: Seq<char>) -> (k: int)
    ensures
        0 <= k <= s.len(),
        all_white_space(s.take(k)),
        without_leading_space(s) == s.skip(k),
        k < s.len() ==> !is_white_space(s[k]),
    decreases s.len(),
{
    if s.len() > 0 && is_white_space(s[0]) {
        let k = lemma_leading_cut(s.drop_first());
        assert forall|i: int| 0 <= i < k + 1 implies is_white_space(#[trigger] s.take(k + 1)[i]) by {
            if i > 0 {
                assert(s.take(k + 1)[i] == s.drop_first().take(k)[i - 1]);
            }
        }
        assert(s.drop_first().skip(k) =~= s.skip(k + 1));
        if k < s.drop_first().len() {
            assert(s.drop_first()[k] == s[k + 1]);
        }
        k + 1
    } else {
        assert(s.skip(0) =~= s);
        0
    }
}

proof fn lemma_trailing_cut(s: Seq<char>) -> (k: int)
    ensures
        0 <= k <= s.len(),
        all_white_space(s.skip(k)),
        without_trailing_space(s) == s.take(k),
        k > 0 ==> !is_white_space(s[k - 1]),
    decreases s.len(),
{
    if s.len() > 0 && is_white_space(s.last()) {
        let k = lemma_trailing_cut(s.drop_last());
        assert forall|i: int| 0 <= i < s.len() - k implies is_white_space(
            #[trigger] s.skip(k)[i],
        ) by {
            if i < s.len() - k - 1 {
                assert(s.skip(k)[i] == s.drop_last().skip(k)[i]);
            }
        }
        assert(s.drop_last().take(k) =~= s.take(k));
        k
    } else {
        assert(s.take(s.len() as int) =~= s);
        s.len() as int
    }
}

/// Every text is a core between white space, as the laws on trimming speak of
/// it.
pub proof fn every_text_has_a_core(s: Seq<char>) -> (parts: (Seq<char>, Seq<char>, Seq<char>))
    ensures
        s == parts.0 + parts.1 + parts.2,
        all_white_space(parts.0),
        all_white_space(parts.2),
        parts.1.len() > 0 ==> !is_white_space(parts.1[0]) && !is_white_space(parts.1.last()),
{
    let k = lemma_leading_cut(s);
    let t = s.skip(k);
    let j = lemma_trailing_cut(t);
    assert(s =~= s.take(k) + t.take(j) + t.skip(j));
    if j > 0 {
        assert(t.take(j)[0] == s[k]);
        assert(t.take(j).last() == t[j - 1]);
    }
    (s.take(k), t.take(j), t.skip(j))
}

/// The normalized form of a text is its core, character by character: a letter
/// from `A` to `Z` becomes the one 32 places on, and every other character
/// stays.
pub proof fn normal_form_is_the_core_in_lower_case(a: Seq<char>, core: Seq<char>, b: Seq<char>)
    requires
        all_white_space(a),
        all_white_space(b),
        core.len() > 0 ==> !is_white_space(core[0]) && !is_white_space(core.last()),
    ensures
        normalized(a + core + b).len() == core.len(),
        forall|i: int|
            0 <= i < core.len() ==> (#[trigger] normalized(a + core + b)[i]) as u32 == (if 'A'
                <= core[i] <= 'Z' {
                core[i] as u32 + 32
            } else {
                core[i] as u32 as int
            }),
        normalized(a + core + b) == lowered(core),
{
    trimming_leaves_the_core(a, core, b);
}

/// The number that a text of decimal digits stands for.
pub open spec fn decimal_value(digits: Seq<char>) -> int
    decreases digits.len(),
{
    if digits.len() == 0 {
        0
    } else {
        decimal_value(digits.drop_last()) * 10 + (digits.last() as u32 - '0' as u32)
    }
}

/// A number in decimal consists of decimal digits, starts with a zero only if
/// it is zero, and stands for that number.
pub proof fn decimal_text_reads_back(n: nat)
    ensures
        decimal_value(decimal_digits(n)) == n,
        decimal_digits(n).len() > 0,
        forall|i: int|
            0 <= i < decimal_digits(n).len() ==> '0' <= #[trigger] decimal_digits(n)[i] <= '9',
        decimal_digits(n)[0] == '0' ==> n == 0 && decimal_digits(n).len() == 1,
    decreases n,
{
    let digits = decimal_digits(n);
    if n < 10 {
        assert(digits.drop_last() =~= Seq::empty());
        assert(decimal_value(Seq::empty()) == 0);
    } else {
        decimal_text_reads_back(n / 10);
        assert(digits.drop_last() =~= decimal_digits(n / 10));
        assert(digits[0] == decimal_digits(n / 10)[0]);
        assert forall|i: int| 0 <= i < digits.len() implies '0' <= #[trigger] digits[i] <= '9' by {
            if i < digits.len() - 1 {
                assert(digits[i] == decimal_digits(n / 10)[i]);
            }
        }
    }
}

} // verus!
