//! Text as sequences of characters: prefixes, equality, ASCII case, decimal
//! numbers and trimming.

use vstd::prelude::*;
use vstd::string::{StrSliceExecFns, StringExecFns};

verus! {

/// An optional text over characters.
pub open spec fn text_view(t: Option<&str>) -> Option<Seq<char>> {
    match t {
        Some(s) => Some(s@),
        None => None,
    }
}

/// An optional string over characters.
pub open spec fn owned_view(t: Option<String>) -> Option<Seq<char>> {
    match t {
        Some(s) => Some(s@),
        None => None,
    }
}

/// The lower-case form of an ASCII letter; every other character is left as it is.
pub open spec fn ascii_lower(c: char) -> char {
    if 'A' <= c <= 'Z' {
        ((c as u8) + 32) as char
    } else {
        c
    }
}

/// Every character of `s` in its ASCII lower-case form.
pub open spec fn ascii_lowercase(s: Seq<char>) -> Seq<char> {
    s.map_values(|c: char| ascii_lower(c))
}

/// The character that writes the digit `d`.
pub open spec fn digit_char(d: nat) -> char {
    seq!['0', '1', '2', '3', '4', '5', '6', '7', '8', '9'][d as int]
}

/// `n` written in decimal, without leading zeros.
pub open spec fn decimal(n: nat) -> Seq<char>
    decreases n,
{
    if n < 10 {
        seq![digit_char(n)]
    } else {
        decimal(n / 10).push(digit_char(n % 10))
    }
}

/// Different numbers are written differently.
pub proof fn law_decimals_differ(a: nat, b: nat)
    requires
        a != b,
    ensures
        decimal(a) != decimal(b),
    decreases a,
{
    if decimal(a) == decimal(b) {
        lemma_decimal_len(a);
        lemma_decimal_len(b);
        assert(decimal(a).last() == digit_char(a % 10));
        assert(decimal(b).last() == digit_char(b % 10));
        assert(a % 10 == b % 10);
        if a >= 10 {
            assert(decimal(a).drop_last() =~= decimal(a / 10));
            assert(decimal(b).drop_last() =~= decimal(b / 10));
            law_decimals_differ(a / 10, b / 10);
        }
    }
}

proof fn lemma_decimal_len(n: nat)
    ensures
        decimal(n).len() >= 1,
        n >= 10 <==> decimal(n).len() >= 2,
    decreases n,
{
    if n >= 10 {
        lemma_decimal_len(n / 10);
    }
}

/// Whether `c` has the Unicode property `White_Space`.
pub open spec fn white_space(c: char) -> bool {
    ||| '\u{9}' <= c <= '\u{d}'
    ||| c == '\u{20}'
    ||| c == '\u{85}'
    ||| c == '\u{a0}'
    ||| c == '\u{1680}'
    ||| '\u{2000}' <= c <= '\u{200a}'
    ||| c == '\u{2028}'
    ||| c == '\u{2029}'
    ||| c == '\u{202f}'
    ||| c == '\u{205f}'
    ||| c == '\u{3000}'
}

/// Whether `c` has the Unicode property `White_Space`.
pub fn is_white_space(c: char) -> (found: bool)
    ensures
        found == white_space(c),
{
    ('\u{9}' <= c && c <= '\u{d}') || c == '\u{20}' || c == '\u{85}' || c == '\u{a0}' || c
        == '\u{1680}' || ('\u{2000}' <= c && c <= '\u{200a}') || c == '\u{2028}' || c == '\u{2029}' || c
        == '\u{202f}' || c == '\u{205f}' || c == '\u{3000}'
}

/// Whether `t` is what is left of `s` without the white space at both its ends.
pub open spec fn is_trimmed(s: Seq<char>, t: Seq<char>) -> bool {
    exists|from: int, to: int| #[trigger] trims_to(s, t, from, to)
}

/// Whether `t` is `s` from `from` to `to`, all the rest of `s` is white space,
/// and the first and the last character of `t` are not.
pub open spec fn trims_to(s: Seq<char>, t: Seq<char>, from: int, to: int) -> bool {
    &&& 0 <= from <= to <= s.len()
    &&& t == s.subrange(from, to)
    &&& forall|i: int| 0 <= i < from || to <= i < s.len() ==> white_space(#[trigger] s[i])
    &&& from < to ==> !white_space(s[from]) && !white_space(s[to - 1])
}

/// Trimming has one result.
pub proof fn law_trimming_is_unique(s: Seq<char>, a: Seq<char>, b: Seq<char>)
    requires
        is_trimmed(s, a),
        is_trimmed(s, b),
    ensures
        a == b,
{
    let (from, to) = choose|from: int, to: int| #[trigger] trims_to(s, a, from, to);
    let (f, t) = choose|f: int, t: int| #[trigger] trims_to(s, b, f, t);
    if from < to {
        assert(!white_space(s[from]) && !white_space(s[to - 1]));
    }
    if f < t {
        assert(!white_space(s[f]) && !white_space(s[t - 1]));
    }
    assert(a =~= b);
}

/// Trimming what is trimmed changes nothing.
pub proof fn law_trimming_is_idempotent(s: Seq<char>, t: Seq<char>)
    requires
        is_trimmed(s, t),
    ensures
        is_trimmed(t, t),
{
    let (from, to) = choose|from: int, to: int| #[trigger] trims_to(s, t, from, to);
    assert(t =~= t.subrange(0, t.len() as int));
    assert(trims_to(t, t, 0, t.len() as int));
}

/// Whether two texts are equal.
pub fn same(a: &str, b: &str) -> (equal: bool)
    ensures
        equal == (a@ == b@),
{
    if starts_with(a, b) && starts_with(b, a) {
        assert(a@ =~= b@);
        true
    } else {
        false
    }
}

/// Whether `prefix` begins the ASCII lower-case form of `s`.
pub fn lowercase_starts_with(s: &str, prefix: &str) -> (found: bool)
    ensures
        found == prefix@.is_prefix_of(ascii_lowercase(s@)),
{
    let mut rest = s.chars();
    let mut wanted = prefix.chars();
    let ghost mut n: int = 0;
    loop
        invariant
            0 <= n <= s@.len(),
            n <= prefix@.len(),
            vstd::std_specs::iter::IteratorSpec::remaining(&rest) == s@.skip(n),
            vstd::std_specs::iter::IteratorSpec::remaining(&wanted) == prefix@.skip(n),
            prefix@.take(n) == ascii_lowercase(s@).take(n),
        decreases prefix@.len() - n,
    {
        match wanted.next() {
            None => {
                assert(prefix@.take(n) =~= prefix@);
                return true;
            },
            Some(w) => match rest.next() {
                None => {
                    return false;
                },
                Some(c) => {
                    let l = if 'A' <= c && c <= 'Z' {
                        ((c as u8) + 32) as char
                    } else {
                        c
                    };
                    assert(ascii_lowercase(s@)[n] == l);
                    if l != w {
                        assert(prefix@[n] == w);
                        return false;
                    }
                    proof {
                        assert(prefix@.take(n + 1) =~= prefix@.take(n).push(w));
                        assert(ascii_lowercase(s@).take(n + 1) =~= ascii_lowercase(s@).take(n).push(l));
                        assert(s@.skip(n).drop_first() =~= s@.skip(n + 1));
                        assert(prefix@.skip(n).drop_first() =~= prefix@.skip(n + 1));
                        n = n + 1;
                    }
                },
            },
        }
    }
}

/// `s` without the white space at its ends.
pub fn trim(s: &str) -> (t: String)
    ensures
        is_trimmed(s@, t@),
{
    let len = s.unicode_len();
    let mut rest = s.chars();
    let mut from: usize = 0;
    let mut to: usize = 0;
    let mut n: usize = 0;
    while n < len
        invariant
            from <= to <= n <= len == s@.len(),
            vstd::std_specs::iter::IteratorSpec::remaining(&rest) == s@.skip(n as int),
            forall|i: int| 0 <= i < from || to <= i < n ==> white_space(#[trigger] s@[i]),
            from < to ==> !white_space(s@[from as int]) && !white_space(s@[to - 1]),
        decreases len - n,
    {
        match rest.next() {
            Some(c) => {
                assert(c == s@[n as int]);
                if !is_white_space(c) {
                    if from == to {
                        from = n;
                    }
                    to = n + 1;
                }
            },
            None => {},
        }
        assert(s@.skip(n as int).drop_first() =~= s@.skip(n + 1));
        n = n + 1;
    }
    let t = s.substring_char(from, to).to_owned();
    assert(trims_to(s@, t@, from as int, to as int));
    t
}

/// The digit `d` as text.
fn digit(d: u16) -> (t: &'static str)
    requires
        d < 10,
    ensures
        t@ == seq![digit_char(d as nat)],
{
    proof {
        reveal_strlit("0");
        reveal_strlit("1");
        reveal_strlit("2");
        reveal_strlit("3");
        reveal_strlit("4");
        reveal_strlit("5");
        reveal_strlit("6");
        reveal_strlit("7");
        reveal_strlit("8");
        reveal_strlit("9");
    }
    match d {
        0 => "0",
        1 => "1",
        2 => "2",
        3 => "3",
        4 => "4",
        5 => "5",
        6 => "6",
        7 => "7",
        8 => "8",
        _ => "9",
    }
}

/// `n` as decimal text.
pub fn to_decimal(n: u16) -> (t: String)
    ensures
        t@ == decimal(n as nat),
    decreases n,
{
    if n < 10 {
        digit(n).to_owned()
    } else {
        to_decimal(n / 10).concat(digit(n % 10))
    }
}

/// Whether `prefix` begins `s`.
pub fn starts_with(s: &str, prefix: &str) -> (found: bool)
    ensures
        found == prefix@.is_prefix_of(s@),
{
    let mut rest = s.chars();
    let mut wanted = prefix.chars();
    let ghost mut n: int = 0;
    loop
        invariant
            0 <= n <= s@.len(),
            n <= prefix@.len(),
            vstd::std_specs::iter::IteratorSpec::remaining(&rest) == s@.skip(n),
            vstd::std_specs::iter::IteratorSpec::remaining(&wanted) == prefix@.skip(n),
            prefix@.take(n) == s@.take(n),
        decreases prefix@.len() - n,
    {
        match wanted.next() {
            None => {
                assert(prefix@.take(n) =~= prefix@);
                return true;
            },
            Some(w) => match rest.next() {
                None => {
                    return false;
                },
                Some(c) => {
                    if c != w {
                        assert(s@[n] != prefix@[n]);
                        return false;
                    }
                    proof {
                        assert(prefix@.take(n + 1) =~= prefix@.take(n).push(w));
                        assert(s@.take(n + 1) =~= s@.take(n).push(c));
                        assert(s@.skip(n).drop_first() =~= s@.skip(n + 1));
                        assert(prefix@.skip(n).drop_first() =~= prefix@.skip(n + 1));
                        n = n + 1;
                    }
                },
            },
        }
    }
}

/// The lower-case form of a character is no upper-case letter, and differs from
/// the character only for an upper-case letter, by the distance of the two
/// alphabets.
pub proof fn law_lower_case_changes_letters_only(c: char)
    ensures
        !('A' <= ascii_lower(c) && ascii_lower(c) <= 'Z'),
        ascii_lower(c) != c ==> 'A' <= c && c <= 'Z' && ascii_lower(c) as int == c as int + 32,
{
}

/// Lower-casing keeps every character in its place and changes the upper-case
/// letters only.
pub proof fn law_lower_case_keeps_places(s: Seq<char>, i: int)
    requires
        0 <= i < s.len(),
    ensures
        ascii_lowercase(s).len() == s.len(),
        !('A' <= s[i] && s[i] <= 'Z') ==> ascii_lowercase(s)[i] == s[i],
        'A' <= s[i] && s[i] <= 'Z' ==> ascii_lowercase(s)[i] as int == s[i] as int + 32,
{
}

/// Whether `prefix` begins `s` when ASCII case is ignored in `s`: character by
/// character, `s` has what `prefix` has, or the upper-case letter for its
/// lower-case one, and `prefix` has no upper-case letter.
pub open spec fn begins_in_any_case(s: Seq<char>, prefix: Seq<char>) -> bool {
    &&& prefix.len() <= s.len()
    &&& forall|i: int|
        0 <= i < prefix.len() ==> {
            let c = #[trigger] prefix[i];
            &&& !('A' <= c && c <= 'Z')
            &&& s[i] == c || ('a' <= c && c <= 'z' && s[i] as int == c as int - 32)
        }
}

/// The lower-case form of a text begins with `prefix` exactly where the text
/// itself does when the case of its ASCII letters is ignored.
pub proof fn law_lower_case_prefixes(s: &str, prefix: &str, found: bool)
    requires
        call_ensures(lowercase_starts_with, (s, prefix), found),
    ensures
        found == begins_in_any_case(s@, prefix@),
{
    lemma_lower_case_prefix(s@, prefix@);
}

pub(crate) proof fn lemma_lower_case_prefix(s: Seq<char>, prefix: Seq<char>)
    ensures
        prefix.is_prefix_of(ascii_lowercase(s)) == begins_in_any_case(s, prefix),
{
    let lower = ascii_lowercase(s);
    if prefix.is_prefix_of(lower) {
        assert forall|i: int| 0 <= i < prefix.len() implies {
            let c = #[trigger] prefix[i];
            &&& !('A' <= c && c <= 'Z')
            &&& s[i] == c || ('a' <= c && c <= 'z' && s[i] as int == c as int - 32)
        } by {
            assert(prefix[i] == lower[i]);
            law_lower_case_keeps_places(s, i);
        }
    }
    if begins_in_any_case(s, prefix) {
        assert forall|i: int| 0 <= i < prefix.len() implies prefix[i] == lower[i] by {
            law_lower_case_keeps_places(s, i);
        }
    }
}

/// A text begins with `prefix` exactly where it is `prefix` and something after it.
pub proof fn law_prefixes_are_beginnings(s: &str, prefix: &str, found: bool)
    requires
        call_ensures(starts_with, (s, prefix), found),
    ensures
        found <==> exists|rest: Seq<char>| s@ == #[trigger] (prefix@ + rest),
{
    lemma_prefix_is_beginning(s@, prefix@);
}

pub(crate) proof fn lemma_prefix_is_beginning(s: Seq<char>, prefix: Seq<char>)
    ensures
        prefix.is_prefix_of(s) <==> exists|rest: Seq<char>| s == #[trigger] (prefix + rest),
{
    if prefix.is_prefix_of(s) {
        assert(s =~= prefix + s.skip(prefix.len() as int));
    }
}

/// Two texts are the same exactly where they have the same characters.
pub proof fn law_same_texts(a: &str, b: &str, equal: bool)
    requires
        call_ensures(same, (a, b), equal),
    ensures
        equal <==> a@.len() == b@.len() && forall|i: int|
            0 <= i < a@.len() ==> #[trigger] a@[i] == b@[i],
{
    if a@.len() == b@.len() && forall|i: int| 0 <= i < a@.len() ==> #[trigger] a@[i] == b@[i] {
        assert(a@ =~= b@);
    }
}

/// The number that a text of decimal digits writes.
pub open spec fn number_read(t: Seq<char>) -> int
    decreases t.len(),
{
    if t.len() == 0 {
        0
    } else {
        10 * number_read(t.drop_last()) + (t.last() as int - '0' as int)
    }
}

/// Whether a text is the number `n`: digits only, no zero before them, and read
/// as a number they give `n`.
pub open spec fn writes_number(t: Seq<char>, n: int) -> bool {
    &&& t.len() > 0
    &&& forall|i: int| 0 <= i < t.len() ==> '0' <= #[trigger] t[i] && t[i] <= '9'
    &&& t.len() > 1 ==> t[0] != '0'
    &&& number_read(t) == n
}

/// A number is written in digits, without zeros before them, and reads back as
/// the number that it is.
pub proof fn law_decimals_read_back(n: nat)
    ensures
        writes_number(decimal(n), n as int),
    decreases n,
{
    let t = decimal(n);
    if n < 10 {
        reveal_with_fuel(number_read, 2);
        assert(t.drop_last() =~= Seq::empty());
    } else {
        law_decimals_read_back(n / 10);
        lemma_decimal_len(n / 10);
        let front = decimal(n / 10);
        assert(t.drop_last() =~= front);
        assert forall|i: int| 0 <= i < t.len() implies '0' <= #[trigger] t[i] && t[i] <= '9' by {
            if i < front.len() {
                assert(t[i] == front[i]);
            }
        }
        assert(t[0] == front[0]);
        if front.len() == 1 {
            reveal_with_fuel(number_read, 2);
            assert(front.drop_last() =~= Seq::empty());
        }
    }
}

/// The text of a number is digits without zeros before them, and reads back as
/// the number.
pub proof fn law_decimal_text_reads_back(n: u16, t: String)
    requires
        call_ensures(to_decimal, (n,), t),
    ensures
        writes_number(t@, n as int),
{
    law_decimals_read_back(n as nat);
}

/// Whether `t` is `s` between two runs of white space, and neither begins nor
/// ends with white space itself.
pub open spec fn stands_between_space(
    s: Seq<char>,
    t: Seq<char>,
    before: Seq<char>,
    after: Seq<char>,
) -> bool {
    &&& s == before + t + after
    &&& forall|i: int| 0 <= i < before.len() ==> white_space(#[trigger] before[i])
    &&& forall|i: int| 0 <= i < after.len() ==> white_space(#[trigger] after[i])
    &&& t.len() > 0 ==> !white_space(t[0]) && !white_space(t[t.len() - 1])
}

/// To trim is to take white space off both ends, all of it and nothing else.
pub proof fn law_trimming_takes_off_space(s: Seq<char>, t: Seq<char>)
    ensures
        is_trimmed(s, t) <==> exists|before: Seq<char>, after: Seq<char>| #[trigger]
            stands_between_space(s, t, before, after),
{
    if is_trimmed(s, t) {
        let (from, to) = choose|from: int, to: int| #[trigger] trims_to(s, t, from, to);
        let before = s.take(from);
        let after = s.skip(to);
        assert(s =~= before + t + after);
        assert forall|i: int| 0 <= i < before.len() implies white_space(#[trigger] before[i]) by {
            assert(before[i] == s[i]);
        }
        assert forall|i: int| 0 <= i < after.len() implies white_space(#[trigger] after[i]) by {
            assert(after[i] == s[i + to]);
        }
        assert(stands_between_space(s, t, before, after));
    }
    if exists|before: Seq<char>, after: Seq<char>| #[trigger]
        stands_between_space(s, t, before, after) {
        let (before, after) = choose|before: Seq<char>, after: Seq<char>| #[trigger]
            stands_between_space(s, t, before, after);
        let from = before.len() as int;
        let to = from + t.len();
        assert(t =~= s.subrange(from, to));
        assert forall|i: int| 0 <= i < from || to <= i < s.len() implies white_space(
            #[trigger] s[i],
        ) by {
            if i < from {
                assert(s[i] == before[i]);
            } else {
                assert(s[i] == after[i - to]);
            }
        }
        if from < to {
            assert(s[from] == t[0]);
            assert(s[to - 1] == t[t.len() - 1]);
        }
        assert(trims_to(s, t, from, to));
    }
}

/// A trimmed text is the text without the white space at both its ends.
pub proof fn law_trimmed_texts(s: &str, t: String)
    requires
        call_ensures(trim, (s,), t),
    ensures
        exists|before: Seq<char>, after: Seq<char>| #[trigger]
            stands_between_space(s@, t@, before, after),
{
    law_trimming_takes_off_space(s@, t@);
}

} // verus!
