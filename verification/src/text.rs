//! Characters, white space and the writing of numbers.
use vstd::prelude::*;

verus! {

/// The character has the Unicode property `White_Space`.
pub open spec fn is_space(c: char) -> bool {
    ||| 0x9 <= c as int <= 0xd
    ||| c as int == 0x20
    ||| c as int == 0x85
    ||| c as int == 0xa0
    ||| c as int == 0x1680
    ||| 0x2000 <= c as int <= 0x200a
    ||| c as int == 0x2028
    ||| c as int == 0x2029
    ||| c as int == 0x202f
    ||| c as int == 0x205f
    ||| c as int == 0x3000
}

/// Every character is white space.
pub open spec fn all_space(s: Seq<char>) -> bool {
    forall|i: int| 0 <= i < s.len() ==> is_space(#[trigger] s[i])
}

/// No character is white space.
pub open spec fn no_space(s: Seq<char>) -> bool {
    forall|i: int| 0 <= i < s.len() ==> !is_space(#[trigger] s[i])
}

/// The text without the white space at its start.
pub open spec fn trim_start(s: Seq<char>) -> Seq<char>
    decreases s.len(),
{
    if s.len() > 0 && is_space(s[0]) {
        trim_start(s.drop_first())
    } else {
        s
    }
}

/// The text without the white space at its end.
pub open spec fn trim_end(s: Seq<char>) -> Seq<char>
    decreases s.len(),
{
    if s.len() > 0 && is_space(s.last()) {
        trim_end(s.drop_last())
    } else {
        s
    }
}

/// The text without the white space at its start and its end.
pub open spec fn trimmed(s: Seq<char>) -> Seq<char> {
    trim_end(trim_start(s))
}

/// Tells white space from other characters.
pub fn is_white_space(c: char) -> (r: bool)
    ensures
        r == is_space(c),
{
    let n: u32 = c as u32;
    (0x9 <= n && n <= 0xd) || n == 0x20 || n == 0x85 || n == 0xa0 || n == 0x1680 || (0x2000 <= n
        && n <= 0x200a) || n == 0x2028 || n == 0x2029 || n == 0x202f || n == 0x205f || n == 0x3000
}

/// The characters of a text.
pub fn chars_of(text: &str) -> (r: Vec<char>)
    ensures
        r@ == text@,
{
    let mut chars: Vec<char> = Vec::new();
    for c in it: text.chars()
        invariant
            it.seq() == text@,
            chars@ == text@.take(it.index() as int),
    {
        chars.push(c);
    }
    assert(text@.take(text@.len() as int) =~= text@);
    chars
}

/// Two texts hold the same characters.
pub fn same_text(a: &str, b: &str) -> (r: bool)
    ensures
        r == (a@ == b@),
{
    a.to_string() == b.to_string()
}

/// Drops the white space at both ends of a text.
pub fn trim(text: &str) -> (r: &str)
    ensures
        r@ == trimmed(text@),
{
    let chars = chars_of(text);
    let mut start: usize = 0;
    assert(chars@.skip(0) =~= text@);
    while start < chars.len() && is_white_space(chars[start])
        invariant
            chars@ == text@,
            start <= chars.len(),
            trim_start(chars@.skip(start as int)) == trim_start(text@),
        decreases chars.len() - start,
    {
        assert(chars@.skip(start as int).drop_first() =~= chars@.skip(start + 1));
        start = start + 1;
    }
    let ghost rest = chars@.skip(start as int);
    assert(trim_start(text@) == rest);
    let mut end: usize = chars.len();
    assert(chars@.subrange(start as int, end as int) =~= rest);
    while end > start && is_white_space(chars[end - 1])
        invariant
            chars@ == text@,
            start <= end <= chars.len(),
            trim_end(chars@.subrange(start as int, end as int)) == trim_end(rest),
        decreases end,
    {
        assert(chars@.subrange(start as int, end as int).drop_last() =~= chars@.subrange(
            start as int,
            end - 1,
        ));
        end = end - 1;
    }
    text.substring_char(start, end)
}

/// The decimal digit of a number below ten.
pub open spec fn digit(n: nat) -> char {
    (('0' as nat) + n) as char
}

/// The decimal digits of a natural number.
pub open spec fn digits(n: nat) -> Seq<char>
    decreases n,
{
    if n < 10 {
        seq![digit(n)]
    } else {
        digits(n / 10).push(digit(n % 10))
    }
}

/// A number in decimal notation.
pub open spec fn decimal(n: int) -> Seq<char> {
    if n < 0 {
        seq!['-'] + digits((-n) as nat)
    } else {
        digits(n as nat)
    }
}

/// The digit of a number below ten, as a text.
fn digit_text(n: u128) -> (r: &'static str)
    requires
        n < 10,
    ensures
        r@ == seq![digit(n as nat)],
{
    proof {
        reveal_strlit("0");
        reveal_strlit("1");
        reveal_strlit("2");
        reveal_strlit("3");
        reveal_strlit("4");
        reveal_strlit("5");
        reveal_strlit("6");
        reveal_strlit("7");
        reveal_strlit("8");
        reveal_strlit("9");
    }
    match n {
        0 => "0",
        1 => "1",
        2 => "2",
        3 => "3",
        4 => "4",
        5 => "5",
        6 => "6",
        7 => "7",
        8 => "8",
        _ => "9",
    }
}

/// Writes a natural number in decimal digits.
fn digits_text(n: u128) -> (r: String)
    ensures
        r@ == digits(n as nat),
    decreases n,
{
    if n < 10 {
        digit_text(n).to_string()
    } else {
        let mut written = digits_text(n / 10);
        written.append(digit_text(n % 10));
        assert(written@ =~= digits((n / 10) as nat).push(digit((n % 10) as nat)));
        written
    }
}

/// Writes a number in decimal notation.
pub fn decimal_text(n: i128) -> (r: String)
    ensures
        r@ == decimal(n as int),
{
    if n < 0 {
        let magnitude: u128 = (-(n + 1)) as u128 + 1;
        proof {
            reveal_strlit("-");
            assert("-"@ =~= seq!['-']);
        }
        "-".to_string().concat(digits_text(magnitude).as_str())
    } else {
        digits_text(n as u128)
    }
}

proof fn lemma_trim_start(left: Seq<char>, s: Seq<char>)
    requires
        all_space(left),
    ensures
        trim_start(left + s) == trim_start(s),
    decreases left.len(),
{
    if left.len() == 0 {
        assert(left + s =~= s);
    } else {
        assert((left + s)[0] == left[0]);
        assert((left + s).drop_first() =~= left.drop_first() + s);
        assert forall|i: int| 0 <= i < left.drop_first().len() implies is_space(
            #[trigger] left.drop_first()[i],
        ) by {
            assert(left.drop_first()[i] == left[i + 1]);
        }
        lemma_trim_start(left.drop_first(), s);
    }
}

proof fn lemma_trim_end(s: Seq<char>, right: Seq<char>)
    requires
        all_space(right),
    ensures
        trim_end(s + right) == trim_end(s),
    decreases right.len(),
{
    if right.len() == 0 {
        assert(s + right =~= s);
    } else {
        assert((s + right).last() == right.last());
        assert((s + right).drop_last() =~= s + right.drop_last());
        assert forall|i: int| 0 <= i < right.drop_last().len() implies is_space(
            #[trigger] right.drop_last()[i],
        ) by {
            assert(right.drop_last()[i] == right[i]);
        }
        lemma_trim_end(s, right.drop_last());
    }
}

/// Trimming at the start leaves what is appended alone, unless nothing else is left.
proof fn lemma_trim_start_keeps(s: Seq<char>, right: Seq<char>)
    requires
        all_space(right),
    ensures
        trim_start(s).len() > 0 ==> trim_start(s + right) == trim_start(s) + right,
        trim_start(s).len() == 0 ==> trim_start(s + right).len() == 0,
    decreases s.len(),
{
    if s.len() == 0 {
        assert(s + right =~= right);
        lemma_trim_start(right, Seq::empty());
        assert(right + Seq::<char>::empty() =~= right);
    } else {
        assert((s + right)[0] == s[0]);
        if is_space(s[0]) {
            assert((s + right).drop_first() =~= s.drop_first() + right);
            lemma_trim_start_keeps(s.drop_first(), right);
        }
    }
}

/// Trimming does not depend on the white space around a text.
pub proof fn law_trimmed(left: Seq<char>, text: Seq<char>, right: Seq<char>)
    requires
        forall|i: int| 0 <= i < left.len() ==> is_space(#[trigger] left[i]),
        forall|i: int| 0 <= i < right.len() ==> is_space(#[trigger] right[i]),
    ensures
        trimmed(left + text + right) == trimmed(text),
{
    assert(left + text + right =~= left + (text + right));
    lemma_trim_start(left, text + right);
    lemma_trim_start_keeps(text, right);
    lemma_trim_end(trim_start(text), right);
    if trim_start(text).len() == 0 {
        assert(trim_start(text + right) =~= trim_start(text));
    }
}

/// A trimmed text neither starts nor ends with white space.
pub proof fn law_trimmed_ends(text: Seq<char>)
    ensures
        trimmed(text).len() > 0 ==> !is_space(trimmed(text)[0]) && !is_space(trimmed(text).last()),
{
    lemma_trim_start_head(text);
    lemma_trim_end_tail(trim_start(text));
}

proof fn lemma_trim_start_head(s: Seq<char>)
    ensures
        trim_start(s).len() > 0 ==> !is_space(trim_start(s)[0]),
    decreases s.len(),
{
    if s.len() > 0 && is_space(s[0]) {
        lemma_trim_start_head(s.drop_first());
    }
}

proof fn lemma_trim_end_tail(s: Seq<char>)
    ensures
        trim_end(s).len() > 0 ==> !is_space(trim_end(s).last()) && trim_end(s)[0] == s[0],
    decreases s.len(),
{
    if s.len() > 0 && is_space(s.last()) {
        lemma_trim_end_tail(s.drop_last());
    }
}

/// Trimming cuts white space off the ends of a text and nothing else.
pub proof fn law_trimming_cuts_white_space_only(text: Seq<char>)
    ensures
        exists|left: Seq<char>, right: Seq<char>|
            #![trigger left + trimmed(text) + right]
            {
                &&& text == left + trimmed(text) + right
                &&& forall|i: int| 0 <= i < left.len() ==> is_space(#[trigger] left[i])
                &&& forall|i: int| 0 <= i < right.len() ==> is_space(#[trigger] right[i])
            },
{
    let left = lemma_cut_start(text);
    let right = lemma_cut_end(trim_start(text));
    assert(text =~= left + trimmed(text) + right);
}

proof fn lemma_cut_start(s: Seq<char>) -> (left: Seq<char>)
    ensures
        s == left + trim_start(s),
        forall|i: int| 0 <= i < left.len() ==> is_space(#[trigger] left[i]),
    decreases s.len(),
{
    if s.len() > 0 && is_space(s[0]) {
        let rest = lemma_cut_start(s.drop_first());
        let left = seq![s[0]] + rest;
        assert(s.drop_first() == rest + trim_start(s));
        assert(s =~= seq![s[0]] + s.drop_first());
        assert(left + trim_start(s) =~= seq![s[0]] + (rest + trim_start(s)));
        left
    } else {
        let left = Seq::<char>::empty();
        assert(s =~= left + s);
        left
    }
}

proof fn lemma_cut_end(s: Seq<char>) -> (right: Seq<char>)
    ensures
        s == trim_end(s) + right,
        forall|i: int| 0 <= i < right.len() ==> is_space(#[trigger] right[i]),
    decreases s.len(),
{
    if s.len() > 0 && is_space(s.last()) {
        let rest = lemma_cut_end(s.drop_last());
        let right = rest.push(s.last());
        assert(s.drop_last() == trim_end(s) + rest);
        assert(s =~= s.drop_last().push(s.last()));
        assert(trim_end(s) + right =~= (trim_end(s) + rest).push(s.last()));
        right
    } else {
        let right = Seq::<char>::empty();
        assert(s =~= s + right);
        right
    }
}

/// The number that decimal digits denote.
pub open spec fn numeral(s: Seq<char>) -> int
    decreases s.len(),
{
    if s.len() == 0 {
        0
    } else {
        10 * numeral(s.drop_last()) + (s.last() as int - '0' as int)
    }
}

/// The text is the number in decimal digits: digits that denote it, without needless zeros
/// at their head.
pub open spec fn writes(s: Seq<char>, n: int) -> bool {
    &&& s.len() > 0
    &&& forall|i: int| 0 <= i < s.len() ==> '0' <= #[trigger] s[i] <= '9'
    &&& s.len() > 1 ==> s[0] != '0'
    &&& numeral(s) == n
}

/// A number is written as the digits that denote it, with a minus before them where it is
/// negative.
pub proof fn law_decimal_denotes_its_number(n: int)
    ensures
        n >= 0 ==> writes(decimal(n), n),
        n < 0 ==> decimal(n).len() > 0 && decimal(n)[0] == '-' && writes(decimal(n).skip(1), -n),
{
    if n < 0 {
        lemma_digits((-n) as nat);
        assert(decimal(n).skip(1) =~= digits((-n) as nat));
    } else {
        lemma_digits(n as nat);
    }
}

proof fn lemma_digits(n: nat)
    ensures
        digits(n).len() > 0,
        forall|i: int| 0 <= i < digits(n).len() ==> '0' <= #[trigger] digits(n)[i] <= '9',
        n > 0 ==> digits(n)[0] != '0',
        digits(n).len() > 1 ==> n > 0,
        numeral(digits(n)) == n,
    decreases n,
{
    reveal_with_fuel(numeral, 2);
    if n < 10 {
        assert(digits(n).drop_last() =~= Seq::empty());
        assert(digits(n).last() == digit(n));
    } else {
        lemma_digits(n / 10);
        assert(digits(n).drop_last() =~= digits(n / 10));
        assert(digits(n).last() == digit(n % 10));
    }
}

} // verus!
