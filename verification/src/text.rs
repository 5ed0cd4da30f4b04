//! Text: decimal numbers, quoting and searching.
use vstd::prelude::*;
use vstd::string::{StrSliceExecFns, StringExecFns};

verus! {

/// The character of a decimal digit.
pub open spec fn digit(d: int) -> char {
    (48 + d) as char
}

/// A number in decimal, without leading zeros.
pub open spec fn decimal_of(n: nat) -> Seq<char>
    decreases n,
{
    if n < 10 {
        seq![digit(n as int)]
    } else {
        decimal_of(n / 10).push(digit((n % 10) as int))
    }
}

fn digit_text(d: u64) -> (s: &'static str)
    requires
        d < 10,
    ensures
        s@ == seq![digit(d as int)],
{
    proof {
        reveal_strlit("0");
        reveal_strlit("1");
        reveal_strlit("2");
        reveal_strlit("3");
        reveal_strlit("4");
        reveal_strlit("5");
        reveal_strlit("6");
        reveal_strlit("7");
        reveal_strlit("8");
        reveal_strlit("9");
    }
    let s: &'static str = if d == 0 {
        "0"
    } else if d == 1 {
        "1"
    } else if d == 2 {
        "2"
    } else if d == 3 {
        "3"
    } else if d == 4 {
        "4"
    } else if d == 5 {
        "5"
    } else if d == 6 {
        "6"
    } else if d == 7 {
        "7"
    } else if d == 8 {
        "8"
    } else {
        "9"
    };
    assert(s@ =~= seq![digit(d as int)]);
    s
}

/// A number in decimal, without leading zeros.
pub fn decimal(n: u64) -> (s: String)
    ensures
        s@ == decimal_of(n as nat),
    decreases n,
{
    if n < 10 {
        digit_text(n).to_string()
    } else {
        let s = decimal(n / 10).concat(digit_text(n % 10));
        assert(s@ =~= decimal_of(n as nat));
        s
    }
}

/// A number in decimal, with a sign where it is negative.
pub open spec fn signed_of(n: int) -> Seq<char> {
    if n < 0 {
        "-"@ + decimal_of((-n) as nat)
    } else {
        decimal_of(n as nat)
    }
}

/// A number in decimal, with a sign where it is negative.
pub fn signed(n: i32) -> (s: String)
    ensures
        s@ == signed_of(n as int),
{
    if n < 0 {
        let digits = decimal((-(n as i64)) as u64);
        "-".to_string().concat(digits.as_str())
    } else {
        decimal(n as u64)
    }
}

/// The blanks that a text lacks to be `width` characters long.
pub open spec fn blanks(s: Seq<char>, width: int) -> Seq<char> {
    Seq::new(
        if s.len() < width {
            (width - s.len()) as nat
        } else {
            0
        },
        |i: int| ' ',
    )
}

fn missing(s: &str, width: usize) -> (b: String)
    ensures
        b@ == blanks(s@, width as int),
{
    proof {
        reveal_strlit("");
        reveal_strlit(" ");
    }
    let mut b: String = "".to_string();
    let have: usize = s.unicode_len();
    let mut i: usize = have;
    assert(b@ =~= Seq::new(0, |i: int| ' '));
    while i < width
        invariant
            have == s@.len(),
            have <= i,
            i <= width || i == have,
            " "@ == seq![' '],
            b@ == Seq::new((i - have) as nat, |i: int| ' '),
        decreases width - i,
    {
        b = b.concat(" ");
        i = i + 1;
        assert(b@ =~= Seq::new((i - have) as nat, |i: int| ' '));
    }
    assert(b@ =~= blanks(s@, width as int));
    b
}

/// A text filled up with blanks on its left.
pub fn to_the_right(s: &str, width: usize) -> (r: String)
    ensures
        r@ == blanks(s@, width as int) + s@,
{
    missing(s, width).concat(s)
}

/// A text filled up with blanks on its right.
pub fn to_the_left(s: &str, width: usize) -> (r: String)
    ensures
        r@ == s@ + blanks(s@, width as int),
{
    let b = missing(s, width);
    s.to_string().concat(b.as_str())
}

/// A text as the standard library's `Debug` writes it: in quotes, with escapes.
pub uninterp spec fn debug_text(s: Seq<char>) -> Seq<char>;

/// Calls `<str as std::fmt::Debug>::fmt` through `format!`. The claim is that
/// what it writes depends on the text alone; what that is, is not said.
#[verifier::external_body]
pub(crate) fn quoted(s: &str) -> (r: String)
    ensures
        r@ == debug_text(s@),
{
    format!("{:?}", s)
}

/// `part` stands in `whole` as it is.
pub open spec fn contains_text(whole: Seq<char>, part: Seq<char>) -> bool {
    exists|i: int|
        0 <= i && i + part.len() <= whole.len() && #[trigger] whole.subrange(i, i + part.len())
            == part
}

/// Whether `part` stands in `whole` from the character at `at` on.
fn stands_at(whole: &str, part: &str, at: usize) -> (r: bool)
    requires
        at + part@.len() <= whole@.len(),
    ensures
        r == (whole@.subrange(at as int, at + part@.len()) == part@),
{
    let m: usize = part.unicode_len();
    let n: usize = whole.unicode_len();
    for k in 0..m
        invariant
            m == part@.len(),
            n == whole@.len(),
            at + m <= n,
            forall|j: int| 0 <= j < k ==> whole@[at + j] == part@[j],
    {
        if whole.get_char(at + k) != part.get_char(k) {
            assert(whole@.subrange(at as int, at + part@.len())[k as int] != part@[k as int]);
            return false;
        }
    }
    assert(whole@.subrange(at as int, at + part@.len()) =~= part@);
    true
}

/// Whether `part` stands in `whole` as it is.
pub fn contains(whole: &str, part: &str) -> (r: bool)
    ensures
        r == contains_text(whole@, part@),
{
    let n: usize = whole.unicode_len();
    let m: usize = part.unicode_len();
    if m > n {
        return false;
    }
    let last: usize = n - m;
    let mut at: usize = 0;
    loop
        invariant
            n == whole@.len(),
            m == part@.len(),
            m <= n,
            last == n - m,
            at <= last,
            forall|i: int|
                0 <= i < at ==> #[trigger] whole@.subrange(i, i + part@.len()) != part@,
        decreases last - at,
    {
        if stands_at(whole, part, at) {
            assert(whole@.subrange(at as int, at + part@.len()) == part@);
            return true;
        }
        if at == last {
            return false;
        }
        at = at + 1;
    }
}

/// A hexadecimal digit.
pub open spec fn hex_digit(d: int) -> char {
    if d < 10 {
        (48 + d) as char
    } else {
        (87 + d) as char
    }
}

/// A character as it stands inside a JSON string: a quote and a backslash behind
/// a backslash, a control character as an escape, any other as it is.
pub open spec fn json_char(c: char) -> Seq<char> {
    if c == '"' {
        seq!['\\', '"']
    } else if c == '\\' {
        seq!['\\', '\\']
    } else if c == '\n' {
        seq!['\\', 'n']
    } else if c == '\r' {
        seq!['\\', 'r']
    } else if c == '\t' {
        seq!['\\', 't']
    } else if (c as int) < 32 {
        seq!['\\', 'u', '0', '0', hex_digit(c as int / 16), hex_digit(c as int % 16)]
    } else {
        seq![c]
    }
}

/// A text as it stands inside a JSON string.
pub open spec fn json_chars(s: Seq<char>) -> Seq<char>
    decreases s.len(),
{
    if s.len() == 0 {
        seq![]
    } else {
        json_chars(s.drop_last()) + json_char(s.last())
    }
}

/// A text as a JSON string, with its quotes.
pub open spec fn json_text(s: Seq<char>) -> Seq<char> {
    seq!['"'] + json_chars(s) + seq!['"']
}

fn hex_text(d: u32) -> (s: &'static str)
    requires
        d < 16,
    ensures
        s@ == seq![hex_digit(d as int)],
{
    proof {
        reveal_strlit("a");
        reveal_strlit("b");
        reveal_strlit("c");
        reveal_strlit("d");
        reveal_strlit("e");
        reveal_strlit("f");
    }
    if d < 10 {
        return digit_text(d as u64);
    }
    let s: &'static str = if d == 10 {
        "a"
    } else if d == 11 {
        "b"
    } else if d == 12 {
        "c"
    } else if d == 13 {
        "d"
    } else if d == 14 {
        "e"
    } else {
        "f"
    };
    assert(s@ =~= seq![hex_digit(d as int)]);
    s
}

/// The character at `i` of a text as it stands inside a JSON string.
fn json_escaped(s: &str, i: usize) -> (r: String)
    requires
        i < s@.len(),
    ensures
        r@ == json_char(s@[i as int]),
{
    proof {
        reveal_strlit("\\\"");
        reveal_strlit("\\\\");
        reveal_strlit("\\n");
        reveal_strlit("\\r");
        reveal_strlit("\\t");
        reveal_strlit("\\u00");
    }
    let n: usize = s.unicode_len();
    assert(i < n);
    let c: char = s.get_char(i);
    let r: String = if c == '"' {
        "\\\"".to_string()
    } else if c == '\\' {
        "\\\\".to_string()
    } else if c == '\n' {
        "\\n".to_string()
    } else if c == '\r' {
        "\\r".to_string()
    } else if c == '\t' {
        "\\t".to_string()
    } else if (c as u32) < 32 {
        "\\u00".to_string().concat(hex_text(c as u32 / 16)).concat(hex_text(c as u32 % 16))
    } else {
        s.substring_char(i, i + 1).to_string()
    };
    assert(r@ =~= json_char(c));
    r
}

/// A text as a JSON string, with its quotes.
pub fn json_quoted(s: &str) -> (r: String)
    ensures
        r@ == json_text(s@),
{
    proof {
        reveal_strlit("\"");
    }
    let n: usize = s.unicode_len();
    let mut r: String = "\"".to_string();
    assert(s@.take(0).len() == 0);
    assert(r@ =~= seq!['"'] + json_chars(s@.take(0)));
    for i in 0..n
        invariant
            n == s@.len(),
            r@ == seq!['"'] + json_chars(s@.take(i as int)),
    {
        let c = json_escaped(s, i);
        r = r.concat(c.as_str());
        assert(s@.take(i + 1).drop_last() =~= s@.take(i as int));
        assert(r@ =~= seq!['"'] + json_chars(s@.take(i + 1)));
    }
    assert(s@.take(n as int) =~= s@);
    assert("\""@ =~= seq!['"']);
    r.concat("\"")
}

/// The value of a hexadecimal digit.
pub open spec fn hex_value(c: char) -> Option<int> {
    if '0' <= c && c <= '9' {
        Some(c as int - 48)
    } else if 'a' <= c && c <= 'f' {
        Some(c as int - 87)
    } else if 'A' <= c && c <= 'F' {
        Some(c as int - 55)
    } else {
        None
    }
}

/// The one character that a piece of the inside of a JSON string stands for, if
/// it does. Half of a surrogate pair stands for none.
pub open spec fn json_unit(t: Seq<char>) -> Option<char> {
    if t.len() == 1 {
        if t[0] == '"' || t[0] == '\\' || (t[0] as int) < 32 {
            None
        } else {
            Some(t[0])
        }
    } else if t.len() == 2 && t[0] == '\\' {
        if t[1] == '"' || t[1] == '\\' || t[1] == '/' {
            Some(t[1])
        } else if t[1] == 'b' {
            Some(8u8 as char)
        } else if t[1] == 'f' {
            Some(12u8 as char)
        } else if t[1] == 'n' {
            Some('\n')
        } else if t[1] == 'r' {
            Some('\r')
        } else if t[1] == 't' {
            Some('\t')
        } else {
            None
        }
    } else if t.len() == 6 && t[0] == '\\' && t[1] == 'u' {
        match (hex_value(t[2]), hex_value(t[3]), hex_value(t[4]), hex_value(t[5])) {
            (Some(a), Some(b), Some(c), Some(d)) => {
                let n = a * 4096 + b * 256 + c * 16 + d;
                if 0xd800 <= n < 0xe000 {
                    None
                } else {
                    Some(n as char)
                }
            },
            _ => None,
        }
    } else {
        None
    }
}

/// How long the first piece of the inside of a JSON string is.
pub open spec fn json_unit_len(t: Seq<char>) -> int {
    if t[0] != '\\' {
        1
    } else if t.len() > 1 && t[1] == 'u' {
        6
    } else {
        2
    }
}

/// The text that the inside of a JSON string stands for, if it is well formed.
pub open spec fn json_read(t: Seq<char>) -> Option<Seq<char>>
    decreases t.len(),
{
    if t.len() == 0 {
        Some(seq![])
    } else {
        let n = json_unit_len(t);
        if n > t.len() {
            None
        } else {
            match (json_unit(t.take(n)), json_read(t.skip(n))) {
                (Some(c), Some(rest)) => Some(seq![c] + rest),
                _ => None,
            }
        }
    }
}

proof fn lemma_json_read_append(a: Seq<char>, u: Seq<char>)
    requires
        json_read(a) is Some,
        u.len() > 0,
        json_unit_len(u) == u.len(),
        json_unit(u) is Some,
    ensures
        json_read(a + u) == Some(json_read(a)->0.push(json_unit(u)->0)),
    decreases a.len(),
{
    let n = json_unit_len(a);
    if a.len() == 0 {
        assert(a + u =~= u);
        assert(u.take(u.len() as int) =~= u);
        assert(u.skip(u.len() as int) =~= seq![]);
        assert(json_read(u.skip(u.len() as int)) == Some(Seq::<char>::empty()));
        assert(seq![json_unit(u)->0] + Seq::<char>::empty() =~= json_read(a)->0.push(
            json_unit(u)->0,
        ));
    } else {
        assert(json_unit_len(a + u) == n);
        assert((a + u).take(n) =~= a.take(n));
        assert((a + u).skip(n) =~= a.skip(n) + u);
        lemma_json_read_append(a.skip(n), u);
        let c = json_unit(a.take(n))->0;
        let rest = json_read(a.skip(n))->0;
        assert(seq![c] + rest.push(json_unit(u)->0) =~= (seq![c] + rest).push(json_unit(u)->0));
    }
}

proof fn lemma_json_char_reads_back(c: char)
    ensures
        json_char(c).len() > 0,
        json_unit_len(json_char(c)) == json_char(c).len(),
        json_unit(json_char(c)) == Some(c),
{
}

proof fn lemma_json_chars_read_back(s: Seq<char>)
    ensures
        json_read(json_chars(s)) == Some(s),
    decreases s.len(),
{
    if s.len() == 0 {
        assert(s =~= seq![]);
    } else {
        lemma_json_chars_read_back(s.drop_last());
        lemma_json_char_reads_back(s.last());
        lemma_json_read_append(json_chars(s.drop_last()), json_char(s.last()));
        assert(s.drop_last().push(s.last()) =~= s);
    }
}

/// Any text can be read back from its JSON string: what stands between the two
/// quotes is well formed and stands for the text.
pub proof fn law_json_text_reads_back(s: Seq<char>)
    ensures
        json_text(s).len() >= 2,
        json_text(s)[0] == '"',
        json_text(s).last() == '"',
        json_read(json_text(s).subrange(1, json_text(s).len() - 1)) == Some(s),
{
    lemma_json_chars_read_back(s);
    assert(json_text(s).subrange(1, json_text(s).len() - 1) =~= json_chars(s));
}

/// The number that decimal digits stand for.
pub open spec fn number_of(s: Seq<char>) -> int
    decreases s.len(),
{
    if s.len() == 0 {
        0
    } else {
        number_of(s.drop_last()) * 10 + (s.last() as int - 48)
    }
}

/// A number can be read back from its decimal text.
pub proof fn law_decimal_reads_back(n: nat)
    ensures
        number_of(decimal_of(n)) == n,
    decreases n,
{
    if n < 10 {
        let s = seq![digit(n as int)];
        assert(s.drop_last() =~= seq![]);
        assert(number_of(s.drop_last()) == 0);
    } else {
        law_decimal_reads_back(n / 10);
        let s = decimal_of(n / 10).push(digit((n % 10) as int));
        assert(s.drop_last() =~= decimal_of(n / 10));
    }
}

/// A decimal text is made of digits alone, and begins with a zero only where it is
/// that zero.
pub proof fn law_decimal_is_plain(n: nat)
    ensures
        decimal_of(n).len() > 0,
        forall|i: int|
            0 <= i < decimal_of(n).len() ==> '0' <= #[trigger] decimal_of(n)[i]
                && decimal_of(n)[i] <= '9',
        n > 0 ==> decimal_of(n)[0] != '0',
        n == 0 ==> decimal_of(n).len() == 1,
    decreases n,
{
    if n >= 10 {
        law_decimal_is_plain(n / 10);
        let front = decimal_of(n / 10);
        assert(decimal_of(n) == front.push(digit((n % 10) as int)));
        assert forall|i: int| 0 <= i < decimal_of(n).len() implies '0' <= #[trigger] decimal_of(
            n,
        )[i] && decimal_of(n)[i] <= '9' by {
            if i < front.len() {
                assert(decimal_of(n)[i] == front[i]);
            }
        }
        assert(decimal_of(n)[0] == front[0]);
    }
}

/// A number can be read back from its text with a sign, which only a negative one
/// has.
pub proof fn law_signed_reads_back(n: int)
    ensures
        n >= 0 ==> number_of(signed_of(n)) == n,
        n >= 0 ==> signed_of(n)[0] != '-',
        n < 0 ==> signed_of(n)[0] == '-' && number_of(signed_of(n).skip(1)) == -n,
{
    reveal_strlit("-");
    if n < 0 {
        law_decimal_reads_back((-n) as nat);
        assert(signed_of(n).skip(1) =~= decimal_of((-n) as nat));
    } else {
        law_decimal_reads_back(n as nat);
        law_decimal_is_plain(n as nat);
    }
}

/// The blanks fill a text up to the width, or are none where it is already as wide.
pub proof fn law_blanks_fill_up(s: Seq<char>, width: nat)
    ensures
        s.len() <= width ==> blanks(s, width as int).len() + s.len() == width,
        s.len() > width ==> blanks(s, width as int).len() == 0,
        forall|i: int|
            0 <= i < blanks(s, width as int).len() ==> #[trigger] blanks(s, width as int)[i] == ' ',
{
}

/// A text contains what stands between any two of its parts.
pub proof fn law_middle_is_contained(before: Seq<char>, part: Seq<char>, after: Seq<char>)
    ensures
        contains_text(before + part + after, part),
{
    let whole = before + part + after;
    let i = before.len() as int;
    assert(whole.subrange(i, i + part.len()) =~= part);
}

/// What a text contains stands in it with something before and something after
/// it, which together make up the text.
pub proof fn law_contained_text_has_its_place(whole: Seq<char>, part: Seq<char>)
    requires
        contains_text(whole, part),
    ensures
        exists|i: int|
            0 <= i <= whole.len() - part.len() && #[trigger] whole.take(i) + part + whole.skip(
                i + part.len(),
            ) == whole,
{
    let i = choose|i: int|
        0 <= i && i + part.len() <= whole.len() && #[trigger] whole.subrange(i, i + part.len())
            == part;
    assert(whole.take(i) + part + whole.skip(i + part.len()) =~= whole.take(i) + whole.subrange(
        i,
        i + part.len(),
    ) + whole.skip(i + part.len()));
    assert(whole.take(i) + part + whole.skip(i + part.len()) =~= whole);
}

/// Inside a JSON string a character is escaped only where it has to be: a quote, a
/// backslash or a control character. A line's end, a return and a tab have their
/// short forms.
pub proof fn law_json_escapes_what_it_must(c: char)
    ensures
        c as int >= 32 && c != '"' && c != '\\' ==> json_char(c) == seq![c],
        c == '"' || c == '\\' ==> json_char(c) == seq!['\\', c],
        c == '\n' ==> json_char(c) == seq!['\\', 'n'],
        c == '\r' ==> json_char(c) == seq!['\\', 'r'],
        c == '\t' ==> json_char(c) == seq!['\\', 't'],
        (c as int) < 32 ==> json_char(c)[0] == '\\',
{
}

/// A text is escaped character by character.
pub proof fn law_json_goes_by_character(s: Seq<char>, c: char)
    ensures
        json_chars(s.push(c)) == json_chars(s) + json_char(c),
        json_chars(seq![]) == Seq::<char>::empty(),
{
    assert(s.push(c).drop_last() =~= s);
}

} // verus!
