use vstd::prelude::*;
use vstd::string::*;

verus! {

/// Whether `c` is one of the ASCII digits `0`..`9`.
pub open spec fn is_digit(c: char) -> bool {
    '0' <= c && c <= '9'
}

/// The value of an ASCII digit.
pub open spec fn digit_value(c: char) -> int {
    (c as int) - ('0' as int)
}

/// The digit character for `d` in `0..10`.
pub open spec fn digit_char(d: int) -> char {
    if d == 0 {
        '0'
    } else if d == 1 {
        '1'
    } else if d == 2 {
        '2'
    } else if d == 3 {
        '3'
    } else if d == 4 {
        '4'
    } else if d == 5 {
        '5'
    } else if d == 6 {
        '6'
    } else if d == 7 {
        '7'
    } else if d == 8 {
        '8'
    } else {
        '9'
    }
}

/// Whether every character of `s` is a digit.
pub open spec fn all_digits(s: Seq<char>) -> bool {
    forall|i: int| 0 <= i < s.len() ==> is_digit(#[trigger] s[i])
}

/// The number that the digit sequence `s` denotes in base 10.
pub open spec fn digits_value(s: Seq<char>) -> int
    decreases s.len(),
{
    if s.len() == 0 {
        0
    } else {
        digits_value(s.drop_last()) * 10 + digit_value(s.last())
    }
}

/// What `str::parse::<i32>` gives for `s`: an optional `+` or `-`, then one or
/// more digits, whose value must fit in an `i32`.
pub open spec fn parse_i32(s: Seq<char>) -> Option<i32> {
    if s.len() == 0 {
        None
    } else {
        let digits = if s[0] == '-' || s[0] == '+' {
            s.drop_first()
        } else {
            s
        };
        let value = if s[0] == '-' {
            -digits_value(digits)
        } else {
            digits_value(digits)
        };
        if digits.len() == 0 || !all_digits(digits) {
            None
        } else if i32::MIN <= value && value <= i32::MAX {
            Some(value as i32)
        } else {
            None
        }
    }
}

/// The decimal digits of `v`, without leading zeros.
pub open spec fn nat_text(v: nat) -> Seq<char>
    decreases v,
{
    if v < 10 {
        seq![digit_char(v as int)]
    } else {
        nat_text(v / 10) + seq![digit_char((v % 10) as int)]
    }
}

/// The decimal text of `v`, with a leading `-` for negative numbers, as `Display` writes it.
pub open spec fn i32_text(v: int) -> Seq<char> {
    if v < 0 {
        seq!['-'] + nat_text((-v) as nat)
    } else {
        nat_text(v as nat)
    }
}

proof fn lemma_digits_value_nonneg(s: Seq<char>)
    requires
        all_digits(s),
    ensures
        digits_value(s) >= 0,
    decreases s.len(),
{
    if s.len() > 0 {
        assert(is_digit(s[s.len() - 1]));
        lemma_digits_value_nonneg(s.drop_last());
    }
}

proof fn lemma_capped_step(v: int, d: int, cap: int)
    requires
        v >= 0,
        0 <= d < 10,
        cap > 0,
    ensures
        (if v < cap { v } else { cap }) * 10 + d >= cap <==> v * 10 + d >= cap,
        (if v < cap { v } else { cap }) * 10 + d < cap ==> (if v < cap { v } else { cap }) * 10 + d
            == v * 10 + d,
{
    if v >= cap {
        assert(cap * 10 + d >= cap) by (nonlinear_arith)
            requires
                cap > 0,
                d >= 0,
        ;
        assert(v * 10 + d >= cap) by (nonlinear_arith)
            requires
                v >= cap,
                cap > 0,
                d >= 0,
        ;
    }
}

/// One more than the largest magnitude of an `i32`: the value at which parsing stops counting.
const PARSE_CAP: u64 = 2147483649;

/// Parses `s` as `str::parse::<i32>` does.
pub fn parse_i32_str(s: &str) -> (r: Option<i32>)
    ensures
        r == parse_i32(s@),
{
    let n = s.unicode_len();
    if n == 0 {
        return None;
    }
    let first = s.get_char(0);
    let negative = first == '-';
    let start: usize = if first == '-' || first == '+' {
        1
    } else {
        0
    };
    let ghost digits = if s@[0] == '-' || s@[0] == '+' {
        s@.drop_first()
    } else {
        s@
    };
    assert(digits =~= s@.subrange(start as int, n as int));
    if start == n {
        return None;
    }
    let mut acc: u64 = 0;
    let mut i: usize = start;
    assert(s@.subrange(start as int, start as int) =~= seq![]);
    while i < n
        invariant
            n == s@.len(),
            start <= i <= n,
            digits == s@.subrange(start as int, n as int),
            digits == (if s@[0] == '-' || s@[0] == '+' {
                s@.drop_first()
            } else {
                s@
            }),
            all_digits(s@.subrange(start as int, i as int)),
            acc as int == (if digits_value(s@.subrange(start as int, i as int)) < PARSE_CAP {
                digits_value(s@.subrange(start as int, i as int))
            } else {
                PARSE_CAP as int
            }),
        decreases n - i,
    {
        let c = s.get_char(i);
        if !('0' <= c && c <= '9') {
            assert(digits[i - start] == c);
            assert(!is_digit(digits[i - start]));
            assert(!all_digits(digits));
            return None;
        }
        let d: u64 = (c as u64) - ('0' as u64);
        let ghost prev = s@.subrange(start as int, i as int);
        let ghost next = s@.subrange(start as int, i + 1);
        assert(next.drop_last() =~= prev);
        assert(next.last() == c);
        proof {
            lemma_digits_value_nonneg(prev);
            lemma_capped_step(digits_value(prev), d as int, PARSE_CAP as int);
        }
        let stepped: u64 = acc * 10 + d;
        acc = if stepped < PARSE_CAP {
            stepped
        } else {
            PARSE_CAP
        };
        i = i + 1;
        assert(all_digits(next)) by {
            assert forall|j: int| 0 <= j < next.len() implies is_digit(#[trigger] next[j]) by {
                if j < next.len() - 1 {
                    assert(next[j] == prev[j]);
                }
            }
        }
    }
    assert(s@.subrange(start as int, n as int) =~= digits);
    proof {
        lemma_digits_value_nonneg(digits);
    }
    if negative {
        if acc <= 2147483648 {
            let v: i64 = 0 - (acc as i64);
            Some(v as i32)
        } else {
            None
        }
    } else {
        if acc <= 2147483647 {
            Some(acc as i32)
        } else {
            None
        }
    }
}

/// The text `"0"` .. `"9"` for a digit.
fn digit_str(d: u32) -> (r: &'static str)
    requires
        d < 10,
    ensures
        r@ == seq![digit_char(d as int)],
{
    if d == 0 {
        proof { reveal_strlit("0"); }
        "0"
    } else if d == 1 {
        proof { reveal_strlit("1"); }
        "1"
    } else if d == 2 {
        proof { reveal_strlit("2"); }
        "2"
    } else if d == 3 {
        proof { reveal_strlit("3"); }
        "3"
    } else if d == 4 {
        proof { reveal_strlit("4"); }
        "4"
    } else if d == 5 {
        proof { reveal_strlit("5"); }
        "5"
    } else if d == 6 {
        proof { reveal_strlit("6"); }
        "6"
    } else if d == 7 {
        proof { reveal_strlit("7"); }
        "7"
    } else if d == 8 {
        proof { reveal_strlit("8"); }
        "8"
    } else {
        proof { reveal_strlit("9"); }
        "9"
    }
}

/// Appends the decimal digits of `v`.
pub fn push_nat_text(out: &mut String, v: u64)
    ensures
        final(out)@ == old(out)@ + nat_text(v as nat),
    decreases v,
{
    if v >= 10 {
        push_nat_text(out, v / 10);
    }
    out.append(digit_str((v % 10) as u32));
    assert(final(out)@ =~= old(out)@ + nat_text(v as nat));
}

/// Appends the decimal text of `v` as `Display` writes it.
pub fn push_i32_text(out: &mut String, v: i32)
    ensures
        final(out)@ == old(out)@ + i32_text(v as int),
{
    if v < 0 {
        out.append("-");
        proof {
            reveal_strlit("-");
        }
        let magnitude: i64 = 0 - (v as i64);
        push_nat_text(out, magnitude as u64);
        assert(final(out)@ =~= old(out)@ + i32_text(v as int));
    } else {
        push_nat_text(out, v as u64);
    }
}

/// Calls `String::push`, which appends the character.
#[verifier::external_body]
pub(crate) fn push_char(out: &mut String, c: char)
    ensures
        final(out)@ == old(out)@.push(c),
{
    out.push(c)
}

/// Whether two texts are equal, character by character.
pub fn str_equal(a: &str, b: &str) -> (r: bool)
    ensures
        r == (a@ == b@),
{
    let n = a.unicode_len();
    if n != b.unicode_len() {
        return false;
    }
    let mut i: usize = 0;
    while i < n
        invariant
            n == a@.len(),
            n == b@.len(),
            i <= n,
            forall|j: int| 0 <= j < i ==> a@[j] == b@[j],
        decreases n - i,
    {
        if a.get_char(i) != b.get_char(i) {
            return false;
        }
        i = i + 1;
    }
    assert(a@ =~= b@);
    true
}

proof fn lemma_nat_text_digits(v: nat)
    ensures
        nat_text(v).len() >= 1,
        all_digits(nat_text(v)),
        digits_value(nat_text(v)) == v,
        !seq!['_'].contains(nat_text(v).last()),
    decreases v,
{
    let d = (v % 10) as int;
    assert(is_digit(digit_char(d)) && digit_value(digit_char(d)) == d) by {
        assert(0 <= d < 10);
    }
    let s = nat_text(v);
    if v >= 10 {
        lemma_nat_text_digits(v / 10);
        assert(s.drop_last() =~= nat_text(v / 10));
        assert(s.last() == digit_char(d));
        assert(digits_value(s) == digits_value(s.drop_last()) * 10 + digit_value(s.last()));
        assert((v / 10) * 10 + v % 10 == v) by (nonlinear_arith);
    } else {
        assert(s.drop_last() =~= Seq::<char>::empty());
        assert(digits_value(s) == digits_value(s.drop_last()) * 10 + digit_value(s.last()));
        assert(v % 10 == v);
    }
    assert(!seq!['_'].contains(s.last())) by {
        if seq!['_'].contains(s.last()) {
            assert(seq!['_'][0] == s.last());
        }
    }
}

/// Parsing the text of a number gives the number back: `i32_text` is what
/// `push_i32_text` writes, and `parse_i32` what `parse_i32_str` reads.
pub proof fn lemma_parse_i32_text(n: i32)
    ensures
        parse_i32(i32_text(n as int)) == Some(n),
{
    if n < 0 {
        let m = (-(n as int)) as nat;
        lemma_nat_text_digits(m);
        let s = i32_text(n as int);
        assert(s.drop_first() =~= nat_text(m));
    } else {
        lemma_nat_text_digits(n as nat);
        let s = nat_text(n as nat);
        assert(is_digit(s[0]));
    }
}

/// The text of a number has no underscore.
pub proof fn lemma_i32_text_has_no_underscore(n: i32)
    ensures
        !i32_text(n as int).contains('_'),
{
    let t = i32_text(n as int);
    let m = if n < 0 { (-(n as int)) as nat } else { n as nat };
    lemma_nat_text_digits(m);
    assert forall|i: int| 0 <= i < t.len() implies t[i] != '_' by {
        if n < 0 && i == 0 {
        } else {
            let j = if n < 0 { i - 1 } else { i };
            assert(t[i] == nat_text(m)[j]);
            assert(is_digit(nat_text(m)[j]));
        }
    }
}

/// The lower-case hexadecimal digit for `d` in `0..16`.
pub open spec fn hex_char(d: nat) -> char {
    if d < 10 {
        ((d + 48) as u8) as char
    } else {
        ((d + 87) as u8) as char
    }
}

/// The lower-case hexadecimal digits of `v` below 256, without leading zeros.
pub open spec fn small_hex_text(v: nat) -> Seq<char> {
    if v < 16 {
        seq![hex_char(v)]
    } else {
        seq![hex_char(v / 16), hex_char(v % 16)]
    }
}

/// How `Debug` writes the character `c` inside a quoted text: quotes, backslashes and
/// the ASCII control characters escaped, every other character as it is.
pub open spec fn debug_escape_char(c: char) -> Seq<char> {
    if c == '\t' {
        seq!['\\', 't']
    } else if c == '\r' {
        seq!['\\', 'r']
    } else if c == '\n' {
        seq!['\\', 'n']
    } else if c == '\\' {
        seq!['\\', '\\']
    } else if c == '"' {
        seq!['\\', '"']
    } else if c == '\0' {
        seq!['\\', '0']
    } else if (c as u32) < 0x20 || (c as u32) == 0x7f {
        seq!['\\', 'u', '{'] + small_hex_text(c as nat) + seq!['}']
    } else {
        seq![c]
    }
}

/// The characters of `s`, each written as `debug_escape_char` writes it.
pub open spec fn debug_escape(s: Seq<char>) -> Seq<char>
    decreases s.len(),
{
    if s.len() == 0 {
        Seq::empty()
    } else {
        debug_escape(s.drop_last()) + debug_escape_char(s.last())
    }
}

/// `s` as `Debug` writes a text: quoted, with its characters escaped.
pub open spec fn debug_text(s: Seq<char>) -> Seq<char> {
    seq!['"'] + debug_escape(s) + seq!['"']
}

/// The hexadecimal digit character for `d` in `0..16`.
fn hex_digit_char(d: u32) -> (r: char)
    requires
        d < 16,
    ensures
        r == hex_char(d as nat),
{
    if d < 10 {
        ((d + 48) as u8) as char
    } else {
        ((d + 87) as u8) as char
    }
}

/// Appends `c` as `debug_escape_char` writes it.
fn push_debug_char(out: &mut String, c: char)
    ensures
        final(out)@ == old(out)@ + debug_escape_char(c),
{
    if c == '\t' {
        push_char(out, '\\');
        push_char(out, 't');
    } else if c == '\r' {
        push_char(out, '\\');
        push_char(out, 'r');
    } else if c == '\n' {
        push_char(out, '\\');
        push_char(out, 'n');
    } else if c == '\\' {
        push_char(out, '\\');
        push_char(out, '\\');
    } else if c == '"' {
        push_char(out, '\\');
        push_char(out, '"');
    } else if c == '\0' {
        push_char(out, '\\');
        push_char(out, '0');
    } else if (c as u32) < 0x20 || (c as u32) == 0x7f {
        let v = c as u32;
        push_char(out, '\\');
        push_char(out, 'u');
        push_char(out, '{');
        if v < 16 {
            push_char(out, hex_digit_char(v));
        } else {
            push_char(out, hex_digit_char(v / 16));
            push_char(out, hex_digit_char(v % 16));
        }
        push_char(out, '}');
    } else {
        push_char(out, c);
    }
    assert(final(out)@ =~= old(out)@ + debug_escape_char(c));
}

/// Appends `s` as `Debug` writes a text (see `debug_text`).
pub fn push_debug_text(out: &mut String, s: &str)
    ensures
        final(out)@ == old(out)@ + debug_text(s@),
{
    push_char(out, '"');
    let ghost start = out@;
    let n = s.unicode_len();
    let mut i: usize = 0;
    assert(s@.take(0) =~= Seq::<char>::empty());
    assert(start =~= start + debug_escape(s@.take(0)));
    while i < n
        invariant
            n == s@.len(),
            i <= n,
            out@ == start + debug_escape(s@.take(i as int)),
        decreases n - i,
    {
        let c = s.get_char(i);
        push_debug_char(out, c);
        assert(s@.take(i + 1).drop_last() =~= s@.take(i as int));
        i = i + 1;
        assert(out@ =~= start + debug_escape(s@.take(i as int)));
    }
    assert(s@.take(n as int) =~= s@);
    push_char(out, '"');
    assert(final(out)@ =~= old(out)@ + debug_text(s@));
}

} // verus!
