//! Numbers as text.

use vstd::prelude::*;
use vstd::string::*;

verus! {

/// Appends a character: [`String::push`].
///
/// Trusted: the text afterwards is the text before, followed by the character.
pub assume_specification[ String::push ](s: &mut String, c: char)
    ensures
        final(s)@ == old(s)@.push(c),
;

/// The character of a digit in bases up to sixteen.
pub open spec fn digit(d: nat) -> char {
    if d == 0 {
        '0'
    } else if d == 1 {
        '1'
    } else if d == 2 {
        '2'
    } else if d == 3 {
        '3'
    } else if d == 4 {
        '4'
    } else if d == 5 {
        '5'
    } else if d == 6 {
        '6'
    } else if d == 7 {
        '7'
    } else if d == 8 {
        '8'
    } else if d == 9 {
        '9'
    } else if d == 10 {
        'a'
    } else if d == 11 {
        'b'
    } else if d == 12 {
        'c'
    } else if d == 13 {
        'd'
    } else if d == 14 {
        'e'
    } else {
        'f'
    }
}

/// A number written out in some base, with no leading zeros.
pub open spec fn in_base(n: nat, base: nat) -> Seq<char>
    decreases n,
{
    if base < 2 || n < base {
        seq![digit(n)]
    } else {
        proof {
            assert(n / base < n) by (nonlinear_arith)
                requires
                    n >= base,
                    base >= 2,
            ;
        }
        in_base(n / base, base).push(digit(n % base))
    }
}

/// A number in decimal.
pub open spec fn decimal(n: nat) -> Seq<char> {
    in_base(n, 10)
}

/// A signed number in decimal.
pub open spec fn signed(n: int) -> Seq<char> {
    if n < 0 {
        seq!['-'] + decimal((-n) as nat)
    } else {
        decimal(n as nat)
    }
}

/// A number in hexadecimal, with its prefix.
pub open spec fn hex(n: nat) -> Seq<char> {
    seq!['0', 'x'] + in_base(n, 16)
}

/// A byte in hexadecimal, with its prefix and both digits.
pub open spec fn hex_byte(n: u8) -> Seq<char> {
    seq!['0', 'x', digit((n / 16) as nat), digit((n % 16) as nat)]
}

/// Text padded with spaces on its left to at least `width` characters.
pub open spec fn right_aligned(s: Seq<char>, width: nat) -> Seq<char> {
    if s.len() < width {
        Seq::new((width - s.len()) as nat, |i: int| ' ') + s
    } else {
        s
    }
}

/// Texts one behind the other, with a separator between them.
pub open spec fn joined(parts: Seq<Seq<char>>, separator: Seq<char>) -> Seq<char>
    decreases parts.len(),
{
    if parts.len() == 0 {
        Seq::empty()
    } else if parts.len() == 1 {
        parts[0]
    } else {
        joined(parts.drop_last(), separator) + separator + parts.last()
    }
}

fn digit_char(d: u8) -> (r: char)
    requires
        d < 16,
    ensures
        r == digit(d as nat),
{
    match d {
        0 => '0',
        1 => '1',
        2 => '2',
        3 => '3',
        4 => '4',
        5 => '5',
        6 => '6',
        7 => '7',
        8 => '8',
        9 => '9',
        10 => 'a',
        11 => 'b',
        12 => 'c',
        13 => 'd',
        14 => 'e',
        _ => 'f',
    }
}

/// Append a number in some base.
fn push_in_base(out: &mut String, n: u64, base: u64)
    requires
        2 <= base <= 16,
    ensures
        final(out)@ == old(out)@ + in_base(n as nat, base as nat),
    decreases n,
{
    if n < base {
        out.push(digit_char(n as u8));
        assert(out@ =~= old(out)@ + in_base(n as nat, base as nat));
    } else {
        assert(n / base < n) by (nonlinear_arith)
            requires
                n >= base,
                base >= 2,
        ;
        assert(n % base < base) by (nonlinear_arith)
            requires
                base >= 2,
        ;
        push_in_base(out, n / base, base);
        out.push(digit_char((n % base) as u8));
        assert(out@ =~= old(out)@ + in_base(n as nat, base as nat));
    }
}

/// Append text.
pub fn push_str(out: &mut String, s: &str)
    ensures
        final(out)@ == old(out)@ + s@,
{
    out.append(s)
}

/// Append a number in decimal.
pub fn push_decimal(out: &mut String, n: u64)
    ensures
        final(out)@ == old(out)@ + decimal(n as nat),
{
    push_in_base(out, n, 10)
}

/// Append a signed number in decimal.
pub fn push_signed(out: &mut String, n: i64)
    ensures
        final(out)@ == old(out)@ + signed(n as int),
{
    if n < 0 {
        out.push('-');
        push_decimal(out, (-(n as i128)) as u64);
        assert(out@ =~= old(out)@ + signed(n as int));
    } else {
        push_decimal(out, n as u64);
    }
}

/// Append a number in hexadecimal, with its prefix.
pub fn push_hex(out: &mut String, n: u64)
    ensures
        final(out)@ == old(out)@ + hex(n as nat),
{
    out.push('0');
    out.push('x');
    push_in_base(out, n, 16);
    assert(out@ =~= old(out)@ + hex(n as nat));
}

/// Append a byte in hexadecimal, with its prefix and both digits.
pub fn push_hex_byte(out: &mut String, n: u8)
    ensures
        final(out)@ == old(out)@ + hex_byte(n),
{
    out.push('0');
    out.push('x');
    push_in_base(out, (n / 16) as u64, 16);
    push_in_base(out, (n % 16) as u64, 16);
    assert(out@ =~= old(out)@ + hex_byte(n));
}

/// Append text, padded with spaces on its left.
pub fn push_right_aligned(out: &mut String, s: &str, width: usize)
    ensures
        final(out)@ == old(out)@ + right_aligned(s@, width as nat),
{
    let len: usize = s.unicode_len();
    let mut i: usize = len;
    while i < width
        invariant
            len == s@.len(),
            len <= i,
            i <= width || i == len,
            out@ == old(out)@ + Seq::new((i - len) as nat, |j: int| ' '),
        decreases width - i,
    {
        out.push(' ');
        i = i + 1;
        assert(out@ =~= old(out)@ + Seq::new((i - len) as nat, |j: int| ' '));
    }
    out.append(s);
    assert(out@ =~= old(out)@ + right_aligned(s@, width as nat));
}

/// A number in decimal.
pub fn decimal_text(n: u64) -> (r: String)
    ensures
        r@ == decimal(n as nat),
{
    let mut out = String::new();
    push_decimal(&mut out, n);
    assert(out@ =~= decimal(n as nat));
    out
}

/// Join texts with a separator.
pub fn join(parts: &Vec<String>, separator: &str) -> (r: String)
    ensures
        r@ == joined(parts@.map_values(|s: String| s@), separator@),
{
    let ghost views = parts@.map_values(|s: String| s@);
    let mut out = String::new();
    let mut i: usize = 0;
    assert(views.subrange(0, 0) =~= Seq::<Seq<char>>::empty());
    while i < parts.len()
        invariant
            i <= parts.len(),
            views == parts@.map_values(|s: String| s@),
            out@ == joined(views.subrange(0, i as int), separator@),
        decreases parts.len() - i,
    {
        let ghost before = out@;
        if i > 0 {
            out.append(separator);
        }
        out.append(parts[i].as_str());
        proof {
            let next = views.subrange(0, i + 1);
            assert(next.drop_last() =~= views.subrange(0, i as int));
            assert(next.last() == parts@[i as int]@);
            if i == 0 {
                assert(out@ =~= next[0]);
            }
        }
        i = i + 1;
    }
    assert(views.subrange(0, parts@.len() as int) =~= views);
    out
}

/// The number that some digits in a base stand for, the most significant first. Digits above nine are
/// small letters.
pub open spec fn value(s: Seq<char>, base: int) -> int
    decreases s.len(),
{
    if s.len() == 0 {
        0
    } else {
        base * value(s.drop_last(), base) + (if s.last() <= '9' {
            s.last() as int - '0' as int
        } else {
            s.last() as int - 'a' as int + 10
        })
    }
}

/// Whether a character is a digit in a base.
pub open spec fn is_digit(c: char, base: int) -> bool {
    ||| '0' <= c <= '9' && (c as int) - ('0' as int) < base
    ||| 'a' <= c <= 'f' && (c as int) - ('a' as int) + 10 < base
}

/// A number written out in a base reads as that number, and does not begin with a zero unless it is
/// zero.
proof fn lemma_in_base_reads_back(n: nat, base: nat)
    requires
        2 <= base <= 16,
    ensures
        value(in_base(n, base), base as int) == n,
        in_base(n, base).len() > 0,
        n > 0 ==> in_base(n, base)[0] != '0',
        n == 0 ==> in_base(n, base) == seq!['0'],
        forall|i: int|
            0 <= i < in_base(n, base).len() ==> is_digit(#[trigger] in_base(n, base)[i], base as int),
    decreases n,
{
    reveal_with_fuel(value, 2);
    let s = in_base(n, base);
    if n < base {
        assert(s =~= seq![digit(n)]);
        assert(s.drop_last().len() == 0);
    } else {
        assert(n / base < n && n / base > 0 && n % base < base && base * (n / base) + n % base
            == n) by (nonlinear_arith)
            requires
                n >= base,
                base >= 2,
        ;
        lemma_in_base_reads_back(n / base, base);
        let front = in_base(n / base, base);
        assert(s == front.push(digit(n % base)));
        assert(s.drop_last() =~= front);
        assert(s[0] == front[0]);
        assert forall|i: int| 0 <= i < s.len() implies is_digit(#[trigger] s[i], base as int) by {
            if i < front.len() {
                assert(s[i] == front[i]);
            }
        }
    }
}

/// A decimal number reads as the number it was, in decimal digits, without leading zeros.
pub proof fn law_decimals_read_back(n: u64, r: String, i: int)
    requires
        call_ensures(decimal_text, (n,), r),
    ensures
        value(r@, 10) == n,
        r@.len() > 0,
        n > 0 ==> r@[0] != '0',
        n == 0 ==> r@ == seq!['0'],
        0 <= i < r@.len() ==> '0' <= r@[i] <= '9',
{
    lemma_in_base_reads_back(n as nat, 10);
    if 0 <= i < r@.len() {
        assert(is_digit(in_base(n as nat, 10)[i], 10));
    }
}

/// Numbers are appended to what is there: in decimal, with a minus sign in front of the negative ones,
/// or behind `0x` in hexadecimal, bytes always with two digits.
pub proof fn law_numbers_are_appended(n: u64, m: i64, b: u8, plain: String)
    requires
        call_ensures(decimal_text, (n,), plain),
        m < 0 ==> n == -m,
        m >= 0 ==> n == m,
    ensures
        forall|out: &mut String| #[trigger]
            call_ensures(push_decimal, (out, n), ()) ==> final(out)@ == (*out)@ + plain@,
        forall|out: &mut String| #[trigger]
            call_ensures(push_signed, (out, m), ()) ==> final(out)@ == (*out)@ + (if m < 0 {
                seq!['-'] + plain@
            } else {
                plain@
            }),
        forall|out: &mut String| #[trigger]
            call_ensures(push_hex, (out, n), ()) ==> ({
                let k = (*out)@.len() as int;
                let all = final(out)@;
                &&& all.len() > k + 2
                &&& all.take(k) == (*out)@
                &&& all[k] == '0' && all[k + 1] == 'x'
                &&& value(all.skip(k + 2), 16) == n
                &&& n > 0 ==> all[k + 2] != '0'
                &&& n == 0 ==> all.len() == k + 3
            }),
        forall|out: &mut String| #[trigger]
            call_ensures(push_hex_byte, (out, b), ()) ==> ({
                let k = (*out)@.len() as int;
                let all = final(out)@;
                &&& all.len() == k + 4
                &&& all.take(k) == (*out)@
                &&& all[k] == '0' && all[k + 1] == 'x'
                &&& value(all.skip(k + 2), 16) == b
                &&& is_digit(all[k + 2], 16) && is_digit(all[k + 3], 16)
            }),
{
    lemma_in_base_reads_back(n as nat, 16);
    assert forall|out: &mut String| #[trigger] call_ensures(push_hex, (out, n), ()) implies ({
        let k = (*out)@.len() as int;
        let all = final(out)@;
        &&& all.len() > k + 2
        &&& all.take(k) == (*out)@
        &&& all[k] == '0' && all[k + 1] == 'x'
        &&& value(all.skip(k + 2), 16) == n
        &&& n > 0 ==> all[k + 2] != '0'
        &&& n == 0 ==> all.len() == k + 3
    }) by {
        let k = (*out)@.len() as int;
        let all = final(out)@;
        assert(all.take(k) =~= (*out)@);
        assert(all.skip(k + 2) =~= in_base(n as nat, 16));
        assert(all[k + 2] == all.skip(k + 2)[0]);
    }
    assert forall|out: &mut String| #[trigger] call_ensures(push_hex_byte, (out, b), ()) implies ({
        let k = (*out)@.len() as int;
        let all = final(out)@;
        &&& all.len() == k + 4
        &&& all.take(k) == (*out)@
        &&& all[k] == '0' && all[k + 1] == 'x'
        &&& value(all.skip(k + 2), 16) == b
        &&& is_digit(all[k + 2], 16) && is_digit(all[k + 3], 16)
    }) by {
        let k = (*out)@.len() as int;
        let all = final(out)@;
        let two = all.skip(k + 2);
        reveal_with_fuel(value, 3);
        assert(all.take(k) =~= (*out)@);
        assert(two =~= seq![digit((b / 16) as nat), digit((b % 16) as nat)]);
        assert(two.drop_last() =~= seq![digit((b / 16) as nat)]);
        assert(two.drop_last().drop_last().len() == 0);
        assert(all[k + 2] == two[0] && all[k + 3] == two[1]);
    }
}

/// Padding puts spaces in front of a text, as many as it takes to fill the width, and none where the
/// text fills it.
pub proof fn law_padding_fills_the_width(s: &str, width: usize)
    ensures
        forall|out: &mut String| #[trigger]
            call_ensures(push_right_aligned, (out, s, width), ()) ==> ({
                let k = (*out)@.len() as int;
                let all = final(out)@;
                let n = if s@.len() < width {
                    width as int
                } else {
                    s@.len() as int
                };
                &&& all.len() == k + n
                &&& all.take(k) == (*out)@
                &&& all.skip(all.len() - s@.len()) == s@
                &&& forall|i: int| k <= i < all.len() - s@.len() ==> #[trigger] all[i] == ' '
            }),
{
    assert forall|out: &mut String| #[trigger]
        call_ensures(push_right_aligned, (out, s, width), ()) implies ({
        let k = (*out)@.len() as int;
        let all = final(out)@;
        let n = if s@.len() < width {
            width as int
        } else {
            s@.len() as int
        };
        &&& all.len() == k + n
        &&& all.take(k) == (*out)@
        &&& all.skip(all.len() - s@.len()) == s@
        &&& forall|i: int| k <= i < all.len() - s@.len() ==> #[trigger] all[i] == ' '
    }) by {
        let k = (*out)@.len() as int;
        let all = final(out)@;
        assert(all.take(k) =~= (*out)@);
        assert(all.skip(all.len() - s@.len()) =~= s@);
    }
}

/// Joined texts stand in order with the separator between any two, and nowhere else.
pub proof fn law_texts_are_joined(
    none: Vec<String>,
    one: Vec<String>,
    parts: Vec<String>,
    more: Vec<String>,
    separator: &str,
    nothing: String,
    single: String,
    front: String,
    all: String,
)
    requires
        none@.len() == 0,
        one@.len() == 1,
        parts@.len() > 0,
        more@ == parts@.push(more@.last()),
        call_ensures(join, (&none, separator), nothing),
        call_ensures(join, (&one, separator), single),
        call_ensures(join, (&parts, separator), front),
        call_ensures(join, (&more, separator), all),
    ensures
        nothing@.len() == 0,
        single@ == one@[0]@,
        all@ == front@ + separator@ + more@.last()@,
{
    let (few, many) = (
        parts@.map_values(|s: String| s@),
        more@.map_values(|s: String| s@),
    );
    assert(many.drop_last() =~= few);
    assert(many.last() == more@.last()@);
}

} // verus!
