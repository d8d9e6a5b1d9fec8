//! The text layer: what a decimal integer literal denotes, how a
//! comma-delimited record splits into positional fields, and verified
//! executable routines for both directions.

use vstd::prelude::*;
use vstd::string::*;

verus! {

/// The error for a record field that should be numeric but does not parse
/// as a 32-bit integer. A missing field is not an error: it defaults.
#[derive(Clone, Copy, Debug, PartialEq, Eq, Structural)]
pub enum ParseError {
    NotNumeric,
}

/// A decimal digit character.
pub open spec fn is_digit(c: char) -> bool {
    '0' as u32 <= c as u32 && c as u32 <= '9' as u32
}

/// The numeric value of a decimal digit character.
pub open spec fn digit_val(c: char) -> int {
    c as u32 - '0' as u32
}

/// Every character of the text is a decimal digit.
pub open spec fn all_digits(s: Seq<char>) -> bool {
    forall|i: int| 0 <= i < s.len() ==> is_digit(#[trigger] s[i])
}

/// The value of a digit string, most significant digit first.
pub open spec fn digits_val(s: Seq<char>) -> int
    decreases s.len(),
{
    if s.len() == 0 {
        0
    } else {
        digits_val(s.drop_last()) * 10 + digit_val(s.last())
    }
}

/// The shape of a decimal integer literal: an optional sign followed by at
/// least one digit, and nothing else.
pub open spec fn int_shape_ok(s: Seq<char>) -> bool {
    &&& s.len() > 0
    &&& if s[0] == '-' || s[0] == '+' {
        s.len() > 1 && all_digits(s.skip(1))
    } else {
        all_digits(s)
    }
}

/// The magnitude of the literal: the value of its digits, sign aside.
pub open spec fn int_mag(s: Seq<char>) -> int {
    if s.len() > 0 && (s[0] == '-' || s[0] == '+') {
        digits_val(s.skip(1))
    } else {
        digits_val(s)
    }
}

/// The integer the literal denotes.
pub open spec fn int_of(s: Seq<char>) -> int {
    if s.len() > 0 && s[0] == '-' {
        -int_mag(s)
    } else {
        int_mag(s)
    }
}

/// Whether the text is a decimal literal that a 32-bit signed integer holds.
pub open spec fn parses_as_i32(s: Seq<char>) -> bool {
    int_shape_ok(s) && i32::MIN <= int_of(s) <= i32::MAX
}

pub proof fn lemma_all_digits_drop_last(s: Seq<char>)
    requires
        all_digits(s),
        s.len() > 0,
    ensures
        all_digits(s.drop_last()),
{
    assert forall|i: int| 0 <= i < s.drop_last().len() implies is_digit(#[trigger] s.drop_last()[i])
    by {
        assert(s.drop_last()[i] == s[i]);
    }
}

/// A digit string's value is never negative.
pub proof fn lemma_digits_val_nonneg(s: Seq<char>)
    requires
        all_digits(s),
    ensures
        digits_val(s) >= 0,
    decreases s.len(),
{
    if s.len() > 0 {
        lemma_all_digits_drop_last(s);
        lemma_digits_val_nonneg(s.drop_last());
        assert(is_digit(s.last()));
    }
}

/// Dropping trailing digits never increases a digit string's value.
pub proof fn lemma_digits_val_prefix(s: Seq<char>, i: int)
    requires
        all_digits(s),
        0 <= i <= s.len(),
    ensures
        digits_val(s.subrange(0, i)) <= digits_val(s),
    decreases s.len(),
{
    if i == s.len() {
        assert(s.subrange(0, i) =~= s);
    } else {
        lemma_all_digits_drop_last(s);
        assert(s.subrange(0, i) =~= s.drop_last().subrange(0, i));
        lemma_digits_val_prefix(s.drop_last(), i);
        lemma_digits_val_nonneg(s.drop_last());
        assert(is_digit(s.last()));
        assert(digits_val(s.drop_last()) * 10 + digit_val(s.last()) >= digits_val(s.drop_last()));
    }
}

/// The position of the first comma at or after `from`, or the length when
/// no comma follows. This is where `split` ends the current field.
pub open spec fn comma_from(s: Seq<char>, from: int) -> int
    decreases s.len() - from,
{
    if from < 0 || from >= s.len() {
        s.len() as int
    } else if s[from] == ',' {
        from
    } else {
        comma_from(s, from + 1)
    }
}

/// `comma_from` is pinned down by its characteristic properties: no comma
/// before `i`, and `i` is a comma or the end.
pub proof fn lemma_comma_from_is(s: Seq<char>, from: int, i: int)
    requires
        0 <= from <= i <= s.len(),
        forall|j: int| from <= j < i ==> s[j] != ',',
        i == s.len() || s[i] == ',',
    ensures
        comma_from(s, from) == i,
    decreases i - from,
{
    if from < i {
        lemma_comma_from_is(s, from + 1, i);
    }
}

/// End of the first field.
pub open spec fn f1_end(s: Seq<char>) -> int {
    comma_from(s, 0)
}

/// The first comma-delimited field.
pub open spec fn field1(s: Seq<char>) -> Seq<char> {
    s.subrange(0, f1_end(s))
}

/// A second field exists: the first one ends at a comma.
pub open spec fn has_field2(s: Seq<char>) -> bool {
    f1_end(s) < s.len()
}

pub open spec fn f2_end(s: Seq<char>) -> int {
    comma_from(s, f1_end(s) + 1)
}

/// The second comma-delimited field.
pub open spec fn field2(s: Seq<char>) -> Seq<char> {
    s.subrange(f1_end(s) + 1, f2_end(s))
}

/// A third field exists: the second one ends at a comma.
pub open spec fn has_field3(s: Seq<char>) -> bool {
    has_field2(s) && f2_end(s) < s.len()
}

pub open spec fn f3_end(s: Seq<char>) -> int {
    comma_from(s, f2_end(s) + 1)
}

/// The third comma-delimited field; text beyond it is discarded.
pub open spec fn field3(s: Seq<char>) -> Seq<char> {
    s.subrange(f2_end(s) + 1, f3_end(s))
}

/// No character of the text is a comma.
pub open spec fn no_comma(s: Seq<char>) -> bool {
    forall|i: int| 0 <= i < s.len() ==> s[i] != ','
}

/// Two fields joined by a comma.
pub open spec fn record2(a: Seq<char>, b: Seq<char>) -> Seq<char> {
    a + seq![','] + b
}

/// Three fields joined by commas.
pub open spec fn record3(a: Seq<char>, b: Seq<char>, c: Seq<char>) -> Seq<char> {
    a + seq![','] + b + seq![','] + c
}

/// Splitting a two-field record recovers both fields when neither holds a
/// comma of its own.
pub proof fn lemma_record2_fields(a: Seq<char>, b: Seq<char>)
    requires
        no_comma(a),
        no_comma(b),
    ensures
        field1(record2(a, b)) == a,
        has_field2(record2(a, b)),
        field2(record2(a, b)) == b,
        !has_field3(record2(a, b)),
{
    let s = record2(a, b);
    let la: int = a.len() as int;
    assert(s.len() == la + 1 + b.len());
    assert forall|j: int| 0 <= j < la implies s[j] == a[j] by {}
    assert(s[la] == ',');
    lemma_comma_from_is(s, 0, la);
    assert(field1(s) =~= a);
    assert forall|j: int| la + 1 <= j < s.len() implies s[j] == b[j - la - 1] by {}
    lemma_comma_from_is(s, la + 1, s.len() as int);
    assert(field2(s) =~= b);
}

/// Splitting a three-field record recovers all three fields when none holds
/// a comma of its own.
pub proof fn lemma_record3_fields(a: Seq<char>, b: Seq<char>, c: Seq<char>)
    requires
        no_comma(a),
        no_comma(b),
        no_comma(c),
    ensures
        field1(record3(a, b, c)) == a,
        has_field2(record3(a, b, c)),
        field2(record3(a, b, c)) == b,
        has_field3(record3(a, b, c)),
        field3(record3(a, b, c)) == c,
{
    let s = record3(a, b, c);
    let la: int = a.len() as int;
    let lb: int = b.len() as int;
    assert(s.len() == la + 1 + lb + 1 + c.len());
    assert forall|j: int| 0 <= j < la implies s[j] == a[j] by {}
    assert(s[la] == ',');
    lemma_comma_from_is(s, 0, la);
    assert(field1(s) =~= a);
    assert forall|j: int| la + 1 <= j < la + 1 + lb implies s[j] == b[j - la - 1] by {}
    assert(s[la + 1 + lb] == ',');
    lemma_comma_from_is(s, la + 1, la + 1 + lb);
    assert(field2(s) =~= b);
    assert forall|j: int| la + lb + 2 <= j < s.len() implies s[j] == c[j - la - lb - 2] by {}
    lemma_comma_from_is(s, la + lb + 2, s.len() as int);
    assert(field3(s) =~= c);
}

/// The character of a single decimal digit.
pub open spec fn digit_char(d: nat) -> char {
    if d == 0 {
        '0'
    } else if d == 1 {
        '1'
    } else if d == 2 {
        '2'
    } else if d == 3 {
        '3'
    } else if d == 4 {
        '4'
    } else if d == 5 {
        '5'
    } else if d == 6 {
        '6'
    } else if d == 7 {
        '7'
    } else if d == 8 {
        '8'
    } else {
        '9'
    }
}

pub proof fn lemma_digit_char(d: nat)
    requires
        d < 10,
    ensures
        is_digit(digit_char(d)),
        digit_val(digit_char(d)) == d,
{
}

/// The decimal digits of `n`, most significant first, no sign and no
/// leading zero (except for zero itself).
pub open spec fn dec_digits(n: nat) -> Seq<char>
    decreases n,
{
    if n < 10 {
        seq![digit_char(n)]
    } else {
        dec_digits(n / 10).push(digit_char(n % 10))
    }
}

pub proof fn lemma_dec_digits(n: nat)
    ensures
        dec_digits(n).len() >= 1,
        all_digits(dec_digits(n)),
        digits_val(dec_digits(n)) == n,
    decreases n,
{
    if n < 10 {
        lemma_digit_char(n);
        let s = dec_digits(n);
        assert(s.drop_last() =~= Seq::<char>::empty());
        assert(digits_val(s) == digits_val(s.drop_last()) * 10 + digit_val(s.last()));
        assert(digits_val(s.drop_last()) == 0);
        assert(s.last() == digit_char(n));
    } else {
        lemma_dec_digits(n / 10);
        lemma_digit_char(n % 10);
        let s = dec_digits(n);
        assert(s == dec_digits(n / 10).push(digit_char(n % 10)));
        assert(s.drop_last() =~= dec_digits(n / 10));
        assert(s.len() == dec_digits(n / 10).len() + 1);
        assert(s.last() == digit_char(n % 10));
        assert(digits_val(s) == digits_val(s.drop_last()) * 10 + digit_val(s.last()));
        assert(digits_val(s) == (n / 10) * 10 + (n % 10));
        vstd::arithmetic::div_mod::lemma_fundamental_div_mod(n as int, 10);
        assert(n == 10 * (n / 10) + (n % 10));
        assert forall|i: int| 0 <= i < s.len() implies is_digit(#[trigger] s[i]) by {
            if i < s.len() - 1 {
                assert(s[i] == dec_digits(n / 10)[i]);
            }
        }
    }
}

/// Digits are not commas.
pub proof fn lemma_all_digits_no_comma(s: Seq<char>)
    requires
        all_digits(s),
    ensures
        no_comma(s),
{
    assert forall|i: int| 0 <= i < s.len() implies s[i] != ',' by {
        assert(is_digit(s[i]));
        if s[i] == ',' {
            assert(s[i] as u32 == ',' as u32);
        }
    }
}

/// The decimal rendering of an integer: a minus sign for negative values,
/// then the digits of the magnitude.
pub open spec fn int_seq(v: int) -> Seq<char> {
    if v >= 0 {
        dec_digits(v as nat)
    } else {
        seq!['-'] + dec_digits((-v) as nat)
    }
}

/// A rendered 32-bit integer parses back to the same value, and holds no
/// comma.
pub proof fn lemma_int_seq(v: int)
    requires
        -2147483648 <= v <= 2147483647,
    ensures
        parses_as_i32(int_seq(v)),
        int_of(int_seq(v)) == v,
        no_comma(int_seq(v)),
{
    let s = int_seq(v);
    if v >= 0 {
        lemma_dec_digits(v as nat);
        lemma_all_digits_no_comma(s);
        assert(is_digit(s[0]));
        if s[0] == '-' {
            assert(s[0] as u32 == '-' as u32);
        }
        if s[0] == '+' {
            assert(s[0] as u32 == '+' as u32);
        }
        assert(int_shape_ok(s));
        assert(int_of(s) == v);
    } else {
        let d = dec_digits((-v) as nat);
        lemma_dec_digits((-v) as nat);
        lemma_all_digits_no_comma(d);
        assert(s[0] == '-');
        assert(s.skip(1) =~= d);
        assert(int_shape_ok(s));
        assert(int_mag(s) == -v);
        assert(int_of(s) == v);
        assert forall|i: int| 0 <= i < s.len() implies s[i] != ',' by {
            if i > 0 {
                assert(s[i] == d[i - 1]);
                assert(is_digit(d[i - 1]));
                if s[i] == ',' {
                    assert(s[i] as u32 == ',' as u32);
                }
            }
        }
    }
}

/// The one-character text of a decimal digit.
pub fn digit_str(d: u8) -> (r: &'static str)
    requires
        d < 10,
    ensures
        r@ == seq![digit_char(d as nat)],
{
    proof {
        reveal_strlit("0");
        reveal_strlit("1");
        reveal_strlit("2");
        reveal_strlit("3");
        reveal_strlit("4");
        reveal_strlit("5");
        reveal_strlit("6");
        reveal_strlit("7");
        reveal_strlit("8");
        reveal_strlit("9");
    }
    let r: &'static str = if d == 0 {
        "0"
    } else if d == 1 {
        "1"
    } else if d == 2 {
        "2"
    } else if d == 3 {
        "3"
    } else if d == 4 {
        "4"
    } else if d == 5 {
        "5"
    } else if d == 6 {
        "6"
    } else if d == 7 {
        "7"
    } else if d == 8 {
        "8"
    } else {
        "9"
    };
    proof {
        assert(r@ =~= seq![digit_char(d as nat)]);
    }
    r
}

/// Appends the decimal digits of `m` to `out`.
pub fn push_dec(out: &mut String, m: u32)
    ensures
        final(out)@ == old(out)@ + dec_digits(m as nat),
    decreases m,
{
    if m < 10 {
        let d: &'static str = digit_str(m as u8);
        out.append(d);
        proof {
            assert(final(out)@ =~= old(out)@ + dec_digits(m as nat));
        }
    } else {
        proof {
            assert(m / 10 < m) by (nonlinear_arith)
                requires
                    m >= 10,
            ;
        }
        push_dec(out, m / 10);
        let d: &'static str = digit_str((m % 10) as u8);
        out.append(d);
        proof {
            assert(dec_digits(m as nat) =~= dec_digits((m as nat) / 10).push(
                digit_char((m as nat) % 10),
            ));
            assert(final(out)@ =~= old(out)@ + dec_digits(m as nat));
        }
    }
}

/// Appends the decimal rendering of `v` to `out`.
pub fn push_i32(out: &mut String, v: i32)
    ensures
        final(out)@ == old(out)@ + int_seq(v as int),
{
    if v < 0 {
        out.append("-");
        proof {
            reveal_strlit("-");
            assert("-"@ =~= seq!['-']);
        }
        let m: u32 = (-(v as i64)) as u32;
        push_dec(out, m);
        proof {
            assert(final(out)@ =~= old(out)@ + int_seq(v as int));
        }
    } else {
        push_dec(out, v as u32);
    }
}

/// The index of the first comma at or after `from`, or the length.
pub fn find_comma(s: &str, from: usize) -> (r: usize)
    requires
        from <= s@.len(),
    ensures
        r == comma_from(s@, from as int),
        from <= r <= s@.len(),
{
    let n: usize = s.unicode_len();
    let mut i: usize = from;
    while i < n
        invariant
            from <= i <= n,
            n == s@.len(),
            forall|j: int| from <= j < i ==> s@[j] != ',',
        decreases n - i,
    {
        let c: char = s.get_char(i);
        if c == ',' {
            proof {
                lemma_comma_from_is(s@, from as int, i as int);
            }
            return i;
        }
        i = i + 1;
    }
    proof {
        lemma_comma_from_is(s@, from as int, s@.len() as int);
    }
    n
}

/// Reads the text as a decimal 32-bit integer: an optional sign, then
/// digits. Succeeds exactly when `str::parse::<i32>` would.
pub fn parse_i32(s: &str) -> (r: Result<i32, ParseError>)
    ensures
        r is Ok <==> parses_as_i32(s@),
        r is Ok ==> r->Ok_0 == int_of(s@),
        r is Err ==> r->Err_0 == ParseError::NotNumeric,
{
    let n: usize = s.unicode_len();
    if n == 0 {
        return Err(ParseError::NotNumeric);
    }
    let c0: char = s.get_char(0);
    let neg: bool = c0 == '-';
    let signed: bool = neg || c0 == '+';
    let start: usize = if signed {
        1
    } else {
        0
    };
    if start == n {
        // a sign with no digits after it
        return Err(ParseError::NotNumeric);
    }
    let mut acc: u64 = 0;
    let mut i: usize = start;
    while i < n
        invariant
            start <= i <= n,
            n == s@.len(),
            n > start,
            s@[0] == c0,
            neg == (c0 == '-'),
            signed == (c0 == '-' || c0 == '+'),
            start == (if signed { 1int } else { 0int }),
            forall|j: int| start <= j < i ==> is_digit(#[trigger] s@[j]),
            acc == digits_val(s@.subrange(start as int, i as int)),
            acc <= 2147483648u64,
        decreases n - i,
    {
        let c: char = s.get_char(i);
        let u: u32 = c as u32;
        if u < 48 || u > 57 {
            proof {
                assert(!is_digit(s@[i as int]));
                if int_shape_ok(s@) {
                    if signed {
                        assert(is_digit(s@.skip(1)[i - 1]));
                    }
                    assert(false);
                }
            }
            return Err(ParseError::NotNumeric);
        }
        let d: u64 = (u - 48) as u64;
        proof {
            assert(s@.subrange(start as int, i + 1).drop_last() =~= s@.subrange(
                start as int,
                i as int,
            ));
            assert(s@.subrange(start as int, i + 1).last() == s@[i as int]);
            assert(d == digit_val(s@[i as int]));
        }
        acc = acc * 10 + d;
        if acc > 2147483648u64 {
            proof {
                if parses_as_i32(s@) {
                    let t = s@.subrange(start as int, n as int);
                    assert forall|j: int| 0 <= j < t.len() implies is_digit(#[trigger] t[j]) by {
                        if signed {
                            assert(t[j] == s@.skip(1)[j + start - 1]);
                            assert(is_digit(s@.skip(1)[j + start - 1]));
                        } else {
                            assert(t[j] == s@[j]);
                        }
                    }
                    assert(s@.subrange(start as int, i + 1) =~= t.subrange(0, i + 1 - start));
                    lemma_digits_val_prefix(t, i + 1 - start);
                    if signed {
                        assert(t =~= s@.skip(1));
                    } else {
                        assert(t =~= s@);
                    }
                    assert(int_mag(s@) >= acc > 2147483648);
                    assert(false);
                }
            }
            return Err(ParseError::NotNumeric);
        }
        i = i + 1;
    }
    proof {
        if signed {
            assert(s@.subrange(start as int, n as int) =~= s@.skip(1));
            assert forall|j: int| 0 <= j < s@.skip(1).len() implies is_digit(
                #[trigger] s@.skip(1)[j],
            ) by {
                assert(s@.skip(1)[j] == s@[j + 1]);
            }
        } else {
            assert(s@.subrange(start as int, n as int) =~= s@);
        }
        assert(int_shape_ok(s@));
        assert(int_mag(s@) == acc);
    }
    if neg {
        if acc == 2147483648u64 {
            Ok(i32::MIN)
        } else {
            Ok(-(acc as i32))
        }
    } else {
        if acc <= 2147483647u64 {
            Ok(acc as i32)
        } else {
            Err(ParseError::NotNumeric)
        }
    }
}

} // verus!
