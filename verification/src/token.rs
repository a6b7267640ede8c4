use vstd::prelude::*;
use vstd::string::StrSliceExecFns;
use vstd::string::StringExecFns;

verus! {

/// Errors of this crate. The first four name the distinct ways a token can be
/// malformed; `Os` carries the errno of a failed OS call; `Eof` and `WriteZero`
/// report a stream that ended or refused bytes while a fixed amount was owed.
#[derive(Clone, Copy, Debug, PartialEq, Eq, Structural)]
pub enum Error {
    BadPrefix,
    MissingField,
    TooManyFields,
    BadNumber,
    Os(i32),
    Eof,
    WriteZero,
}

/// Value of a decimal digit character; 10 for any other character.
pub open spec fn digit_val(c: char) -> int {
    if c == '0' {
        0
    } else if c == '1' {
        1
    } else if c == '2' {
        2
    } else if c == '3' {
        3
    } else if c == '4' {
        4
    } else if c == '5' {
        5
    } else if c == '6' {
        6
    } else if c == '7' {
        7
    } else if c == '8' {
        8
    } else if c == '9' {
        9
    } else {
        10
    }
}

pub open spec fn is_digit(c: char) -> bool {
    digit_val(c) < 10
}

/// The decimal digit character for a value below ten.
pub open spec fn digit_char(d: int) -> char {
    if d == 0 {
        '0'
    } else if d == 1 {
        '1'
    } else if d == 2 {
        '2'
    } else if d == 3 {
        '3'
    } else if d == 4 {
        '4'
    } else if d == 5 {
        '5'
    } else if d == 6 {
        '6'
    } else if d == 7 {
        '7'
    } else if d == 8 {
        '8'
    } else {
        '9'
    }
}

/// The number a sequence of digit characters denotes, most significant first.
pub open spec fn digits_val(s: Seq<char>) -> int
    decreases s.len(),
{
    if s.len() == 0 {
        0
    } else {
        digits_val(s.drop_last()) * 10 + digit_val(s.last())
    }
}

pub open spec fn all_digits(s: Seq<char>) -> bool {
    forall|i: int| 0 <= i < s.len() ==> is_digit(#[trigger] s[i])
}

/// Decimal rendering of a non-negative number, without leading zeros.
pub open spec fn dec_digits(n: int) -> Seq<char>
    decreases n,
{
    if n < 10 {
        seq![digit_char(n)]
    } else {
        dec_digits(n / 10).push(digit_char(n % 10))
    }
}

/// Decimal rendering of a signed number.
pub open spec fn dec_of(v: int) -> Seq<char> {
    if v < 0 {
        seq!['-'] + dec_digits(-v)
    } else {
        dec_digits(v)
    }
}

pub open spec fn prefix_chars() -> Seq<char> {
    seq!['d', 'p', 'i', 'p', 'e', ':']
}

/// The token that names a transfer package holding descriptors `r` and `w`.
pub open spec fn token_of(r: int, w: int) -> Seq<char> {
    prefix_chars() + dec_of(r) + seq![','] + dec_of(w)
}

proof fn lemma_digits_val_nonneg(s: Seq<char>)
    requires
        all_digits(s),
    ensures
        digits_val(s) >= 0,
    decreases s.len(),
{
    if s.len() > 0 {
        assert(all_digits(s.drop_last()));
        lemma_digits_val_nonneg(s.drop_last());
    }
}

proof fn lemma_digits_val_push(s: Seq<char>, c: char)
    ensures
        digits_val(s.push(c)) == digits_val(s) * 10 + digit_val(c),
{
    assert(s.push(c).drop_last() =~= s);
    assert(s.push(c).last() == c);
}

/// A digit sequence is worth at least any of its prefixes.
proof fn lemma_digits_val_prefix(s: Seq<char>, k: int)
    requires
        all_digits(s),
        0 <= k <= s.len(),
    ensures
        digits_val(s) >= digits_val(s.take(k)),
    decreases s.len() - k,
{
    if k < s.len() {
        let t = s.take(k + 1);
        assert(t.drop_last() =~= s.take(k));
        assert(all_digits(t.drop_last()));
        lemma_digits_val_nonneg(t.drop_last());
        assert(digits_val(t) == digits_val(s.take(k)) * 10 + digit_val(t.last()));
        lemma_digits_val_prefix(s, k + 1);
    } else {
        assert(s.take(k) =~= s);
    }
}

// ---------------------------------------------------------------------------
// Rendering
// ---------------------------------------------------------------------------

fn digit_of(c: char) -> (d: u32)
    ensures
        d == digit_val(c),
{
    if c == '0' {
        0
    } else if c == '1' {
        1
    } else if c == '2' {
        2
    } else if c == '3' {
        3
    } else if c == '4' {
        4
    } else if c == '5' {
        5
    } else if c == '6' {
        6
    } else if c == '7' {
        7
    } else if c == '8' {
        8
    } else if c == '9' {
        9
    } else {
        10
    }
}

fn digit_str(d: u32) -> (r: &'static str)
    requires
        d < 10,
    ensures
        r@ =~= seq![digit_char(d as int)],
{
    proof {
        reveal_strlit("0");
        reveal_strlit("1");
        reveal_strlit("2");
        reveal_strlit("3");
        reveal_strlit("4");
        reveal_strlit("5");
        reveal_strlit("6");
        reveal_strlit("7");
        reveal_strlit("8");
        reveal_strlit("9");
    }
    if d == 0 {
        "0"
    } else if d == 1 {
        "1"
    } else if d == 2 {
        "2"
    } else if d == 3 {
        "3"
    } else if d == 4 {
        "4"
    } else if d == 5 {
        "5"
    } else if d == 6 {
        "6"
    } else if d == 7 {
        "7"
    } else if d == 8 {
        "8"
    } else {
        "9"
    }
}

fn push_u32_digits(n: u32, out: &mut String)
    ensures
        final(out)@ == old(out)@ + dec_digits(n as int),
    decreases n,
{
    if n < 10 {
        out.append(digit_str(n));
        assert(old(out)@ + dec_digits(n as int) =~= final(out)@);
    } else {
        push_u32_digits(n / 10, out);
        out.append(digit_str(n % 10));
        proof {
            assert(dec_digits(n as int) == dec_digits(n as int / 10).push(
                digit_char(n as int % 10),
            ));
            assert(final(out)@ =~= old(out)@ + dec_digits(n as int));
        }
    }
}

/// Appends the decimal rendering of `v`, sign included, to `out`.
pub fn push_i32(v: i32, out: &mut String)
    ensures
        final(out)@ == old(out)@ + dec_of(v as int),
{
    if v < 0 {
        out.append("-");
        let m64: i64 = -(v as i64);
        let mag: u32 = m64 as u32;
        push_u32_digits(mag, out);
        proof {
            reveal_strlit("-");
            assert("-"@ =~= seq!['-']);
            assert(dec_of(v as int) == seq!['-'] + dec_digits(-(v as int)));
            assert(final(out)@ =~= old(out)@ + dec_of(v as int));
        }
    } else {
        push_u32_digits(v as u32, out);
    }
}

/// Renders the token for descriptor identifiers `r` and `w`:
/// `dpipe:<r>,<w>`, both in decimal.
pub fn encode_token(r: i32, w: i32) -> (t: String)
    ensures
        t@ == token_of(r as int, w as int),
{
    let mut t = String::from_str("dpipe:");
    proof {
        reveal_strlit("dpipe:");
        assert(t@ =~= prefix_chars());
    }
    push_i32(r, &mut t);
    t.append(",");
    proof {
        reveal_strlit(",");
        assert(","@ =~= seq![',']);
    }
    push_i32(w, &mut t);
    proof {
        assert(t@ =~= token_of(r as int, w as int));
    }
    t
}

// ---------------------------------------------------------------------------
// Parsing
// ---------------------------------------------------------------------------

pub open spec fn has_sign(s: Seq<char>) -> bool {
    s.len() > 0 && (s[0] == '+' || s[0] == '-')
}

/// The digit part of a rendered number: everything after an optional sign.
pub open spec fn num_body(s: Seq<char>) -> Seq<char> {
    if has_sign(s) {
        s.skip(1)
    } else {
        s
    }
}

/// Whether `s` has the shape of a decimal integer: an optional sign,
/// then one or more digits.
pub open spec fn is_number(s: Seq<char>) -> bool {
    num_body(s).len() > 0 && all_digits(num_body(s))
}

pub open spec fn int_val(s: Seq<char>) -> int {
    if s.len() > 0 && s[0] == '-' {
        -digits_val(num_body(s))
    } else {
        digits_val(num_body(s))
    }
}

/// What parsing `s` as a 32-bit identifier yields: its value when `s` is a
/// well-shaped number in range, nothing otherwise.
pub open spec fn parse_i32_spec(s: Seq<char>) -> Option<i32> {
    if is_number(s) && i32::MIN <= int_val(s) <= i32::MAX {
        Some(int_val(s) as i32)
    } else {
        None
    }
}

/// Index of the first comma of `s`, or -1 when there is none.
pub open spec fn first_comma(s: Seq<char>) -> int
    decreases s.len(),
{
    if s.len() == 0 {
        -1
    } else if s[0] == ',' {
        0
    } else if first_comma(s.skip(1)) < 0 {
        -1
    } else {
        1 + first_comma(s.skip(1))
    }
}

pub open spec fn has_dpipe_prefix(t: Seq<char>) -> bool {
    t.len() >= 6 && t.subrange(0, 6) == prefix_chars()
}

/// What decoding a token yields: the two descriptor identifiers of a
/// well-formed token, or the error naming the first way it is malformed.
pub open spec fn decode_spec(t: Seq<char>) -> Result<(i32, i32), Error> {
    if !has_dpipe_prefix(t) {
        Err(Error::BadPrefix)
    } else {
        let rest = t.skip(6);
        let c1 = first_comma(rest);
        if c1 < 0 {
            Err(Error::MissingField)
        } else if first_comma(rest.skip(c1 + 1)) >= 0 {
            Err(Error::TooManyFields)
        } else {
            match (parse_i32_spec(rest.take(c1)), parse_i32_spec(rest.skip(c1 + 1))) {
                (Some(r), Some(w)) => Ok((r, w)),
                _ => Err(Error::BadNumber),
            }
        }
    }
}

proof fn lemma_no_comma(s: Seq<char>)
    requires
        forall|i: int| 0 <= i < s.len() ==> s[i] != ',',
    ensures
        first_comma(s) == -1,
    decreases s.len(),
{
    if s.len() > 0 {
        assert(forall|i: int| 0 <= i < s.skip(1).len() ==> s.skip(1)[i] == s[i + 1]);
        lemma_no_comma(s.skip(1));
    }
}

proof fn lemma_first_comma_at(s: Seq<char>, k: int)
    requires
        0 <= k < s.len(),
        s[k] == ',',
        forall|i: int| 0 <= i < k ==> s[i] != ',',
    ensures
        first_comma(s) == k,
    decreases k,
{
    if k == 0 {
    } else {
        assert(forall|i: int| 0 <= i < s.skip(1).len() ==> s.skip(1)[i] == s[i + 1]);
        lemma_first_comma_at(s.skip(1), k - 1);
    }
}

fn check_prefix(s: &str, n: usize) -> (b: bool)
    requires
        n == s@.len(),
    ensures
        b == has_dpipe_prefix(s@),
{
    if n < 6 {
        return false;
    }
    let ok = s.get_char(0) == 'd' && s.get_char(1) == 'p' && s.get_char(2) == 'i' && s.get_char(3)
        == 'p' && s.get_char(4) == 'e' && s.get_char(5) == ':';
    proof {
        if ok {
            assert(s@.subrange(0, 6) =~= prefix_chars());
        } else {
            if s@.subrange(0, 6) == prefix_chars() {
                assert(forall|i: int| 0 <= i < 6 ==> s@[i] == #[trigger] s@.subrange(0, 6)[i]);
                assert(false);
            }
        }
    }
    ok
}

/// Scans `s` from `start` for commas; reports the first comma's index and
/// whether a second one exists.
fn find_commas(s: &str, start: usize, n: usize) -> (r: (Option<usize>, bool))
    requires
        start <= n,
        n == s@.len(),
    ensures
        ({
            let rest = s@.skip(start as int);
            match r.0 {
                None => first_comma(rest) == -1 && !r.1,
                Some(k) => start <= k < n && first_comma(rest) == k - start && (r.1
                    <==> first_comma(s@.skip(k + 1 as int)) >= 0),
            }
        }),
{
    let mut c1: Option<usize> = None;
    let mut i = start;
    while i < n
        invariant
            start <= i <= n,
            n == s@.len(),
            match c1 {
                None => forall|j: int| start <= j < i ==> s@[j] != ',',
                Some(k) => start <= k < i && s@[k as int] == ',' && (forall|j: int|
                    start <= j < k ==> s@[j] != ',') && (forall|j: int|
                    k < j < i ==> s@[j] != ','),
            },
        decreases n - i,
    {
        if s.get_char(i) == ',' {
            match c1 {
                None => {
                    c1 = Some(i);
                },
                Some(k) => {
                    proof {
                        let rest = s@.skip(start as int);
                        assert(forall|j: int|
                            0 <= j < rest.len() ==> rest[j] == s@[j + start]);
                        lemma_first_comma_at(rest, k - start);
                        let after = s@.skip(k + 1 as int);
                        assert(forall|j: int|
                            0 <= j < after.len() ==> after[j] == s@[j + k + 1]);
                        lemma_first_comma_at(after, i - k - 1);
                    }
                    return (Some(k), true);
                },
            }
        }
        i += 1;
    }
    proof {
        let rest = s@.skip(start as int);
        assert(forall|j: int| 0 <= j < rest.len() ==> rest[j] == s@[j + start]);
        match c1 {
            None => {
                lemma_no_comma(rest);
            },
            Some(k) => {
                lemma_first_comma_at(rest, k as int - start);
                let after = s@.skip(k + 1 as int);
                assert(forall|j: int| 0 <= j < after.len() ==> after[j] == s@[j + k + 1]);
                lemma_no_comma(after);
            },
        }
    }
    (c1, false)
}

/// Parses `s[from..to]` as a decimal 32-bit integer, exactly as
/// `parse_i32_spec` describes.
fn parse_range(s: &str, from: usize, to: usize) -> (r: Option<i32>)
    requires
        from <= to <= s@.len(),
    ensures
        r == parse_i32_spec(s@.subrange(from as int, to as int)),
{
    let ghost field = s@.subrange(from as int, to as int);
    if from == to {
        return None;
    }
    let first = s.get_char(from);
    let neg = first == '-';
    let dstart = if first == '-' || first == '+' {
        from + 1
    } else {
        from
    };
    let ghost body = s@.subrange(dstart as int, to as int);
    proof {
        assert(field[0] == first);
        assert(num_body(field) =~= body);
    }
    if dstart == to {
        return None;
    }
    let mut mag: u32 = 0;
    let mut i = dstart;
    while i < to
        invariant
            from <= dstart <= to <= s@.len(),
            dstart <= i <= to,
            dstart == from || dstart == from + 1,
            body == s@.subrange(dstart as int, to as int),
            field == s@.subrange(from as int, to as int),
            num_body(field) == body,
            neg <==> (field.len() > 0 && field[0] == '-'),
            all_digits(s@.subrange(dstart as int, i as int)),
            mag == digits_val(s@.subrange(dstart as int, i as int)),
            mag <= 0x8000_0000,
        decreases to - i,
    {
        let c = s.get_char(i);
        let d = digit_of(c);
        let ghost sofar = s@.subrange(dstart as int, i as int);
        let ghost sonext = s@.subrange(dstart as int, i + 1 as int);
        proof {
            assert(sonext =~= sofar.push(c));
            lemma_digits_val_push(sofar, c);
        }
        if d >= 10 {
            proof {
                assert(body[i - dstart] == c);
                assert(!is_digit(c));
                assert(!all_digits(body));
                assert(num_body(field) == body);
                assert(!is_number(field));
            }
            return None;
        }
        if mag > 214748364 || (mag == 214748364 && d > 8) {
            proof {
                if all_digits(body) {
                    assert(sonext =~= body.take(i + 1 - dstart as int));
                    lemma_digits_val_prefix(body, i + 1 - dstart as int);
                    assert(digits_val(body) > 0x8000_0000);
                    assert(digits_val(num_body(field)) > 0x8000_0000);
                    assert(int_val(field) > i32::MAX || int_val(field) < i32::MIN);
                } else {
                    assert(!is_number(field));
                }
            }
            return None;
        }
        mag = mag * 10 + d;
        i += 1;
    }
    proof {
        assert(s@.subrange(dstart as int, to as int) =~= body);
        assert(is_number(field));
        assert(digits_val(body) == mag);
    }
    if neg {
        proof {
            assert(int_val(field) == -(mag as int));
        }
        if mag == 0x8000_0000 {
            Some(i32::MIN)
        } else {
            Some(0 - (mag as i32))
        }
    } else {
        proof {
            assert(field[0] != '-');
            assert(int_val(field) == mag as int);
        }
        if mag == 0x8000_0000 {
            None
        } else {
            Some(mag as i32)
        }
    }
}

/// Parses a whole string as a decimal 32-bit integer: an optional sign, then
/// one or more digits, denoting a value in range — exactly as
/// `parse_i32_spec` describes.
pub fn parse_i32(s: &str) -> (r: Option<i32>)
    ensures
        r == parse_i32_spec(s@),
{
    let n = s.unicode_len();
    let r = parse_range(s, 0, n);
    proof {
        assert(s@.subrange(0, n as int) =~= s@);
    }
    r
}

/// Decodes a token of the form `dpipe:<r>,<w>`, returning the two descriptor
/// identifiers, or the error naming the first way the token is malformed.
pub fn decode_token(s: &str) -> (r: Result<(i32, i32), Error>)
    ensures
        r == decode_spec(s@),
{
    let n = s.unicode_len();
    if !check_prefix(s, n) {
        return Err(Error::BadPrefix);
    }
    let ghost rest = s@.skip(6);
    proof {
        assert(forall|j: int| 0 <= j < rest.len() ==> rest[j] == s@[j + 6]);
    }
    let (c1, second) = find_commas(s, 6, n);
    match c1 {
        None => Err(Error::MissingField),
        Some(k) => {
            proof {
                let rs = s@.skip(6int);
                assert(first_comma(rs) == k - 6);
                assert(rs.skip(k - 6 + 1) =~= s@.skip(k + 1 as int));
            }
            if second {
                return Err(Error::TooManyFields);
            }
            let a = parse_range(s, 6, k);
            let b = parse_range(s, k + 1, n);
            proof {
                let rs = s@.skip(6int);
                let c = first_comma(rs);
                assert(rs.take(c) =~= s@.subrange(6, k as int));
                assert(rs.skip(c + 1) =~= s@.subrange(k + 1 as int, n as int));
            }
            match (a, b) {
                (Some(r), Some(w)) => Ok((r, w)),
                _ => Err(Error::BadNumber),
            }
        },
    }
}

// ---------------------------------------------------------------------------
// Round trip
// ---------------------------------------------------------------------------

proof fn lemma_dec_digits_shape(n: int)
    requires
        n >= 0,
    ensures
        dec_digits(n).len() >= 1,
        all_digits(dec_digits(n)),
        digits_val(dec_digits(n)) == n,
    decreases n,
{
    if n < 10 {
        reveal_with_fuel(digits_val, 2);
        assert(is_digit(digit_char(n)));
        assert(digit_val(digit_char(n)) == n);
        assert(dec_digits(n).drop_last() =~= Seq::<char>::empty());
        assert(dec_digits(n).last() == digit_char(n));
        assert(digits_val(dec_digits(n)) == n);
    } else {
        lemma_dec_digits_shape(n / 10);
        lemma_digits_val_push(dec_digits(n / 10), digit_char(n % 10));
        assert(is_digit(digit_char(n % 10)));
        assert(digit_val(digit_char(n % 10)) == n % 10);
        assert(n / 10 * 10 + n % 10 == n);
        assert(forall|i: int|
            0 <= i < dec_digits(n).len() - 1 ==> dec_digits(n)[i] == dec_digits(n / 10)[i]);
        assert(digits_val(dec_digits(n)) == n);
    }
}

proof fn lemma_dec_of_shape(v: int)
    ensures
        dec_of(v).len() >= 1,
        forall|i: int| 0 <= i < dec_of(v).len() ==> dec_of(v)[i] == '-' || is_digit(
            #[trigger] dec_of(v)[i],
        ),
{
    if v < 0 {
        lemma_dec_digits_shape(-v);
        assert(forall|i: int|
            1 <= i < dec_of(v).len() ==> dec_of(v)[i] == dec_digits(-v)[i - 1]);
    } else {
        lemma_dec_digits_shape(v);
    }
}

/// Parsing undoes rendering: the decimal form of any 32-bit value reads back
/// as that value.
pub proof fn lemma_parse_of_dec(v: i32)
    ensures
        parse_i32_spec(dec_of(v as int)) == Some(v),
{
    let s = dec_of(v as int);
    if v < 0 {
        lemma_dec_digits_shape(-(v as int));
        assert(s[0] == '-');
        assert(num_body(s) =~= dec_digits(-(v as int)));
        assert(int_val(s) == v as int);
    } else {
        lemma_dec_digits_shape(v as int);
        assert(s == dec_digits(v as int));
        assert(is_digit(s[0]));
        assert(!has_sign(s));
        assert(num_body(s) == s);
        assert(int_val(s) == v as int);
    }
}

/// The law of the token format: decoding the token rendered for any pair of
/// descriptor identifiers yields exactly that pair.
pub proof fn lemma_token_round_trip(r: i32, w: i32)
    ensures
        decode_spec(token_of(r as int, w as int)) == Ok::<(i32, i32), Error>((r, w)),
{
    let a = dec_of(r as int);
    let b = dec_of(w as int);
    let t = token_of(r as int, w as int);
    lemma_dec_of_shape(r as int);
    lemma_dec_of_shape(w as int);
    assert(t.subrange(0, 6) =~= prefix_chars());
    let rest = t.skip(6);
    assert(rest =~= a + seq![','] + b);
    let k = a.len() as int;
    assert(rest[k] == ',');
    assert(forall|i: int| 0 <= i < k ==> rest[i] == a[i]);
    assert(!is_digit(',') && ',' != '-');
    lemma_first_comma_at(rest, k);
    let after = rest.skip(k + 1);
    assert(after =~= b);
    lemma_no_comma(after);
    assert(rest.take(k) =~= a);
    lemma_parse_of_dec(r);
    lemma_parse_of_dec(w);
}

} // verus!
