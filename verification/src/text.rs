//! Text: trimming, splitting, and decimal numbers.
use vstd::prelude::*;
use vstd::string::StringExecFns;

verus! {

/// The characters of a text, one by one.
pub fn characters(text: &str) -> (r: Vec<char>)
    ensures
        r@ == text@,
{
    let mut r: Vec<char> = Vec::new();
    for c in it: text.chars()
        invariant
            r@ == it.seq().take(it.index() as int),
            it.seq() == text@,
    {
        r.push(c);
    }
    r
}

/// The characters with the Unicode property White_Space.
pub open spec fn whitespace(c: char) -> bool {
    let u = c as u32;
    ||| 0x09 <= u <= 0x0D
    ||| u == 0x20
    ||| u == 0x85
    ||| u == 0xA0
    ||| u == 0x1680
    ||| 0x2000 <= u <= 0x200A
    ||| 0x2028 <= u <= 0x2029
    ||| u == 0x202F
    ||| u == 0x205F
    ||| u == 0x3000
}

/// Whether a character is white space.
pub fn is_whitespace(c: char) -> (r: bool)
    ensures
        r == whitespace(c),
{
    let u: u32 = c as u32;
    (0x09 <= u && u <= 0x0D) || u == 0x20 || u == 0x85 || u == 0xA0 || u == 0x1680 || (0x2000 <= u
        && u <= 0x200A) || u == 0x2028 || u == 0x2029 || u == 0x202F || u == 0x205F || u == 0x3000
}

/// A text without its leading white space.
pub open spec fn trim_start(s: Seq<char>) -> Seq<char>
    decreases s.len(),
{
    if s.len() > 0 && whitespace(s[0]) {
        trim_start(s.skip(1))
    } else {
        s
    }
}

/// A text without its trailing white space.
pub open spec fn trim_end(s: Seq<char>) -> Seq<char>
    decreases s.len(),
{
    if s.len() > 0 && whitespace(s.last()) {
        trim_end(s.drop_last())
    } else {
        s
    }
}

/// A text without its leading and trailing white space.
pub open spec fn trimmed(s: Seq<char>) -> Seq<char> {
    trim_end(trim_start(s))
}

/// The part of `s` between its leading and its trailing white space.
pub fn trim(s: &[char]) -> (r: &[char])
    ensures
        r@ == trimmed(s@),
        r@.len() <= s@.len(),
{
    let mut lo: usize = 0;
    assert(s@.skip(0) =~= s@);
    while lo < s.len() && is_whitespace(s[lo])
        invariant
            lo <= s@.len(),
            trim_start(s@) == trim_start(s@.skip(lo as int)),
        decreases s@.len() - lo,
    {
        assert(s@.skip(lo as int).skip(1) =~= s@.skip(lo + 1));
        lo += 1;
    }
    let mut hi: usize = s.len();
    while lo < hi && is_whitespace(s[hi - 1])
        invariant
            lo <= hi <= s@.len(),
            trimmed(s@) == trim_end(s@.subrange(lo as int, hi as int)),
        decreases hi,
    {
        assert(s@.subrange(lo as int, hi as int).drop_last() =~= s@.subrange(lo as int, hi - 1));
        hi -= 1;
    }
    &s[lo..hi]
}

/// The index of the first `sep`, or the length where there is none.
pub open spec fn first_index(s: Seq<char>, sep: char) -> int
    decreases s.len(),
{
    if s.len() == 0 || s[0] == sep {
        0
    } else {
        1 + first_index(s.skip(1), sep)
    }
}

/// The index of the first `sep`, or the length where there is none.
pub fn find(s: &[char], sep: char) -> (k: usize)
    ensures
        k == first_index(s@, sep),
        k <= s@.len(),
        k < s@.len() ==> s@[k as int] == sep,
{
    let mut k: usize = 0;
    assert(s@.skip(0) =~= s@);
    while k < s.len() && s[k] != sep
        invariant
            k <= s@.len(),
            first_index(s@, sep) == k + first_index(s@.skip(k as int), sep),
        decreases s@.len() - k,
    {
        assert(s@.skip(k as int).skip(1) =~= s@.skip(k + 1));
        k += 1;
    }
    k
}

/// The fields of a text: what stands before, between and after its separators.
pub open spec fn fields(s: Seq<char>, sep: char) -> Seq<Seq<char>>
    decreases s.len(),
{
    let k = first_index(s, sep);
    if 0 <= k < s.len() {
        seq![s.take(k)] + fields(s.skip(k + 1), sep)
    } else {
        seq![s]
    }
}

/// The lines of a text. Each ends at a line feed, which is not part of it; at the last one the
/// line feed may be missing.
pub open spec fn lines(s: Seq<char>) -> Seq<Seq<char>>
    decreases s.len(),
{
    let k = first_index(s, '\n');
    if s.len() == 0 {
        seq![]
    } else if 0 <= k < s.len() {
        seq![s.take(k)] + lines(s.skip(k + 1))
    } else {
        seq![s]
    }
}

/// Why a text is not a number in range.
#[derive(Clone, Copy, Debug, PartialEq, Eq, Structural)]
pub enum NumberError {
    /// There is nothing to read.
    Empty,
    /// A character is not a digit, or no digit follows the sign.
    InvalidDigit,
    /// The number is too large.
    PosOverflow,
    /// The number is too small.
    NegOverflow,
}

impl NumberError {
    /// The error in words.
    pub open spec fn words(self) -> Seq<char> {
        match self {
            NumberError::Empty => "cannot parse integer from empty string"@,
            NumberError::InvalidDigit => "invalid digit found in string"@,
            NumberError::PosOverflow => "number too large to fit in target type"@,
            NumberError::NegOverflow => "number too small to fit in target type"@,
        }
    }

    /// The error in words.
    pub fn message(self) -> (s: &'static str)
        ensures
            s@ == self.words(),
    {
        match self {
            NumberError::Empty => "cannot parse integer from empty string",
            NumberError::InvalidDigit => "invalid digit found in string",
            NumberError::PosOverflow => "number too large to fit in target type",
            NumberError::NegOverflow => "number too small to fit in target type",
        }
    }
}

/// The value of a decimal digit.
pub open spec fn digit_value(c: char) -> Option<int> {
    if '0' <= c <= '9' {
        Some(c as int - '0' as int)
    } else {
        None
    }
}

/// The magnitude that a string of digits spells, read from the left, with the first thing that
/// is wrong on the way: a character that is no digit, or a number beyond the limit.
pub open spec fn magnitude(s: Seq<char>, negative: bool) -> Result<int, NumberError>
    decreases s.len(),
{
    if s.len() == 0 {
        Ok(0)
    } else {
        match magnitude(s.drop_last(), negative) {
            Err(e) => Err(e),
            Ok(m) => match digit_value(s.last()) {
                None => Err(NumberError::InvalidDigit),
                Some(d) => {
                    if negative && 10 * m + d > 0x8000 {
                        Err(NumberError::NegOverflow)
                    } else if !negative && 10 * m + d > 0x7FFF {
                        Err(NumberError::PosOverflow)
                    } else {
                        Ok(10 * m + d)
                    }
                },
            },
        }
    }
}

/// Whether a text begins with a sign.
pub open spec fn signed(s: Seq<char>) -> bool {
    s.len() > 0 && (s[0] == '+' || s[0] == '-')
}

/// The number that a text spells: an optional sign, then at least one digit.
pub open spec fn number(s: Seq<char>) -> Result<int, NumberError> {
    if s.len() == 0 {
        Err(NumberError::Empty)
    } else if s.len() == 1 && signed(s) {
        Err(NumberError::InvalidDigit)
    } else if s[0] == '-' {
        match magnitude(s.skip(1), true) {
            Ok(m) => Ok(-m),
            Err(e) => Err(e),
        }
    } else if s[0] == '+' {
        magnitude(s.skip(1), false)
    } else {
        magnitude(s, false)
    }
}

/// What is wrong in a prefix is wrong in the whole.
proof fn lemma_magnitude_error(s: Seq<char>, k: int, negative: bool)
    requires
        0 <= k <= s.len(),
        magnitude(s.take(k), negative) is Err,
    ensures
        magnitude(s, negative) == magnitude(s.take(k), negative),
    decreases s.len() - k,
{
    if k < s.len() {
        assert(s.take(k + 1).drop_last() =~= s.take(k));
        lemma_magnitude_error(s, k + 1, negative);
    } else {
        assert(s.take(k) =~= s);
    }
}

/// Read the digits of a number.
fn parse_magnitude(s: &[char], negative: bool) -> (r: Result<i32, NumberError>)
    ensures
        r is Ok <==> magnitude(s@, negative) is Ok,
        r matches Ok(m) ==> magnitude(s@, negative) == Ok::<int, NumberError>(m as int),
        r matches Ok(m) ==> 0 <= m <= 0x8000 && (m == 0x8000 ==> negative),
        r matches Err(e) ==> magnitude(s@, negative) == Err::<int, NumberError>(e),
{
    let mut m: i32 = 0;
    let mut i: usize = 0;
    while i < s.len()
        invariant
            i <= s@.len(),
            0 <= m <= 0x8000 && (m == 0x8000 ==> negative),
            magnitude(s@.take(i as int), negative) == Ok::<int, NumberError>(m as int),
        decreases s@.len() - i,
    {
        let c: char = s[i];
        proof {
            assert(s@.take(i + 1).drop_last() =~= s@.take(i as int));
            if magnitude(s@.take(i + 1), negative) is Err {
                lemma_magnitude_error(s@, i + 1, negative);
            }
        }
        if c < '0' || c > '9' {
            return Err(NumberError::InvalidDigit);
        }
        m = 10 * m + (c as i32 - '0' as i32);
        if negative && m > 0x8000 {
            return Err(NumberError::NegOverflow);
        }
        if !negative && m > 0x7FFF {
            return Err(NumberError::PosOverflow);
        }
        i += 1;
    }
    assert(s@.take(i as int) =~= s@);
    Ok(m)
}

/// Read a 16-bit number.
pub fn parse_number(s: &[char]) -> (r: Result<i16, NumberError>)
    ensures
        r is Ok <==> number(s@) is Ok,
        r matches Ok(v) ==> number(s@) == Ok::<int, NumberError>(v as int),
        r matches Err(e) ==> number(s@) == Err::<int, NumberError>(e),
{
    if s.len() == 0 {
        return Err(NumberError::Empty);
    }
    if s.len() == 1 && (s[0] == '+' || s[0] == '-') {
        return Err(NumberError::InvalidDigit);
    }
    let n: usize = s.len();
    if s[0] == '-' {
        match parse_magnitude(&s[1..n], true) {
            Ok(m) => Ok((-m) as i16),
            Err(e) => Err(e),
        }
    } else if s[0] == '+' {
        match parse_magnitude(&s[1..n], false) {
            Ok(m) => Ok(m as i16),
            Err(e) => Err(e),
        }
    } else {
        match parse_magnitude(s, false) {
            Ok(m) => Ok(m as i16),
            Err(e) => Err(e),
        }
    }
}

/// The digits of a natural number, without leading zeros.
pub open spec fn decimal(n: nat) -> Seq<char>
    decreases n,
{
    if n < 10 {
        seq![digit_char(n)]
    } else {
        decimal(n / 10).push(digit_char(n % 10))
    }
}

/// The character of a digit.
pub open spec fn digit_char(d: nat) -> char {
    (48 + d) as char
}

/// The digits of an integer, with a minus sign if it is negative.
pub open spec fn signed_decimal(v: int) -> Seq<char> {
    if v < 0 {
        seq!['-'] + decimal((-v) as nat)
    } else {
        decimal(v as nat)
    }
}

/// One digit as a text.
fn digit(d: u64) -> (s: &'static str)
    requires
        d < 10,
    ensures
        s@ == seq![digit_char(d as nat)],
{
    proof {
        reveal_strlit("0");
        reveal_strlit("1");
        reveal_strlit("2");
        reveal_strlit("3");
        reveal_strlit("4");
        reveal_strlit("5");
        reveal_strlit("6");
        reveal_strlit("7");
        reveal_strlit("8");
        reveal_strlit("9");
    }
    match d {
        0 => "0",
        1 => "1",
        2 => "2",
        3 => "3",
        4 => "4",
        5 => "5",
        6 => "6",
        7 => "7",
        8 => "8",
        _ => "9",
    }
}

/// Write a natural number in decimal.
pub fn render(n: u64) -> (s: String)
    ensures
        s@ == decimal(n as nat),
    decreases n,
{
    let mut s: String = if n < 10 {
        String::new()
    } else {
        render(n / 10)
    };
    s.append(digit(n % 10));
    s
}

/// Write an integer in decimal.
pub fn render_signed(v: i32) -> (s: String)
    ensures
        s@ == signed_decimal(v as int),
{
    if v < 0 {
        let mut s: String = String::new();
        s.append("-");
        s.append(render((-(v as i64)) as u64).as_str());
        proof {
            reveal_strlit("-");
        }
        s
    } else {
        render(v as u64)
    }
}

/// Digits within the limit spell their number.
proof fn lemma_decimal_magnitude(n: nat, negative: bool)
    requires
        n <= 0x7FFF || negative && n <= 0x8000,
    ensures
        magnitude(decimal(n), negative) == Ok::<int, NumberError>(n as int),
    decreases n,
{
    assert(digit_value(digit_char(n % 10)) == Some((n % 10) as int));
    if n < 10 {
        assert(decimal(n).drop_last() =~= seq![]);
        assert(magnitude(seq![], negative) == Ok::<int, NumberError>(0));
    } else {
        lemma_decimal_magnitude(n / 10, negative);
        assert(decimal(n).drop_last() =~= decimal(n / 10));
    }
}

/// Every character of a decimal number is a digit, and there is at least one.
pub proof fn lemma_decimal_digits(n: nat)
    ensures
        decimal(n).len() > 0,
        forall|i: int| 0 <= i < decimal(n).len() ==> '0' <= #[trigger] decimal(n)[i] <= '9',
    decreases n,
{
    if n >= 10 {
        lemma_decimal_digits(n / 10);
    }
}

/// A 16-bit number that was written in decimal reads back as itself.
pub proof fn law_written_numbers_read_back(v: i16)
    ensures
        number(signed_decimal(v as int)) == Ok::<int, NumberError>(v as int),
{
    let s = signed_decimal(v as int);
    if v < 0 {
        lemma_decimal_digits((-v) as nat);
        lemma_decimal_magnitude((-v) as nat, true);
        assert(s.skip(1) =~= decimal((-v) as nat));
    } else {
        lemma_decimal_digits(v as nat);
        lemma_decimal_magnitude(v as nat, false);
    }
}

/// A text that reads as a number reads as one of 16 bits.
pub proof fn law_numbers_are_in_range(s: Seq<char>)
    ensures
        number(s) matches Ok(v) ==> -0x8000 <= v <= 0x7FFF,
{
    lemma_magnitude_range(s, false);
    lemma_magnitude_range(s.skip(1), false);
    lemma_magnitude_range(s.skip(1), true);
}

/// Magnitudes stay within the limit.
proof fn lemma_magnitude_range(s: Seq<char>, negative: bool)
    ensures
        magnitude(s, negative) matches Ok(m) ==> 0 <= m <= 0x8000 && (m == 0x8000 ==> negative),
    decreases s.len(),
{
    if s.len() > 0 {
        lemma_magnitude_range(s.drop_last(), negative);
    }
}

/// Trimming leaves neither leading nor trailing white space, and a second time changes nothing.
pub proof fn law_trimming_is_final(s: Seq<char>)
    ensures
        trimmed(s).len() > 0 ==> !whitespace(trimmed(s)[0]) && !whitespace(trimmed(s).last()),
        trimmed(trimmed(s)) == trimmed(s),
{
    lemma_trim_start(s);
    lemma_trim_end(trim_start(s));
}

proof fn lemma_trim_start(s: Seq<char>)
    ensures
        trim_start(s).len() > 0 ==> !whitespace(trim_start(s)[0]),
    decreases s.len(),
{
    if s.len() > 0 {
        lemma_trim_start(s.skip(1));
    }
}

proof fn lemma_trim_end(s: Seq<char>)
    ensures
        trim_end(s).len() <= s.len(),
        trim_end(s).len() > 0 ==> trim_end(s)[0] == s[0] && !whitespace(trim_end(s).last()),
    decreases s.len(),
{
    if s.len() > 0 {
        lemma_trim_end(s.drop_last());
    }
}

/// The first separator stands at the end of a prefix that holds none.
pub proof fn lemma_first_index(prefix: Seq<char>, sep: char, rest: Seq<char>)
    requires
        !prefix.contains(sep),
    ensures
        first_index(prefix + seq![sep] + rest, sep) == prefix.len(),
        first_index(prefix, sep) == prefix.len(),
    decreases prefix.len(),
{
    let s = prefix + seq![sep] + rest;
    if prefix.len() > 0 {
        assert forall|i: int| 0 <= i < prefix.len() - 1 implies #[trigger] prefix.skip(1)[i]
            != sep by {}
        lemma_first_index(prefix.skip(1), sep, rest);
        assert(s.skip(1) =~= prefix.skip(1) + seq![sep] + rest);
    }
}

/// A field in front of a text is its first field.
pub proof fn law_fields_split_at_the_separator(field: Seq<char>, sep: char, rest: Seq<char>)
    requires
        !field.contains(sep),
    ensures
        fields(field + seq![sep] + rest, sep) == seq![field] + fields(rest, sep),
        fields(field, sep) == seq![field],
{
    lemma_first_index(field, sep, rest);
    let s = field + seq![sep] + rest;
    assert(s.take(field.len() as int) =~= field);
    assert(s.skip(field.len() as int + 1) =~= rest);
}

/// A line in front of a text is its first line.
pub proof fn law_lines_split_at_the_line_feed(line: Seq<char>, rest: Seq<char>)
    requires
        !line.contains('\n'),
    ensures
        lines(line + seq!['\n'] + rest) == seq![line] + lines(rest),
{
    lemma_first_index(line, '\n', rest);
    let s = line + seq!['\n'] + rest;
    assert(s.take(line.len() as int) =~= line);
    assert(s.skip(line.len() as int + 1) =~= rest);
}

/// What is found: the place of a separator with none before it, or the end where there is none.
pub proof fn law_found_places_are_the_first(s: &[char], sep: char, k: usize, i: int)
    requires
        call_ensures(find, (s, sep), k),
    ensures
        k <= s@.len(),
        0 <= i < k ==> s@[i] != sep,
        k < s@.len() ==> s@[k as int] == sep,
        k == first_index(s@, sep),
{
    lemma_none_before(s@, sep, i);
}

/// No separator stands before the first one.
proof fn lemma_none_before(s: Seq<char>, sep: char, i: int)
    ensures
        0 <= i < first_index(s, sep) && i < s.len() ==> s[i] != sep,
        0 <= first_index(s, sep) <= s.len(),
    decreases s.len(),
{
    if s.len() > 0 && s[0] != sep {
        lemma_none_before(s.skip(1), sep, i - 1);
    }
}

/// What trimming leaves: a part of the text that begins and ends with something else than white
/// space, where nothing but white space stands before and behind it.
pub proof fn law_trimming_cuts_white_space_alone(s: &[char], r: &[char])
    requires
        call_ensures(trim, (s,), r),
    ensures
        r@ == trimmed(s@),
        r@.len() > 0 ==> !whitespace(r@[0]) && !whitespace(r@.last()),
        exists|a: int, b: int|
            #![trigger s@.subrange(a, b)]
            0 <= a <= b <= s@.len() && r@ == s@.subrange(a, b) && (forall|i: int|
                0 <= i < a || b <= i < s@.len() ==> whitespace(#[trigger] s@[i])),
{
    law_trimming_is_final(s@);
    let a = lemma_trim_start_cut(s@);
    let t = trim_start(s@);
    let n = lemma_trim_end_cut(t);
    assert(r@ =~= s@.subrange(a, a + n));
    assert forall|i: int| 0 <= i < a || a + n <= i < s@.len() implies whitespace(
        #[trigger] s@[i],
    ) by {
        if i >= a + n {
            assert(t[i - a] == s@[i]);
        }
    }
}

/// How much white space is cut in front.
proof fn lemma_trim_start_cut(s: Seq<char>) -> (a: int)
    ensures
        0 <= a <= s.len(),
        trim_start(s) == s.skip(a),
        forall|i: int| 0 <= i < a ==> whitespace(#[trigger] s[i]),
    decreases s.len(),
{
    if s.len() > 0 && whitespace(s[0]) {
        let b = lemma_trim_start_cut(s.skip(1));
        assert(s.skip(1).skip(b) =~= s.skip(b + 1));
        assert forall|i: int| 0 <= i < b + 1 implies whitespace(#[trigger] s[i]) by {
            if i > 0 {
                assert(s.skip(1)[i - 1] == s[i]);
            }
        }
        b + 1
    } else {
        assert(s.skip(0) =~= s);
        0
    }
}

/// How much is left when white space is cut behind.
proof fn lemma_trim_end_cut(s: Seq<char>) -> (n: int)
    ensures
        0 <= n <= s.len(),
        trim_end(s) == s.take(n),
        forall|i: int| n <= i < s.len() ==> whitespace(#[trigger] s[i]),
    decreases s.len(),
{
    if s.len() > 0 && whitespace(s.last()) {
        let n = lemma_trim_end_cut(s.drop_last());
        assert(s.drop_last().take(n) =~= s.take(n));
        assert forall|i: int| n <= i < s.len() implies whitespace(#[trigger] s[i]) by {
            if i < s.len() - 1 {
                assert(s.drop_last()[i] == s[i]);
            }
        }
        n
    } else {
        assert(s.take(s.len() as int) =~= s);
        s.len() as int
    }
}

/// Nothing has no lines, and a text without a line feed is one line.
pub proof fn law_last_lines_need_no_line_feed(line: Seq<char>)
    requires
        line.len() > 0,
        !line.contains('\n'),
    ensures
        lines(line) == seq![line],
        lines(Seq::empty()) == Seq::<Seq<char>>::empty(),
{
    lemma_first_index(line, '\n', Seq::empty());
}

/// What a number is, digit by digit: nothing is none; one digit is its value; and behind a number
/// a further digit multiplies it by ten and counts away from zero, until it no longer fits. What
/// is wrong with a text stays wrong, whatever follows.
pub proof fn law_numbers_grow_digit_by_digit(s: Seq<char>, c: char)
    ensures
        number(Seq::empty()) == Err::<int, NumberError>(NumberError::Empty),
        number(seq![c]) == if '0' <= c <= '9' {
            Ok::<int, NumberError>(c as int - 48)
        } else {
            Err(NumberError::InvalidDigit)
        },
        s.len() == 1 && (s[0] == '+' || s[0] == '-') ==> number(s.push(c)) == (if '0' <= c <= '9' {
            Ok::<int, NumberError>(
                if s[0] == '-' {
                    48 - c as int
                } else {
                    c as int - 48
                },
            )
        } else {
            Err(NumberError::InvalidDigit)
        }),
        s.len() > 0 && !(s.len() == 1 && (s[0] == '+' || s[0] == '-')) ==> number(s.push(c)) == (
        match number(s) {
            Err(e) => Err(e),
            Ok(v) => {
                let w = if s[0] == '-' {
                    10 * v - (c as int - 48)
                } else {
                    10 * v + (c as int - 48)
                };
                if !('0' <= c <= '9') {
                    Err(NumberError::InvalidDigit)
                } else if w > 32767 {
                    Err(NumberError::PosOverflow)
                } else if w < -32768 {
                    Err(NumberError::NegOverflow)
                } else {
                    Ok(w)
                }
            },
        }),
{
    reveal_with_fuel(magnitude, 3);
    let t = s.push(c);
    assert(seq![c].drop_last() =~= Seq::empty());
    assert(t.drop_last() =~= s);
    if s.len() > 0 {
        assert(t.skip(1).drop_last() =~= s.skip(1));
        assert(t.skip(1).last() == c);
        lemma_magnitude_range(s, false);
        lemma_magnitude_range(s.skip(1), true);
        lemma_magnitude_range(s.skip(1), false);
        if s.len() == 1 {
            assert(s.skip(1) =~= Seq::empty());
            assert(magnitude(s.skip(1), true) == Ok::<int, NumberError>(0));
            assert(magnitude(s.skip(1), false) == Ok::<int, NumberError>(0));
        }
    }
}

/// What is read is the number that the text spells.
pub proof fn law_read_numbers_are_spelled(s: &[char], r: Result<i16, NumberError>)
    requires
        call_ensures(parse_number, (s,), r),
    ensures
        r matches Ok(v) ==> number(s@) == Ok::<int, NumberError>(v as int),
        r matches Err(e) ==> number(s@) == Err::<int, NumberError>(e),
{
}

/// What a number in decimal is: one digit, or the decimal of its tenth with its last digit behind
/// it; a negative one has a minus sign in front.
pub proof fn law_decimals_grow_digit_by_digit(n: nat, v: int)
    ensures
        n < 10 ==> decimal(n) == seq![(48 + n) as char],
        n >= 10 ==> decimal(n) == decimal(n / 10).push((48 + n % 10) as char),
        v >= 0 ==> signed_decimal(v) == decimal(v as nat),
        v < 0 ==> signed_decimal(v) == seq!['-'] + decimal((-v) as nat),
{
}

/// What is rendered is the number in decimal.
pub proof fn law_rendered_numbers_are_decimal(n: u64, v: i32, s: String, t: String)
    requires
        call_ensures(render, (n,), s),
        call_ensures(render_signed, (v,), t),
    ensures
        s@ == decimal(n as nat),
        t@ == signed_decimal(v as int),
{
}

/// Every error has its words.
pub proof fn law_number_errors_in_words(e: NumberError, s: &'static str)
    requires
        call_ensures(NumberError::message, (e,), s),
    ensures
        e == NumberError::Empty ==> s@ == "cannot parse integer from empty string"@,
        e == NumberError::InvalidDigit ==> s@ == "invalid digit found in string"@,
        e == NumberError::PosOverflow ==> s@ == "number too large to fit in target type"@,
        e == NumberError::NegOverflow ==> s@ == "number too small to fit in target type"@,
{
}

/// White space is the tab, line feed, vertical tab, form feed and carriage return, the space, the
/// next-line character, and the spaces and separators of Unicode beyond them; no other character.
pub proof fn law_white_space_is_that_of_unicode(c: char, r: bool)
    requires
        call_ensures(is_whitespace, (c,), r),
    ensures
        r <==> c == '\t' || c == '\n' || c as u32 == 0x0B || c as u32 == 0x0C || c == '\r' || c
            == ' ' || c as u32 == 0x85 || c as u32 == 0xA0 || c as u32 == 0x1680 || 0x2000 <= c
            as u32 <= 0x200A || c as u32 == 0x2028 || c as u32 == 0x2029 || c as u32 == 0x202F || c
            as u32 == 0x205F || c as u32 == 0x3000,
        r == whitespace(c),
{
}

} // verus!
