use vstd::prelude::*;

verus! {

/// Why a token could not be read as a `u32`.
#[derive(Debug, Clone, Copy, PartialEq, Eq)]
pub enum NumberError {
    /// The token was empty.
    Empty,
    /// The token held a character that is not a decimal digit.
    InvalidDigit,
    /// The digits denote a value above `u32::MAX`.
    PosOverflow,
}

/// What `NumberError::text` says of each kind.
pub open spec fn reason_text(e: NumberError) -> Seq<char> {
    match e {
        NumberError::Empty => "cannot parse integer from empty string"@,
        NumberError::InvalidDigit => "invalid digit found in string"@,
        NumberError::PosOverflow => "number too large to fit in target type"@,
    }
}

impl NumberError {
    /// A sentence that says what went wrong.
    pub fn text(&self) -> (r: &'static str)
        ensures
            r@ == reason_text(*self),
    {
        match self {
            NumberError::Empty => "cannot parse integer from empty string",
            NumberError::InvalidDigit => "invalid digit found in string",
            NumberError::PosOverflow => "number too large to fit in target type",
        }
    }
}

pub open spec fn is_digit(c: char) -> bool {
    '0' <= c && c <= '9'
}

pub open spec fn digit_value(c: char) -> nat {
    (c as nat - '0' as nat) as nat
}

/// Reads the digits `d` left to right after the value `acc`, stopping at the
/// first character that is no digit or that takes the value past `u32::MAX`.
pub open spec fn scan_digits(d: Seq<char>, acc: nat) -> Result<nat, NumberError>
    decreases d.len(),
{
    if d.len() == 0 {
        Ok(acc)
    } else if !is_digit(d[0]) {
        Err(NumberError::InvalidDigit)
    } else if acc * 10 + digit_value(d[0]) > u32::MAX {
        Err(NumberError::PosOverflow)
    } else {
        scan_digits(d.drop_first(), acc * 10 + digit_value(d[0]))
    }
}

/// A token read as a `u32`: an optional `+`, then at least one decimal digit.
pub open spec fn parse_u32_spec(t: Seq<char>) -> Result<u32, NumberError> {
    if t.len() == 0 {
        Err(NumberError::Empty)
    } else {
        let d = if t[0] == '+' { t.drop_first() } else { t };
        if d.len() == 0 {
            Err(NumberError::InvalidDigit)
        } else {
            match scan_digits(d, 0) {
                Ok(v) => Ok(v as u32),
                Err(e) => Err(e),
            }
        }
    }
}

proof fn lemma_scan_bounded(d: Seq<char>, acc: nat)
    requires
        acc <= u32::MAX,
    ensures
        scan_digits(d, acc) matches Ok(v) ==> v <= u32::MAX,
    decreases d.len(),
{
    if d.len() > 0 && is_digit(d[0]) && acc * 10 + digit_value(d[0]) <= u32::MAX {
        lemma_scan_bounded(d.drop_first(), acc * 10 + digit_value(d[0]));
    }
}

/// Reading `a + b` goes on from where reading `a` stopped.
pub proof fn lemma_scan_append(a: Seq<char>, b: Seq<char>, acc: nat)
    requires
        scan_digits(a, acc) is Ok,
    ensures
        scan_digits(a + b, acc) == scan_digits(b, scan_digits(a, acc)->Ok_0),
    decreases a.len(),
{
    if a.len() == 0 {
        assert(a + b =~= b);
    } else {
        assert((a + b)[0] == a[0]);
        assert((a + b).drop_first() =~= a.drop_first() + b);
        lemma_scan_append(a.drop_first(), b, acc * 10 + digit_value(a[0]));
    }
}

/// Reads `t` as a `u32`.
pub fn parse_u32(t: &str) -> (r: Result<u32, NumberError>)
    ensures
        r == parse_u32_spec(t@),
{
    let len = t.unicode_len();
    if len == 0 {
        return Err(NumberError::Empty);
    }
    let start: usize = if t.get_char(0) == '+' { 1 } else { 0 };
    if start == len {
        return Err(NumberError::InvalidDigit);
    }
    let ghost d = if t@[0] == '+' { t@.drop_first() } else { t@ };
    assert(d == t@.subrange(start as int, len as int));
    let mut acc: u32 = 0;
    let mut k: usize = start;
    while k < len
        invariant
            start <= k <= len,
            len == t@.len(),
            start < len,
            d == (if t@[0] == '+' { t@.drop_first() } else { t@ }),
            scan_digits(d, 0) == scan_digits(t@.subrange(k as int, len as int), acc as nat),
        decreases len - k,
    {
        let c = t.get_char(k);
        let ghost rest = t@.subrange(k as int, len as int);
        assert(rest[0] == c);
        assert(rest.drop_first() == t@.subrange(k + 1, len as int));
        if !('0' <= c && c <= '9') {
            assert(scan_digits(rest, acc as nat) == Err::<nat, NumberError>(NumberError::InvalidDigit));
            return Err(NumberError::InvalidDigit);
        }
        let next: u64 = acc as u64 * 10 + (c as u64 - '0' as u64);
        assert(next == acc as nat * 10 + digit_value(c));
        if next > u32::MAX as u64 {
            assert(scan_digits(rest, acc as nat) == Err::<nat, NumberError>(NumberError::PosOverflow));
            return Err(NumberError::PosOverflow);
        }
        acc = next as u32;
        k = k + 1;
    }
    assert(t@.subrange(len as int, len as int).len() == 0);
    Ok(acc)
}

} // verus!
