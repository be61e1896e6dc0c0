use crate::address::{decoded_pubkey, Address};
use crate::instruction::AccountRef;
use vstd::prelude::*;
use vstd::string::*;

verus! {

/// Whitespace as Unicode's White_Space property defines it (the set `char::is_whitespace` tests).
pub open spec fn is_space(c: char) -> bool {
    ('\u{9}' <= c && c <= '\u{d}') || c == ' ' || c == '\u{85}' || c == '\u{a0}'
        || c == '\u{1680}' || ('\u{2000}' <= c && c <= '\u{200a}') || c == '\u{2028}'
        || c == '\u{2029}' || c == '\u{202f}' || c == '\u{205f}' || c == '\u{3000}'
}

/// Index of the first non-whitespace character at or after `i` (or the length).
pub open spec fn skip_space_from(s: Seq<char>, i: int) -> int
    decreases s.len() - i,
{
    if i < 0 || i >= s.len() {
        s.len() as int
    } else if is_space(s[i]) {
        skip_space_from(s, i + 1)
    } else {
        i
    }
}

/// One past the last non-whitespace character strictly before `j` at or after `lo`.
pub open spec fn skip_space_back(s: Seq<char>, lo: int, j: int) -> int
    decreases j - lo,
{
    if j <= lo {
        lo
    } else if is_space(s[j - 1]) {
        skip_space_back(s, lo, j - 1)
    } else {
        j
    }
}

/// `s` without its trailing whitespace (such as the line break).
pub open spec fn trimmed_end(s: Seq<char>) -> Seq<char> {
    s.subrange(0, skip_space_back(s, 0, s.len() as int))
}

/// `s` without leading and trailing whitespace.
pub open spec fn trimmed(s: Seq<char>) -> Seq<char> {
    let a = skip_space_from(s, 0);
    s.subrange(a, skip_space_back(s, a, s.len() as int))
}

/// Whether `c` is whitespace, as `char::is_whitespace` decides.
pub fn is_whitespace(c: char) -> (r: bool)
    ensures
        r == is_space(c),
{
    ('\u{9}' <= c && c <= '\u{d}') || c == ' ' || c == '\u{85}' || c == '\u{a0}'
        || c == '\u{1680}' || ('\u{2000}' <= c && c <= '\u{200a}') || c == '\u{2028}'
        || c == '\u{2029}' || c == '\u{202f}' || c == '\u{205f}' || c == '\u{3000}'
}

/// Bounds `(a, b)` of `s` without its surrounding whitespace.
pub fn trim_bounds(s: &str) -> (r: (usize, usize))
    ensures
        r.0 as int == skip_space_from(s@, 0),
        r.1 as int == skip_space_back(s@, r.0 as int, s@.len() as int),
        r.0 <= r.1 <= s@.len(),
        s@.subrange(r.0 as int, r.1 as int) == trimmed(s@),
{
    let n = s.unicode_len();
    let mut a: usize = 0;
    while a < n && is_whitespace(s.get_char(a))
        invariant
            n == s@.len(),
            a <= n,
            skip_space_from(s@, a as int) == skip_space_from(s@, 0),
        decreases n - a,
    {
        a = a + 1;
    }
    let b = trim_end_bound(s, a);
    (a, b)
}

/// End of `s` without its trailing whitespace, looking no further back than `lo`.
pub fn trim_end_bound(s: &str, lo: usize) -> (r: usize)
    requires
        lo <= s@.len(),
    ensures
        r as int == skip_space_back(s@, lo as int, s@.len() as int),
        lo <= r <= s@.len(),
{
    let n = s.unicode_len();
    let mut b: usize = n;
    while b > lo && is_whitespace(s.get_char(b - 1))
        invariant
            n == s@.len(),
            lo <= b <= n,
            skip_space_back(s@, lo as int, b as int) == skip_space_back(s@, lo as int, n as int),
        decreases b,
    {
        b = b - 1;
    }
    b
}

/// Largest payload length the reader accepts; longer requests are clamped to it.
pub const MAX_PAYLOAD_LEN: usize = 100000;

/// A malformed piece of client input.
#[derive(Debug, Clone, Copy, PartialEq, Eq, Structural)]
pub enum ProtocolError {
    /// A length or count header that is not a decimal number fitting in `usize`.
    InvalidNumber,
    /// An account line with no address after its meta field.
    MissingAddress,
    /// An account line whose address text does not decode to an address.
    BadAddress,
}

pub open spec fn is_digit(c: char) -> bool {
    '0' <= c && c <= '9'
}

pub open spec fn all_digits(s: Seq<char>) -> bool {
    forall|i: int| 0 <= i < s.len() ==> is_digit(#[trigger] s[i])
}

/// The number that a string of decimal digits denotes.
pub open spec fn digits_value(s: Seq<char>) -> int
    decreases s.len(),
{
    if s.len() == 0 {
        0
    } else {
        digits_value(s.drop_last()) * 10 + (s.last() as int - '0' as int)
    }
}

/// The digits of a decimal numeral, without its optional leading `+`.
pub open spec fn numeral_digits(s: Seq<char>) -> Seq<char> {
    if s.len() > 0 && s[0] == '+' {
        s.drop_first()
    } else {
        s
    }
}

/// The value of an unsigned decimal numeral: an optional `+` and at least one digit.
pub open spec fn decimal_of(s: Seq<char>) -> Option<int> {
    let d = numeral_digits(s);
    if d.len() > 0 && all_digits(d) {
        Some(digits_value(d))
    } else {
        None
    }
}

/// What a length or count header line holds: its trimmed text as a `usize`.
pub open spec fn header_value(line: Seq<char>) -> Option<int> {
    match decimal_of(trimmed(line)) {
        Some(v) => if v <= usize::MAX {
            Some(v)
        } else {
            None
        },
        None => None,
    }
}

pub open spec fn clamp_spec(n: int) -> int {
    if n <= MAX_PAYLOAD_LEN {
        n
    } else {
        MAX_PAYLOAD_LEN as int
    }
}

proof fn lemma_digits_value_monotone(s: Seq<char>, j: int, k: int)
    requires
        0 <= j <= k <= s.len(),
        all_digits(s),
    ensures
        0 <= digits_value(s.subrange(0, j)) <= digits_value(s.subrange(0, k)),
    decreases k - j,
{
    if j < k {
        lemma_digits_value_monotone(s, j, k - 1);
        assert(s.subrange(0, k).drop_last() =~= s.subrange(0, k - 1));
        assert(is_digit(s[k - 1]));
    } else {
        lemma_digits_value_nonneg(s.subrange(0, j));
    }
}

proof fn lemma_digits_value_nonneg(s: Seq<char>)
    requires
        all_digits(s),
    ensures
        digits_value(s) >= 0,
    decreases s.len(),
{
    if s.len() > 0 {
        assert(is_digit(s[s.len() - 1]));
        lemma_digits_value_nonneg(s.drop_last());
    }
}

/// Parses the unsigned decimal numeral `s@.subrange(a, b)`.
fn parse_decimal_range(s: &str, a: usize, b: usize) -> (r: Option<usize>)
    requires
        a <= b <= s@.len(),
    ensures
        r == (match decimal_of(s@.subrange(a as int, b as int)) {
            Some(v) => if v <= usize::MAX {
                Some(v as usize)
            } else {
                None
            },
            None => None,
        }),
{
    let ghost t = s@.subrange(a as int, b as int);
    let mut start = a;
    if a < b && s.get_char(a) == '+' {
        start = a + 1;
    }
    let ghost d = s@.subrange(start as int, b as int);
    assert(d =~= numeral_digits(t));
    if start == b {
        return None;
    }
    let mut v: usize = 0;
    let mut i: usize = start;
    while i < b
        invariant
            start <= i <= b <= s@.len(),
            d == s@.subrange(start as int, b as int),
            d == numeral_digits(t),
            t == s@.subrange(a as int, b as int),
            forall|k: int| 0 <= k < i - start ==> is_digit(#[trigger] d[k]),
            v as int == digits_value(d.subrange(0, i - start)),
        decreases b - i,
    {
        let c = s.get_char(i);
        if c < '0' || c > '9' {
            assert(!is_digit(d[i - start]));
            return None;
        }
        assert(d.subrange(0, i + 1 - start).drop_last() =~= d.subrange(0, i - start));
        let digit = (c as u32 - '0' as u32) as usize;
        assert(digits_value(d.subrange(0, i + 1 - start)) == v * 10 + digit);
        match v.checked_mul(10) {
            Some(m) => match m.checked_add(digit) {
                Some(n) => {
                    v = n;
                },
                None => {
                    proof {
                        self::lemma_overflow_stays(d, (i + 1 - start) as int);
                    }
                    return None;
                },
            },
            None => {
                proof {
                    self::lemma_overflow_stays(d, (i + 1 - start) as int);
                }
                return None;
            },
        }
        i = i + 1;
    }
    assert(d.subrange(0, (b - start) as int) =~= d);
    Some(v)
}

/// Once a prefix of a numeral exceeds `usize`, so does the numeral, if it is all digits.
proof fn lemma_overflow_stays(d: Seq<char>, j: int)
    requires
        0 < j <= d.len(),
        digits_value(d.subrange(0, j)) > usize::MAX,
    ensures
        all_digits(d) ==> digits_value(d) > usize::MAX,
{
    if all_digits(d) {
        lemma_digits_value_monotone(d, j, d.len() as int);
        assert(d.subrange(0, d.len() as int) =~= d);
    }
}

proof fn lemma_decimal_nonneg(s: Seq<char>)
    ensures
        decimal_of(s) matches Some(v) ==> v >= 0,
{
    if decimal_of(s) is Some {
        lemma_digits_value_nonneg(numeral_digits(s));
    }
}

/// Parses a length or count header: a decimal numeral surrounded by optional whitespace.
pub fn parse_header(line: &str) -> (r: Result<usize, ProtocolError>)
    ensures
        header_value(line@) matches Some(v) ==> v >= 0,
        r == (match header_value(line@) {
            Some(v) => Ok(v as usize),
            None => Err(ProtocolError::InvalidNumber),
        }),
{
    let (a, b) = trim_bounds(line);
    proof {
        lemma_decimal_nonneg(trimmed(line@));
    }
    match parse_decimal_range(line, a, b) {
        Some(v) => Ok(v),
        None => Err(ProtocolError::InvalidNumber),
    }
}

/// Bounds a requested payload length by [`MAX_PAYLOAD_LEN`].
pub fn clamp_len(n: usize) -> (r: usize)
    ensures
        r as int == clamp_spec(n as int),
        r <= MAX_PAYLOAD_LEN,
        r <= n,
{
    if n <= MAX_PAYLOAD_LEN {
        n
    } else {
        MAX_PAYLOAD_LEN
    }
}

/// A payload length header never asks for more than [`MAX_PAYLOAD_LEN`] bytes, and a
/// length within that cap is kept exactly.
pub proof fn lemma_length_header_bounded(line: Seq<char>)
    ensures
        header_value(line) matches Some(v) ==> 0 <= clamp_spec(v) <= MAX_PAYLOAD_LEN && (v
            <= MAX_PAYLOAD_LEN ==> clamp_spec(v) == v),
{
    lemma_decimal_nonneg(trimmed(line));
}

/// Reads a payload length header and clamps it: the number of raw bytes to read next.
pub fn parse_length_header(line: &str) -> (r: Result<usize, ProtocolError>)
    ensures
        header_value(line@) matches Some(v) ==> v >= 0,
        r == (match header_value(line@) {
            Some(v) => Ok(clamp_spec(v) as usize),
            None => Err(ProtocolError::InvalidNumber),
        }),
{
    proof {
        lemma_decimal_nonneg(trimmed(line@));
    }
    match parse_header(line) {
        Ok(n) => Ok(clamp_len(n)),
        Err(e) => Err(e),
    }
}

/// The access flags that a meta field requests.
#[derive(Debug, Clone, Copy, PartialEq, Eq, Structural)]
pub struct AccountFlags {
    pub is_signer: bool,
    pub is_writable: bool,
    pub is_executable: bool,
}

/// Each flag is set exactly when its letter occurs in the meta field:
/// `s` for signer, `w` for writable, `e` for executable.
pub open spec fn meta_flags(meta: Seq<char>) -> AccountFlags {
    AccountFlags {
        is_signer: meta.contains('s'),
        is_writable: meta.contains('w'),
        is_executable: meta.contains('e'),
    }
}

/// Reads the flags of a meta field; other characters and their order are ignored.
pub fn parse_meta(meta: &str) -> (r: AccountFlags)
    ensures
        r == meta_flags(meta@),
{
    let n = meta.unicode_len();
    let mut flags = AccountFlags { is_signer: false, is_writable: false, is_executable: false };
    let mut i: usize = 0;
    while i < n
        invariant
            n == meta@.len(),
            i <= n,
            flags == meta_flags(meta@.subrange(0, i as int)),
        decreases n - i,
    {
        let c = meta.get_char(i);
        let ghost prev = meta@.subrange(0, i as int);
        let ghost next = meta@.subrange(0, i + 1);
        assert(next =~= prev.push(c));
        proof {
            lemma_contains_push(prev, c, 's');
            lemma_contains_push(prev, c, 'w');
            lemma_contains_push(prev, c, 'e');
        }
        if c == 's' {
            flags.is_signer = true;
        } else if c == 'w' {
            flags.is_writable = true;
        } else if c == 'e' {
            flags.is_executable = true;
        }
        i = i + 1;
    }
    assert(meta@.subrange(0, n as int) =~= meta@);
    flags
}

proof fn lemma_contains_push(s: Seq<char>, c: char, x: char)
    ensures
        s.push(c).contains(x) == (s.contains(x) || c == x),
{
    if s.contains(x) {
        let k = choose|k: int| 0 <= k < s.len() && s[k] == x;
        assert(s.push(c)[k] == x);
    }
    if c == x {
        assert(s.push(c)[s.len() as int] == x);
    }
    if s.push(c).contains(x) {
        let k = choose|k: int| 0 <= k < s.len() + 1 && s.push(c)[k] == x;
        if k < s.len() {
            assert(s[k] == x);
        }
    }
}

/// Two meta fields that agree on which of `s`, `w` and `e` they contain request
/// the same flags, whatever their order and whatever else they hold.
pub proof fn lemma_meta_flags_ignore_order_and_others(a: Seq<char>, b: Seq<char>)
    requires
        a.contains('s') == b.contains('s'),
        a.contains('w') == b.contains('w'),
        a.contains('e') == b.contains('e'),
    ensures
        meta_flags(a) == meta_flags(b),
{
}

/// End of the space-delimited field of `s` that starts at `i`: the first space at or
/// after `i`, or the length of `s`.
pub open spec fn field_end(s: Seq<char>, i: int) -> int
    decreases s.len() - i,
{
    if i < 0 || i >= s.len() {
        s.len() as int
    } else if s[i] == ' ' {
        i
    } else {
        field_end(s, i + 1)
    }
}

/// The meta field and the address text of an account line `<meta> <address>`: the
/// line loses its trailing whitespace and is split at single spaces, so a line that
/// starts with a space has an empty meta field. `None` when there is no second field.
pub open spec fn account_line_fields(line: Seq<char>) -> Option<(Seq<char>, Seq<char>)> {
    let t = trimmed_end(line);
    let m = field_end(t, 0);
    if m < t.len() {
        Some((t.subrange(0, m), t.subrange(m + 1, field_end(t, m + 1))))
    } else {
        None
    }
}

/// The account reference made of a meta field and the decoded address, if any.
pub open spec fn account_ref_of(meta: Seq<char>, key: Option<[u8; 32]>) -> Result<AccountRef, ProtocolError> {
    match key {
        Some(b) => Ok(
            AccountRef {
                address: Address { bytes: b },
                is_signer: meta_flags(meta).is_signer,
                is_writable: meta_flags(meta).is_writable,
            },
        ),
        None => Err(ProtocolError::BadAddress),
    }
}

/// What an account line denotes.
pub open spec fn account_line_result(line: Seq<char>) -> Result<AccountRef, ProtocolError> {
    match account_line_fields(line) {
        Some((meta, key)) => account_ref_of(meta, decoded_pubkey(key)),
        None => Err(ProtocolError::MissingAddress),
    }
}

/// End of the field of `s` that starts at `from`.
fn find_field_end(s: &str, from: usize, n: usize) -> (r: usize)
    requires
        n == s@.len(),
        from <= n,
    ensures
        r as int == field_end(s@, from as int),
        from <= r <= n,
{
    let mut i: usize = from;
    while i < n && s.get_char(i) != ' '
        invariant
            n == s@.len(),
            from <= i <= n,
            field_end(s@, i as int) == field_end(s@, from as int),
        decreases n - i,
    {
        i = i + 1;
    }
    i
}

/// Builds the account reference of a meta field and the outcome of decoding its address.
pub fn account_ref_from_parts(meta: &str, key: Option<[u8; 32]>) -> (r: Result<AccountRef, ProtocolError>)
    ensures
        r == account_ref_of(meta@, key),
{
    match key {
        Some(b) => {
            let flags = parse_meta(meta);
            Ok(AccountRef { address: Address::new(b), is_signer: flags.is_signer, is_writable: flags.is_writable })
        },
        None => Err(ProtocolError::BadAddress),
    }
}

/// Parses one account line `<meta> <address>`. A line without an address, or with an
/// address that does not decode, is an error: the whole instruction is rejected.
pub fn parse_account_line(line: &str) -> (r: Result<AccountRef, ProtocolError>)
    ensures
        r == account_line_result(line@),
{
    let n = trim_end_bound(line, 0);
    let t = line.substring_char(0, n);
    let m = find_field_end(t, 0, n);
    if m >= n {
        return Err(ProtocolError::MissingAddress);
    }
    let k = find_field_end(t, m + 1, n);
    let meta = t.substring_char(0, m);
    let key = t.substring_char(m + 1, k);
    let decoded = match Address::parse(key) {
        Some(addr) => Some(addr.bytes),
        None => None,
    };
    account_ref_from_parts(meta, decoded)
}

} // verus!
