//! Character-level text helpers: finding and splitting on a character,
//! the `set key=value` command format, and decimal numbers.
use vstd::prelude::*;

verus! {

// ------------------------------------------------------------------
// Finding a character
// ------------------------------------------------------------------

/// `s` split at the first `c`: the text before it and the text after it.
pub open spec fn split_once_spec(s: Seq<char>, c: char) -> Option<(Seq<char>, Seq<char>)> {
    match s.index_of_first(c) {
        Some(i) => Some((s.take(i), s.skip(i + 1))),
        None => None,
    }
}

/// Whether `i` is the position of the first `c` in `s`.
pub open spec fn is_first_index(s: Seq<char>, c: char, i: int) -> bool {
    &&& 0 <= i < s.len()
    &&& s[i] == c
    &&& forall|j: int| 0 <= j < i ==> s[j] != c
}

/// The first occurrence of a character is the one `index_of_first` names.
pub proof fn lemma_first_index(s: Seq<char>, c: char, i: int)
    requires
        is_first_index(s, c, i),
    ensures
        s.index_of_first(c) == Some(i),
{
    s.index_of_first_ensures(c);
    assert(s.contains(c)) by {
        assert(0 <= i < s.len() && s[i] == c);
    }
    let j = s.index_of_first(c).unwrap();
    if j < i {
        assert(s[j] != c);
    } else if j > i {
        assert(s[i] != c);
    }
}

/// A text in which no character is `c` has no first `c`.
pub proof fn lemma_no_index(s: Seq<char>, c: char)
    requires
        forall|j: int| 0 <= j < s.len() ==> s[j] != c,
    ensures
        s.index_of_first(c) is None,
{
    s.index_of_first_ensures(c);
}

/// The position of the first `c` in `s`, counted in characters.
pub fn find_char(s: &str, c: char) -> (r: Option<usize>)
    ensures
        match r {
            Some(i) => s@.index_of_first(c) == Some(i as int),
            None => s@.index_of_first(c) is None,
        },
{
    let n = s.unicode_len();
    let mut i: usize = 0;
    while i < n
        invariant
            n == s@.len(),
            i <= n,
            forall|j: int| 0 <= j < i ==> s@[j] != c,
        decreases n - i,
    {
        if s.get_char(i) == c {
            proof {
                lemma_first_index(s@, c, i as int);
            }
            return Some(i);
        }
        i = i + 1;
    }
    proof {
        lemma_no_index(s@, c);
    }
    None
}

/// Splits `s` at its first `c`, as `str::split_once` does.
pub fn split_once(s: &str, c: char) -> (r: Option<(String, String)>)
    ensures
        match r {
            Some(parts) => split_once_spec(s@, c) == Some((parts.0@, parts.1@)),
            None => split_once_spec(s@, c) is None,
        },
{
    match find_char(s, c) {
        Some(i) => {
            proof {
                s@.index_of_first_ensures(c);
            }
            let n = s.unicode_len();
            let before = String::from_str(s.substring_char(0, i));
            let after = String::from_str(s.substring_char(i + 1, n));
            assert(before@ =~= s@.take(i as int));
            assert(after@ =~= s@.skip(i + 1));
            Some((before, after))
        },
        None => None,
    }
}

// ------------------------------------------------------------------
// The `set key=value` command
// ------------------------------------------------------------------

/// The prefix of a write command.
pub open spec fn set_prefix() -> Seq<char> {
    seq!['s', 'e', 't', ' ']
}

/// The command that writes `value` under `key`.
pub open spec fn set_command_spec(key: Seq<char>, value: Seq<char>) -> Seq<char> {
    set_prefix() + key + seq!['='] + value
}

/// What a command writes: for `set ` followed by text holding `=`, the
/// text before the first `=` is the key and the rest is the value; any
/// other command writes nothing.
pub open spec fn parse_set_spec(cmd: Seq<char>) -> Option<(Seq<char>, Seq<char>)> {
    if cmd.len() >= 4 && cmd.take(4) == set_prefix() {
        split_once_spec(cmd.skip(4), '=')
    } else {
        None
    }
}

/// Builds the command `set {key}={value}`.
pub fn set_command(key: &str, value: &str) -> (cmd: String)
    ensures
        cmd@ == set_command_spec(key@, value@),
{
    proof {
        reveal_strlit("set ");
        reveal_strlit("=");
    }
    let mut cmd = String::from_str("set ");
    cmd.append(key);
    cmd.append("=");
    cmd.append(value);
    assert("set "@ =~= set_prefix());
    assert("="@ =~= seq!['=']);
    cmd
}

/// Reads the key and value out of a `set key=value` command, as
/// `strip_prefix("set ")` followed by `split_once('=')` do.
pub fn parse_set_command(cmd: &str) -> (r: Option<(String, String)>)
    ensures
        match r {
            Some(kv) => parse_set_spec(cmd@) == Some((kv.0@, kv.1@)),
            None => parse_set_spec(cmd@) is None,
        },
{
    let n = cmd.unicode_len();
    if n < 4 {
        return None;
    }
    if !(cmd.get_char(0) == 's' && cmd.get_char(1) == 'e' && cmd.get_char(2) == 't'
        && cmd.get_char(3) == ' ') {
        assert(cmd@.take(4)[0] == cmd@[0]);
        assert(cmd@.take(4)[1] == cmd@[1]);
        assert(cmd@.take(4)[2] == cmd@[2]);
        assert(cmd@.take(4)[3] == cmd@[3]);
        assert(cmd@.take(4) != set_prefix());
        return None;
    }
    assert(cmd@.take(4) =~= set_prefix());
    let rest = cmd.substring_char(4, n);
    assert(rest@ =~= cmd@.skip(4));
    split_once(rest, '=')
}

/// A key holding no `=` is read back whole from the command that writes it.
pub proof fn lemma_parse_set_command(key: Seq<char>, value: Seq<char>)
    requires
        !key.contains('='),
    ensures
        parse_set_spec(set_command_spec(key, value)) == Some((key, value)),
{
    let cmd = set_command_spec(key, value);
    let rest = key + seq!['='] + value;
    assert(cmd.take(4) =~= set_prefix());
    assert(cmd.skip(4) =~= rest);
    assert forall|j: int| 0 <= j < key.len() implies rest[j] != '=' by {
        assert(rest[j] == key[j]);
        if key[j] == '=' {
            assert(key.contains('='));
        }
    }
    assert(rest[key.len() as int] == '=');
    lemma_first_index(rest, '=', key.len() as int);
    assert(rest.take(key.len() as int) =~= key);
    assert(rest.skip(key.len() + 1int) =~= value);
}


// ------------------------------------------------------------------
// Splitting
// ------------------------------------------------------------------

/// The pieces of `s` between occurrences of `c`, as `str::split` gives
/// them: one more piece than there are `c`s, empty pieces included.
pub open spec fn split_spec(s: Seq<char>, c: char) -> Seq<Seq<char>>
    decreases s.len(),
{
    match s.index_of_first(c) {
        Some(i) => if 0 <= i < s.len() {
            seq![s.take(i)] + split_spec(s.skip(i + 1), c)
        } else {
            seq![s]
        },
        None => seq![s],
    }
}

/// The models of a list of strings.
pub open spec fn strings_view(v: Seq<String>) -> Seq<Seq<char>> {
    v.map_values(|x: String| x@)
}

/// Splits `s` at every `c`.
pub fn split_on(s: &str, c: char) -> (r: Vec<String>)
    ensures
        strings_view(r@) == split_spec(s@, c),
{
    let n = s.unicode_len();
    let mut pieces: Vec<String> = Vec::new();
    let mut start: usize = 0;
    let mut i: usize = 0;
    assert(s@.skip(0) =~= s@);
    while i < n
        invariant
            n == s@.len(),
            start <= i <= n,
            forall|j: int| start <= j < i ==> s@[j] != c,
            strings_view(pieces@) + split_spec(s@.skip(start as int), c) == split_spec(s@, c),
        decreases n - i,
    {
        if s.get_char(i) == c {
            let ghost t = s@.skip(start as int);
            proof {
                assert forall|j: int| 0 <= j < i - start implies t[j] != c by {
                    assert(t[j] == s@[start + j]);
                }
                lemma_first_index(t, c, i - start);
                assert(t.take(i - start) =~= s@.subrange(start as int, i as int));
                assert(t.skip(i - start + 1) =~= s@.skip(i + 1));
            }
            let piece = String::from_str(s.substring_char(start, i));
            let ghost before = pieces@;
            pieces.push(piece);
            assert(strings_view(pieces@) =~= strings_view(before).push(piece@));
            assert(strings_view(pieces@) + split_spec(s@.skip(i + 1), c) =~= strings_view(before)
                + split_spec(t, c));
            start = i + 1;
        }
        i = i + 1;
    }
    let ghost t = s@.skip(start as int);
    proof {
        assert forall|j: int| 0 <= j < t.len() implies t[j] != c by {
            assert(t[j] == s@[start + j]);
        }
        lemma_no_index(t, c);
    }
    let piece = String::from_str(s.substring_char(start, n));
    assert(piece@ =~= t);
    let ghost before = pieces@;
    pieces.push(piece);
    assert(strings_view(pieces@) =~= strings_view(before).push(piece@));
    assert(strings_view(pieces@) =~= strings_view(before) + split_spec(t, c));
    pieces
}

// ------------------------------------------------------------------
// Decimal numbers
// ------------------------------------------------------------------

/// Whether `c` is an ASCII digit.
pub open spec fn is_digit(c: char) -> bool {
    '0' <= c && c <= '9'
}

/// The value of an ASCII digit.
pub open spec fn digit_value(c: char) -> int {
    c as int - '0' as int
}

/// Whether every character of `s` is an ASCII digit.
pub open spec fn all_digits(s: Seq<char>) -> bool {
    forall|i: int| 0 <= i < s.len() ==> is_digit(#[trigger] s[i])
}

/// The value of a string of decimal digits.
pub open spec fn digits_value(s: Seq<char>) -> int
    decreases s.len(),
{
    if s.len() == 0 {
        0
    } else {
        digits_value(s.drop_last()) * 10 + digit_value(s.last())
    }
}

/// The digits of a number text, without its optional leading `+`.
pub open spec fn unsigned_digits(s: Seq<char>) -> Seq<char> {
    if s.len() > 0 && s[0] == '+' {
        s.skip(1)
    } else {
        s
    }
}

/// What `str::parse::<u16>` reads from `s`: an optional `+`, then at least
/// one ASCII digit and nothing else, with a value that fits in 16 bits.
pub open spec fn parse_u16_spec(s: Seq<char>) -> Option<u16> {
    let d = unsigned_digits(s);
    if d.len() > 0 && all_digits(d) && digits_value(d) <= 65535 {
        Some(digits_value(d) as u16)
    } else {
        None
    }
}

/// A longer string of digits is worth at least as much as its prefix.
pub proof fn lemma_digits_value_prefix(s: Seq<char>, k: int)
    requires
        all_digits(s),
        0 <= k <= s.len(),
    ensures
        0 <= digits_value(s.take(k)) <= digits_value(s),
    decreases s.len(),
{
    if k == s.len() {
        assert(s.take(k) =~= s);
        lemma_digits_value_nonneg(s);
    } else {
        let t = s.drop_last();
        assert(all_digits(t)) by {
            assert forall|i: int| 0 <= i < t.len() implies is_digit(#[trigger] t[i]) by {
                assert(t[i] == s[i]);
            }
        }
        lemma_digits_value_prefix(t, k);
        assert(t.take(k) =~= s.take(k));
        assert(is_digit(s[s.len() - 1]));
        lemma_digits_value_nonneg(t);
    }
}

/// A string of digits has a value of at least 0.
pub proof fn lemma_digits_value_nonneg(s: Seq<char>)
    requires
        all_digits(s),
    ensures
        digits_value(s) >= 0,
    decreases s.len(),
{
    if s.len() > 0 {
        let t = s.drop_last();
        assert forall|i: int| 0 <= i < t.len() implies is_digit(#[trigger] t[i]) by {
            assert(t[i] == s[i]);
        }
        lemma_digits_value_nonneg(t);
        assert(is_digit(s[s.len() - 1]));
    }
}

/// Parses a port number as `str::parse::<u16>` does.
pub fn parse_u16(s: &str) -> (r: Option<u16>)
    ensures
        r == parse_u16_spec(s@),
{
    let n = s.unicode_len();
    let mut i: usize = 0;
    if n > 0 && s.get_char(0) == '+' {
        i = 1;
    }
    let start = i;
    let ghost d = unsigned_digits(s@);
    assert(d =~= s@.skip(start as int));
    if start == n {
        return None;
    }
    let mut value: u32 = 0;
    while i < n
        invariant
            n == s@.len(),
            start < n,
            start <= i <= n,
            d == s@.skip(start as int),
            d == unsigned_digits(s@),
            all_digits(d.take(i - start)),
            value == digits_value(d.take(i - start)),
            value <= 65535,
        decreases n - i,
    {
        let c = s.get_char(i);
        assert(d[i - start] == c);
        if !('0' <= c && c <= '9') {
            assert(!all_digits(d));
            return None;
        }
        let digit = (c as u32) - ('0' as u32);
        let next = value * 10 + digit;
        assert(d.take(i - start + 1).drop_last() =~= d.take(i - start));
        assert(all_digits(d.take(i - start + 1))) by {
            assert forall|j: int| 0 <= j < i - start + 1 implies is_digit(
                #[trigger] d.take(i - start + 1)[j],
            ) by {
                if j < i - start {
                    assert(d.take(i - start + 1)[j] == d.take(i - start)[j]);
                }
            }
        }
        if next > 65535 {
            proof {
                if all_digits(d) {
                    lemma_digits_value_prefix(d, i - start + 1);
                }
            }
            return None;
        }
        value = next;
        i = i + 1;
    }
    assert(d.take(i - start) =~= d);
    Some(value as u16)
}


/// The ASCII digit for a value below 10.
pub open spec fn digit_char(d: int) -> char {
    if d == 0 {
        '0'
    } else if d == 1 {
        '1'
    } else if d == 2 {
        '2'
    } else if d == 3 {
        '3'
    } else if d == 4 {
        '4'
    } else if d == 5 {
        '5'
    } else if d == 6 {
        '6'
    } else if d == 7 {
        '7'
    } else if d == 8 {
        '8'
    } else {
        '9'
    }
}

/// The decimal spelling of `n`, without leading zeros.
pub open spec fn decimal_spec(n: nat) -> Seq<char>
    decreases n,
{
    if n < 10 {
        seq![digit_char(n as int)]
    } else {
        decimal_spec(n / 10).push(digit_char((n % 10) as int))
    }
}

/// The string holding the one digit `d`.
fn digit_string(d: u64) -> (s: String)
    requires
        d < 10,
    ensures
        s@ == seq![digit_char(d as int)],
{
    proof {
        reveal_strlit("0123456789");
    }
    let digits = "0123456789";
    let s = String::from_str(digits.substring_char(d as usize, d as usize + 1));
    assert(s@ =~= seq![digits@[d as int]]);
    s
}

/// The decimal spelling of `n`, as `to_string` gives it.
pub fn decimal_string(n: u64) -> (s: String)
    ensures
        s@ == decimal_spec(n as nat),
    decreases n,
{
    if n < 10 {
        digit_string(n)
    } else {
        let mut s = decimal_string(n / 10);
        let d = digit_string(n % 10);
        s.append(d.as_str());
        assert(s@ =~= decimal_spec((n / 10) as nat).push(digit_char((n % 10) as int)));
        s
    }
}

/// Each digit character is a digit and is worth its value.
pub proof fn lemma_digit_char(d: int)
    requires
        0 <= d < 10,
    ensures
        is_digit(digit_char(d)),
        digit_value(digit_char(d)) == d,
{
}

/// A decimal spelling holds only digits and reads back as its number.
pub proof fn lemma_decimal_digits(n: nat)
    ensures
        decimal_spec(n).len() > 0,
        all_digits(decimal_spec(n)),
        digits_value(decimal_spec(n)) == n,
    decreases n,
{
    if n < 10 {
        let s = decimal_spec(n);
        lemma_digit_char(n as int);
        assert(s.drop_last() =~= Seq::<char>::empty());
        assert(digits_value(s.drop_last()) == 0);
        assert(s.last() == digit_char(n as int));
        assert(digits_value(s) == digits_value(s.drop_last()) * 10 + digit_value(s.last()));
    } else {
        lemma_decimal_digits(n / 10);
        lemma_digit_char((n % 10) as int);
        assert((n / 10) * 10 + n % 10 == n) by (nonlinear_arith);
        let s = decimal_spec(n);
        let t = decimal_spec(n / 10);
        assert(s.drop_last() =~= t);
        assert(s.last() == digit_char((n % 10) as int));
        assert(digits_value(s) == digits_value(t) * 10 + digit_value(s.last()));
        assert forall|i: int| 0 <= i < s.len() implies is_digit(#[trigger] s[i]) by {
            if i < t.len() {
                assert(s[i] == t[i]);
            }
        }
    }
}


/// A port spelled in decimal parses back to itself.
pub proof fn lemma_parse_decimal_u16(p: u16)
    ensures
        parse_u16_spec(decimal_spec(p as nat)) == Some(p),
{
    lemma_decimal_digits(p as nat);
    let s = decimal_spec(p as nat);
    assert(s[0] != '+') by {
        assert(is_digit(s[0]));
    }
    assert(unsigned_digits(s) == s);
}

} // verus!
