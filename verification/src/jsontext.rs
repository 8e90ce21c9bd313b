//! Character-level text handling for the hub's wire protocol.
//!
//! The protocol exchanges small JSON documents: flat objects whose
//! meaningful members are strings, with any other members tolerated. This
//! module gives the exact character-level meaning of that format: how a
//! string is escaped when the hub serializes an envelope, and how a flat
//! JSON object is parsed when a client command arrives (string values
//! captured, other values skipped). Both directions are specified over
//! `Seq<char>` and verified against those specifications.

use vstd::prelude::*;
use vstd::string::StrSliceExecFns;

verus! {

/// The characters of a string slice, in order.
pub fn to_chars(s: &str) -> (v: Vec<char>)
    ensures
        v@ == s@,
{
    let n = s.unicode_len();
    let mut v: Vec<char> = Vec::new();
    let mut i: usize = 0;
    while i < n
        invariant
            i <= n,
            n == s@.len(),
            v@ == s@.subrange(0, i as int),
        decreases n - i,
    {
        v.push(s.get_char(i));
        proof {
            assert(v@ =~= s@.subrange(0, i + 1 as int));
        }
        i = i + 1;
    }
    proof {
        assert(v@ =~= s@);
    }
    v
}

/// Relies on `String::push`: appends exactly the one character.
#[verifier::external_body]
fn push_char(s: &mut String, c: char)
    ensures
        final (s)@ == old(s)@.push(c),
{
    s.push(c);
}

/// The string holding exactly these characters.
pub fn string_from_chars(v: &Vec<char>) -> (s: String)
    ensures
        s@ == v@,
{
    let mut s = String::new();
    let mut i: usize = 0;
    while i < v.len()
        invariant
            i <= v@.len(),
            s@ == v@.subrange(0, i as int),
        decreases v@.len() - i,
    {
        push_char(&mut s, v[i]);
        proof {
            assert(s@ =~= v@.subrange(0, i + 1 as int));
        }
        i = i + 1;
    }
    proof {
        assert(s@ =~= v@);
    }
    s
}

/// Whether a character vector holds exactly the characters of `lit`.
pub fn chars_match(k: &Vec<char>, lit: &str) -> (r: bool)
    ensures
        r == (k@ == lit@),
{
    let n = lit.unicode_len();
    if k.len() != n {
        return false;
    }
    let mut i: usize = 0;
    while i < n
        invariant
            i <= n,
            n == lit@.len(),
            n == k@.len(),
            forall|j: int| 0 <= j < i ==> k@[j] == lit@[j],
        decreases n - i,
    {
        if k[i] != lit.get_char(i) {
            return false;
        }
        i = i + 1;
    }
    proof {
        assert(k@ =~= lit@);
    }
    true
}

/// Appends the characters of `s` to `out`.
pub fn push_str_chars(out: &mut Vec<char>, s: &str)
    ensures
        final (out)@ == old(out)@ + s@,
{
    let n = s.unicode_len();
    let mut i: usize = 0;
    while i < n
        invariant
            i <= n,
            n == s@.len(),
            out@ == old(out)@ + s@.subrange(0, i as int),
        decreases n - i,
    {
        out.push(s.get_char(i));
        proof {
            assert(out@ =~= old(out)@ + s@.subrange(0, i + 1 as int));
        }
        i = i + 1;
    }
    proof {
        assert(out@ =~= old(out)@ + s@);
    }
}

/// The lower-case hexadecimal digit for `n` (0 to 15).
pub open spec fn hex_digit(n: int) -> char {
    if n == 0 {
        '0'
    } else if n == 1 {
        '1'
    } else if n == 2 {
        '2'
    } else if n == 3 {
        '3'
    } else if n == 4 {
        '4'
    } else if n == 5 {
        '5'
    } else if n == 6 {
        '6'
    } else if n == 7 {
        '7'
    } else if n == 8 {
        '8'
    } else if n == 9 {
        '9'
    } else if n == 10 {
        'a'
    } else if n == 11 {
        'b'
    } else if n == 12 {
        'c'
    } else if n == 13 {
        'd'
    } else if n == 14 {
        'e'
    } else {
        'f'
    }
}

fn hex_digit_exec(n: u32) -> (c: char)
    requires
        n < 16,
    ensures
        c == hex_digit(n as int),
{
    if n == 0 {
        '0'
    } else if n == 1 {
        '1'
    } else if n == 2 {
        '2'
    } else if n == 3 {
        '3'
    } else if n == 4 {
        '4'
    } else if n == 5 {
        '5'
    } else if n == 6 {
        '6'
    } else if n == 7 {
        '7'
    } else if n == 8 {
        '8'
    } else if n == 9 {
        '9'
    } else if n == 10 {
        'a'
    } else if n == 11 {
        'b'
    } else if n == 12 {
        'c'
    } else if n == 13 {
        'd'
    } else if n == 14 {
        'e'
    } else {
        'f'
    }
}

/// How one character is written inside a JSON string: quote and backslash get
/// a backslash escape, the five control characters with short escapes get
/// those, any other control character gets a `\u00XX` escape, and everything
/// else stands as itself.
pub open spec fn escape_char(c: char) -> Seq<char> {
    if c == '"' {
        seq!['\\', '"']
    } else if c == '\\' {
        seq!['\\', '\\']
    } else if c == '\u{8}' {
        seq!['\\', 'b']
    } else if c == '\u{c}' {
        seq!['\\', 'f']
    } else if c == '\n' {
        seq!['\\', 'n']
    } else if c == '\r' {
        seq!['\\', 'r']
    } else if c == '\t' {
        seq!['\\', 't']
    } else if (c as u32) < 32 {
        seq!['\\', 'u', '0', '0', hex_digit(c as u32 as int / 16), hex_digit(c as u32 as int % 16)]
    } else {
        seq![c]
    }
}

/// A whole string, escaped character by character.
pub open spec fn escape_string(s: Seq<char>) -> Seq<char>
    decreases s.len(),
{
    if s.len() == 0 {
        Seq::empty()
    } else {
        escape_char(s[0]) + escape_string(s.drop_first())
    }
}

/// Escaping distributes over appending one character.
pub proof fn lemma_escape_push(s: Seq<char>, c: char)
    ensures
        escape_string(s.push(c)) == escape_string(s) + escape_char(c),
    decreases s.len(),
{
    if s.len() == 0 {
        assert(s.push(c).drop_first() =~= Seq::<char>::empty());
        assert(s.push(c)[0] == c);
        assert(escape_string(Seq::<char>::empty()) =~= Seq::<char>::empty());
        assert(escape_string(s.push(c)) =~= escape_string(s) + escape_char(c));
    } else {
        assert(s.push(c).drop_first() =~= s.drop_first().push(c));
        lemma_escape_push(s.drop_first(), c);
        assert(escape_char(s[0]) + (escape_string(s.drop_first()) + escape_char(c)) =~= (escape_char(
            s[0],
        ) + escape_string(s.drop_first())) + escape_char(c));
    }
}

/// Appends the escaped form of `s` to `out`.
pub fn push_escaped(out: &mut Vec<char>, s: &str)
    ensures
        final (out)@ == old(out)@ + escape_string(s@),
{
    let n = s.unicode_len();
    let mut i: usize = 0;
    while i < n
        invariant
            i <= n,
            n == s@.len(),
            out@ == old(out)@ + escape_string(s@.subrange(0, i as int)),
        decreases n - i,
    {
        let c = s.get_char(i);
        let u = c as u32;
        proof {
            lemma_escape_push(s@.subrange(0, i as int), c);
            assert(s@.subrange(0, i + 1 as int) =~= s@.subrange(0, i as int).push(c));
        }
        if c == '"' {
            out.push('\\');
            out.push('"');
        } else if c == '\\' {
            out.push('\\');
            out.push('\\');
        } else if u == 8 {
            out.push('\\');
            out.push('b');
        } else if u == 12 {
            out.push('\\');
            out.push('f');
        } else if c == '\n' {
            out.push('\\');
            out.push('n');
        } else if c == '\r' {
            out.push('\\');
            out.push('r');
        } else if c == '\t' {
            out.push('\\');
            out.push('t');
        } else if u < 32 {
            out.push('\\');
            out.push('u');
            out.push('0');
            out.push('0');
            out.push(hex_digit_exec(u / 16));
            out.push(hex_digit_exec(u % 16));
        } else {
            out.push(c);
        }
        proof {
            assert(out@ =~= old(out)@ + escape_string(s@.subrange(0, i + 1 as int)));
        }
        i = i + 1;
    }
    proof {
        assert(s@.subrange(0, i as int) =~= s@);
    }
}

/// JSON whitespace.
pub open spec fn is_ws(c: char) -> bool {
    c == ' ' || c == '\t' || c == '\n' || c == '\r'
}

/// The position of the first non-whitespace character at or after `i`.
pub open spec fn skip_ws_from(s: Seq<char>, i: int) -> int
    decreases s.len() - i,
    when 0 <= i <= s.len()
{
    if i < s.len() && is_ws(s[i]) {
        skip_ws_from(s, i + 1)
    } else {
        i
    }
}

pub proof fn lemma_skip_ws_bounds(s: Seq<char>, i: int)
    requires
        0 <= i <= s.len(),
    ensures
        i <= skip_ws_from(s, i) <= s.len(),
    decreases s.len() - i,
{
    if i < s.len() && is_ws(s[i]) {
        lemma_skip_ws_bounds(s, i + 1);
    }
}

/// The character named by a backslash escape, if the escape is recognized.
/// Unicode escapes are not part of this protocol's format.
pub open spec fn unescape_char(c: char) -> Option<char> {
    if c == '"' {
        Some('"')
    } else if c == '\\' {
        Some('\\')
    } else if c == '/' {
        Some('/')
    } else if c == 'b' {
        Some('\u{8}')
    } else if c == 'f' {
        Some('\u{c}')
    } else if c == 'n' {
        Some('\n')
    } else if c == 'r' {
        Some('\r')
    } else if c == 't' {
        Some('\t')
    } else {
        None
    }
}

/// The body of a JSON string, read from `i` (just after the opening quote) up
/// to its closing quote: the unescaped content and the position after the
/// closing quote. Unescaped control characters and unknown escapes are
/// malformed.
pub open spec fn parse_string_body(s: Seq<char>, i: int) -> Option<(Seq<char>, int)>
    decreases s.len() - i,
    when 0 <= i <= s.len()
{
    if i >= s.len() {
        None
    } else if s[i] == '"' {
        Some((Seq::empty(), i + 1))
    } else if s[i] == '\\' {
        if i + 1 >= s.len() {
            None
        } else {
            match unescape_char(s[i + 1]) {
                None => None,
                Some(c) => match parse_string_body(s, i + 2) {
                    None => None,
                    Some((rest, j)) => Some((seq![c] + rest, j)),
                },
            }
        }
    } else if (s[i] as u32) < 32 {
        None
    } else {
        match parse_string_body(s, i + 1) {
            None => None,
            Some((rest, j)) => Some((seq![s[i]] + rest, j)),
        }
    }
}

pub proof fn lemma_string_body_bounds(s: Seq<char>, i: int)
    requires
        0 <= i <= s.len(),
        parse_string_body(s, i) is Some,
    ensures
        i < parse_string_body(s, i)->Some_0.1 <= s.len(),
    decreases s.len() - i,
{
    if i < s.len() && s[i] == '"' {
    } else if i < s.len() && s[i] == '\\' {
        lemma_string_body_bounds(s, i + 2);
    } else if i < s.len() {
        lemma_string_body_bounds(s, i + 1);
    }
}

/// A quoted JSON string starting exactly at `i`.
pub open spec fn parse_quote_string(s: Seq<char>, i: int) -> Option<(Seq<char>, int)> {
    if 0 <= i && i < s.len() && s[i] == '"' {
        parse_string_body(s, i + 1)
    } else {
        None
    }
}

pub proof fn lemma_quote_string_bounds(s: Seq<char>, i: int)
    requires
        0 <= i <= s.len(),
        parse_quote_string(s, i) is Some,
    ensures
        i + 1 < parse_quote_string(s, i)->Some_0.1 <= s.len(),
{
    lemma_string_body_bounds(s, i + 1);
}

/// One `"key" : value` member, with leading whitespace before the key and
/// around the colon. A string value is captured; any other JSON value is
/// tolerated and skipped.
pub open spec fn parse_member(s: Seq<char>, i: int) -> Option<
    ((Seq<char>, Option<Seq<char>>), int),
> {
    let i1 = skip_ws_from(s, i);
    match parse_quote_string(s, i1) {
        None => None,
        Some((k, i2)) => {
            let i3 = skip_ws_from(s, i2);
            if i3 < s.len() && s[i3] == ':' {
                let i4 = skip_ws_from(s, i3 + 1);
                match parse_member_value(s, i4) {
                    None => None,
                    Some((v, j)) => Some(((k, v), j)),
                }
            } else {
                None
            }
        },
    }
}

pub proof fn lemma_member_value_bounds(s: Seq<char>, i: int)
    requires
        0 <= i <= s.len(),
        parse_member_value(s, i) is Some,
    ensures
        i < parse_member_value(s, i)->Some_0.1 <= s.len(),
{
    if 0 <= i && i < s.len() && s[i] == '"' {
        lemma_string_body_bounds(s, i + 1);
    }
}

pub proof fn lemma_member_bounds(s: Seq<char>, i: int)
    requires
        0 <= i <= s.len(),
        parse_member(s, i) is Some,
    ensures
        i < parse_member(s, i)->Some_0.1 <= s.len(),
{
    lemma_skip_ws_bounds(s, i);
    let i1 = skip_ws_from(s, i);
    lemma_quote_string_bounds(s, i1);
    let i2 = parse_quote_string(s, i1)->Some_0.1;
    lemma_skip_ws_bounds(s, i2);
    let i3 = skip_ws_from(s, i2);
    lemma_skip_ws_bounds(s, i3 + 1);
    let i4 = skip_ws_from(s, i3 + 1);
    lemma_member_value_bounds(s, i4);
}

/// The members after the first one: either `, member ...` repeated, or the
/// closing brace. Returns the remaining members and the position after `}`.
pub open spec fn parse_more_members(s: Seq<char>, i: int) -> Option<
    (Seq<(Seq<char>, Option<Seq<char>>)>, int),
>
    decreases s.len() - i,
    when 0 <= i <= s.len()
    via parse_more_members_dec
{
    let i1 = skip_ws_from(s, i);
    if i1 < s.len() && s[i1] == ',' {
        match parse_member(s, i1 + 1) {
            None => None,
            Some((p, j)) => match parse_more_members(s, j) {
                None => None,
                Some((ps, k)) => Some((seq![p] + ps, k)),
            },
        }
    } else if i1 < s.len() && s[i1] == '}' {
        Some((Seq::empty(), i1 + 1))
    } else {
        None
    }
}

#[via_fn]
proof fn parse_more_members_dec(s: Seq<char>, i: int) {
    if 0 <= i <= s.len() {
        lemma_skip_ws_bounds(s, i);
        let i1 = skip_ws_from(s, i);
        if i1 < s.len() && s[i1] == ',' {
            if parse_member(s, i1 + 1) is Some {
                lemma_member_bounds(s, i1 + 1);
            }
        }
    }
}

/// A decimal digit.
pub open spec fn is_digit(c: char) -> bool {
    48 <= c as u32 <= 57
}

/// The position of the first non-digit character at or after `i`.
pub open spec fn skip_digits(s: Seq<char>, i: int) -> int
    decreases s.len() - i,
    when 0 <= i <= s.len()
{
    if i < s.len() && is_digit(s[i]) {
        skip_digits(s, i + 1)
    } else {
        i
    }
}

/// A JSON number starting at `i`: an optional minus, an integer part
/// without leading zeros, an optional fraction, an optional exponent.
/// Returns the position after it.
pub open spec fn skip_number(s: Seq<char>, i: int) -> Option<int> {
    let i1 = if i < s.len() && s[i] == '-' {
        i + 1
    } else {
        i
    };
    if i1 >= s.len() || !is_digit(s[i1]) {
        None
    } else {
        let i2 = if s[i1] == '0' {
            i1 + 1
        } else {
            skip_digits(s, i1)
        };
        let after_frac = if i2 < s.len() && s[i2] == '.' {
            if i2 + 1 < s.len() && is_digit(s[i2 + 1]) {
                Some(skip_digits(s, i2 + 1))
            } else {
                None
            }
        } else {
            Some(i2)
        };
        match after_frac {
            None => None,
            Some(i3) => {
                if i3 < s.len() && (s[i3] == 'e' || s[i3] == 'E') {
                    let i4 = if i3 + 1 < s.len() && (s[i3 + 1] == '+' || s[i3 + 1] == '-') {
                        i3 + 2
                    } else {
                        i3 + 1
                    };
                    if i4 < s.len() && is_digit(s[i4]) {
                        Some(skip_digits(s, i4))
                    } else {
                        None
                    }
                } else {
                    Some(i3)
                }
            },
        }
    }
}

/// A JSON literal (`true`, `false` or `null`) starting at `i`.
pub open spec fn skip_literal(s: Seq<char>, i: int) -> Option<int> {
    if i + 4 <= s.len() && s[i] == 't' && s[i + 1] == 'r' && s[i + 2] == 'u' && s[i + 3] == 'e' {
        Some(i + 4)
    } else if i + 5 <= s.len() && s[i] == 'f' && s[i + 1] == 'a' && s[i + 2] == 'l' && s[i + 3]
        == 's' && s[i + 4] == 'e' {
        Some(i + 5)
    } else if i + 4 <= s.len() && s[i] == 'n' && s[i + 1] == 'u' && s[i + 2] == 'l' && s[i + 3]
        == 'l' {
        Some(i + 4)
    } else {
        None
    }
}

/// Any one JSON value starting at `i`, skipped without keeping its content:
/// a string, an array, an object, a literal or a number. Returns the
/// position after it. Members whose values are not strings are carried
/// through the protocol this way: present, tolerated, never read.
pub open spec fn skip_value(s: Seq<char>, i: int) -> Option<int>
    decreases s.len() - i, 0int,
    when 0 <= i <= s.len()
{
    if i >= s.len() {
        None
    } else if s[i] == '"' {
        match parse_string_body(s, i + 1) {
            None => None,
            Some((c, j)) => Some(j),
        }
    } else if s[i] == '[' {
        let i1 = skip_ws_from(s, i + 1);
        if i1 < s.len() && s[i1] == ']' {
            Some(i1 + 1)
        } else {
            skip_array_items(s, i + 1)
        }
    } else if s[i] == '{' {
        let i1 = skip_ws_from(s, i + 1);
        if i1 < s.len() && s[i1] == '}' {
            Some(i1 + 1)
        } else {
            skip_object_items(s, i + 1)
        }
    } else if s[i] == 't' || s[i] == 'f' || s[i] == 'n' {
        skip_literal(s, i)
    } else {
        skip_number(s, i)
    }
}

/// The items of an array, from just after `[` or `,`: one value, then
/// either a comma and more items, or the closing bracket. The bound checks
/// on the value's end never fail (a value always ends within the input past
/// its start); they keep the recursion visibly descending.
pub open spec fn skip_array_items(s: Seq<char>, i: int) -> Option<int>
    decreases s.len() - i, 1int,
    when 0 <= i <= s.len()
    via skip_array_items_dec
{
    let i1 = skip_ws_from(s, i);
    match skip_value(s, i1) {
        None => None,
        Some(j) => if !(i1 < j && j <= s.len()) {
            None
        } else {
            let j1 = skip_ws_from(s, j);
            if j1 < s.len() && s[j1] == ',' {
                skip_array_items(s, j1 + 1)
            } else if j1 < s.len() && s[j1] == ']' {
                Some(j1 + 1)
            } else {
                None
            }
        },
    }
}

#[via_fn]
proof fn skip_array_items_dec(s: Seq<char>, i: int) {
    assert forall|k: int| 0 <= k <= s.len() implies k <= (#[trigger] skip_ws_from(s, k))
        && skip_ws_from(s, k) <= s.len() by {
        lemma_skip_ws_bounds(s, k);
    }
}

/// The members of an object, from just after `{` or `,`: one
/// `"key" : value` member, then either a comma and more members, or the
/// closing brace.
pub open spec fn skip_object_items(s: Seq<char>, i: int) -> Option<int>
    decreases s.len() - i, 1int,
    when 0 <= i <= s.len()
    via skip_object_items_dec
{
    let i1 = skip_ws_from(s, i);
    match parse_quote_string(s, i1) {
        None => None,
        Some((k, i2)) => {
            let i3 = skip_ws_from(s, i2);
            if i3 < s.len() && s[i3] == ':' {
                let i4 = skip_ws_from(s, i3 + 1);
                match skip_value(s, i4) {
                    None => None,
                    Some(j) => if !(i4 < j && j <= s.len()) {
                        None
                    } else {
                        let j1 = skip_ws_from(s, j);
                        if j1 < s.len() && s[j1] == ',' {
                            skip_object_items(s, j1 + 1)
                        } else if j1 < s.len() && s[j1] == '}' {
                            Some(j1 + 1)
                        } else {
                            None
                        }
                    },
                }
            } else {
                None
            }
        },
    }
}

#[via_fn]
proof fn skip_object_items_dec(s: Seq<char>, i: int) {
    assert forall|k: int| 0 <= k <= s.len() implies k <= (#[trigger] skip_ws_from(s, k))
        && skip_ws_from(s, k) <= s.len() by {
        lemma_skip_ws_bounds(s, k);
    }
    assert forall|k: int|
        0 <= k <= s.len() && (#[trigger] parse_quote_string(s, k)) is Some implies k + 1
        < parse_quote_string(s, k)->Some_0.1 && parse_quote_string(s, k)->Some_0.1
        <= s.len() by {
        lemma_quote_string_bounds(s, k);
    }
}

fn digit_exec(c: char) -> (r: bool)
    ensures
        r == is_digit(c),
{
    let u = c as u32;
    48 <= u && u <= 57
}

fn skip_digits_exec(v: &Vec<char>, i: usize) -> (r: usize)
    requires
        i <= v@.len(),
    ensures
        r as int == skip_digits(v@, i as int),
        i <= r <= v@.len(),
        i < v@.len() && is_digit(v@[i as int]) ==> i < r,
    decreases v@.len() - i,
{
    if i < v.len() && digit_exec(v[i]) {
        skip_digits_exec(v, i + 1)
    } else {
        i
    }
}

fn skip_number_exec(v: &Vec<char>, i: usize) -> (r: Option<usize>)
    requires
        i <= v@.len(),
    ensures
        match r {
            Some(j) => skip_number(v@, i as int) == Some(j as int) && i < j <= v@.len(),
            None => skip_number(v@, i as int) is None,
        },
{
    let n = v.len();
    let i1 = if i < n && v[i] == '-' {
        i + 1
    } else {
        i
    };
    if i1 >= n || !digit_exec(v[i1]) {
        return None;
    }
    let i2 = if v[i1] == '0' {
        i1 + 1
    } else {
        skip_digits_exec(v, i1)
    };
    let i3 = if i2 < n && v[i2] == '.' {
        if i2 + 1 < n && digit_exec(v[i2 + 1]) {
            skip_digits_exec(v, i2 + 1)
        } else {
            return None;
        }
    } else {
        i2
    };
    if i3 < n && (v[i3] == 'e' || v[i3] == 'E') {
        let i4 = if i3 + 1 < n && (v[i3 + 1] == '+' || v[i3 + 1] == '-') {
            i3 + 2
        } else {
            i3 + 1
        };
        if i4 < n && digit_exec(v[i4]) {
            Some(skip_digits_exec(v, i4))
        } else {
            None
        }
    } else {
        Some(i3)
    }
}

fn skip_literal_exec(v: &Vec<char>, i: usize) -> (r: Option<usize>)
    requires
        i <= v@.len(),
    ensures
        match r {
            Some(j) => skip_literal(v@, i as int) == Some(j as int) && i < j <= v@.len(),
            None => skip_literal(v@, i as int) is None,
        },
{
    let n = v.len();
    if n - i >= 4 && v[i] == 't' && v[i + 1] == 'r' && v[i + 2] == 'u' && v[i + 3] == 'e' {
        Some(i + 4)
    } else if n - i >= 5 && v[i] == 'f' && v[i + 1] == 'a' && v[i + 2] == 'l' && v[i + 3] == 's'
        && v[i + 4] == 'e' {
        Some(i + 5)
    } else if n - i >= 4 && v[i] == 'n' && v[i + 1] == 'u' && v[i + 2] == 'l' && v[i + 3] == 'l' {
        Some(i + 4)
    } else {
        None
    }
}

fn skip_value_exec(v: &Vec<char>, i: usize) -> (r: Option<usize>)
    requires
        i <= v@.len(),
    ensures
        match r {
            Some(j) => skip_value(v@, i as int) == Some(j as int) && i < j <= v@.len(),
            None => skip_value(v@, i as int) is None,
        },
    decreases v@.len() - i, 0int,
{
    if i >= v.len() {
        return None;
    }
    let c = v[i];
    if c == '"' {
        match parse_body_exec(v, i + 1) {
            None => None,
            Some(p) => Some(p.1),
        }
    } else if c == '[' {
        let i1 = skip_ws_exec(v, i + 1);
        if i1 < v.len() && v[i1] == ']' {
            Some(i1 + 1)
        } else {
            skip_array_items_exec(v, i + 1)
        }
    } else if c == '{' {
        let i1 = skip_ws_exec(v, i + 1);
        if i1 < v.len() && v[i1] == '}' {
            Some(i1 + 1)
        } else {
            skip_object_items_exec(v, i + 1)
        }
    } else if c == 't' || c == 'f' || c == 'n' {
        skip_literal_exec(v, i)
    } else {
        skip_number_exec(v, i)
    }
}

fn skip_array_items_exec(v: &Vec<char>, i: usize) -> (r: Option<usize>)
    requires
        i <= v@.len(),
    ensures
        match r {
            Some(j) => skip_array_items(v@, i as int) == Some(j as int) && i < j <= v@.len(),
            None => skip_array_items(v@, i as int) is None,
        },
    decreases v@.len() - i, 1int,
{
    let i1 = skip_ws_exec(v, i);
    match skip_value_exec(v, i1) {
        None => None,
        Some(j) => {
            let j1 = skip_ws_exec(v, j);
            if j1 < v.len() && v[j1] == ',' {
                skip_array_items_exec(v, j1 + 1)
            } else if j1 < v.len() && v[j1] == ']' {
                Some(j1 + 1)
            } else {
                None
            }
        },
    }
}

fn skip_object_items_exec(v: &Vec<char>, i: usize) -> (r: Option<usize>)
    requires
        i <= v@.len(),
    ensures
        match r {
            Some(j) => skip_object_items(v@, i as int) == Some(j as int) && i < j <= v@.len(),
            None => skip_object_items(v@, i as int) is None,
        },
    decreases v@.len() - i, 1int,
{
    let i1 = skip_ws_exec(v, i);
    match parse_quote_exec(v, i1) {
        None => None,
        Some((k, i2)) => {
            let i3 = skip_ws_exec(v, i2);
            if i3 < v.len() && v[i3] == ':' {
                let i4 = skip_ws_exec(v, i3 + 1);
                match skip_value_exec(v, i4) {
                    None => None,
                    Some(j) => {
                        let j1 = skip_ws_exec(v, j);
                        if j1 < v.len() && v[j1] == ',' {
                            skip_object_items_exec(v, j1 + 1)
                        } else if j1 < v.len() && v[j1] == '}' {
                            Some(j1 + 1)
                        } else {
                            None
                        }
                    },
                }
            } else {
                None
            }
        },
    }
}

fn parse_member_value_exec(v: &Vec<char>, i: usize) -> (r: Option<(Option<Vec<char>>, usize)>)
    requires
        i <= v@.len(),
    ensures
        match r {
            Some(p) => parse_member_value(v@, i as int) == Some(
                (
                    match p.0 {
                        Some(c) => Some(c@),
                        None => None,
                    },
                    p.1 as int,
                ),
            ) && i < p.1 <= v@.len(),
            None => parse_member_value(v@, i as int) is None,
        },
{
    if i < v.len() && v[i] == '"' {
        match parse_body_exec(v, i + 1) {
            None => None,
            Some((c, j)) => Some((Some(c), j)),
        }
    } else {
        match skip_value_exec(v, i) {
            None => None,
            Some(j) => Some((None, j)),
        }
    }
}

/// One member's value: a string is captured (unescaped), any other JSON
/// value is tolerated and skipped.
pub open spec fn parse_member_value(s: Seq<char>, i: int) -> Option<(Option<Seq<char>>, int)> {
    if 0 <= i && i < s.len() && s[i] == '"' {
        match parse_string_body(s, i + 1) {
            None => None,
            Some((c, j)) => Some((Some(c), j)),
        }
    } else {
        match skip_value(s, i) {
            None => None,
            Some(j) => if i < j && j <= s.len() {
                Some((None, j))
            } else {
                None
            },
        }
    }
}

/// The whole input as one flat JSON object: whitespace, `{`, members, `}`,
/// whitespace, end of input. The member list in source order, duplicates
/// included; string values captured, other values marked as skipped.
pub open spec fn parse_object_pairs(s: Seq<char>) -> Option<
    Seq<(Seq<char>, Option<Seq<char>>)>,
> {
    let i0 = skip_ws_from(s, 0);
    if i0 < s.len() && s[i0] == '{' {
        let i1 = skip_ws_from(s, i0 + 1);
        if i1 < s.len() && s[i1] == '}' {
            if skip_ws_from(s, i1 + 1) == s.len() {
                Some(Seq::empty())
            } else {
                None
            }
        } else {
            match parse_member(s, i0 + 1) {
                None => None,
                Some((p, j)) => match parse_more_members(s, j) {
                    None => None,
                    Some((ps, k)) => if skip_ws_from(s, k) == s.len() {
                        Some(seq![p] + ps)
                    } else {
                        None
                    },
                },
            }
        }
    } else {
        None
    }
}

/// The value of the first member with this key: `Some(None)` when that
/// member's value is not a string.
pub open spec fn pairs_lookup(ps: Seq<(Seq<char>, Option<Seq<char>>)>, key: Seq<char>) -> Option<
    Option<Seq<char>>,
>
    decreases ps.len(),
{
    if ps.len() == 0 {
        None
    } else if ps[0].0 == key {
        Some(ps[0].1)
    } else {
        pairs_lookup(ps.drop_first(), key)
    }
}

/// How many members carry this key.
pub open spec fn pairs_count(ps: Seq<(Seq<char>, Option<Seq<char>>)>, key: Seq<char>) -> nat
    decreases ps.len(),
{
    if ps.len() == 0 {
        0
    } else {
        (if ps[0].0 == key {
            1nat
        } else {
            0nat
        }) + pairs_count(ps.drop_first(), key)
    }
}

/// The member one parsed entry denotes.
pub open spec fn pair_view(p: (Vec<char>, Option<Vec<char>>)) -> (Seq<char>, Option<Seq<char>>) {
    (
        p.0@,
        match p.1 {
            Some(c) => Some(c@),
            None => None,
        },
    )
}

/// The member list a vector of parsed members denotes.
pub open spec fn pairs_view(ps: Seq<(Vec<char>, Option<Vec<char>>)>) -> Seq<
    (Seq<char>, Option<Seq<char>>),
> {
    ps.map_values(|p: (Vec<char>, Option<Vec<char>>)| pair_view(p))
}

fn unescape_exec(c: char) -> (r: Option<char>)
    ensures
        r == unescape_char(c),
{
    if c == '"' {
        Some('"')
    } else if c == '\\' {
        Some('\\')
    } else if c == '/' {
        Some('/')
    } else if c == 'b' {
        Some('\u{8}')
    } else if c == 'f' {
        Some('\u{c}')
    } else if c == 'n' {
        Some('\n')
    } else if c == 'r' {
        Some('\r')
    } else if c == 't' {
        Some('\t')
    } else {
        None
    }
}

fn skip_ws_exec(v: &Vec<char>, i: usize) -> (r: usize)
    requires
        i <= v@.len(),
    ensures
        r as int == skip_ws_from(v@, i as int),
        i <= r <= v@.len(),
    decreases v@.len() - i,
{
    if i < v.len() {
        let c = v[i];
        if c == ' ' || c == '\t' || c == '\n' || c == '\r' {
            return skip_ws_exec(v, i + 1);
        }
    }
    i
}

fn parse_body_exec(v: &Vec<char>, i: usize) -> (r: Option<(Vec<char>, usize)>)
    requires
        i <= v@.len(),
    ensures
        match r {
            Some(p) => parse_string_body(v@, i as int) == Some((p.0@, p.1 as int)) && i < p.1
                <= v@.len(),
            None => parse_string_body(v@, i as int) is None,
        },
    decreases v@.len() - i,
{
    if i >= v.len() {
        return None;
    }
    let c = v[i];
    if c == '"' {
        let content: Vec<char> = Vec::new();
        return Some((content, i + 1));
    }
    if c == '\\' {
        if i + 1 >= v.len() {
            return None;
        }
        match unescape_exec(v[i + 1]) {
            None => None,
            Some(u) => {
                match parse_body_exec(v, i + 2) {
                    None => None,
                    Some((mut rest, j)) => {
                        let ghost prev = rest@;
                        rest.insert(0, u);
                        proof {
                            assert(rest@ =~= seq![u] + prev);
                        }
                        Some((rest, j))
                    },
                }
            },
        }
    } else if (c as u32) < 32 {
        None
    } else {
        match parse_body_exec(v, i + 1) {
            None => None,
            Some((mut rest, j)) => {
                let ghost prev = rest@;
                rest.insert(0, c);
                proof {
                    assert(rest@ =~= seq![c] + prev);
                }
                Some((rest, j))
            },
        }
    }
}

fn parse_quote_exec(v: &Vec<char>, i: usize) -> (r: Option<(Vec<char>, usize)>)
    requires
        i <= v@.len(),
    ensures
        match r {
            Some(p) => parse_quote_string(v@, i as int) == Some((p.0@, p.1 as int)) && i + 1 < p.1
                <= v@.len(),
            None => parse_quote_string(v@, i as int) is None,
        },
{
    if i < v.len() && v[i] == '"' {
        parse_body_exec(v, i + 1)
    } else {
        None
    }
}

fn parse_member_exec(v: &Vec<char>, i: usize) -> (r: Option<
    ((Vec<char>, Option<Vec<char>>), usize),
>)
    requires
        i <= v@.len(),
    ensures
        match r {
            Some(p) => parse_member(v@, i as int) == Some((pair_view(p.0), p.1 as int)) && i < p.1
                <= v@.len(),
            None => parse_member(v@, i as int) is None,
        },
{
    let i1 = skip_ws_exec(v, i);
    match parse_quote_exec(v, i1) {
        None => None,
        Some((k, i2)) => {
            let i3 = skip_ws_exec(v, i2);
            if i3 < v.len() && v[i3] == ':' {
                let i4 = skip_ws_exec(v, i3 + 1);
                match parse_member_value_exec(v, i4) {
                    None => None,
                    Some((val, j)) => Some(((k, val), j)),
                }
            } else {
                None
            }
        },
    }
}

fn parse_more_exec(v: &Vec<char>, i: usize) -> (r: Option<
    (Vec<(Vec<char>, Option<Vec<char>>)>, usize),
>)
    requires
        i <= v@.len(),
    ensures
        match r {
            Some(p) => parse_more_members(v@, i as int) == Some((pairs_view(p.0@), p.1 as int))
                && i < p.1 <= v@.len(),
            None => parse_more_members(v@, i as int) is None,
        },
    decreases v@.len() - i,
{
    let i1 = skip_ws_exec(v, i);
    if i1 < v.len() && v[i1] == ',' {
        match parse_member_exec(v, i1 + 1) {
            None => None,
            Some((p, j)) => {
                match parse_more_exec(v, j) {
                    None => None,
                    Some((mut ps, k)) => {
                        let ghost prev = ps@;
                        ps.insert(0, p);
                        proof {
                            assert(pairs_view(ps@) =~= seq![pair_view(ps@[0])] + pairs_view(
                                prev,
                            ));
                        }
                        Some((ps, k))
                    },
                }
            },
        }
    } else if i1 < v.len() && v[i1] == '}' {
        let empty: Vec<(Vec<char>, Option<Vec<char>>)> = Vec::new();
        proof {
            assert(pairs_view(empty@) =~= Seq::<(Seq<char>, Option<Seq<char>>)>::empty());
        }
        Some((empty, i1 + 1))
    } else {
        None
    }
}

/// Parses the whole character sequence as one flat JSON object, as
/// [`parse_object_pairs`] describes: the members in source order (string
/// values captured, other values skipped), or `None` for anything malformed.
pub fn parse_object_exec(v: &Vec<char>) -> (r: Option<Vec<(Vec<char>, Option<Vec<char>>)>>)
    ensures
        match r {
            Some(ps) => parse_object_pairs(v@) == Some(pairs_view(ps@)),
            None => parse_object_pairs(v@) is None,
        },
{
    let i0 = skip_ws_exec(v, 0);
    if i0 < v.len() && v[i0] == '{' {
        let i1 = skip_ws_exec(v, i0 + 1);
        if i1 < v.len() && v[i1] == '}' {
            let e = skip_ws_exec(v, i1 + 1);
            if e == v.len() {
                let empty: Vec<(Vec<char>, Option<Vec<char>>)> = Vec::new();
                proof {
                    assert(pairs_view(empty@) =~= Seq::<(Seq<char>, Option<Seq<char>>)>::empty());
                }
                Some(empty)
            } else {
                None
            }
        } else {
            match parse_member_exec(v, i0 + 1) {
                None => None,
                Some((p, j)) => {
                    match parse_more_exec(v, j) {
                        None => None,
                        Some((mut ps, k)) => {
                            let e = skip_ws_exec(v, k);
                            if e == v.len() {
                                let ghost prev = ps@;
                                ps.insert(0, p);
                                proof {
                                    assert(pairs_view(ps@) =~= seq![pair_view(ps@[0])]
                                        + pairs_view(prev));
                                }
                                Some(ps)
                            } else {
                                None
                            }
                        },
                    }
                },
            }
        }
    } else {
        None
    }
}

/// Whether two character vectors hold the same characters.
/// The first member with this key, as an index into the vector.
pub fn pairs_lookup_exec(ps: &Vec<(Vec<char>, Option<Vec<char>>)>, key: &str) -> (r: Option<
    usize,
>)
    ensures
        match r {
            Some(i) => i < ps@.len() && ps@[i as int].0@ == key@ && pairs_lookup(
                pairs_view(ps@),
                key@,
            ) == Some(pair_view(ps@[i as int]).1),
            None => pairs_lookup(pairs_view(ps@), key@) is None,
        },
{
    let n = ps.len();
    let mut i: usize = 0;
    proof {
        assert(pairs_view(ps@).skip(0) =~= pairs_view(ps@));
    }
    while i < n
        invariant
            i <= n,
            n == ps@.len(),
            pairs_lookup(pairs_view(ps@), key@) == pairs_lookup(
                pairs_view(ps@).skip(i as int),
                key@,
            ),
        decreases n - i,
    {
        let ghost pv = pairs_view(ps@);
        if chars_match(&ps[i].0, key) {
            proof {
                assert(pv.skip(i as int)[0] == pv[i as int]);
            }
            return Some(i);
        }
        proof {
            assert(pv.skip(i as int)[0] == pv[i as int]);
            assert(pv.skip(i as int).drop_first() =~= pv.skip(i + 1));
        }
        i = i + 1;
    }
    proof {
        assert(pairs_view(ps@).skip(n as int) =~= Seq::<(Seq<char>, Option<Seq<char>>)>::empty());
    }
    None
}

/// How many members carry this key.
pub fn pairs_count_exec(ps: &Vec<(Vec<char>, Option<Vec<char>>)>, key: &str) -> (r: usize)
    ensures
        r as nat == pairs_count(pairs_view(ps@), key@),
{
    let n = ps.len();
    let mut acc: usize = 0;
    let mut i: usize = 0;
    proof {
        assert(pairs_view(ps@).skip(0) =~= pairs_view(ps@));
    }
    while i < n
        invariant
            i <= n,
            acc <= i,
            n == ps@.len(),
            pairs_count(pairs_view(ps@), key@) == acc + pairs_count(
                pairs_view(ps@).skip(i as int),
                key@,
            ),
        decreases n - i,
    {
        let ghost pv = pairs_view(ps@);
        proof {
            assert(pv.skip(i as int)[0] == pv[i as int]);
            assert(pv.skip(i as int).drop_first() =~= pv.skip(i + 1));
        }
        if chars_match(&ps[i].0, key) {
            acc = acc + 1;
        }
        i = i + 1;
    }
    proof {
        assert(pairs_view(ps@).skip(n as int) =~= Seq::<(Seq<char>, Option<Seq<char>>)>::empty());
    }
    acc
}

} // verus!
