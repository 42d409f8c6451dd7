//! Flat JSON objects: objects whose values are strings, numbers, `true`, `false`
//! or `null`.

use vstd::prelude::*;

use crate::number::{decimal, law_numbers_are_written_short};
use crate::text::{occurs_at, occurs_in_at};

verus! {

// ── Tokens ───────────────────────────────────────────────────────────────────

pub open spec fn is_space(c: char) -> bool {
    c == ' ' || c == '\t' || c == '\n' || c == '\r'
}

/// First index at or after `from` that holds no space.
pub open spec fn skip_space(s: Seq<char>, from: int) -> int
    decreases s.len() - from,
{
    if from < s.len() && is_space(s[from]) {
        skip_space(s, from + 1)
    } else {
        from
    }
}

/// A control character, which stands in no string.
pub open spec fn is_control(c: char) -> bool {
    c as u32 <= 0x1f
}

pub open spec fn is_digit(c: char) -> bool {
    '0' <= c && c <= '9'
}

pub open spec fn is_hex(c: char) -> bool {
    is_digit(c) || 'a' <= c && c <= 'f' || 'A' <= c && c <= 'F'
}

/// May `c` follow a backslash, as an escape of its own?
pub open spec fn is_escape(c: char) -> bool {
    c == '"' || c == '\\' || c == '/' || c == 'b' || c == 'f' || c == 'n' || c == 'r' || c == 't'
}

/// Index behind the escape whose backslash is at `at`.
pub open spec fn escape_end(s: Seq<char>, at: int) -> Option<int> {
    if at + 1 < s.len() && is_escape(s[at + 1]) {
        Some(at + 2)
    } else if at + 5 < s.len() && s[at + 1] == 'u' && is_hex(s[at + 2]) && is_hex(s[at + 3])
        && is_hex(s[at + 4]) && is_hex(s[at + 5]) {
        Some(at + 6)
    } else {
        None
    }
}

/// Index behind the quote that ends a string, of which `from` is inside.
pub open spec fn chars_end(s: Seq<char>, from: int) -> Option<int>
    decreases s.len() - from,
{
    if from >= s.len() || is_control(s[from]) {
        None
    } else if s[from] == '"' {
        Some(from + 1)
    } else if s[from] == '\\' {
        match escape_end(s, from) {
            Some(next) => chars_end(s, next),
            None => None,
        }
    } else {
        chars_end(s, from + 1)
    }
}

/// Index behind the string at `at`.
pub open spec fn string_end(s: Seq<char>, at: int) -> Option<int> {
    if at < s.len() && s[at] == '"' {
        chars_end(s, at + 1)
    } else {
        None
    }
}

/// First index at or after `from` that holds no digit.
pub open spec fn digits_end(s: Seq<char>, from: int) -> int
    decreases s.len() - from,
{
    if from < s.len() && is_digit(s[from]) {
        digits_end(s, from + 1)
    } else {
        from
    }
}

/// Index behind the digits at `at`, of which there is at least one.
pub open spec fn some_digits_end(s: Seq<char>, at: int) -> Option<int> {
    if digits_end(s, at) > at {
        Some(digits_end(s, at))
    } else {
        None
    }
}

/// Index behind the integer part of a number at `at`; it has no leading zeros.
pub open spec fn integer_end(s: Seq<char>, at: int) -> Option<int> {
    if at < s.len() && s[at] == '0' {
        Some(at + 1)
    } else {
        some_digits_end(s, at)
    }
}

/// Index behind the fraction at `at`, if there is one.
pub open spec fn fraction_end(s: Seq<char>, at: int) -> Option<int> {
    if at < s.len() && s[at] == '.' {
        some_digits_end(s, at + 1)
    } else {
        Some(at)
    }
}

/// Index behind the exponent at `at`, if there is one.
pub open spec fn exponent_end(s: Seq<char>, at: int) -> Option<int> {
    if at < s.len() && (s[at] == 'e' || s[at] == 'E') {
        if at + 1 < s.len() && (s[at + 1] == '+' || s[at + 1] == '-') {
            some_digits_end(s, at + 2)
        } else {
            some_digits_end(s, at + 1)
        }
    } else {
        Some(at)
    }
}

/// Index behind the number at `at`.
pub open spec fn number_end(s: Seq<char>, at: int) -> Option<int> {
    let unsigned = if at < s.len() && s[at] == '-' {
        at + 1
    } else {
        at
    };
    match integer_end(s, unsigned) {
        Some(point) => match fraction_end(s, point) {
            Some(exponent) => exponent_end(s, exponent),
            None => None,
        },
        None => None,
    }
}

/// Index behind the string, word or number at `at`.
pub open spec fn value_end(s: Seq<char>, at: int) -> Option<int> {
    if at < s.len() && s[at] == '"' {
        string_end(s, at)
    } else if occurs_at(s, seq!['t', 'r', 'u', 'e'], at) || occurs_at(
        s,
        seq!['n', 'u', 'l', 'l'],
        at,
    ) {
        Some(at + 4)
    } else if occurs_at(s, seq!['f', 'a', 'l', 's', 'e'], at) {
        Some(at + 5)
    } else {
        number_end(s, at)
    }
}

pub proof fn lemma_skip_space(s: Seq<char>, from: int)
    ensures
        from <= skip_space(s, from),
        from <= s.len() ==> skip_space(s, from) <= s.len(),
    decreases s.len() - from,
{
    if from < s.len() && is_space(s[from]) {
        lemma_skip_space(s, from + 1);
    }
}

pub proof fn lemma_chars_end(s: Seq<char>, from: int)
    ensures
        chars_end(s, from) matches Some(end) ==> from < end <= s.len(),
    decreases s.len() - from,
{
    if from < s.len() && !is_control(s[from]) && s[from] != '"' {
        if s[from] == '\\' {
            if let Some(next) = escape_end(s, from) {
                lemma_chars_end(s, next);
            }
        } else {
            lemma_chars_end(s, from + 1);
        }
    }
}

proof fn lemma_digits_end(s: Seq<char>, from: int)
    ensures
        from <= digits_end(s, from),
        from <= s.len() ==> digits_end(s, from) <= s.len(),
    decreases s.len() - from,
{
    if from < s.len() && is_digit(s[from]) {
        lemma_digits_end(s, from + 1);
    }
}

/// A value takes up room.
pub proof fn lemma_value_end(s: Seq<char>, at: int)
    requires
        at <= s.len(),
    ensures
        value_end(s, at) matches Some(end) ==> at < end <= s.len(),
{
    lemma_chars_end(s, at + 1);
    let unsigned = if at < s.len() && s[at] == '-' {
        at + 1
    } else {
        at
    };
    lemma_digits_end(s, unsigned);
    if let Some(point) = integer_end(s, unsigned) {
        lemma_digits_end(s, point + 1);
        if let Some(exponent) = fraction_end(s, point) {
            lemma_digits_end(s, exponent + 1);
            lemma_digits_end(s, exponent + 2);
        }
    }
}

// ── Objects ──────────────────────────────────────────────────────────────────

/// A member of an object.
pub struct Member {
    /// What stands between the quotes of its key.
    pub key: Seq<char>,
    /// Index behind its colon.
    pub value_at: int,
}

/// The members from `from` up to the brace that ends the object and the text; None
/// if that is not what is there.
pub open spec fn members(s: Seq<char>, from: int) -> Option<Seq<Member>>
    decreases s.len() - from,
{
    let key = skip_space(s, from);
    match string_end(s, key) {
        Some(key_end) => {
            let colon = skip_space(s, key_end);
            let member = Member { key: s.subrange(key + 1, key_end - 1), value_at: colon + 1 };
            let value = skip_space(s, colon + 1);
            if colon < s.len() && s[colon] == ':' {
                match value_end(s, value) {
                    Some(end) => {
                        let next = skip_space(s, end);
                        proof {
                            lemma_skip_space(s, from);
                            lemma_chars_end(s, key + 1);
                            lemma_skip_space(s, key_end);
                            lemma_skip_space(s, colon + 1);
                            lemma_value_end(s, value);
                            lemma_skip_space(s, end);
                        }
                        if next < s.len() && s[next] == ',' {
                            match members(s, next + 1) {
                                Some(rest) => Some(seq![member] + rest),
                                None => None,
                            }
                        } else if next < s.len() && s[next] == '}' && skip_space(s, next + 1)
                            == s.len() {
                            Some(seq![member])
                        } else {
                            None
                        }
                    },
                    None => None,
                }
            } else {
                None
            }
        },
        None => None,
    }
}

/// The members of the flat object that `s` is; None if it is not one.
pub open spec fn flat_object(s: Seq<char>) -> Option<Seq<Member>> {
    let open = skip_space(s, 0);
    if open < s.len() && s[open] == '{' {
        let first = skip_space(s, open + 1);
        if first < s.len() && s[first] == '}' && skip_space(s, first + 1) == s.len() {
            Some(seq![])
        } else {
            members(s, open + 1)
        }
    } else {
        None
    }
}

/// Where the value of the first member with this key is.
pub open spec fn value_of(members: Seq<Member>, key: Seq<char>) -> Option<int>
    decreases members.len(),
{
    if members.len() == 0 {
        None
    } else if members[0].key == key {
        Some(members[0].value_at)
    } else {
        value_of(members.drop_first(), key)
    }
}

// ── Parsing ──────────────────────────────────────────────────────────────────

/// An index that may be missing.
pub open spec fn index(i: Option<usize>) -> Option<int> {
    match i {
        Some(i) => Some(i as int),
        None => None,
    }
}

fn skip_space_in(s: &Vec<char>, from: usize) -> (i: usize)
    requires
        from <= s@.len(),
    ensures
        i == skip_space(s@, from as int),
        from <= i <= s@.len(),
{
    let mut i: usize = from;
    while i < s.len() && (s[i] == ' ' || s[i] == '\t' || s[i] == '\n' || s[i] == '\r')
        invariant
            from <= i <= s@.len(),
            skip_space(s@, from as int) == skip_space(s@, i as int),
        decreases s@.len() - i,
    {
        i = i + 1;
    }
    i
}

fn control(c: char) -> (b: bool)
    ensures
        b == is_control(c),
{
    c as u32 <= 0x1f
}

fn digit(c: char) -> (b: bool)
    ensures
        b == is_digit(c),
{
    '0' <= c && c <= '9'
}

fn hex(c: char) -> (b: bool)
    ensures
        b == is_hex(c),
{
    digit(c) || 'a' <= c && c <= 'f' || 'A' <= c && c <= 'F'
}

fn find_escape_end(s: &Vec<char>, at: usize) -> (end: Option<usize>)
    requires
        at < s@.len(),
    ensures
        index(end) == escape_end(s@, at as int),
        end matches Some(e) ==> at < e <= s@.len(),
{
    let left: usize = s.len() - at;
    if left > 1 {
        let c: char = s[at + 1];
        if c == '"' || c == '\\' || c == '/' || c == 'b' || c == 'f' || c == 'n' || c == 'r' || c
            == 't' {
            return Some(at + 2);
        }
    }
    if left > 5 && s[at + 1] == 'u' && hex(s[at + 2]) && hex(s[at + 3]) && hex(s[at + 4]) && hex(
        s[at + 5],
    ) {
        return Some(at + 6);
    }
    None
}

fn find_string_end(s: &Vec<char>, at: usize) -> (end: Option<usize>)
    requires
        at <= s@.len(),
    ensures
        index(end) == string_end(s@, at as int),
        end matches Some(e) ==> at + 1 < e <= s@.len(),
{
    if at == s.len() || s[at] != '"' {
        return None;
    }
    let mut i: usize = at + 1;
    while i < s.len()
        invariant
            at < i <= s@.len(),
            string_end(s@, at as int) == chars_end(s@, i as int),
        decreases s@.len() - i,
    {
        if control(s[i]) {
            return None;
        } else if s[i] == '"' {
            return Some(i + 1);
        } else if s[i] == '\\' {
            match find_escape_end(s, i) {
                Some(next) => {
                    i = next;
                },
                None => {
                    return None;
                },
            }
        } else {
            i = i + 1;
        }
    }
    None
}

fn find_digits_end(s: &Vec<char>, at: usize) -> (end: Option<usize>)
    requires
        at <= s@.len(),
    ensures
        index(end) == some_digits_end(s@, at as int),
        end matches Some(e) ==> at < e <= s@.len(),
{
    let mut i: usize = at;
    while i < s.len() && digit(s[i])
        invariant
            at <= i <= s@.len(),
            digits_end(s@, at as int) == digits_end(s@, i as int),
        decreases s@.len() - i,
    {
        i = i + 1;
    }
    if i > at {
        Some(i)
    } else {
        None
    }
}

fn find_exponent_end(s: &Vec<char>, at: usize) -> (end: Option<usize>)
    requires
        at <= s@.len(),
    ensures
        index(end) == exponent_end(s@, at as int),
        end matches Some(e) ==> at <= e <= s@.len(),
{
    if at == s.len() || s[at] != 'e' && s[at] != 'E' {
        return Some(at);
    }
    if s.len() - at > 1 && (s[at + 1] == '+' || s[at + 1] == '-') {
        find_digits_end(s, at + 2)
    } else {
        find_digits_end(s, at + 1)
    }
}

fn find_number_end(s: &Vec<char>, at: usize) -> (end: Option<usize>)
    requires
        at <= s@.len(),
    ensures
        index(end) == number_end(s@, at as int),
        end matches Some(e) ==> at < e <= s@.len(),
{
    let n: usize = s.len();
    let unsigned: usize = if at < n && s[at] == '-' {
        at + 1
    } else {
        at
    };
    let integer: Option<usize> = if unsigned < n && s[unsigned] == '0' {
        Some(unsigned + 1)
    } else {
        find_digits_end(s, unsigned)
    };
    let point: usize = match integer {
        Some(i) => i,
        None => {
            return None;
        },
    };
    let fraction: Option<usize> = if point < n && s[point] == '.' {
        find_digits_end(s, point + 1)
    } else {
        Some(point)
    };
    match fraction {
        Some(exponent) => find_exponent_end(s, exponent),
        None => None,
    }
}

fn find_value_end(s: &Vec<char>, at: usize) -> (end: Option<usize>)
    requires
        at <= s@.len(),
    ensures
        index(end) == value_end(s@, at as int),
        end matches Some(e) ==> at < e <= s@.len(),
{
    if at < s.len() && s[at] == '"' {
        find_string_end(s, at)
    } else if occurs_in_at(s, &vec!['t', 'r', 'u', 'e'], at) || occurs_in_at(
        s,
        &vec!['n', 'u', 'l', 'l'],
        at,
    ) {
        Some(at + 4)
    } else if occurs_in_at(s, &vec!['f', 'a', 'l', 's', 'e'], at) {
        Some(at + 5)
    } else {
        find_number_end(s, at)
    }
}

/// A [`Member`] of a text: its key is `key_from..key_to`.
struct Span {
    key_from: usize,
    key_to: usize,
    value_at: usize,
}

/// The member that `span` stands for.
spec fn member(s: Seq<char>, span: Span) -> Member {
    Member {
        key: s.subrange(span.key_from as int, span.key_to as int),
        value_at: span.value_at as int,
    }
}

spec fn fits(s: Seq<char>, span: Span) -> bool {
    span.key_from <= span.key_to <= s.len() && span.value_at <= s.len()
}

spec fn all_fit(s: Seq<char>, spans: Seq<Span>) -> bool {
    forall|i: int| 0 <= i < spans.len() ==> fits(s, #[trigger] spans[i])
}

spec fn all_members(s: Seq<char>, spans: Seq<Span>) -> Seq<Member> {
    spans.map_values(|span: Span| member(s, span))
}

/// The members behind those of `spans`, put behind them.
spec fn joined(s: Seq<char>, spans: Seq<Span>, rest: Option<Seq<Member>>) -> Option<Seq<Member>> {
    match rest {
        Some(rest) => Some(all_members(s, spans) + rest),
        None => None,
    }
}

fn find_members(s: &Vec<char>, from: usize) -> (spans: Option<Vec<Span>>)
    requires
        from <= s@.len(),
    ensures
        spans is Some <==> members(s@, from as int) is Some,
        spans matches Some(v) ==> {
            &&& members(s@, from as int) == Some(all_members(s@, v@))
            &&& all_fit(s@, v@)
        },
{
    let n: usize = s.len();
    let mut spans: Vec<Span> = Vec::new();
    let mut at: usize = from;
    proof {
        if let Some(rest) = members(s@, from as int) {
            assert(all_members(s@, spans@) + rest =~= rest);
        }
    }
    loop
        invariant
            n == s@.len(),
            from <= at <= n,
            from <= s@.len(),
            all_fit(s@, spans@),
            members(s@, from as int) == joined(s@, spans@, members(s@, at as int)),
        decreases n - at,
    {
        let key: usize = skip_space_in(s, at);
        let key_end: usize = match find_string_end(s, key) {
            Some(end) => end,
            None => {
                return None;
            },
        };
        let colon: usize = skip_space_in(s, key_end);
        if colon == n || s[colon] != ':' {
            return None;
        }
        let value: usize = skip_space_in(s, colon + 1);
        let end: usize = match find_value_end(s, value) {
            Some(end) => end,
            None => {
                return None;
            },
        };
        let next: usize = skip_space_in(s, end);
        let span = Span { key_from: key + 1, key_to: key_end - 1, value_at: colon + 1 };
        let ghost before = all_members(s@, spans@);
        let ghost m = member(s@, span);
        spans.push(span);
        assert(all_members(s@, spans@) =~= before.push(m));
        if next < n && s[next] == ',' {
            at = next + 1;
            proof {
                if let Some(rest) = members(s@, at as int) {
                    assert(before + (seq![m] + rest) =~= before.push(m) + rest);
                }
            }
        } else if next < n && s[next] == '}' && skip_space_in(s, next + 1) == n {
            assert(before + seq![m] =~= before.push(m));
            return Some(spans);
        } else {
            return None;
        }
    }
}

fn find_flat_object(s: &Vec<char>) -> (spans: Option<Vec<Span>>)
    ensures
        spans is Some <==> flat_object(s@) is Some,
        spans matches Some(v) ==> {
            &&& flat_object(s@) == Some(all_members(s@, v@))
            &&& all_fit(s@, v@)
        },
{
    let n: usize = s.len();
    let open: usize = skip_space_in(s, 0);
    if open == n || s[open] != '{' {
        return None;
    }
    let first: usize = skip_space_in(s, open + 1);
    if first < n && s[first] == '}' && skip_space_in(s, first + 1) == n {
        let spans: Vec<Span> = Vec::new();
        assert(all_members(s@, spans@) =~= seq![]);
        return Some(spans);
    }
    find_members(s, open + 1)
}

/// What a look into a flat object finds.
pub enum Lookup {
    /// The text is not a flat object.
    NotFlat,
    /// The object has no member with the key.
    Missing,
    /// Index behind the colon of the first member with the key.
    Found(usize),
}

/// Look for the member with this key.
pub fn look_up(s: &Vec<char>, key: &Vec<char>) -> (result: Lookup)
    ensures
        match flat_object(s@) {
            None => result is NotFlat,
            Some(members) => match value_of(members, key@) {
                None => result is Missing,
                Some(at) => result matches Lookup::Found(i) && i == at && i <= s@.len(),
            },
        },
{
    let spans: Vec<Span> = match find_flat_object(s) {
        Some(spans) => spans,
        None => {
            return Lookup::NotFlat;
        },
    };
    let ghost all = all_members(s@, spans@);
    let mut i: usize = 0;
    assert(all.skip(0) =~= all);
    while i < spans.len()
        invariant
            i <= spans@.len(),
            all == all_members(s@, spans@),
            all_fit(s@, spans@),
            flat_object(s@) == Some(all),
            value_of(all, key@) == value_of(all.skip(i as int), key@),
        decreases spans@.len() - i,
    {
        assert(fits(s@, spans@[i as int]));
        assert(all.skip(i as int)[0] == member(s@, spans@[i as int]));
        assert(all.skip(i as int).drop_first() =~= all.skip(i + 1));
        let length: usize = spans[i].key_to - spans[i].key_from;
        if length == key.len() && occurs_in_at(s, key, spans[i].key_from) {
            return Lookup::Found(spans[i].value_at);
        }
        i = i + 1;
    }
    Lookup::Missing
}

// ── Laws ─────────────────────────────────────────────────────────────────────

/// `text` in quotes.
pub open spec fn quoted(text: Seq<char>) -> Seq<char> {
    seq!['"'] + text + seq!['"']
}

/// Text that stands in a string as it is.
pub open spec fn is_plain(text: Seq<char>) -> bool {
    forall|i: int|
        0 <= i < text.len() ==> !is_control(text[i]) && text[i] != '"' && #[trigger] text[i] != '\\'
}

/// A key and a value as a member.
pub open spec fn member_text(field: (Seq<char>, Seq<char>)) -> Seq<char> {
    quoted(field.0) + seq![':'] + quoted(field.1)
}

/// Keys and values as the members of an object.
pub open spec fn members_text(fields: Seq<(Seq<char>, Seq<char>)>) -> Seq<char>
    decreases fields.len(),
{
    if fields.len() == 0 {
        seq![]
    } else if fields.len() == 1 {
        member_text(fields[0])
    } else {
        member_text(fields[0]) + seq![','] + members_text(fields.drop_first())
    }
}

/// Keys and values as an object.
pub open spec fn object_text(fields: Seq<(Seq<char>, Seq<char>)>) -> Seq<char> {
    seq!['{'] + members_text(fields) + seq!['}']
}

/// A plain text in quotes is a string.
proof fn lemma_plain_string(s: Seq<char>, at: int, text: Seq<char>)
    requires
        is_plain(text),
        occurs_at(s, quoted(text), at),
    ensures
        string_end(s, at) == Some(at + text.len() + 2),
        s.subrange(at + 1, at + 1 + text.len()) == text,
{
    let q = quoted(text);
    assert(s.subrange(at, at + q.len()) == q);
    assert forall|k: int| 0 <= k < q.len() implies s[at + k] == #[trigger] q[k] by {
        assert(s.subrange(at, at + q.len())[k] == q[k]);
    }
    assert(s[at] == q[0]);
    assert(s[at + text.len() + 1] == q[text.len() as int + 1]);
    assert forall|k: int| 0 <= k < text.len() implies s[at + 1 + k] == #[trigger] text[k] by {
        assert(s[at + (k + 1)] == q[k + 1]);
    }
    assert(s.subrange(at + 1, at + 1 + text.len()) =~= text);
    lemma_plain_chars(s, at + 1, text, 0);
}

proof fn lemma_plain_chars(s: Seq<char>, at: int, text: Seq<char>, k: int)
    requires
        is_plain(text),
        0 <= k <= text.len(),
        0 <= at < s.len() - text.len(),
        forall|j: int| 0 <= j < text.len() ==> s[at + j] == #[trigger] text[j],
        s[at + text.len()] == '"',
    ensures
        chars_end(s, at + k) == Some(at + text.len() + 1),
    decreases text.len() - k,
{
    if k < text.len() {
        assert(s[at + k] == text[k]);
        assert(!is_control(text[k]) && text[k] != '"' && text[k] != '\\');
        lemma_plain_chars(s, at, text, k + 1);
    }
}

/// Is `fields` what the members `ms` of `s` hold?
pub open spec fn holds(s: Seq<char>, ms: Seq<Member>, fields: Seq<(Seq<char>, Seq<char>)>) -> bool {
    &&& ms.len() == fields.len()
    &&& forall|i: int|
        0 <= i < ms.len() ==> {
            &&& (#[trigger] ms[i]).key == fields[i].0
            &&& occurs_at(s, quoted(fields[i].1), ms[i].value_at)
        }
}

proof fn lemma_members_text(s: Seq<char>, from: int, fields: Seq<(Seq<char>, Seq<char>)>)
    requires
        0 <= from <= s.len(),
        fields.len() > 0,
        forall|i: int| 0 <= i < fields.len() ==> is_plain((#[trigger] fields[i]).0),
        forall|i: int| 0 <= i < fields.len() ==> is_plain((#[trigger] fields[i]).1),
        s.skip(from) == members_text(fields) + seq!['}'],
    ensures
        members(s, from) is Some,
        holds(s, members(s, from)->0, fields),
    decreases fields.len(),
{
    let f = fields[0];
    let rest = fields.drop_first();
    let tail = if fields.len() == 1 {
        seq!['}']
    } else {
        seq![','] + members_text(rest) + seq!['}']
    };
    let text = quoted(f.0) + seq![':'] + quoted(f.1) + tail;
    assert(s.skip(from) =~= text);
    assert forall|k: int| 0 <= k < text.len() implies s[from + k] == #[trigger] text[k] by {
        assert(s.skip(from)[k] == text[k]);
    }
    let colon = from + quoted(f.0).len();
    let value = colon + 1;
    let end = value + quoted(f.1).len();
    assert(s.subrange(from, colon) =~= quoted(f.0)) by {
        assert forall|k: int| 0 <= k < quoted(f.0).len() implies s[from + k] == quoted(f.0)[k] by {
            assert(text[k] == quoted(f.0)[k]);
        }
    }
    assert(s.subrange(value, end) =~= quoted(f.1)) by {
        assert forall|k: int| 0 <= k < quoted(f.1).len() implies s[value + k] == quoted(f.1)[k] by {
            assert(text[value - from + k] == quoted(f.1)[k]);
        }
    }
    assert(s[from] == quoted(f.0)[0]) by {
        assert(text[0] == quoted(f.0)[0]);
    }
    assert(s[colon] == ':') by {
        assert(text[colon - from] == ':');
    }
    assert(s[value] == quoted(f.1)[0]) by {
        assert(text[value - from] == quoted(f.1)[0]);
    }
    assert(s[end] == tail[0]) by {
        assert(text[end - from] == tail[0]);
    }
    lemma_plain_string(s, from, f.0);
    lemma_plain_string(s, value, f.1);
    assert(skip_space(s, from) == from);
    assert(skip_space(s, colon) == colon);
    assert(skip_space(s, value) == value);
    assert(skip_space(s, end) == end);
    assert(value_end(s, value) == Some(end));
    let m = Member { key: f.0, value_at: value };
    if fields.len() == 1 {
        assert(s.len() == end + 1) by {
            assert(s.skip(from).len() == text.len());
        }
        assert(skip_space(s, end + 1) == s.len());
        assert(members(s, from) == Some(seq![m]));
    } else {
        assert(s.skip(end + 1) =~= members_text(rest) + seq!['}']) by {
            assert forall|k: int| 0 <= k < s.len() - end - 1 implies s[end + 1 + k]
                == (members_text(rest) + seq!['}'])[k] by {
                assert(text[end + 1 + k - from] == tail[k + 1]);
            }
        }
        assert forall|i: int| 0 <= i < rest.len() implies is_plain((#[trigger] rest[i]).0)
            && is_plain(rest[i].1) by {
            assert(rest[i] == fields[i + 1]);
        }
        lemma_members_text(s, end + 1, rest);
        let ms = members(s, end + 1)->0;
        assert(members(s, from) == Some(seq![m] + ms));
        assert forall|i: int| 0 <= i < ms.len() + 1 implies {
            &&& (#[trigger] (seq![m] + ms)[i]).key == fields[i].0
            &&& occurs_at(s, quoted(fields[i].1), (seq![m] + ms)[i].value_at)
        } by {
            if i > 0 {
                assert((seq![m] + ms)[i] == ms[i - 1]);
                assert(rest[i - 1] == fields[i]);
            }
        }
    }
}

/// An object that is written from plain keys and values is a flat object, with
/// those keys and values in their order.
pub proof fn law_object_is_flat(fields: Seq<(Seq<char>, Seq<char>)>)
    requires
        forall|i: int| 0 <= i < fields.len() ==> is_plain((#[trigger] fields[i]).0),
        forall|i: int| 0 <= i < fields.len() ==> is_plain((#[trigger] fields[i]).1),
    ensures
        flat_object(object_text(fields)) is Some,
        holds(object_text(fields), flat_object(object_text(fields))->0, fields),
{
    let s = object_text(fields);
    assert(s[0] == '{');
    assert(skip_space(s, 0) == 0);
    if fields.len() == 0 {
        assert(s =~= seq!['{', '}']);
        assert(skip_space(s, 1) == 1);
        assert(skip_space(s, 2) == 2);
    } else {
        assert(s.skip(1) =~= members_text(fields) + seq!['}']);
        assert(s[1] == '"') by {
            assert(s.skip(1)[0] == members_text(fields)[0]);
            assert(members_text(fields)[0] == quoted(fields[0].0)[0]);
        }
        assert(skip_space(s, 1) == 1);
        lemma_members_text(s, 1, fields);
    }
}

proof fn lemma_only_space(s: Seq<char>, from: int, k: int)
    requires
        0 <= from <= k < skip_space(s, from),
    ensures
        k < s.len(),
        is_space(s[k]),
    decreases s.len() - from,
{
    if from < k {
        lemma_only_space(s, from + 1, k);
    }
}

proof fn lemma_ends_in_quote(s: Seq<char>, from: int)
    requires
        0 <= from,
    ensures
        chars_end(s, from) matches Some(end) ==> s[end - 1] == '"',
    decreases s.len() - from,
{
    if from < s.len() && !is_control(s[from]) && s[from] != '"' {
        if s[from] == '\\' {
            if let Some(next) = escape_end(s, from) {
                lemma_ends_in_quote(s, next);
            }
        } else {
            lemma_ends_in_quote(s, from + 1);
        }
    }
}

/// The key of `m` stands in quotes at `at`, and nothing but spaces and a colon
/// between it and the value.
pub open spec fn stands_at(s: Seq<char>, m: Member, at: int) -> bool {
    let end = at + m.key.len() + 2;
    &&& 0 <= at
    &&& occurs_at(s, quoted(m.key), at)
    &&& end < m.value_at <= s.len()
    &&& s[m.value_at - 1] == ':'
    &&& forall|k: int|
        end <= k < m.value_at - 1 ==> (s[k] == ' ' || s[k] == '\t' || s[k] == '\n' || s[k]
            == '\r')
}

proof fn lemma_members_stand(s: Seq<char>, from: int, i: int)
    requires
        0 <= from <= s.len(),
        members(s, from) is Some,
        0 <= i < members(s, from)->0.len(),
    ensures
        exists|at: int| #[trigger] stands_at(s, members(s, from)->0[i], at),
    decreases s.len() - from,
{
    let key = skip_space(s, from);
    let key_end = string_end(s, key)->0;
    let colon = skip_space(s, key_end);
    let value = skip_space(s, colon + 1);
    let end = value_end(s, value)->0;
    let next = skip_space(s, end);
    lemma_skip_space(s, from);
    lemma_chars_end(s, key + 1);
    lemma_ends_in_quote(s, key + 1);
    lemma_skip_space(s, key_end);
    lemma_skip_space(s, colon + 1);
    lemma_value_end(s, value);
    lemma_skip_space(s, end);
    let m = Member { key: s.subrange(key + 1, key_end - 1), value_at: colon + 1 };
    assert(members(s, from)->0[0] == m);
    if i == 0 {
        assert(s.subrange(key, key_end) =~= quoted(m.key));
        assert forall|k: int| key_end <= k < colon implies (s[k] == ' ' || s[k] == '\t' || s[k]
            == '\n' || s[k] == '\r') by {
            lemma_only_space(s, key_end, k);
        }
        assert(stands_at(s, m, key));
    } else {
        lemma_members_stand(s, next + 1, i - 1);
        assert(members(s, from)->0[i] == members(s, next + 1)->0[i - 1]);
    }
}

/// What is taken for a member is one: its key stands in the text, in quotes, and a
/// colon follows it.
pub proof fn law_members_stand_in_the_text(s: Seq<char>, i: int)
    requires
        flat_object(s) is Some,
        0 <= i < flat_object(s)->0.len(),
    ensures
        exists|at: int| #[trigger] stands_at(s, flat_object(s)->0[i], at),
{
    lemma_skip_space(s, 0);
    lemma_members_stand(s, skip_space(s, 0) + 1, i);
}

proof fn lemma_digit_code(c: char)
    ensures
        is_digit(c) <==> 48 <= c as u32 <= 57,
{
}

proof fn lemma_digits_to(s: Seq<char>, from: int, end: int)
    requires
        0 <= from <= end <= s.len(),
        forall|k: int| from <= k < end ==> is_digit(#[trigger] s[k]),
        end < s.len() ==> !is_digit(s[end]),
    ensures
        digits_end(s, from) == end,
    decreases end - from,
{
    if from < end {
        assert(is_digit(s[from]));
        lemma_digits_to(s, from + 1, end);
    }
}

/// Whole numbers are values, up to where they end.
pub proof fn law_numbers_are_values(s: Seq<char>, at: int, n: i32)
    requires
        occurs_at(s, decimal(n as int), at),
        ({
            let end = at + decimal(n as int).len();
            end < s.len() ==> !(48 <= s[end] as u32 <= 57) && s[end] != '.' && s[end] != 'e'
                && s[end] != 'E'
        }),
    ensures
        value_end(s, at) == Some(at + decimal(n as int).len()),
{
    let d = decimal(n as int);
    let end = at + d.len();
    law_numbers_are_written_short(n);
    assert forall|k: int| 0 <= k < d.len() implies s[at + k] == #[trigger] d[k] by {
        assert(s.subrange(at, end)[k] == d[k]);
    }
    let from = if n < 0 {
        at + 1
    } else {
        at
    };
    assert forall|k: int| from <= k < end implies is_digit(#[trigger] s[k]) by {
        assert(s[at + (k - at)] == d[k - at]);
        lemma_digit_code(d[k - at]);
    }
    assert(s[at] == d[0]);
    assert(s[from] == d[from - at]) by {
        assert(s[at + (from - at)] == d[from - at]);
    }
    if end < s.len() {
        lemma_digit_code(s[end]);
    }
    assert(is_digit(s[from]));
    lemma_digits_to(s, from, end);
    assert(s[at] != '"' && s[at] != 't' && s[at] != 'n' && s[at] != 'f');
    lemma_no_word(s, at);
    if n == 0 {
        assert(d.len() == 1);
    }
}

proof fn lemma_no_word(s: Seq<char>, at: int)
    requires
        0 <= at < s.len(),
        s[at] != 't' && s[at] != 'n' && s[at] != 'f',
    ensures
        !occurs_at(s, seq!['t', 'r', 'u', 'e'], at),
        !occurs_at(s, seq!['n', 'u', 'l', 'l'], at),
        !occurs_at(s, seq!['f', 'a', 'l', 's', 'e'], at),
{
    if occurs_at(s, seq!['t', 'r', 'u', 'e'], at) {
        assert(s.subrange(at, at + 4)[0] == 't');
    }
    if occurs_at(s, seq!['n', 'u', 'l', 'l'], at) {
        assert(s.subrange(at, at + 4)[0] == 'n');
    }
    if occurs_at(s, seq!['f', 'a', 'l', 's', 'e'], at) {
        assert(s.subrange(at, at + 5)[0] == 'f');
    }
}

/// So are the three words.
pub proof fn law_words_are_values(s: Seq<char>, at: int)
    ensures
        occurs_at(s, "true"@, at) ==> value_end(s, at) == Some(at + 4),
        occurs_at(s, "null"@, at) ==> value_end(s, at) == Some(at + 4),
        occurs_at(s, "false"@, at) ==> value_end(s, at) == Some(at + 5),
{
    reveal_strlit("true");
    reveal_strlit("null");
    reveal_strlit("false");
    assert("true"@ =~= seq!['t', 'r', 'u', 'e']);
    assert("null"@ =~= seq!['n', 'u', 'l', 'l']);
    assert("false"@ =~= seq!['f', 'a', 'l', 's', 'e']);
    if occurs_at(s, "true"@, at) {
        assert(s.subrange(at, at + 4)[0] == 't');
    }
    if occurs_at(s, "null"@, at) {
        assert(s.subrange(at, at + 4)[0] == 'n');
    }
    if occurs_at(s, "false"@, at) {
        assert(s.subrange(at, at + 5)[0] == 'f');
        if occurs_at(s, "true"@, at) {
            assert(s.subrange(at, at + 4)[0] == 't');
        }
        if occurs_at(s, "null"@, at) {
            assert(s.subrange(at, at + 4)[0] == 'n');
        }
    }
}

/// Spaces, tabs and line ends between tokens are skipped, and nothing else is.
pub proof fn law_space_is_skipped(s: Seq<char>, from: int)
    requires
        0 <= from <= s.len(),
    ensures
        ({
            let to = skip_space(s, from);
            &&& from <= to <= s.len()
            &&& forall|k: int|
                from <= k < to ==> s[k] == ' ' || s[k] == '\t' || s[k] == '\n' || s[k] == '\r'
            &&& to < s.len() ==> s[to] != ' ' && s[to] != '\t' && s[to] != '\n' && s[to] != '\r'
        }),
    decreases s.len() - from,
{
    if from < s.len() && is_space(s[from]) {
        law_space_is_skipped(s, from + 1);
    }
}

} // verus!
