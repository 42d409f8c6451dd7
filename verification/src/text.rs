//! Small text routines on characters.

use vstd::prelude::*;
use vstd::utf8::{decode_utf8, valid_utf8};

verus! {

// ── Trusted: std ─────────────────────────────────────────────────────────────

/// `String::push` appends the given character to the end of the string.
pub assume_specification[ String::push ](s: &mut String, c: char)
    ensures
        final(s)@ == old(s)@.push(c),
;

/// The error of `core::str::from_utf8`, of which nothing is read.
#[verifier::external_type_specification]
#[verifier::external_body]
pub struct ExUtf8Error(core::str::Utf8Error);

/// `core::str::from_utf8` succeeds if and only if the bytes are valid UTF-8, and
/// then gives the text that they encode.
pub assume_specification[ core::str::from_utf8 ](v: &[u8]) -> (res: Result<
    &str,
    core::str::Utf8Error,
>)
    ensures
        res is Ok <==> valid_utf8(v@),
        res matches Ok(s) ==> s@ == decode_utf8(v@),
;

// ── Text and bytes ───────────────────────────────────────────────────────────

/// The text that `bytes` encode, if they are valid UTF-8.
pub open spec fn text(bytes: Seq<u8>) -> Option<Seq<char>> {
    if valid_utf8(bytes) {
        Some(decode_utf8(bytes))
    } else {
        None
    }
}

pub fn text_of(bytes: &[u8]) -> (s: Option<&str>)
    ensures
        s is Some <==> text(bytes@) is Some,
        s matches Some(s) ==> text(bytes@) == Some(s@),
{
    match core::str::from_utf8(bytes) {
        Ok(s) => Some(s),
        Err(_) => None,
    }
}

pub fn chars_of(s: &str) -> (chars: Vec<char>)
    ensures
        chars@ == s@,
{
    let mut chars: Vec<char> = Vec::new();
    for c in it: s.chars()
        invariant
            chars@ == it.seq().take(it.index() as int),
            it.seq() == s@,
    {
        chars.push(c);
    }
    chars
}

/// `chars[from..to]` as a string.
pub fn string_of(chars: &Vec<char>, from: usize, to: usize) -> (s: String)
    requires
        from <= to <= chars@.len(),
    ensures
        s@ == chars@.subrange(from as int, to as int),
{
    let mut s = String::new();
    let mut i: usize = from;
    while i < to
        invariant
            from <= i <= to <= chars@.len(),
            s@ == chars@.subrange(from as int, i as int),
        decreases to - i,
    {
        s.push(chars[i]);
        i = i + 1;
    }
    s
}

pub fn same(a: &str, b: &str) -> (equal: bool)
    ensures
        equal == (a@ == b@),
{
    let a: String = a.to_owned();
    let b: String = b.to_owned();
    a == b
}

// ── Searching ────────────────────────────────────────────────────────────────

/// First index of `c` in `s` at or after `from`, or the length if there is none.
pub open spec fn find_char(s: Seq<char>, c: char, from: int) -> int
    decreases s.len() - from,
{
    if from >= s.len() {
        s.len() as int
    } else if s[from] == c {
        from
    } else {
        find_char(s, c, from + 1)
    }
}

pub fn find_char_in(s: &Vec<char>, c: char, from: usize) -> (i: usize)
    requires
        from <= s@.len(),
    ensures
        i == find_char(s@, c, from as int),
        from <= i <= s@.len(),
        forall|k: int| from <= k < i ==> s@[k] != c,
        i < s@.len() ==> s@[i as int] == c,
{
    let mut i: usize = from;
    while i < s.len() && s[i] != c
        invariant
            from <= i <= s@.len(),
            find_char(s@, c, from as int) == find_char(s@, c, i as int),
            forall|k: int| from <= k < i ==> s@[k] != c,
        decreases s@.len() - i,
    {
        i = i + 1;
    }
    i
}

/// `find_char` is the first occurrence.
pub proof fn lemma_find_char(s: Seq<char>, c: char, from: int, at: int)
    requires
        0 <= from <= at <= s.len(),
        forall|k: int| from <= k < at ==> s[k] != c,
        at < s.len() ==> s[at] == c,
    ensures
        find_char(s, c, from) == at,
    decreases at - from,
{
    if from < at {
        lemma_find_char(s, c, from + 1, at);
    }
}

pub open spec fn occurs_at(s: Seq<char>, pattern: Seq<char>, at: int) -> bool {
    &&& 0 <= at <= s.len() - pattern.len()
    &&& s.subrange(at, at + pattern.len()) == pattern
}

/// First index at or after `from` at which `pattern` occurs in `s`.
pub open spec fn find_text(s: Seq<char>, pattern: Seq<char>, from: int) -> Option<int>
    decreases s.len() + 1 - from,
{
    if from > s.len() - pattern.len() {
        None
    } else if occurs_at(s, pattern, from) {
        Some(from)
    } else {
        find_text(s, pattern, from + 1)
    }
}

pub fn occurs_in_at(s: &Vec<char>, pattern: &Vec<char>, at: usize) -> (b: bool)
    ensures
        b == occurs_at(s@, pattern@, at as int),
{
    if s.len() < pattern.len() || at > s.len() - pattern.len() {
        return false;
    }
    let mut k: usize = 0;
    while k < pattern.len()
        invariant
            k <= pattern@.len(),
            at + pattern@.len() <= s@.len() <= usize::MAX,
            forall|j: int| 0 <= j < k ==> s@[at + j] == pattern@[j],
        decreases pattern@.len() - k,
    {
        if s[at + k] != pattern[k] {
            assert(s@.subrange(at as int, at + pattern@.len())[k as int] != pattern@[k as int]);
            return false;
        }
        k = k + 1;
    }
    assert(s@.subrange(at as int, at + pattern@.len()) =~= pattern@);
    true
}

pub fn find_text_in(s: &Vec<char>, pattern: &Vec<char>) -> (i: Option<usize>)
    ensures
        i is Some <==> find_text(s@, pattern@, 0) is Some,
        i matches Some(i) ==> {
            &&& find_text(s@, pattern@, 0) == Some(i as int)
            &&& occurs_at(s@, pattern@, i as int)
        },
{
    if s.len() < pattern.len() {
        return None;
    }
    let last: usize = s.len() - pattern.len();
    let mut i: usize = 0;
    while i <= last
        invariant
            last + pattern@.len() == s@.len(),
            i <= last + 1,
            find_text(s@, pattern@, 0) == find_text(s@, pattern@, i as int),
        decreases last + 1 - i,
    {
        if occurs_in_at(s, pattern, i) {
            return Some(i);
        }
        if i == last {
            assert(find_text(s@, pattern@, i + 1) is None);
            return None;
        }
        i = i + 1;
    }
    None
}

// ── White space ──────────────────────────────────────────────────────────────

/// The characters with the Unicode property White_Space.
pub open spec fn is_blank(c: char) -> bool {
    let code = c as u32;
    ||| 0x09 <= code <= 0x0d
    ||| code == 0x20
    ||| code == 0x85
    ||| code == 0xa0
    ||| code == 0x1680
    ||| 0x2000 <= code <= 0x200a
    ||| code == 0x2028
    ||| code == 0x2029
    ||| code == 0x202f
    ||| code == 0x205f
    ||| code == 0x3000
}

pub fn blank(c: char) -> (b: bool)
    ensures
        b == is_blank(c),
{
    let code: u32 = c as u32;
    0x09 <= code && code <= 0x0d || code == 0x20 || code == 0x85 || code == 0xa0 || code == 0x1680
        || 0x2000 <= code && code <= 0x200a || code == 0x2028 || code == 0x2029 || code == 0x202f
        || code == 0x205f || code == 0x3000
}

/// `s` without leading white space.
pub open spec fn trim_start(s: Seq<char>) -> Seq<char>
    decreases s.len(),
{
    if s.len() > 0 && is_blank(s[0]) {
        trim_start(s.drop_first())
    } else {
        s
    }
}

/// `s` without trailing white space.
pub open spec fn trim_end(s: Seq<char>) -> Seq<char>
    decreases s.len(),
{
    if s.len() > 0 && is_blank(s.last()) {
        trim_end(s.drop_last())
    } else {
        s
    }
}

/// `s` without leading and trailing white space.
pub open spec fn trim(s: Seq<char>) -> Seq<char> {
    trim_end(trim_start(s))
}

/// First index at or after `from` that holds no white space, or the length.
pub fn skip_blanks(s: &Vec<char>, from: usize) -> (i: usize)
    requires
        from <= s@.len(),
    ensures
        from <= i <= s@.len(),
        trim_start(s@.skip(from as int)) == s@.skip(i as int),
{
    let mut i: usize = from;
    while i < s.len() && blank(s[i])
        invariant
            from <= i <= s@.len(),
            trim_start(s@.skip(from as int)) == trim_start(s@.skip(i as int)),
        decreases s@.len() - i,
    {
        assert(s@.skip(i as int).drop_first() =~= s@.skip(i + 1));
        i = i + 1;
    }
    i
}

pub fn trimmed(s: &str) -> (t: String)
    ensures
        t@ == trim(s@),
{
    let chars: Vec<char> = chars_of(s);
    assert(chars@.skip(0) =~= s@);
    let from: usize = skip_blanks(&chars, 0);
    let mut to: usize = chars.len();
    assert(chars@.subrange(from as int, to as int) =~= chars@.skip(from as int));
    while to > from && blank(chars[to - 1])
        invariant
            from <= to <= chars@.len(),
            trim(s@) == trim_end(chars@.subrange(from as int, to as int)),
        decreases to - from,
    {
        assert(chars@.subrange(from as int, to as int).drop_last() =~= chars@.subrange(
            from as int,
            to - 1,
        ));
        to = to - 1;
    }
    string_of(&chars, from, to)
}

// ── Laws ─────────────────────────────────────────────────────────────────────

proof fn lemma_trim_start(s: Seq<char>)
    ensures
        trim_start(s).len() > 0 ==> !is_blank(trim_start(s)[0]),
        trim_start(s).len() == 0 <==> forall|i: int| 0 <= i < s.len() ==> is_blank(#[trigger] s[i]),
    decreases s.len(),
{
    if s.len() > 0 && is_blank(s[0]) {
        let rest = s.drop_first();
        lemma_trim_start(rest);
        if trim_start(s).len() == 0 {
            assert forall|i: int| 0 <= i < s.len() implies is_blank(#[trigger] s[i]) by {
                if i > 0 {
                    assert(rest[i - 1] == s[i]);
                }
            }
        } else {
            assert(exists|i: int| 0 <= i < rest.len() && !is_blank(#[trigger] rest[i]));
            let i = choose|i: int| 0 <= i < rest.len() && !is_blank(#[trigger] rest[i]);
            assert(!is_blank(s[i + 1]));
        }
    }
}

proof fn lemma_trim_end(s: Seq<char>)
    requires
        s.len() > 0,
        !is_blank(s[0]),
    ensures
        trim_end(s).len() > 0,
        trim_end(s)[0] == s[0],
        !is_blank(trim_end(s).last()),
    decreases s.len(),
{
    if is_blank(s.last()) {
        assert(s.len() > 1);
        lemma_trim_end(s.drop_last());
    }
}

/// Trimmed text neither begins nor ends with white space, and nothing is left
/// only of text that is all white space.
pub proof fn law_trimmed_text(s: Seq<char>)
    ensures
        trim(s).len() == 0 <==> forall|i: int| 0 <= i < s.len() ==> is_blank(#[trigger] s[i]),
        trim(s).len() > 0 ==> !is_blank(trim(s)[0]) && !is_blank(trim(s).last()),
{
    lemma_trim_start(s);
    if trim_start(s).len() > 0 {
        lemma_trim_end(trim_start(s));
    }
}

/// White space in front is taken off.
pub proof fn lemma_trim_start_of(before: Seq<char>, rest: Seq<char>)
    requires
        forall|i: int| 0 <= i < before.len() ==> is_blank(#[trigger] before[i]),
        rest.len() > 0,
        !is_blank(rest[0]),
    ensures
        trim_start(before + rest) == rest,
    decreases before.len(),
{
    if before.len() == 0 {
        assert(before + rest =~= rest);
    } else {
        let tail = before.drop_first();
        assert(is_blank(before[0]));
        assert((before + rest).drop_first() =~= tail + rest);
        assert forall|i: int| 0 <= i < tail.len() implies is_blank(#[trigger] tail[i]) by {
            assert(tail[i] == before[i + 1]);
        }
        lemma_trim_start_of(tail, rest);
    }
}

proof fn lemma_trim_end_of(rest: Seq<char>, after: Seq<char>)
    requires
        forall|i: int| 0 <= i < after.len() ==> is_blank(#[trigger] after[i]),
        rest.len() > 0,
        !is_blank(rest.last()),
    ensures
        trim_end(rest + after) == rest,
    decreases after.len(),
{
    if after.len() == 0 {
        assert(rest + after =~= rest);
    } else {
        let head = after.drop_last();
        assert(is_blank(after[after.len() - 1]));
        assert((rest + after).last() == after.last());
        assert((rest + after).drop_last() =~= rest + head);
        assert forall|i: int| 0 <= i < head.len() implies is_blank(#[trigger] head[i]) by {
            assert(head[i] == after[i]);
        }
        lemma_trim_end_of(rest, head);
    }
}

/// Trimming takes white space off both ends, all of it and nothing else: text
/// between white space is left as it is.
pub proof fn law_trim_takes_off_white_space(
    before: Seq<char>,
    kept: Seq<char>,
    after: Seq<char>,
)
    requires
        forall|i: int| 0 <= i < before.len() ==> is_blank(#[trigger] before[i]),
        forall|i: int| 0 <= i < after.len() ==> is_blank(#[trigger] after[i]),
        kept.len() > 0,
        !is_blank(kept[0]),
        !is_blank(kept.last()),
    ensures
        trim(before + kept + after) == kept,
        trim_start(before + kept + after) == kept + after,
{
    assert(before + kept + after =~= before + (kept + after));
    lemma_trim_start_of(before, kept + after);
    lemma_trim_end_of(kept, after);
}

/// Bytes are text if and only if they are valid UTF-8, and then the text that they
/// encode.
pub proof fn law_bytes_as_text(bytes: Seq<u8>)
    ensures
        valid_utf8(bytes) ==> text(bytes) == Some(decode_utf8(bytes)),
        !valid_utf8(bytes) ==> text(bytes) is None,
{
}

} // verus!
