//! URL-encoded form data.

use vstd::prelude::*;

use crate::text::{chars_of, find_char, find_char_in, lemma_find_char, same};

verus! {

// ── Percent-encoding ─────────────────────────────────────────────────────────

/// The value of a hexadecimal digit of either case.
pub open spec fn hex_value(c: char) -> Option<int> {
    let code = c as u32 as int;
    if 0x30 <= code <= 0x39 {
        Some(code - 0x30)
    } else if 0x41 <= code <= 0x46 {
        Some(code - 0x41 + 10)
    } else if 0x61 <= code <= 0x66 {
        Some(code - 0x61 + 10)
    } else {
        None
    }
}

/// The character that an escape with the digits `h1` and `h2` stands for. A plus
/// sign may take the place of the first digit.
pub open spec fn unescaped(h1: char, h2: char) -> Option<char> {
    match hex_value(h2) {
        Some(low) => if h1 == '+' {
            Some(low as char)
        } else {
            match hex_value(h1) {
                Some(high) => Some((high * 16 + low) as char),
                None => None,
            }
        },
        None => None,
    }
}

/// The character at `i`, or the digit zero past the end.
pub open spec fn or_zero(s: Seq<char>, i: int) -> char {
    if i < s.len() {
        s[i]
    } else {
        '0'
    }
}

/// `s` with `+` as a space and with escapes resolved to the characters of the
/// same number. Digits that an escape lacks at the end are zero; an escape that
/// is not a number stands for nothing.
pub open spec fn url_decoded(s: Seq<char>) -> Seq<char>
    decreases s.len(),
{
    if s.len() == 0 {
        seq![]
    } else if s[0] == '+' {
        seq![' '] + url_decoded(s.skip(1))
    } else if s[0] == '%' {
        let rest = if s.len() > 3 {
            url_decoded(s.skip(3))
        } else {
            seq![]
        };
        match unescaped(or_zero(s, 1), or_zero(s, 2)) {
            Some(c) => seq![c] + rest,
            None => rest,
        }
    } else {
        seq![s[0]] + url_decoded(s.skip(1))
    }
}

fn hex_digit(c: char) -> (d: Option<u8>)
    ensures
        d is Some <==> hex_value(c) is Some,
        d matches Some(d) ==> hex_value(c) == Some(d as int) && d < 16,
{
    let code: u32 = c as u32;
    if 0x30 <= code && code <= 0x39 {
        Some((code - 0x30) as u8)
    } else if 0x41 <= code && code <= 0x46 {
        Some((code - 0x41 + 10) as u8)
    } else if 0x61 <= code && code <= 0x66 {
        Some((code - 0x61 + 10) as u8)
    } else {
        None
    }
}

fn unescape(h1: char, h2: char) -> (c: Option<char>)
    ensures
        c == unescaped(h1, h2),
{
    match hex_digit(h2) {
        Some(low) => if h1 == '+' {
            Some(low as char)
        } else {
            match hex_digit(h1) {
                Some(high) => Some((high * 16 + low) as char),
                None => None,
            }
        },
        None => None,
    }
}

/// Decode the characters from `from` up to `to`.
fn decode(chars: &Vec<char>, from: usize, to: usize) -> (out: String)
    requires
        from <= to <= chars@.len(),
    ensures
        out@ == url_decoded(chars@.subrange(from as int, to as int)),
{
    let ghost s = chars@.subrange(from as int, to as int);
    let mut out = String::new();
    let mut i: usize = from;
    assert(s.skip(0) =~= s);
    while i < to
        invariant
            from <= i <= to <= chars@.len(),
            s == chars@.subrange(from as int, to as int),
            url_decoded(s) == out@ + url_decoded(s.skip(i - from)),
        decreases to - i,
    {
        let ghost left = s.skip(i - from);
        let c: char = chars[i];
        if c == '+' {
            out.push(' ');
            i = i + 1;
            assert(left.skip(1) =~= s.skip(i - from));
        } else if c == '%' {
            let h1: char = if to - i > 1 {
                chars[i + 1]
            } else {
                '0'
            };
            let h2: char = if to - i > 2 {
                chars[i + 2]
            } else {
                '0'
            };
            if let Some(c) = unescape(h1, h2) {
                out.push(c);
            }
            assert(h1 == or_zero(left, 1) && h2 == or_zero(left, 2));
            i = if to - i > 3 {
                i + 3
            } else {
                to
            };
            assert(left.len() > 3 ==> left.skip(3) =~= s.skip(i - from));
        } else {
            out.push(c);
            i = i + 1;
            assert(left.skip(1) =~= s.skip(i - from));
        }
        assert(url_decoded(s) =~= out@ + url_decoded(s.skip(i - from)));
    }
    out
}

pub fn url_decode(input: &str) -> (out: String)
    ensures
        out@ == url_decoded(input@),
{
    let chars: Vec<char> = chars_of(input);
    assert(chars@.subrange(0, chars@.len() as int) =~= input@);
    decode(&chars, 0, chars.len())
}

// ── Forms ────────────────────────────────────────────────────────────────────

/// The pieces of `s` between the separators `sep`.
pub open spec fn split(s: Seq<char>, sep: char) -> Seq<Seq<char>>
    decreases s.len(),
{
    let i = find_char(s, sep, 0);
    if 0 <= i < s.len() {
        seq![s.take(i)] + split(s.skip(i + 1), sep)
    } else {
        seq![s]
    }
}

/// A field's name and value: what stands before and after the first `=`, decoded.
pub open spec fn form_field(piece: Seq<char>) -> (Seq<char>, Seq<char>) {
    let i = find_char(piece, '=', 0);
    if 0 <= i < piece.len() {
        (url_decoded(piece.take(i)), url_decoded(piece.skip(i + 1)))
    } else {
        (url_decoded(piece), seq![])
    }
}

/// The fields of a form.
pub open spec fn form(body: Seq<char>) -> Seq<(Seq<char>, Seq<char>)> {
    split(body, '&').map_values(|piece: Seq<char>| form_field(piece))
}

/// Names and values as characters.
pub open spec fn field_views(fields: Seq<(String, String)>) -> Seq<(Seq<char>, Seq<char>)> {
    fields.map_values(|f: (String, String)| (f.0@, f.1@))
}

/// The value of the first field called `name`, empty if there is none.
pub open spec fn field_value(fields: Seq<(Seq<char>, Seq<char>)>, name: Seq<char>) -> Seq<char>
    decreases fields.len(),
{
    if fields.len() == 0 {
        seq![]
    } else if fields[0].0 == name {
        fields[0].1
    } else {
        field_value(fields.skip(1), name)
    }
}

/// Searching a part of `s` finds what searching `s` finds there.
proof fn lemma_find_in_part(s: Seq<char>, c: char, from: int, to: int, at: int)
    requires
        0 <= from <= at <= to <= s.len(),
        forall|k: int| from <= k < at ==> s[k] != c,
        at < to ==> s[at] == c,
    ensures
        find_char(s.subrange(from, to), c, 0) == at - from,
{
    lemma_find_char(s.subrange(from, to), c, 0, at - from);
}

pub fn parse_form(body: &str) -> (fields: Vec<(String, String)>)
    ensures
        field_views(fields@) == form(body@),
{
    let chars: Vec<char> = chars_of(body);
    let n: usize = chars.len();
    let mut fields: Vec<(String, String)> = Vec::new();
    let mut from: usize = 0;
    let ghost to_field = |piece: Seq<char>| form_field(piece);
    assert(chars@.skip(0) =~= body@);
    assert(field_views(fields@) =~= seq![]);
    assert(split(body@, '&').map_values(to_field) =~= field_views(fields@) + split(
        chars@.skip(0),
        '&',
    ).map_values(to_field));
    loop
        invariant
            from <= n == chars@.len(),
            chars@ == body@,
            to_field == (|piece: Seq<char>| form_field(piece)),
            form(body@) == field_views(fields@) + split(chars@.skip(from as int), '&').map_values(
                to_field,
            ),
        decreases n - from,
    {
        let ghost left = chars@.skip(from as int);
        let ghost before = field_views(fields@);
        let to: usize = find_char_in(&chars, '&', from);
        let ghost piece = chars@.subrange(from as int, to as int);
        let eq: usize = find_char_in(&chars, '=', from);
        let mid: usize = if eq < to {
            eq
        } else {
            to
        };
        proof {
            assert(left =~= chars@.subrange(from as int, n as int));
            lemma_find_in_part(chars@, '&', from as int, n as int, to as int);
            lemma_find_in_part(chars@, '=', from as int, to as int, mid as int);
            assert(piece.take(mid - from) =~= chars@.subrange(from as int, mid as int));
            if mid < to {
                assert(piece.skip(mid - from + 1) =~= chars@.subrange(mid + 1, to as int));
            }
        }
        let name: String = decode(&chars, from, mid);
        let value: String = if mid < to {
            decode(&chars, mid + 1, to)
        } else {
            String::new()
        };
        fields.push((name, value));
        assert(field_views(fields@) =~= before.push(form_field(piece)));
        if to == n {
            assert(piece =~= left);
            assert(split(left, '&') =~= seq![left]);
            assert(split(left, '&').map_values(to_field) =~= seq![form_field(left)]);
            assert(form(body@) =~= field_views(fields@));
            return fields;
        }
        proof {
            let rest = split(left.skip(to - from + 1), '&');
            assert(left.take(to - from) =~= piece);
            assert(left.skip(to - from + 1) =~= chars@.skip(to + 1));
            assert(split(left, '&') =~= seq![piece] + rest);
            assert((seq![piece] + rest).map_values(to_field) =~= seq![form_field(piece)]
                + rest.map_values(to_field));
            assert(form(body@) =~= field_views(fields@) + rest.map_values(to_field));
        }
        from = to + 1;
    }
}

/// The value of the first field called `name`, empty if there is none.
pub fn field<'a>(fields: &'a [(String, String)], name: &str) -> (value: &'a str)
    ensures
        value@ == field_value(field_views(fields@), name@),
{
    let ghost views = field_views(fields@);
    let mut i: usize = 0;
    assert(views.skip(0) =~= views);
    while i < fields.len()
        invariant
            i <= fields@.len(),
            views == field_views(fields@),
            field_value(views, name@) == field_value(views.skip(i as int), name@),
        decreases fields@.len() - i,
    {
        assert(views.skip(i as int)[0] == views[i as int]);
        if same(fields[i].0.as_str(), name) {
            return fields[i].1.as_str();
        }
        assert(views.skip(i as int).skip(1) =~= views.skip(i + 1));
        i = i + 1;
    }
    proof {
        reveal_strlit("");
        assert(""@ =~= seq![]);
    }
    ""
}

// ── Laws ─────────────────────────────────────────────────────────────────────

/// Text without `+` and `%` is decoded to itself.
pub proof fn law_plain_text_is_kept(s: Seq<char>)
    requires
        forall|i: int| 0 <= i < s.len() ==> s[i] != '+' && s[i] != '%',
    ensures
        url_decoded(s) == s,
    decreases s.len(),
{
    if s.len() > 0 {
        assert forall|i: int| 0 <= i < s.skip(1).len() implies s.skip(1)[i] != '+' && s.skip(1)[i]
            != '%' by {
            assert(s.skip(1)[i] == s[i + 1]);
        }
        law_plain_text_is_kept(s.skip(1));
        assert(seq![s[0]] + s.skip(1) =~= s);
    } else {
        assert(url_decoded(s) =~= s);
    }
}

/// The hexadecimal digit of value `d`.
pub open spec fn hex_char(d: int) -> char {
    if d < 10 {
        (0x30 + d) as char
    } else {
        (0x41 + d - 10) as char
    }
}

/// The characters that an escape can stand for.
pub open spec fn is_byte(c: char) -> bool {
    (c as u32) < 256
}

pub open spec fn all_bytes(s: Seq<char>) -> bool {
    forall|i: int| 0 <= i < s.len() ==> is_byte(#[trigger] s[i])
}

/// Each character of `s` as an escape.
pub open spec fn escaped(s: Seq<char>) -> Seq<char>
    decreases s.len(),
{
    if s.len() == 0 {
        seq![]
    } else {
        let code = s[0] as u32 as int;
        seq!['%', hex_char(code / 16), hex_char(code % 16)] + escaped(s.skip(1))
    }
}

/// Decoding undoes escaping.
pub proof fn law_escapes_decode(s: Seq<char>)
    requires
        all_bytes(s),
    ensures
        url_decoded(escaped(s)) == s,
    decreases s.len(),
{
    if s.len() > 0 {
        let rest = s.skip(1);
        let code = s[0] as u32 as int;
        let e = escaped(s);
        assert(is_byte(s[0]));
        assert forall|i: int| 0 <= i < rest.len() implies is_byte(#[trigger] rest[i]) by {
            assert(rest[i] == s[i + 1]);
        }
        law_escapes_decode(rest);
        assert(e.skip(3) =~= escaped(rest));
        assert(hex_value(hex_char(code / 16)) == Some(code / 16));
        assert(hex_value(hex_char(code % 16)) == Some(code % 16));
        assert(hex_char(code / 16) != '+');
        assert((code / 16) * 16 + code % 16 == code);
        vstd::utf8::char_u32_cast(s[0], s[0] as u32);
        assert(e[1] == hex_char(code / 16) && e[2] == hex_char(code % 16));
        assert(unescaped(e[1], e[2]) == Some(s[0]));
        if rest.len() == 0 {
            assert(rest =~= seq![]);
            assert(url_decoded(e) =~= s);
        } else {
            assert(e.len() > 3);
            assert(url_decoded(e) =~= s);
        }
    } else {
        assert(url_decoded(escaped(s)) =~= s);
    }
}

/// An escaped text holds neither of the characters that a form is made with.
proof fn lemma_escaped_chars(s: Seq<char>)
    requires
        all_bytes(s),
    ensures
        forall|i: int|
            0 <= i < escaped(s).len() ==> #[trigger] escaped(s)[i] != '&' && escaped(s)[i] != '=',
    decreases s.len(),
{
    if s.len() > 0 {
        let rest = s.skip(1);
        let code = s[0] as u32 as int;
        let e = escaped(s);
        assert(is_byte(s[0]));
        assert forall|i: int| 0 <= i < rest.len() implies is_byte(#[trigger] rest[i]) by {
            assert(rest[i] == s[i + 1]);
        }
        lemma_escaped_chars(rest);
        assert forall|i: int| 0 <= i < e.len() implies #[trigger] e[i] != '&' && e[i] != '=' by {
            if i >= 3 {
                assert(e[i] == escaped(rest)[i - 3]);
            }
        }
    }
}

/// One field of a form with its name and value escaped.
pub open spec fn escaped_field(f: (Seq<char>, Seq<char>)) -> Seq<char> {
    escaped(f.0) + seq!['='] + escaped(f.1)
}

/// A form that is made of `fields`.
pub open spec fn escaped_form(fields: Seq<(Seq<char>, Seq<char>)>) -> Seq<char>
    decreases fields.len(),
{
    if fields.len() == 0 {
        seq![]
    } else if fields.len() == 1 {
        escaped_field(fields[0])
    } else {
        escaped_field(fields[0]) + seq!['&'] + escaped_form(fields.skip(1))
    }
}

proof fn lemma_escaped_field(f: (Seq<char>, Seq<char>))
    requires
        all_bytes(f.0),
        all_bytes(f.1),
    ensures
        form_field(escaped_field(f)) == f,
        forall|i: int| 0 <= i < escaped_field(f).len() ==> #[trigger] escaped_field(f)[i] != '&',
{
    let piece = escaped_field(f);
    let n = escaped(f.0).len() as int;
    lemma_escaped_chars(f.0);
    lemma_escaped_chars(f.1);
    assert forall|i: int| 0 <= i < piece.len() implies #[trigger] piece[i] != '&' by {
        if i < n {
            assert(piece[i] == escaped(f.0)[i]);
        } else if i > n {
            assert(piece[i] == escaped(f.1)[i - n - 1]);
        }
    }
    assert forall|k: int| 0 <= k < n implies piece[k] != '=' by {
        assert(piece[k] == escaped(f.0)[k]);
    }
    lemma_find_char(piece, '=', 0, n);
    assert(piece.take(n) =~= escaped(f.0));
    assert(piece.skip(n + 1) =~= escaped(f.1));
    law_escapes_decode(f.0);
    law_escapes_decode(f.1);
}

/// The fields of a form are read back as they were put in.
pub proof fn law_form_reads_back(fields: Seq<(Seq<char>, Seq<char>)>)
    requires
        fields.len() > 0,
        forall|i: int|
            0 <= i < fields.len() ==> all_bytes((#[trigger] fields[i]).0) && all_bytes(fields[i].1),
    ensures
        form(escaped_form(fields)) == fields,
    decreases fields.len(),
{
    let to_field = |piece: Seq<char>| form_field(piece);
    let body = escaped_form(fields);
    let first = escaped_field(fields[0]);
    let n = first.len() as int;
    lemma_escaped_field(fields[0]);
    if fields.len() == 1 {
        lemma_find_char(body, '&', 0, n);
        assert(split(body, '&') =~= seq![first]);
        assert(form(body) =~= fields);
    } else {
        let rest = fields.skip(1);
        assert forall|i: int| 0 <= i < rest.len() implies all_bytes((#[trigger] rest[i]).0)
            && all_bytes(rest[i].1) by {
            assert(rest[i] == fields[i + 1]);
        }
        law_form_reads_back(rest);
        assert forall|k: int| 0 <= k < n implies body[k] != '&' by {
            assert(body[k] == first[k]);
        }
        lemma_find_char(body, '&', 0, n);
        assert(body.take(n) =~= first);
        assert(body.skip(n + 1) =~= escaped_form(rest));
        assert(split(body, '&') =~= seq![first] + split(escaped_form(rest), '&'));
        assert(form(body) =~= seq![fields[0]] + form(escaped_form(rest)));
        assert(seq![fields[0]] + rest =~= fields);
    }
}

/// The value of a character as a hexadecimal digit, or 16 if it is none.
pub open spec fn nibble(c: char) -> int {
    if '0' <= c && c <= '9' {
        c as u32 - '0' as u32
    } else if 'a' <= c && c <= 'f' {
        c as u32 - 'a' as u32 + 10
    } else if 'A' <= c && c <= 'F' {
        c as u32 - 'A' as u32 + 10
    } else {
        16
    }
}

/// What an escape with these digits adds to the text: the character of that number,
/// with a plus sign in place of the first digit as none, and nothing at all if it
/// is not a number.
pub open spec fn meaning(h1: char, h2: char) -> Seq<char> {
    if nibble(h2) == 16 || nibble(h1) == 16 && h1 != '+' {
        seq![]
    } else if h1 == '+' {
        seq![nibble(h2) as u8 as char]
    } else {
        seq![(16 * nibble(h1) + nibble(h2)) as u8 as char]
    }
}

/// Text is decoded from the front: a plus sign is a space, an escape is the
/// character of its number, in digits of either case, and anything else is itself.
/// An escape that the text breaks off has zeros for the digits it lacks.
pub proof fn law_decoding(c: char, h1: char, h2: char, rest: Seq<char>)
    ensures
        url_decoded(seq![]) == Seq::<char>::empty(),
        url_decoded(seq!['+'] + rest) == seq![' '] + url_decoded(rest),
        c != '+' && c != '%' ==> url_decoded(seq![c] + rest) == seq![c] + url_decoded(rest),
        url_decoded(seq!['%', h1, h2] + rest) == meaning(h1, h2) + url_decoded(rest),
        url_decoded(seq!['%', h1]) == meaning(h1, '0'),
        url_decoded(seq!['%']) == meaning('0', '0'),
{
    let plus = seq!['+'] + rest;
    assert(plus.skip(1) =~= rest);
    let other = seq![c] + rest;
    assert(other.skip(1) =~= rest);
    lemma_meaning(h1, h2);
    lemma_meaning(h1, '0');
    lemma_meaning('0', '0');
    let whole = seq!['%', h1, h2] + rest;
    assert(whole[1] == h1 && whole[2] == h2);
    if rest.len() > 0 {
        assert(whole.skip(3) =~= rest);
    } else {
        assert(rest =~= seq![]);
        assert(url_decoded(rest) =~= seq![]);
    }
    assert(url_decoded(whole) =~= meaning(h1, h2) + url_decoded(rest));
    let half = seq!['%', h1];
    assert(half[1] == h1);
    assert(url_decoded(half) =~= meaning(h1, '0'));
    assert(url_decoded(seq!['%']) =~= meaning('0', '0'));
}

proof fn lemma_meaning(h1: char, h2: char)
    ensures
        unescaped(h1, h2) matches Some(c) ==> meaning(h1, h2) == seq![c],
        unescaped(h1, h2) is None ==> meaning(h1, h2) == Seq::<char>::empty(),
{
    assert(hex_value(h1) == if nibble(h1) == 16 {
        None
    } else {
        Some(nibble(h1))
    });
    assert(hex_value(h2) == if nibble(h2) == 16 {
        None
    } else {
        Some(nibble(h2))
    });
}

/// A form is taken apart at each `&`, and a field at its first `=`; a field without
/// one has an empty value. Names and values are decoded.
pub proof fn law_form_is_taken_apart(name: Seq<char>, value: Seq<char>, rest: Seq<char>)
    requires
        forall|i: int| 0 <= i < name.len() ==> name[i] != '&' && name[i] != '=',
        forall|i: int| 0 <= i < value.len() ==> value[i] != '&',
    ensures
        ({
            let both = name + seq!['='] + value;
            let given = (url_decoded(name), url_decoded(value));
            let bare = (url_decoded(name), Seq::<char>::empty());
            &&& form(both) == seq![given]
            &&& form(both + seq!['&'] + rest) == seq![given] + form(rest)
            &&& form(name) == seq![bare]
            &&& form(name + seq!['&'] + rest) == seq![bare] + form(rest)
        }),
{
    let both = name + seq!['='] + value;
    let n = name.len() as int;
    assert forall|k: int| 0 <= k < n implies both[k] != '=' by {
        assert(both[k] == name[k]);
    }
    lemma_find_char(both, '=', 0, n);
    assert(both.take(n) =~= name);
    assert(both.skip(n + 1) =~= value);
    assert forall|k: int| 0 <= k < both.len() implies both[k] != '&' by {
        if k < n {
            assert(both[k] == name[k]);
        } else if k > n {
            assert(both[k] == value[k - n - 1]);
        }
    }
    lemma_find_char(name, '=', 0, n);
    lemma_first_piece(both, rest);
    lemma_first_piece(name, rest);
}

proof fn lemma_first_piece(piece: Seq<char>, rest: Seq<char>)
    requires
        forall|i: int| 0 <= i < piece.len() ==> piece[i] != '&',
    ensures
        form(piece) == seq![form_field(piece)],
        form(piece + seq!['&'] + rest) == seq![form_field(piece)] + form(rest),
{
    let to_field = |p: Seq<char>| form_field(p);
    let n = piece.len() as int;
    let body = piece + seq!['&'] + rest;
    lemma_find_char(piece, '&', 0, n);
    assert(split(piece, '&') =~= seq![piece]);
    assert(form(piece) =~= seq![form_field(piece)]);
    assert forall|k: int| 0 <= k < n implies body[k] != '&' by {
        assert(body[k] == piece[k]);
    }
    lemma_find_char(body, '&', 0, n);
    assert(body.take(n) =~= piece);
    assert(body.skip(n + 1) =~= rest);
    assert(split(body, '&') =~= seq![piece] + split(rest, '&'));
    assert(form(body) =~= seq![form_field(piece)] + form(rest));
}

/// The first field of a name gives its value; a name that no field has gives none.
pub proof fn law_first_field_counts(
    fields: Seq<(Seq<char>, Seq<char>)>,
    name: Seq<char>,
    at: int,
)
    requires
        0 <= at <= fields.len(),
        forall|i: int| 0 <= i < at ==> (#[trigger] fields[i]).0 != name,
        at < fields.len() ==> fields[at].0 == name,
    ensures
        at < fields.len() ==> field_value(fields, name) == fields[at].1,
        at == fields.len() ==> field_value(fields, name) == Seq::<char>::empty(),
    decreases at,
{
    if at > 0 {
        let rest = fields.skip(1);
        assert(fields[0].0 != name);
        assert forall|i: int| 0 <= i < at - 1 implies (#[trigger] rest[i]).0 != name by {
            assert(rest[i] == fields[i + 1]);
        }
        law_first_field_counts(rest, name, at - 1);
    }
}

} // verus!
