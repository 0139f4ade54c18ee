//! Identifiers as the tools receive them, and the reading of numeric ids and
//! comma-separated id lists from command-line text.

use vstd::prelude::*;

verus! {

/// A project named by its numeric id, by its key, or by both.
#[derive(Debug, Clone, PartialEq, Eq)]
pub enum ProjectIdOrKey {
    Id(u32),
    Key(String),
    EitherIdOrKey(u32, String),
}

/// Wrapper around `str::chars` collected into a vector.
#[verifier::external_body]
pub(crate) fn chars_of(s: &str) -> (r: Vec<char>)
    ensures
        r@ == s@,
{
    s.chars().collect()
}

/// Whether a character is white space in Unicode (`char::is_whitespace`).
pub open spec fn is_white_space(c: char) -> bool {
    let u = c as u32;
    ||| 0x09 <= u <= 0x0d
    ||| u == 0x20 || u == 0x85 || u == 0xa0 || u == 0x1680
    ||| 0x2000 <= u <= 0x200a
    ||| u == 0x2028 || u == 0x2029 || u == 0x202f || u == 0x205f || u == 0x3000
}

/// `s` without its leading and trailing white space (`str::trim`).
pub open spec fn trimmed(s: Seq<char>) -> Seq<char> {
    s.subrange(leading_space(s) as int, (s.len() - trailing_space(s)) as int)
}

/// How many characters of white space `s` starts with.
pub open spec fn leading_space(s: Seq<char>) -> nat
    decreases s.len(),
{
    if s.len() > 0 && is_white_space(s[0]) {
        1 + leading_space(s.drop_first())
    } else {
        0
    }
}

/// How many characters of white space `s` ends with, counting no character
/// twice when `s` is all white space.
pub open spec fn trailing_space(s: Seq<char>) -> nat
    decreases s.len(),
{
    if s.len() > leading_space(s) && is_white_space(s.last()) {
        1 + trailing_space(s.drop_last())
    } else {
        0
    }
}

/// Whether `c` is an ASCII decimal digit.
pub open spec fn is_digit(c: char) -> bool {
    '0' <= c <= '9'
}

/// The number the decimal digits `s` spell.
pub open spec fn digits_value(s: Seq<char>) -> nat
    decreases s.len(),
{
    if s.len() == 0 {
        0
    } else {
        digits_value(s.drop_last()) * 10 + ((s.last() as u32) - 48) as nat
    }
}

/// The `u32` a text spells as `str::parse::<u32>` reads it: an optional `+`,
/// then one or more ASCII digits, with a value that fits.
pub open spec fn parsed_u32(s: Seq<char>) -> Option<u32> {
    let body = unsigned_body(s);
    if body.len() > 0 && all_digits(body) && digits_value(body) <= u32::MAX {
        Some(digits_value(body) as u32)
    } else {
        None
    }
}

/// The digits part of an unsigned number: the text after an optional `+`.
pub open spec fn unsigned_body(s: Seq<char>) -> Seq<char> {
    if s.len() > 0 && s[0] == '+' {
        s.drop_first()
    } else {
        s
    }
}

/// Whether every character is an ASCII digit.
pub open spec fn all_digits(s: Seq<char>) -> bool {
    forall|i: int| 0 <= i < s.len() ==> is_digit(#[trigger] s[i])
}

/// The pieces of `s` between commas (`str::split(',')`): one more piece
/// than there are commas, empty pieces included.
pub open spec fn comma_pieces(s: Seq<char>) -> Seq<Seq<char>>
    decreases s.len(),
{
    if s.len() == 0 {
        seq![Seq::empty()]
    } else {
        let pieces = comma_pieces(s.drop_last());
        if s.last() == ',' {
            pieces.push(Seq::empty())
        } else {
            pieces.update(pieces.len() - 1, pieces.last().push(s.last()))
        }
    }
}


/// The ids the comma-separated pieces spell, each piece trimmed; or the
/// first trimmed piece that is not a `u32`.
pub open spec fn ids_from_pieces(pieces: Seq<Seq<char>>) -> Result<Seq<u32>, Seq<char>>
    decreases pieces.len(),
{
    if pieces.len() == 0 {
        Ok(Seq::empty())
    } else {
        match ids_from_pieces(pieces.drop_last()) {
            Ok(ids) => match parsed_u32(trimmed(pieces.last())) {
                Some(v) => Ok(ids.push(v)),
                None => Err(trimmed(pieces.last())),
            },
            Err(e) => Err(e),
        }
    }
}

/// The ids of the pieces that spell one, the others skipped.
pub open spec fn readable_ids(pieces: Seq<Seq<char>>) -> Seq<u32>
    decreases pieces.len(),
{
    if pieces.len() == 0 {
        Seq::empty()
    } else {
        match parsed_u32(trimmed(pieces.last())) {
            Some(v) => readable_ids(pieces.drop_last()).push(v),
            None => readable_ids(pieces.drop_last()),
        }
    }
}

/// Whether a character is white space.
pub fn is_white_space_exec(c: char) -> (r: bool)
    ensures
        r == is_white_space(c),
{
    let u = c as u32;
    (0x09 <= u && u <= 0x0d) || u == 0x20 || u == 0x85 || u == 0xa0 || u == 0x1680 || (0x2000
        <= u && u <= 0x200a) || u == 0x2028 || u == 0x2029 || u == 0x202f || u == 0x205f || u
        == 0x3000
}

/// `leading_space` counts the white space before the first other character.
proof fn lemma_leading_space(s: Seq<char>, i: int)
    requires
        0 <= i <= s.len(),
        forall|j: int| 0 <= j < i ==> is_white_space(#[trigger] s[j]),
        i == s.len() || !is_white_space(s[i]),
    ensures
        leading_space(s) == i,
    decreases i,
{
    if i > 0 {
        let t = s.drop_first();
        assert forall|j: int| 0 <= j < i - 1 implies is_white_space(#[trigger] t[j]) by {
            assert(t[j] == s[j + 1]);
        }
        lemma_leading_space(t, i - 1);
    }
}

/// `trailing_space` counts the white space after the last other character
/// that follows the leading white space.
proof fn lemma_trailing_space(s: Seq<char>, e: int)
    requires
        leading_space(s) <= e <= s.len(),
        forall|j: int| e <= j < s.len() ==> is_white_space(#[trigger] s[j]),
        e == leading_space(s) || !is_white_space(s[e - 1]),
    ensures
        trailing_space(s) == s.len() - e,
    decreases s.len() - e,
{
    if e < s.len() {
        let t = s.drop_last();
        lemma_leading_prefix(s);
        lemma_trailing_space(t, e);
    }
}

/// Dropping a last character that follows the leading white space keeps it.
proof fn lemma_leading_prefix(s: Seq<char>)
    requires
        s.len() > leading_space(s),
    ensures
        leading_space(s.drop_last()) == leading_space(s),
    decreases s.len(),
{
    if s.len() > 0 && is_white_space(s[0]) {
        assert(s.drop_last().drop_first() =~= s.drop_first().drop_last());
        lemma_leading_prefix(s.drop_first());
    }
}

/// The bounds of `v[start..end]` once trimmed.
fn trim_bounds(v: &Vec<char>, start: usize, end: usize) -> (r: (usize, usize))
    requires
        start <= end <= v.len(),
    ensures
        start <= r.0 <= r.1 <= end,
        v@.subrange(r.0 as int, r.1 as int) == trimmed(v@.subrange(start as int, end as int)),
{
    let ghost s = v@.subrange(start as int, end as int);
    let mut a = start;
    while a < end && is_white_space_exec(v[a])
        invariant
            start <= a <= end <= v.len(),
            s == v@.subrange(start as int, end as int),
            forall|j: int| 0 <= j < a - start ==> is_white_space(#[trigger] s[j]),
        decreases end - a,
    {
        a += 1;
    }
    proof {
        lemma_leading_space(s, a - start);
    }
    let mut b = end;
    while b > a && is_white_space_exec(v[b - 1])
        invariant
            start <= a <= b <= end <= v.len(),
            s == v@.subrange(start as int, end as int),
            leading_space(s) == a - start,
            forall|j: int| b - start <= j < s.len() ==> is_white_space(#[trigger] s[j]),
        decreases b - a,
    {
        b -= 1;
    }
    proof {
        lemma_trailing_space(s, b - start);
        assert(v@.subrange(a as int, b as int) =~= trimmed(s));
    }
    (a, b)
}

/// Reads `v[start..end]` as `str::parse::<u32>` does.
fn parse_u32_range(v: &Vec<char>, start: usize, end: usize) -> (r: Option<u32>)
    requires
        start <= end <= v.len(),
    ensures
        r == parsed_u32(v@.subrange(start as int, end as int)),
{
    let ghost s = v@.subrange(start as int, end as int);
    let mut a = start;
    if a < end && v[a] == '+' {
        a += 1;
    }
    let ghost body = v@.subrange(a as int, end as int);
    assert(body =~= unsigned_body(s));
    if a == end {
        return None;
    }
    let mut value: u64 = 0;
    let mut i = a;
    while i < end
        invariant
            start <= a <= i <= end <= v.len(),
            body == v@.subrange(a as int, end as int),
            s == v@.subrange(start as int, end as int),
            body == unsigned_body(s),
            body.len() > 0,
            forall|j: int| 0 <= j < i - a ==> is_digit(#[trigger] body[j]),
            value == digits_value(body.subrange(0, i - a)),
            value <= u32::MAX,
        decreases end - i,
    {
        let c = v[i];
        if !('0' <= c && c <= '9') {
            assert(!is_digit(body[i - a]));
            assert(!all_digits(body));
            return None;
        }
        let d = (c as u32 - 48) as u64;
        assert(body.subrange(0, i + 1 - a).drop_last() =~= body.subrange(0, i - a));
        if value * 10 + d > 0xffff_ffff {
            proof {
                if all_digits(body) {
                    lemma_digits_value_grows(body, i + 1 - a);
                }
            }
            return None;
        }
        value = value * 10 + d;
        i += 1;
    }
    assert(body.subrange(0, end - a) =~= body);
    Some(value as u32)
}

/// The value of a digit string is at least that of any of its prefixes.
proof fn lemma_digits_value_grows(body: Seq<char>, k: int)
    requires
        0 <= k <= body.len(),
        forall|j: int| 0 <= j < body.len() ==> is_digit(#[trigger] body[j]),
    ensures
        digits_value(body) >= digits_value(body.subrange(0, k)),
    decreases body.len() - k,
{
    if k < body.len() {
        lemma_digits_value_grows(body, k + 1);
        assert(body.subrange(0, k + 1).drop_last() =~= body.subrange(0, k));
    } else {
        assert(body.subrange(0, k) =~= body);
    }
}

/// Reads a `u32` as `str::parse::<u32>` does.
pub fn parse_u32(s: &str) -> (r: Option<u32>)
    ensures
        r == parsed_u32(s@),
{
    let v = chars_of(s);
    assert(v@.subrange(0, v@.len() as int) =~= v@);
    parse_u32_range(&v, 0, v.len())
}

/// The characters `v[start..end]` as a string.
fn string_of_range(v: &Vec<char>, start: usize, end: usize) -> (r: String)
    requires
        start <= end <= v.len(),
    ensures
        r@ == v@.subrange(start as int, end as int),
{
    let mut out = String::new();
    let mut i = start;
    while i < end
        invariant
            start <= i <= end <= v.len(),
            out@ == v@.subrange(start as int, i as int),
        decreases end - i,
    {
        crate::text::push_char(&mut out, v[i]);
        assert(out@ =~= v@.subrange(start as int, i + 1));
        i += 1;
    }
    out
}

/// The step of `comma_pieces` over one more character.
proof fn lemma_comma_pieces_step(s: Seq<char>, i: int)
    requires
        0 <= i < s.len(),
    ensures
        comma_pieces(s.take(i + 1)) == (if s[i] == ',' {
            comma_pieces(s.take(i)).push(Seq::empty())
        } else {
            comma_pieces(s.take(i)).update(
                comma_pieces(s.take(i)).len() - 1,
                comma_pieces(s.take(i)).last().push(s[i]),
            )
        }),
{
    assert(s.take(i + 1).drop_last() =~= s.take(i));
}

/// The pieces of a prefix, all but the last, are pieces of the whole text.
proof fn lemma_comma_pieces_prefix(s: Seq<char>, j: int)
    requires
        0 <= j <= s.len(),
    ensures
        comma_pieces(s).len() >= comma_pieces(s.take(j)).len(),
        forall|k: int|
            0 <= k < comma_pieces(s.take(j)).len() - 1 ==> comma_pieces(s)[k] == #[trigger] comma_pieces(
                s.take(j),
            )[k],
    decreases s.len() - j,
{
    lemma_comma_pieces_nonempty(s.take(j));
    if j < s.len() {
        lemma_comma_pieces_step(s, j);
        lemma_comma_pieces_prefix(s, j + 1);
        let p = comma_pieces(s.take(j));
        let q = comma_pieces(s.take(j + 1));
        assert forall|k: int| 0 <= k < p.len() - 1 implies comma_pieces(s)[k] == #[trigger] p[k] by {
            assert(q[k] == p[k]);
        }
    } else {
        assert(s.take(j) =~= s);
    }
}

/// `comma_pieces` never gives an empty list.
proof fn lemma_comma_pieces_nonempty(s: Seq<char>)
    ensures
        comma_pieces(s).len() >= 1,
    decreases s.len(),
{
    if s.len() > 0 {
        lemma_comma_pieces_nonempty(s.drop_last());
    }
}

/// When reading a prefix of the pieces fails, reading all fails alike.
proof fn lemma_ids_prefix_err(pieces: Seq<Seq<char>>, k: int)
    requires
        0 <= k <= pieces.len(),
        ids_from_pieces(pieces.take(k)) is Err,
    ensures
        ids_from_pieces(pieces) == ids_from_pieces(pieces.take(k)),
    decreases pieces.len() - k,
{
    if k < pieces.len() {
        assert(pieces.take(k + 1).drop_last() =~= pieces.take(k));
        lemma_ids_prefix_err(pieces, k + 1);
    } else {
        assert(pieces.take(k) =~= pieces);
    }
}

/// Reads a comma-separated list of ids, each trimmed. The first piece that
/// is not an id is handed back, trimmed.
pub fn parse_id_list(s: &str) -> (r: Result<Vec<u32>, String>)
    ensures
        match ids_from_pieces(comma_pieces(s@)) {
            Ok(ids) => r is Ok && r->Ok_0@ == ids,
            Err(piece) => r is Err && r->Err_0@ == piece,
        },
{
    let v = chars_of(s);
    let ghost all = comma_pieces(v@);
    let mut ids: Vec<u32> = Vec::new();
    let mut start: usize = 0;
    let mut i: usize = 0;
    let ghost mut done: Seq<Seq<char>> = Seq::empty();
    assert(v@.take(0) =~= Seq::<char>::empty());
    assert(v@.subrange(0, 0) =~= Seq::<char>::empty());
    while i < v.len()
        invariant
            start <= i <= v.len(),
            v@ == s@,
            comma_pieces(v@.take(i as int)) == done.push(v@.subrange(start as int, i as int)),
            ids_from_pieces(done) == Ok::<Seq<u32>, Seq<char>>(ids@),
        decreases v.len() - i,
    {
        proof {
            lemma_comma_pieces_step(v@, i as int);
        }
        if v[i] == ',' {
            let (a, b) = trim_bounds(&v, start, i);
            let ghost piece = v@.subrange(start as int, i as int);
            assert(done.push(piece).drop_last() =~= done);
            match parse_u32_range(&v, a, b) {
                Some(id) => {
                    ids.push(id);
                },
                None => {
                    let bad = string_of_range(&v, a, b);
                    assert(ids_from_pieces(done.push(piece)) == Err::<Seq<u32>, Seq<char>>(bad@));
                    proof {
                        lemma_comma_pieces_prefix(v@, i as int + 1);
                        let q = comma_pieces(v@.take(i + 1));
                        assert(q == done.push(piece).push(Seq::<char>::empty()));
                        assert(comma_pieces(v@).take(done.len() + 1 as int) =~= done.push(piece)) by {
                            assert forall|k: int| 0 <= k < done.len() + 1 implies comma_pieces(v@)[k]
                                == done.push(piece)[k] by {
                                assert(q[k] == done.push(piece)[k]);
                            }
                        }
                        lemma_ids_prefix_err(comma_pieces(v@), done.len() + 1 as int);
                        assert(v@ == s@);
                    }
                    return Err(bad);
                },
            }
            proof {
                done = done.push(piece);
            }
            start = i + 1;
            assert(v@.subrange(start as int, i + 1) =~= Seq::<char>::empty());
        } else {
            assert(v@.subrange(start as int, i + 1) =~= v@.subrange(start as int, i as int).push(v[i as int]));
        }
        i += 1;
    }
    assert(v@.take(v.len() as int) =~= v@);
    let (a, b) = trim_bounds(&v, start, v.len());
    let ghost piece = v@.subrange(start as int, v.len() as int);
    assert(done.push(piece).drop_last() =~= done);
    match parse_u32_range(&v, a, b) {
        Some(id) => {
            ids.push(id);
            Ok(ids)
        },
        None => Err(string_of_range(&v, a, b)),
    }
}


/// Reads the ids of a comma-separated list, skipping the pieces that are
/// not ids.
pub fn parse_id_list_lenient(s: &str) -> (r: Vec<u32>)
    ensures
        r@ == readable_ids(comma_pieces(s@)),
{
    let v = chars_of(s);
    let mut ids: Vec<u32> = Vec::new();
    let mut start: usize = 0;
    let mut i: usize = 0;
    let ghost mut done: Seq<Seq<char>> = Seq::empty();
    assert(v@.take(0) =~= Seq::<char>::empty());
    assert(v@.subrange(0, 0) =~= Seq::<char>::empty());
    while i < v.len()
        invariant
            start <= i <= v.len(),
            comma_pieces(v@.take(i as int)) == done.push(v@.subrange(start as int, i as int)),
            readable_ids(done) == ids@,
        decreases v.len() - i,
    {
        proof {
            lemma_comma_pieces_step(v@, i as int);
        }
        if v[i] == ',' {
            let (a, b) = trim_bounds(&v, start, i);
            let ghost piece = v@.subrange(start as int, i as int);
            assert(done.push(piece).drop_last() =~= done);
            if let Some(id) = parse_u32_range(&v, a, b) {
                ids.push(id);
            }
            proof {
                done = done.push(piece);
            }
            start = i + 1;
            assert(v@.subrange(start as int, i + 1) =~= Seq::<char>::empty());
        } else {
            assert(v@.subrange(start as int, i + 1) =~= v@.subrange(start as int, i as int).push(v[i as int]));
        }
        i += 1;
    }
    assert(v@.take(v.len() as int) =~= v@);
    let (a, b) = trim_bounds(&v, start, v.len());
    let ghost piece = v@.subrange(start as int, v.len() as int);
    assert(done.push(piece).drop_last() =~= done);
    if let Some(id) = parse_u32_range(&v, a, b) {
        ids.push(id);
    }
    ids
}

/// Splits a comma-separated list into its pieces, each trimmed; empty
/// pieces are kept.
pub fn split_items(s: &str) -> (r: Vec<String>)
    ensures
        r.len() == comma_pieces(s@).len(),
        forall|k: int|
            0 <= k < r.len() ==> #[trigger] r@[k]@ == trimmed(comma_pieces(s@)[k]),
{
    let v = chars_of(s);
    let mut items: Vec<String> = Vec::new();
    let mut start: usize = 0;
    let mut i: usize = 0;
    let ghost mut done: Seq<Seq<char>> = Seq::empty();
    assert(v@.take(0) =~= Seq::<char>::empty());
    assert(v@.subrange(0, 0) =~= Seq::<char>::empty());
    while i < v.len()
        invariant
            start <= i <= v.len(),
            v@ == s@,
            comma_pieces(v@.take(i as int)) == done.push(v@.subrange(start as int, i as int)),
            items.len() == done.len(),
            forall|k: int| 0 <= k < items.len() ==> #[trigger] items@[k]@ == trimmed(done[k]),
        decreases v.len() - i,
    {
        proof {
            lemma_comma_pieces_step(v@, i as int);
        }
        if v[i] == ',' {
            let (a, b) = trim_bounds(&v, start, i);
            let ghost piece = v@.subrange(start as int, i as int);
            items.push(string_of_range(&v, a, b));
            proof {
                done = done.push(piece);
            }
            start = i + 1;
            assert(v@.subrange(start as int, i + 1) =~= Seq::<char>::empty());
        } else {
            assert(v@.subrange(start as int, i + 1) =~= v@.subrange(start as int, i as int).push(v[i as int]));
        }
        i += 1;
    }
    assert(v@.take(v.len() as int) =~= v@);
    let (a, b) = trim_bounds(&v, start, v.len());
    items.push(string_of_range(&v, a, b));
    items
}

/// An issue named by its number or by its key.
#[derive(Debug, Clone, PartialEq, Eq)]
pub enum IssueIdOrKey {
    Id(u32),
    Key(String),
}

/// Reads an issue reference the way the recently-viewed command does: text
/// that reads as a `u32` is an id, anything else is taken as a key.
pub fn issue_id_or_key(s: &str) -> (r: IssueIdOrKey)
    ensures
        match parsed_u32(s@) {
            Some(id) => r == IssueIdOrKey::Id(id),
            None => r matches IssueIdOrKey::Key(k) && k@ == s@,
        },
{
    match parse_u32(s) {
        Some(id) => IssueIdOrKey::Id(id),
        None => IssueIdOrKey::Key(String::from_str(s)),
    }
}

/// The ids each text spells, read without trimming; or the position of the
/// first text that is not an id.
pub open spec fn ids_of_texts(texts: Seq<Seq<char>>) -> Result<Seq<u32>, nat>
    decreases texts.len(),
{
    if texts.len() == 0 {
        Ok(Seq::empty())
    } else {
        match ids_of_texts(texts.drop_last()) {
            Ok(ids) => match parsed_u32(texts.last()) {
                Some(v) => Ok(ids.push(v)),
                None => Err((texts.len() - 1) as nat),
            },
            Err(e) => Err(e),
        }
    }
}

/// When reading a prefix of the texts fails, reading all fails alike.
proof fn lemma_ids_of_texts_prefix_err(texts: Seq<Seq<char>>, k: int)
    requires
        0 <= k <= texts.len(),
        ids_of_texts(texts.take(k)) is Err,
    ensures
        ids_of_texts(texts) == ids_of_texts(texts.take(k)),
    decreases texts.len() - k,
{
    if k < texts.len() {
        assert(texts.take(k + 1).drop_last() =~= texts.take(k));
        lemma_ids_of_texts_prefix_err(texts, k + 1);
    } else {
        assert(texts.take(k) =~= texts);
    }
}

/// Reads every text as an id; the position of the first that is not one is
/// handed back.
pub fn parse_each_id(values: &Vec<String>) -> (r: Result<Vec<u32>, usize>)
    ensures
        match ids_of_texts(values@.map_values(|s: String| s@)) {
            Ok(ids) => r is Ok && r->Ok_0@ == ids,
            Err(i) => r is Err && r->Err_0 == i,
        },
{
    let ghost texts = values@.map_values(|s: String| s@);
    let mut ids: Vec<u32> = Vec::new();
    let mut i: usize = 0;
    while i < values.len()
        invariant
            i <= values.len(),
            texts == values@.map_values(|s: String| s@),
            ids_of_texts(texts.take(i as int)) == Ok::<Seq<u32>, nat>(ids@),
        decreases values.len() - i,
    {
        assert(texts.take(i + 1).drop_last() =~= texts.take(i as int));
        assert(texts.take(i + 1).last() == values@[i as int]@);
        match parse_u32(values[i].as_str()) {
            Some(id) => ids.push(id),
            None => {
                proof {
                    lemma_ids_of_texts_prefix_err(texts, i + 1);
                }
                return Err(i);
            },
        }
        i += 1;
    }
    assert(texts.take(values.len() as int) =~= texts);
    Ok(ids)
}

} // verus!
