//! Text as sequences of characters: what trimming, escaping, comparing and
//! writing numbers mean, and the code that does it.

use vstd::prelude::*;

verus! {

/// `String::push` appends one character.
pub assume_specification[ String::push ](s: &mut String, c: char)
    ensures
        final(s)@ == old(s)@.push(c),
;

// ---------------------------------------------------------------------------
// Characters
// ---------------------------------------------------------------------------

/// The characters with the Unicode `White_Space` property.
pub open spec fn white(c: char) -> bool {
    let n = c as u32;
    ||| 0x09 <= n <= 0x0d
    ||| n == 0x20
    ||| n == 0x85
    ||| n == 0xa0
    ||| n == 0x1680
    ||| 0x2000 <= n <= 0x200a
    ||| n == 0x2028
    ||| n == 0x2029
    ||| n == 0x202f
    ||| n == 0x205f
    ||| n == 0x3000
}

pub fn is_white(c: char) -> (r: bool)
    ensures
        r == white(c),
{
    let n: u32 = c as u32;
    (0x09 <= n && n <= 0x0d) || n == 0x20 || n == 0x85 || n == 0xa0 || n == 0x1680 || (0x2000 <= n
        && n <= 0x200a) || n == 0x2028 || n == 0x2029 || n == 0x202f || n == 0x205f || n == 0x3000
}

/// The control characters: the Unicode general category `Cc`.
pub open spec fn control(c: char) -> bool {
    let n = c as u32;
    n <= 0x1f || 0x7f <= n <= 0x9f
}

pub fn is_control(c: char) -> (r: bool)
    ensures
        r == control(c),
{
    let n: u32 = c as u32;
    n <= 0x1f || (0x7f <= n && n <= 0x9f)
}

pub open spec fn ascii_digit(c: char) -> bool {
    '0' <= c <= '9'
}

pub open spec fn ascii_alphanumeric(c: char) -> bool {
    ascii_digit(c) || 'a' <= c <= 'z' || 'A' <= c <= 'Z'
}

pub fn is_ascii_alphanumeric(c: char) -> (r: bool)
    ensures
        r == ascii_alphanumeric(c),
{
    ('0' <= c && c <= '9') || ('a' <= c && c <= 'z') || ('A' <= c && c <= 'Z')
}

/// `c` with an ASCII capital letter made small; every other character is kept.
pub open spec fn ascii_lower(c: char) -> char {
    if 'A' <= c <= 'Z' {
        ((c as u32) + 32) as char
    } else {
        c
    }
}

// ---------------------------------------------------------------------------
// Characters of a text, and equality
// ---------------------------------------------------------------------------

/// The characters of `s`, in order.
pub fn chars_of(s: &str) -> (r: Vec<char>)
    ensures
        r@ == s@,
{
    let mut out: Vec<char> = Vec::new();
    for c in it: s.chars()
        invariant
            out@ == it.seq().take(it.index()),
            it.seq() == s@,
    {
        out.push(c);
        assert(out@ =~= it.seq().take(it.index() + 1));
    }
    assert(out@ =~= s@);
    out
}

/// Whether two texts hold the same characters.
pub fn same(a: &str, b: &str) -> (r: bool)
    ensures
        r == (a@ == b@),
{
    let x: String = a.to_owned();
    let y: String = b.to_owned();
    x == y
}

/// The characters of an optional text.
pub open spec fn opt_text(s: Option<String>) -> Option<Seq<char>> {
    match s {
        Some(t) => Some(t@),
        None => None,
    }
}

/// The characters of an optional borrowed text.
pub open spec fn opt_str(s: Option<&str>) -> Option<Seq<char>> {
    match s {
        Some(t) => Some(t@),
        None => None,
    }
}

/// A copy of an optional text.
pub fn copy_text(s: &Option<String>) -> (r: Option<String>)
    ensures
        r == *s,
        opt_text(r) == opt_text(*s),
{
    match s {
        Some(t) => Some(t.clone()),
        None => None,
    }
}

/// The number of bytes that a text takes in UTF-8.
pub open spec fn byte_count(s: Seq<char>) -> nat {
    vstd::utf8::encode_utf8(s).len()
}

pub fn byte_len(s: &str) -> (r: usize)
    ensures
        r == byte_count(s@),
{
    s.as_bytes().len()
}

/// A number of things as a signed count: the largest there is where it would not
/// fit.
pub open spec fn as_count(n: nat) -> i64 {
    if n <= i64::MAX {
        n as i64
    } else {
        i64::MAX
    }
}

pub fn to_count(n: usize) -> (r: i64)
    ensures
        r == as_count(n as nat),
{
    if n as u64 <= 0x7fff_ffff_ffff_ffff {
        n as i64
    } else {
        i64::MAX
    }
}

/// Whether two texts differ at most in the case of ASCII letters.
pub open spec fn equal_ignoring_case(a: Seq<char>, b: Seq<char>) -> bool {
    a.len() == b.len() && forall|i: int|
        0 <= i < a.len() ==> ascii_lower(#[trigger] a[i]) == ascii_lower(b[i])
}

pub fn same_ignoring_case(a: &str, b: &str) -> (r: bool)
    ensures
        r == equal_ignoring_case(a@, b@),
{
    let x = chars_of(a);
    let y = chars_of(b);
    if x.len() != y.len() {
        return false;
    }
    let mut i: usize = 0;
    while i < x.len()
        invariant
            i <= x.len(),
            x.len() == y.len(),
            x@ == a@,
            y@ == b@,
            forall|j: int| 0 <= j < i ==> ascii_lower(#[trigger] x@[j]) == ascii_lower(y@[j]),
        decreases x.len() - i,
    {
        if lower(x[i]) != lower(y[i]) {
            assert(ascii_lower(a@[i as int]) != ascii_lower(b@[i as int]));
            return false;
        }
        i += 1;
    }
    true
}

fn lower(c: char) -> (r: char)
    ensures
        r == ascii_lower(c),
{
    match c {
        'A' => 'a',
        'B' => 'b',
        'C' => 'c',
        'D' => 'd',
        'E' => 'e',
        'F' => 'f',
        'G' => 'g',
        'H' => 'h',
        'I' => 'i',
        'J' => 'j',
        'K' => 'k',
        'L' => 'l',
        'M' => 'm',
        'N' => 'n',
        'O' => 'o',
        'P' => 'p',
        'Q' => 'q',
        'R' => 'r',
        'S' => 's',
        'T' => 't',
        'U' => 'u',
        'V' => 'v',
        'W' => 'w',
        'X' => 'x',
        'Y' => 'y',
        'Z' => 'z',
        _ => c,
    }
}

// ---------------------------------------------------------------------------
// Trimming
// ---------------------------------------------------------------------------

/// `s` without the white space it starts with.
pub open spec fn trimmed_front(s: Seq<char>) -> Seq<char>
    decreases s.len(),
{
    if s.len() > 0 && white(s[0]) {
        trimmed_front(s.drop_first())
    } else {
        s
    }
}

/// `s` without the white space it ends with.
pub open spec fn trimmed_back(s: Seq<char>) -> Seq<char>
    decreases s.len(),
{
    if s.len() > 0 && white(s.last()) {
        trimmed_back(s.drop_last())
    } else {
        s
    }
}

/// `s` without the white space around it.
pub open spec fn trimmed(s: Seq<char>) -> Seq<char> {
    trimmed_back(trimmed_front(s))
}

/// Removes the white space around `s`.
pub fn trim(s: &str) -> (r: &str)
    ensures
        r@ == trimmed(s@),
{
    let cs = chars_of(s);
    let mut lo: usize = 0;
    assert(s@.skip(0) =~= s@);
    while lo < cs.len() && is_white(cs[lo])
        invariant
            lo <= cs.len(),
            cs@ == s@,
            trimmed_front(s@.skip(lo as int)) == trimmed_front(s@),
        decreases cs.len() - lo,
    {
        assert(s@.skip(lo as int).drop_first() =~= s@.skip(lo + 1));
        lo += 1;
    }
    assert(trimmed_front(s@) == s@.skip(lo as int));
    let mut hi: usize = cs.len();
    assert(s@.skip(lo as int) =~= s@.subrange(lo as int, hi as int));
    while lo < hi && is_white(cs[hi - 1])
        invariant
            lo <= hi <= cs.len(),
            cs@ == s@,
            trimmed_back(s@.subrange(lo as int, hi as int)) == trimmed(s@),
        decreases hi - lo,
    {
        assert(s@.subrange(lo as int, hi as int).drop_last() =~= s@.subrange(
            lo as int,
            hi - 1,
        ));
        hi -= 1;
    }
    s.substring_char(lo, hi)
}

/// What is left after trimming neither starts nor ends with white space.
pub proof fn trimmed_is_tight(s: Seq<char>)
    ensures
        trimmed(s).len() > 0 ==> !white(trimmed(s)[0]) && !white(trimmed(s).last()),
{
    lemma_front_tight(s);
    lemma_back_tight(trimmed_front(s));
}

proof fn lemma_front_tight(s: Seq<char>)
    ensures
        trimmed_front(s).len() > 0 ==> !white(trimmed_front(s)[0]),
    decreases s.len(),
{
    if s.len() > 0 && white(s[0]) {
        lemma_front_tight(s.drop_first());
    }
}

proof fn lemma_back_tight(s: Seq<char>)
    ensures
        trimmed_back(s).len() <= s.len(),
        trimmed_back(s) == s.take(trimmed_back(s).len() as int),
        trimmed_back(s).len() > 0 ==> !white(trimmed_back(s).last()),
    decreases s.len(),
{
    if s.len() > 0 && white(s.last()) {
        lemma_back_tight(s.drop_last());
        assert(s.drop_last().take(trimmed_back(s).len() as int) =~= s.take(
            trimmed_back(s).len() as int,
        ));
    } else {
        assert(s.take(s.len() as int) =~= s);
    }
}

/// Trimming a second time changes nothing.
pub proof fn trimming_is_idempotent(s: Seq<char>)
    ensures
        trimmed(trimmed(s)) == trimmed(s),
{
    trimmed_is_tight(s);
}

// ---------------------------------------------------------------------------
// Order
// ---------------------------------------------------------------------------

/// The order of texts by code point: that of a dictionary.
pub open spec fn precedes(a: Seq<char>, b: Seq<char>) -> bool
    decreases a.len(),
{
    if b.len() == 0 {
        false
    } else if a.len() == 0 {
        true
    } else if a[0] != b[0] {
        a[0] < b[0]
    } else {
        precedes(a.drop_first(), b.drop_first())
    }
}

pub fn is_before(a: &str, b: &str) -> (r: bool)
    ensures
        r == precedes(a@, b@),
{
    let x = chars_of(a);
    let y = chars_of(b);
    let mut i: usize = 0;
    assert(x@.skip(0) =~= x@);
    assert(y@.skip(0) =~= y@);
    while i < x.len() && i < y.len()
        invariant
            i <= x.len(),
            i <= y.len(),
            x@ == a@,
            y@ == b@,
            precedes(x@.skip(i as int), y@.skip(i as int)) == precedes(a@, b@),
        decreases x.len() - i,
    {
        if x[i] != y[i] {
            return x[i] < y[i];
        }
        assert(x@.skip(i as int).drop_first() =~= x@.skip(i + 1));
        assert(y@.skip(i as int).drop_first() =~= y@.skip(i + 1));
        i += 1;
    }
    i < y.len()
}

pub proof fn precedes_is_irreflexive(a: Seq<char>)
    ensures
        !precedes(a, a),
    decreases a.len(),
{
    if a.len() > 0 {
        precedes_is_irreflexive(a.drop_first());
    }
}

pub proof fn precedes_is_transitive(a: Seq<char>, b: Seq<char>, c: Seq<char>)
    requires
        precedes(a, b),
        precedes(b, c),
    ensures
        precedes(a, c),
    decreases a.len(),
{
    if a.len() > 0 && b.len() > 0 && c.len() > 0 && a[0] == b[0] && b[0] == c[0] {
        precedes_is_transitive(a.drop_first(), b.drop_first(), c.drop_first());
    }
}

pub proof fn precedes_is_total(a: Seq<char>, b: Seq<char>)
    ensures
        a == b || precedes(a, b) || precedes(b, a),
    decreases a.len(),
{
    if a.len() > 0 && b.len() > 0 && a[0] == b[0] {
        precedes_is_total(a.drop_first(), b.drop_first());
        if a.drop_first() == b.drop_first() {
            assert(a =~= seq![a[0]] + a.drop_first());
            assert(b =~= seq![b[0]] + b.drop_first());
        }
    } else if a.len() == 0 && b.len() == 0 {
        assert(a =~= b);
    }
}

// ---------------------------------------------------------------------------
// Prefixes, suffixes and parts
// ---------------------------------------------------------------------------

pub open spec fn has_prefix(s: Seq<char>, prefix: Seq<char>) -> bool {
    s.len() >= prefix.len() && s.take(prefix.len() as int) == prefix
}

/// What follows `prefix` in `s`, where `s` starts with it.
pub fn after_prefix<'a>(s: &'a str, prefix: &str) -> (r: Option<&'a str>)
    ensures
        match r {
            Some(rest) => has_prefix(s@, prefix@) && rest@ == s@.skip(prefix@.len() as int),
            None => !has_prefix(s@, prefix@),
        },
{
    let n: usize = s.unicode_len();
    let k: usize = prefix.unicode_len();
    if n < k {
        return None;
    }
    if same(s.substring_char(0, k), prefix) {
        assert(s@.subrange(0, k as int) =~= s@.take(k as int));
        assert(s@.subrange(k as int, n as int) =~= s@.skip(k as int));
        Some(s.substring_char(k, n))
    } else {
        assert(s@.subrange(0, k as int) =~= s@.take(k as int));
        None
    }
}

pub fn starts_with(s: &str, prefix: &str) -> (r: bool)
    ensures
        r == has_prefix(s@, prefix@),
{
    after_prefix(s, prefix).is_some()
}

/// `s` without the characters `c` that it ends with.
pub open spec fn without_trailing(s: Seq<char>, c: char) -> Seq<char>
    decreases s.len(),
{
    if s.len() > 0 && s.last() == c {
        without_trailing(s.drop_last(), c)
    } else {
        s
    }
}

pub fn trim_end_char(s: &str, c: char) -> (r: &str)
    ensures
        r@ == without_trailing(s@, c),
{
    let cs = chars_of(s);
    let mut hi: usize = cs.len();
    assert(s@.take(hi as int) =~= s@);
    while 0 < hi && cs[hi - 1] == c
        invariant
            hi <= cs.len(),
            cs@ == s@,
            without_trailing(s@.take(hi as int), c) == without_trailing(s@, c),
        decreases hi,
    {
        assert(s@.take(hi as int).drop_last() =~= s@.take(hi - 1));
        hi -= 1;
    }
    assert(s@.subrange(0, hi as int) =~= s@.take(hi as int));
    s.substring_char(0, hi)
}

/// Whether `part` occurs in `s`.
pub open spec fn contains_text(s: Seq<char>, part: Seq<char>) -> bool {
    exists|i: int| 0 <= i <= s.len() - part.len() && #[trigger] s.subrange(i, i + part.len()) == part
}

pub fn contains(s: &str, part: &str) -> (r: bool)
    ensures
        r == contains_text(s@, part@),
{
    let n: usize = s.unicode_len();
    let k: usize = part.unicode_len();
    if n < k {
        return false;
    }
    let mut i: usize = 0;
    while i <= n - k
        invariant
            n == s@.len(),
            k == part@.len(),
            k <= n,
            i <= n - k + 1,
            forall|j: int| 0 <= j < i ==> #[trigger] s@.subrange(j, j + part@.len()) != part@,
        decreases n - k + 1 - i,
    {
        if same(s.substring_char(i, i + k), part) {
            return true;
        }
        if i == n - k {
            return false;
        }
        i += 1;
    }
    false
}

pub fn contains_char(s: &str, c: char) -> (r: bool)
    ensures
        r == s@.contains(c),
{
    let cs = chars_of(s);
    let mut i: usize = 0;
    while i < cs.len()
        invariant
            i <= cs.len(),
            cs@ == s@,
            forall|j: int| 0 <= j < i ==> cs@[j] != c,
        decreases cs.len() - i,
    {
        if cs[i] == c {
            assert(s@[i as int] == c);
            return true;
        }
        i += 1;
    }
    false
}

// ---------------------------------------------------------------------------
// Splitting and joining
// ---------------------------------------------------------------------------

/// The pieces of `s` between the separators `a` and `b`.
pub open spec fn pieces(s: Seq<char>, a: char, b: char) -> Seq<Seq<char>>
    decreases s.len(),
{
    if s.len() == 0 {
        seq![s]
    } else {
        let rest = pieces(s.drop_last(), a, b);
        if s.last() == a || s.last() == b {
            rest.push(Seq::empty())
        } else {
            rest.drop_last().push(rest.last().push(s.last()))
        }
    }
}

/// Whether a text holds neither separator.
pub open spec fn in_one_piece(s: Seq<char>, a: char, b: char) -> bool {
    forall|i: int| 0 <= i < s.len() ==> #[trigger] s[i] != a && s[i] != b
}

/// A text without separators is one piece, and so is what follows the last
/// separator.
pub proof fn last_piece(s: Seq<char>, a: char, b: char, last: Seq<char>)
    requires
        in_one_piece(last, a, b),
    ensures
        pieces(last, a, b) == seq![last],
        pieces(s.push(a) + last, a, b) == pieces(s, a, b).push(last),
    decreases last.len(),
{
    if last.len() == 0 {
        assert(last =~= Seq::<char>::empty());
        assert(s.push(a) + last =~= s.push(a));
        assert(s.push(a).drop_last() =~= s);
    } else {
        let front = last.drop_last();
        assert(last[last.len() - 1] == last.last());
        assert forall|i: int| 0 <= i < front.len() implies #[trigger] front[i] != a && front[i]
            != b by {
            assert(front[i] == last[i]);
        }
        last_piece(s, a, b, front);
        assert(front.push(last.last()) =~= last);
        assert((s.push(a) + last).drop_last() =~= s.push(a) + front);
        assert(pieces(s.push(a) + last, a, b) =~= pieces(s, a, b).push(last));
        assert(pieces(last, a, b) =~= seq![last]);
    }
}

/// The characters of the texts in `v`.
pub open spec fn texts(v: Seq<String>) -> Seq<Seq<char>> {
    v.map_values(|s: String| s@)
}

/// Whether a text is among others.
pub fn holds_text(v: &Vec<String>, t: &str) -> (r: bool)
    ensures
        r == texts(v@).contains(t@),
{
    let mut i: usize = 0;
    while i < v.len()
        invariant
            i <= v@.len(),
            forall|j: int| 0 <= j < i ==> texts(v@)[j] != t@,
        decreases v@.len() - i,
    {
        assert(texts(v@)[i as int] == v@[i as int]@);
        if same(v[i].as_str(), t) {
            return true;
        }
        i += 1;
    }
    false
}

/// Cuts `s` at every `a` and at every `b`.
pub fn split(s: &str, a: char, b: char) -> (r: Vec<String>)
    ensures
        texts(r@) == pieces(s@, a, b),
        r@.len() > 0,
{
    let cs = chars_of(s);
    let mut out: Vec<String> = Vec::new();
    let mut piece: String = String::new();
    let mut i: usize = 0;
    assert(piece@ =~= s@.take(0));
    assert(texts(out@).push(piece@) =~= seq![s@.take(0)]);
    while i < cs.len()
        invariant
            i <= cs.len(),
            cs@ == s@,
            texts(out@).push(piece@) == pieces(s@.take(i as int), a, b),
        decreases cs.len() - i,
    {
        let ghost before = texts(out@).push(piece@);
        assert(s@.take(i + 1).drop_last() =~= s@.take(i as int));
        assert(s@.take(i + 1).last() == cs@[i as int]);
        if cs[i] == a || cs[i] == b {
            out.push(piece);
            piece = String::new();
            assert(texts(out@) =~= before);
        } else {
            piece.push(cs[i]);
            assert(texts(out@).push(piece@) =~= before.drop_last().push(before.last().push(cs@[i as int])));
        }
        i += 1;
    }
    assert(s@.take(i as int) =~= s@);
    let ghost all = texts(out@).push(piece@);
    out.push(piece);
    assert(texts(out@) =~= all);
    out
}

/// `s` without one carriage return at its end.
pub open spec fn without_cr(s: Seq<char>) -> Seq<char> {
    if s.len() > 0 && s.last() == '\r' {
        s.drop_last()
    } else {
        s
    }
}

/// The lines of `s`: each ends in a line feed, before which a carriage return
/// counts as part of the line's end; what follows the last line feed is a line
/// unless it is empty.
pub open spec fn lines_of(s: Seq<char>) -> Seq<Seq<char>> {
    let p = pieces(s, '\n', '\n');
    let ended = p.drop_last().map_values(|t: Seq<char>| without_cr(t));
    if p.last().len() == 0 {
        ended
    } else {
        ended.push(p.last())
    }
}

/// Cuts a text into lines.
pub fn lines(s: &str) -> (r: Vec<String>)
    ensures
        texts(r@) == lines_of(s@),
{
    let parts = split(s, '\n', '\n');
    let ghost p = pieces(s@, '\n', '\n');
    let ghost ended = p.drop_last().map_values(|t: Seq<char>| without_cr(t));
    let n: usize = parts.len() - 1;
    let mut out: Vec<String> = Vec::new();
    let mut i: usize = 0;
    assert(texts(out@) =~= ended.take(0));
    while i < n
        invariant
            i <= n,
            n == parts@.len() - 1,
            texts(parts@) == p,
            ended == p.drop_last().map_values(|t: Seq<char>| without_cr(t)),
            texts(out@) == ended.take(i as int),
        decreases n - i,
    {
        let ghost before = texts(out@);
        assert(p[i as int] == parts@[i as int]@);
        out.push(strip_cr(parts[i].as_str()));
        assert(texts(out@) =~= before.push(without_cr(p[i as int])));
        assert(texts(out@) =~= ended.take(i + 1));
        i += 1;
    }
    assert(texts(out@) =~= ended);
    assert(p.last() == parts@[n as int]@);
    if !parts[n].as_str().is_empty() {
        let ghost before = texts(out@);
        out.push(parts[n].clone());
        assert(texts(out@) =~= before.push(p.last()));
    }
    out
}

fn strip_cr(s: &str) -> (r: String)
    ensures
        r@ == without_cr(s@),
{
    let n: usize = s.unicode_len();
    if n > 0 && s.get_char(n - 1) == '\r' {
        assert(s@.subrange(0, n - 1) =~= s@.drop_last());
        s.substring_char(0, n - 1).to_owned()
    } else {
        s.to_owned()
    }
}

/// `std::str::from_utf8`, which succeeds on valid UTF-8 alone and then keeps
/// the bytes.
#[verifier::external_body]
fn read_utf8(bytes: &[u8]) -> (r: Option<String>)
    ensures
        match r {
            Some(s) => vstd::utf8::valid_utf8(bytes@) && s@ == vstd::utf8::decode_utf8(bytes@),
            None => !vstd::utf8::valid_utf8(bytes@),
        },
{
    std::str::from_utf8(bytes).ok().map(|s| s.to_string())
}

/// The text that bytes stand for in UTF-8, where they stand for one.
pub open spec fn text_of_bytes(bytes: Seq<u8>) -> Option<Seq<char>> {
    if vstd::utf8::valid_utf8(bytes) {
        Some(vstd::utf8::decode_utf8(bytes))
    } else {
        None
    }
}

pub fn utf8_text(bytes: &[u8]) -> (r: Option<String>)
    ensures
        opt_text(r) == text_of_bytes(bytes@),
{
    read_utf8(bytes)
}

/// The texts of `parts` with `sep` between each two.
pub open spec fn joined(parts: Seq<Seq<char>>, sep: Seq<char>) -> Seq<char>
    decreases parts.len(),
{
    if parts.len() == 0 {
        Seq::empty()
    } else if parts.len() == 1 {
        parts[0]
    } else {
        joined(parts.drop_last(), sep) + sep + parts.last()
    }
}

/// Joins the texts of `parts`, with `sep` between each two.
pub fn join(parts: &Vec<String>, sep: &str) -> (r: String)
    ensures
        r@ == joined(texts(parts@), sep@),
{
    let mut out: String = String::new();
    let mut i: usize = 0;
    while i < parts.len()
        invariant
            i <= parts.len(),
            out@ == joined(texts(parts@).take(i as int), sep@),
        decreases parts.len() - i,
    {
        assert(texts(parts@).take(i + 1).drop_last() =~= texts(parts@).take(i as int));
        assert(texts(parts@).take(i + 1).last() == parts@[i as int]@);
        if i > 0 {
            out.append(sep);
            out.append(parts[i].as_str());
        } else {
            assert(texts(parts@).take(1)[0] == parts@[0]@);
            out = parts[i].clone();
        }
        i += 1;
    }
    assert(texts(parts@).take(i as int) =~= texts(parts@));
    out
}

/// `s` with every `c` replaced by `with`.
pub open spec fn replaced(s: Seq<char>, c: char, with: Seq<char>) -> Seq<char>
    decreases s.len(),
{
    if s.len() == 0 {
        Seq::empty()
    } else if s.last() == c {
        replaced(s.drop_last(), c, with) + with
    } else {
        replaced(s.drop_last(), c, with).push(s.last())
    }
}

pub fn replace_char(s: &str, c: char, with: &str) -> (r: String)
    ensures
        r@ == replaced(s@, c, with@),
{
    let cs = chars_of(s);
    let mut out: String = String::new();
    let mut i: usize = 0;
    while i < cs.len()
        invariant
            i <= cs.len(),
            cs@ == s@,
            out@ == replaced(s@.take(i as int), c, with@),
        decreases cs.len() - i,
    {
        assert(s@.take(i + 1).drop_last() =~= s@.take(i as int));
        assert(s@.take(i + 1).last() == cs@[i as int]);
        if cs[i] == c {
            out.append(with);
        } else {
            out.push(cs[i]);
        }
        i += 1;
    }
    assert(s@.take(i as int) =~= s@);
    out
}

// ---------------------------------------------------------------------------
// Case
// ---------------------------------------------------------------------------

/// A text in lower case, as `str::to_lowercase` writes it.
pub uninterp spec fn lower_case(s: Seq<char>) -> Seq<char>;

/// `str::to_lowercase`, by the rules of Unicode; within ASCII it changes the
/// capital letters and nothing else.
#[verifier::external_body]
fn make_lower_case(s: &str) -> (r: String)
    ensures
        r@ == lower_case(s@),
        vstd::utf8::is_ascii_chars(s@) ==> r@ == s@.map_values(|c: char| ascii_lower(c)),
{
    s.to_lowercase()
}

pub fn to_lower_case(s: &str) -> (r: String)
    ensures
        r@ == lower_case(s@),
        vstd::utf8::is_ascii_chars(s@) ==> r@ == s@.map_values(|c: char| ascii_lower(c)),
{
    make_lower_case(s)
}

// ---------------------------------------------------------------------------
// Escaping for HTML
// ---------------------------------------------------------------------------

/// How one character is written in HTML text and in a quoted attribute.
pub open spec fn escaped_char(c: char) -> Seq<char> {
    if c == '&' {
        "&amp;"@
    } else if c == '<' {
        "&lt;"@
    } else if c == '>' {
        "&gt;"@
    } else if c == '"' {
        "&quot;"@
    } else {
        seq![c]
    }
}

/// `s` as HTML text: each character that could open or close markup is
/// written as an entity.
pub open spec fn escaped(s: Seq<char>) -> Seq<char>
    decreases s.len(),
{
    if s.len() == 0 {
        Seq::empty()
    } else {
        escaped(s.drop_last()) + escaped_char(s.last())
    }
}

/// Escapes `s` for HTML.
pub fn he(s: &str) -> (r: String)
    ensures
        r@ == escaped(s@),
{
    let cs = chars_of(s);
    let mut out: String = String::new();
    let mut i: usize = 0;
    while i < cs.len()
        invariant
            i <= cs.len(),
            cs@ == s@,
            out@ == escaped(s@.take(i as int)),
        decreases cs.len() - i,
    {
        assert(s@.take(i + 1).drop_last() =~= s@.take(i as int));
        let c = cs[i];
        assert(s@.take(i + 1).last() == c);
        if c == '&' {
            out.append("&amp;");
        } else if c == '<' {
            out.append("&lt;");
        } else if c == '>' {
            out.append("&gt;");
        } else if c == '"' {
            out.append("&quot;");
        } else {
            let ghost before = out@;
            out.push(c);
            assert(out@ =~= before + escaped_char(c));
        }
        i += 1;
    }
    assert(s@.take(i as int) =~= s@);
    out
}

/// Escaped text holds no character that opens or closes a tag or a quoted
/// attribute value.
pub proof fn escaped_text_is_inert(s: Seq<char>)
    ensures
        forall|i: int|
            0 <= i < escaped(s).len() ==> {
                &&& #[trigger] escaped(s)[i] != '<'
                &&& escaped(s)[i] != '>'
                &&& escaped(s)[i] != '"'
            },
    decreases s.len(),
{
    if s.len() > 0 {
        escaped_text_is_inert(s.drop_last());
        reveal_strlit("&amp;");
        reveal_strlit("&lt;");
        reveal_strlit("&gt;");
        reveal_strlit("&quot;");
        let head = escaped(s.drop_last());
        let tail = escaped_char(s.last());
        assert forall|i: int| 0 <= i < escaped(s).len() implies {
            &&& #[trigger] escaped(s)[i] != '<'
            &&& escaped(s)[i] != '>'
            &&& escaped(s)[i] != '"'
        } by {
            if i < head.len() {
                assert(escaped(s)[i] == head[i]);
            } else {
                assert(escaped(s)[i] == tail[i - head.len()]);
            }
        }
    }
}

// ---------------------------------------------------------------------------
// Whole numbers
// ---------------------------------------------------------------------------

pub open spec fn digit_char(d: int) -> char {
    (48 + d) as char
}

/// The decimal digits of `n`.
pub open spec fn nat_text(n: nat) -> Seq<char>
    decreases n,
{
    if n < 10 {
        seq![digit_char(n as int)]
    } else {
        nat_text(n / 10).push(digit_char((n % 10) as int))
    }
}

/// `n` in decimal, with a minus sign where it is negative.
pub open spec fn int_text(n: int) -> Seq<char> {
    if n < 0 {
        seq!['-'] + nat_text((-n) as nat)
    } else {
        nat_text(n as nat)
    }
}

fn push_digits(n: u64, out: &mut String)
    ensures
        final(out)@ == old(out)@ + nat_text(n as nat),
    decreases n,
{
    if n >= 10 {
        push_digits(n / 10, out);
    }
    let d = match n % 10 {
        0 => '0',
        1 => '1',
        2 => '2',
        3 => '3',
        4 => '4',
        5 => '5',
        6 => '6',
        7 => '7',
        8 => '8',
        _ => '9',
    };
    out.push(d);
    assert(out@ =~= old(out)@ + nat_text(n as nat));
}

/// Writes `n` in decimal.
pub fn u64_text(n: u64) -> (r: String)
    ensures
        r@ == nat_text(n as nat),
{
    let mut out: String = String::new();
    push_digits(n, &mut out);
    assert(out@ =~= nat_text(n as nat));
    out
}

/// Writes `n` in decimal.
pub fn i64_text(n: i64) -> (r: String)
    ensures
        r@ == int_text(n as int),
{
    if n < 0 {
        let mut out: String = String::new();
        out.push('-');
        let m: u64 = (-(n + 1)) as u64 + 1;
        push_digits(m, &mut out);
        assert(out@ =~= int_text(n as int));
        out
    } else {
        u64_text(n as u64)
    }
}

/// The number that a run of decimal digits stands for.
pub open spec fn digits_value(s: Seq<char>) -> nat
    decreases s.len(),
{
    if s.len() == 0 {
        0
    } else {
        (digits_value(s.drop_last()) * 10 + (s.last() as u32 - 48)) as nat
    }
}

pub open spec fn signed(s: Seq<char>) -> bool {
    s.len() > 0 && (s[0] == '+' || s[0] == '-')
}

pub open spec fn without_sign(s: Seq<char>) -> Seq<char> {
    if signed(s) {
        s.drop_first()
    } else {
        s
    }
}

pub open spec fn all_digits(s: Seq<char>) -> bool {
    forall|i: int| 0 <= i < s.len() ==> ascii_digit(#[trigger] s[i])
}

/// The integer that `s` stands for: an optional sign, then digits and nothing
/// else.
pub open spec fn int_of_text(s: Seq<char>) -> Option<int> {
    if without_sign(s).len() == 0 || !all_digits(without_sign(s)) {
        None
    } else if s[0] == '-' {
        Some(-digits_value(without_sign(s)))
    } else {
        Some(digits_value(without_sign(s)) as int)
    }
}

/// The integer that `s` stands for, where an `i64` can hold it.
pub open spec fn i64_of_text(s: Seq<char>) -> Option<i64> {
    match int_of_text(s) {
        Some(n) => if i64::MIN <= n <= i64::MAX {
            Some(n as i64)
        } else {
            None
        },
        None => None,
    }
}

proof fn lemma_digits_value_grows(s: Seq<char>, k: int)
    requires
        0 <= k <= s.len(),
        all_digits(s),
    ensures
        digits_value(s.take(k)) <= digits_value(s),
    decreases s.len() - k,
{
    if k < s.len() {
        lemma_digits_value_grows(s, k + 1);
        assert(s.take(k + 1).drop_last() =~= s.take(k));
        assert(ascii_digit(s[k]));
    } else {
        assert(s.take(k) =~= s);
    }
}

/// Reads a whole number.
pub fn parse_i64(s: &str) -> (r: Option<i64>)
    ensures
        r == i64_of_text(s@),
{
    let cs = chars_of(s);
    let n: usize = cs.len();
    if n == 0 {
        return None;
    }
    let has_sign = cs[0] == '+' || cs[0] == '-';
    let start: usize = if has_sign {
        1
    } else {
        0
    };
    let ghost body = without_sign(s@);
    assert(body =~= s@.skip(start as int));
    if start == n {
        return None;
    }
    let mut v: u128 = 0;
    let mut i: usize = start;
    while i < n
        invariant
            start <= i <= n,
            n == cs.len(),
            cs@ == s@,
            start <= 1,
            body == s@.skip(start as int),
            body == without_sign(s@),
            body.len() > 0,
            v == digits_value(body.take(i - start)),
            v <= 0x8000_0000_0000_0000,
            all_digits(body.take(i - start)),
        decreases n - i,
    {
        let c = cs[i];
        assert(body[i - start] == c);
        if !('0' <= c && c <= '9') {
            assert(!all_digits(body));
            return None;
        }
        let d: u128 = (c as u32 - 48) as u128;
        let w: u128 = v * 10 + d;
        assert(body.take(i + 1 - start).drop_last() =~= body.take(i - start));
        assert(body.take(i + 1 - start).last() == c);
        assert forall|j: int| 0 <= j < i + 1 - start implies ascii_digit(
            #[trigger] body.take(i + 1 - start)[j],
        ) by {
            if j < i - start {
                assert(body.take(i - start)[j] == body[j]);
            }
        }
        if w > 0x8000_0000_0000_0000 {
            proof {
                if all_digits(body) {
                    lemma_digits_value_grows(body, i + 1 - start);
                }
            }
            return None;
        }
        v = w;
        i += 1;
    }
    assert(body.take(i - start) =~= body);
    if cs[0] == '-' {
        if v == 0x8000_0000_0000_0000 {
            Some(i64::MIN)
        } else {
            Some(-(v as i64))
        }
    } else if v > 0x7fff_ffff_ffff_ffff {
        None
    } else {
        Some(v as i64)
    }
}

proof fn lemma_digits_round_trip(n: nat)
    ensures
        nat_text(n).len() > 0,
        all_digits(nat_text(n)),
        digits_value(nat_text(n)) == n,
    decreases n,
{
    if n >= 10 {
        lemma_digits_round_trip(n / 10);
        let t = nat_text(n);
        assert(t.drop_last() =~= nat_text(n / 10));
    } else {
        let t = nat_text(n);
        assert(t.drop_last() =~= Seq::<char>::empty());
        assert(digits_value(t.drop_last()) == 0);
    }
}

/// What is written for a whole number is read back as that number.
pub proof fn written_number_reads_back(n: i64)
    ensures
        i64_of_text(int_text(n as int)) == Some(n),
{
    if n < 0 {
        lemma_digits_round_trip((-n) as nat);
        assert(int_text(n as int).drop_first() =~= nat_text((-n) as nat));
    } else {
        lemma_digits_round_trip(n as nat);
        assert(ascii_digit(int_text(n as int)[0]));
    }
}

// ---------------------------------------------------------------------------
// Sorting
// ---------------------------------------------------------------------------

/// Whether no text comes before an earlier one.
pub open spec fn in_order(v: Seq<Seq<char>>) -> bool {
    forall|i: int, j: int| 0 <= i < j < v.len() ==> !precedes(#[trigger] v[j], #[trigger] v[i])
}

/// Puts a text in its place among texts that are in order.
fn insert_in_order(v: Vec<String>, t: String) -> (r: Vec<String>)
    requires
        in_order(texts(v@)),
    ensures
        in_order(texts(r@)),
        texts(r@).to_multiset() == texts(v@).to_multiset().insert(t@),
{
    let mut r = v;
    let ghost before = texts(r@);
    let ghost word = t@;
    let mut at: usize = r.len();
    while at > 0 && is_before(t.as_str(), r[at - 1].as_str())
        invariant
            at <= r@.len(),
            texts(r@) == before,
            word == t@,
            forall|j: int| at <= j < before.len() ==> precedes(word, #[trigger] before[j]),
        decreases at,
    {
        assert(before[at - 1] == r@[at - 1]@);
        at -= 1;
    }
    let ghost stop = at as int;
    r.insert(at, t);
    proof {
        let after = texts(r@);
        assert(after =~= before.insert(stop, word));
        vstd::seq_lib::to_multiset_insert(before, stop, word);
        assert forall|i: int, j: int| 0 <= i < j < after.len() implies !precedes(
            #[trigger] after[j],
            #[trigger] after[i],
        ) by {
            let x = if i < stop {
                i
            } else {
                i - 1
            };
            let y = if j < stop {
                j
            } else {
                j - 1
            };
            if i == stop {
                assert(after[j] == before[y]);
                assert(precedes(word, before[y]));
                precedes_is_total(word, before[y]);
                if precedes(before[y], word) {
                    precedes_is_transitive(word, before[y], word);
                    precedes_is_irreflexive(word);
                }
            } else if j == stop {
                assert(after[i] == before[i]);
                assert(!precedes(word, before[stop - 1]));
                if precedes(word, before[i]) {
                    if i < stop - 1 {
                        assert(!precedes(before[stop - 1], before[i]));
                        precedes_is_total(before[stop - 1], before[i]);
                        if before[stop - 1] != before[i] {
                            precedes_is_transitive(word, before[i], before[stop - 1]);
                        }
                    }
                }
            } else {
                assert(after[i] == before[x] && after[j] == before[y]);
            }
        }
    }
    r
}

/// Sorts texts. None is lost, and equal ones stay.
pub fn sort_texts(v: Vec<String>) -> (r: Vec<String>)
    ensures
        in_order(texts(r@)),
        texts(r@).to_multiset() == texts(v@).to_multiset(),
{
    let mut r: Vec<String> = Vec::new();
    let mut i: usize = 0;
    assert(texts(r@) =~= texts(v@).take(0));
    while i < v.len()
        invariant
            i <= v@.len(),
            in_order(texts(r@)),
            texts(r@).to_multiset() == texts(v@).take(i as int).to_multiset(),
        decreases v@.len() - i,
    {
        proof {
            let t = texts(v@).take(i as int);
            assert(texts(v@).take(i + 1) =~= t.push(v@[i as int]@));
            vstd::seq_lib::to_multiset_insert(t, t.len() as int, v@[i as int]@);
            assert(t.insert(t.len() as int, v@[i as int]@) =~= t.push(v@[i as int]@));
        }
        r = insert_in_order(r, v[i].clone());
        i += 1;
    }
    assert(texts(v@).take(i as int) =~= texts(v@));
    r
}

// ---------------------------------------------------------------------------
// Templates
// ---------------------------------------------------------------------------

/// Where a character first occurs, or the end of the text.
pub open spec fn first_place(s: Seq<char>, c: char) -> nat
    decreases s.len(),
{
    if s.len() == 0 {
        0
    } else if s[0] == c {
        0
    } else {
        1 + first_place(s.drop_first(), c)
    }
}

/// The value that goes by a name: the first one; nothing where there is none.
pub open spec fn value_named(values: Seq<(Seq<char>, Seq<char>)>, name: Seq<char>) -> Seq<char>
    decreases values.len(),
{
    if values.len() == 0 {
        Seq::empty()
    } else if values[0].0 == name {
        values[0].1
    } else {
        value_named(values.drop_first(), name)
    }
}

/// A template with each `{name}` in it replaced by the value of that name. What
/// the values hold is not looked at again.
pub open spec fn filled(t: Seq<char>, values: Seq<(Seq<char>, Seq<char>)>) -> Seq<char>
    decreases t.len(),
{
    if t.len() == 0 {
        Seq::empty()
    } else if t[0] == '{' {
        let end = first_place(t, '}') as int;
        if 0 < end < t.len() {
            value_named(values, t.subrange(1, end)) + filled(t.skip(end + 1), values)
        } else {
            t
        }
    } else {
        seq![t[0]] + filled(t.drop_first(), values)
    }
}

pub open spec fn pairs(values: Seq<(&str, &str)>) -> Seq<(Seq<char>, Seq<char>)> {
    Seq::new(values.len(), |i: int| (values[i].0@, values[i].1@))
}

fn find_char(cs: &Vec<char>, from: usize, c: char) -> (r: usize)
    requires
        from <= cs@.len(),
    ensures
        from <= r <= cs@.len(),
        r == from + first_place(cs@.skip(from as int), c),
{
    let mut i: usize = from;
    while i < cs.len() && cs[i] != c
        invariant
            from <= i <= cs@.len(),
            from + first_place(cs@.skip(from as int), c) == i + first_place(cs@.skip(i as int), c),
        decreases cs@.len() - i,
    {
        assert(cs@.skip(i as int).drop_first() =~= cs@.skip(i + 1));
        i += 1;
    }
    i
}

fn find_value<'a>(values: &Vec<(&'a str, &'a str)>, name: &str) -> (r: &'a str)
    ensures
        r@ == value_named(pairs(values@), name@),
{
    let ghost all = pairs(values@);
    let mut i: usize = 0;
    assert(all.skip(0) =~= all);
    while i < values.len()
        invariant
            i <= values@.len(),
            all == pairs(values@),
            value_named(all.skip(i as int), name@) == value_named(all, name@),
        decreases values@.len() - i,
    {
        if same(values[i].0, name) {
            return values[i].1;
        }
        assert(all.skip(i as int).drop_first() =~= all.skip(i + 1));
        i += 1;
    }
    assert(""@ =~= Seq::<char>::empty()) by {
        reveal_strlit("");
    }
    ""
}

fn text_of(cs: &Vec<char>, from: usize, to: usize) -> (r: String)
    requires
        from <= to <= cs@.len(),
    ensures
        r@ == cs@.subrange(from as int, to as int),
{
    let mut out: String = String::new();
    let mut i: usize = from;
    while i < to
        invariant
            from <= i <= to <= cs@.len(),
            out@ =~= cs@.subrange(from as int, i as int),
        decreases to - i,
    {
        out.push(cs[i]);
        i += 1;
    }
    out
}

/// Fills a template.
pub fn fill(template: &str, values: &Vec<(&str, &str)>) -> (r: String)
    ensures
        r@ == filled(template@, pairs(values@)),
{
    let cs = chars_of(template);
    let ghost vals = pairs(values@);
    let mut out: String = String::new();
    let mut i: usize = 0;
    assert(cs@.skip(0) =~= cs@);
    assert(out@ + filled(cs@, vals) =~= filled(cs@, vals));
    while i < cs.len()
        invariant
            i <= cs@.len(),
            cs@ == template@,
            vals == pairs(values@),
            out@ + filled(cs@.skip(i as int), vals) == filled(cs@, vals),
        decreases cs@.len() - i,
    {
        let ghost rest = cs@.skip(i as int);
        let ghost before = out@;
        if cs[i] == '{' {
            assert(rest[0] == '{');
            let end: usize = find_char(&cs, i, '}');
            assert(end > i);
            if end >= cs.len() {
                let tail = text_of(&cs, i, cs.len());
                out.append(tail.as_str());
                assert(tail@ =~= rest);
                return out;
            }
            let name = text_of(&cs, i + 1, end);
            let value = find_value(values, name.as_str());
            out.append(value);
            proof {
                let n = first_place(rest, '}') as int;
                assert(name@ =~= rest.subrange(1, n));
                assert(rest.skip(n + 1) =~= cs@.skip(end + 1));
                assert(out@ + filled(cs@.skip(end + 1), vals) =~= before + (value@ + filled(
                    rest.skip(n + 1),
                    vals,
                )));
            }
            i = end + 1;
        } else {
            out.push(cs[i]);
            proof {
                assert(rest.drop_first() =~= cs@.skip(i + 1));
                assert(out@ + filled(cs@.skip(i + 1), vals) =~= before + (seq![rest[0]] + filled(
                    rest.drop_first(),
                    vals,
                )));
            }
            i += 1;
        }
    }
    assert(cs@.skip(i as int) =~= Seq::empty());
    assert(out@ + Seq::<char>::empty() =~= out@);
    out
}

// ---------------------------------------------------------------------------
// Bytes, and letters of any script
// ---------------------------------------------------------------------------

/// The first `n` bytes of a text, where a character ends there.
pub open spec fn byte_prefix(s: Seq<char>, n: int) -> Option<Seq<char>> {
    if vstd::utf8::is_char_boundary(vstd::utf8::encode_utf8(s), n) {
        Some(vstd::utf8::decode_utf8(vstd::utf8::encode_utf8(s).subrange(0, n)))
    } else {
        None
    }
}

pub fn take_bytes(s: &str, n: usize) -> (r: Option<&str>)
    ensures
        opt_str(r) == byte_prefix(s@, n as int),
{
    if s.is_char_boundary(n) {
        let (head, _tail) = s.split_at(n);
        proof {
            vstd::utf8::encode_utf8_decode_utf8(head@);
        }
        Some(head)
    } else {
        None
    }
}

/// Whether a character is a letter or a digit in any script.
pub uninterp spec fn alphanumeric(c: char) -> bool;

/// `char::is_alphanumeric`: the result depends on the character alone. Of the
/// ASCII characters it is true of the letters and the digits.
#[verifier::external_body]
fn test_alphanumeric(c: char) -> (r: bool)
    ensures
        r == alphanumeric(c),
        c as u32 <= 127 ==> r == ascii_alphanumeric(c),
{
    c.is_alphanumeric()
}

/// A text with a hyphen for each character that is neither letter nor digit.
pub open spec fn slug_of(s: Seq<char>) -> Seq<char> {
    s.map_values(slug_char())
}

pub open spec fn slug_char() -> spec_fn(char) -> char {
    |c: char|
        if alphanumeric(c) {
            c
        } else {
            '-'
        }
}

pub fn slug(s: &str) -> (r: String)
    ensures
        r@ == slug_of(s@),
{
    let cs = chars_of(s);
    let mut out: String = String::new();
    let mut i: usize = 0;
    while i < cs.len()
        invariant
            i <= cs@.len(),
            cs@ == s@,
            out@ =~= slug_of(s@.take(i as int)),
        decreases cs@.len() - i,
    {
        if test_alphanumeric(cs[i]) {
            out.push(cs[i]);
        } else {
            out.push('-');
        }
        i += 1;
    }
    assert(s@.take(i as int) =~= s@);
    out
}

// ---------------------------------------------------------------------------
// Debugging output
// ---------------------------------------------------------------------------

/// A text in quotes, as Rust prints it for debugging.
pub uninterp spec fn quoted(s: Seq<char>) -> Seq<char>;

/// `format!` with `{:?}` on a text: the result depends on the text alone.
#[verifier::external_body]
fn write_quoted(s: &str) -> (r: String)
    ensures
        r@ == quoted(s@),
{
    format!("{:?}", s)
}

/// Puts a text in quotes for debugging.
pub fn quote(s: &str) -> (r: String)
    ensures
        r@ == quoted(s@),
{
    write_quoted(s)
}

/// Trimming takes white space off both ends and nothing else.
pub proof fn trimming_takes_only_the_ends(s: Seq<char>)
    ensures
        exists|i: int, j: int|
            0 <= i <= j <= s.len() && trimmed(s) == #[trigger] s.subrange(i, j) && (forall|k: int|
                0 <= k < i ==> white(#[trigger] s[k])) && (forall|k: int|
                j <= k < s.len() ==> white(#[trigger] s[k])),
{
    let i = lemma_front_is_cut(s);
    let t = trimmed_front(s);
    let n = lemma_back_is_cut(t);
    assert(t.take(n) =~= s.subrange(i, i + n));
    assert forall|k: int| i + n <= k < s.len() implies white(#[trigger] s[k]) by {
        assert(t[k - i] == s[k]);
    }
}

proof fn lemma_front_is_cut(s: Seq<char>) -> (i: int)
    ensures
        0 <= i <= s.len(),
        trimmed_front(s) == s.skip(i),
        forall|k: int| 0 <= k < i ==> white(#[trigger] s[k]),
    decreases s.len(),
{
    if s.len() > 0 && white(s[0]) {
        let rest = s.drop_first();
        let i = lemma_front_is_cut(rest);
        assert(rest.skip(i) =~= s.skip(i + 1));
        assert forall|k: int| 0 <= k < i + 1 implies white(#[trigger] s[k]) by {
            if k > 0 {
                assert(rest[k - 1] == s[k]);
            }
        }
        i + 1
    } else {
        assert(s.skip(0) =~= s);
        0
    }
}

proof fn lemma_back_is_cut(s: Seq<char>) -> (n: int)
    ensures
        0 <= n <= s.len(),
        trimmed_back(s) == s.take(n),
        forall|k: int| n <= k < s.len() ==> white(#[trigger] s[k]),
    decreases s.len(),
{
    if s.len() > 0 && white(s.last()) {
        let rest = s.drop_last();
        let n = lemma_back_is_cut(rest);
        assert(rest.take(n) =~= s.take(n));
        assert forall|k: int| n <= k < s.len() implies white(#[trigger] s[k]) by {
            if k < rest.len() {
                assert(rest[k] == s[k]);
            }
        }
        n
    } else {
        assert(s.take(s.len() as int) =~= s);
        s.len() as int
    }
}

/// Blanks, tabs and line breaks are white space; letters, digits and punctuation are not.
pub proof fn blanks_are_white_space(c: char)
    ensures
        white(' ') && white('\t') && white('\n') && white('\r'),
        '!' <= c <= '~' ==> !white(c),
{
}

/// One text comes before another where it is a part of it that it begins with, or where
/// at the first place in which they differ it has the lesser character.
pub proof fn order_is_that_of_a_dictionary(a: Seq<char>, b: Seq<char>, k: int)
    requires
        0 <= k <= a.len(),
        k <= b.len(),
        a.take(k) == b.take(k),
    ensures
        k == a.len() && k < b.len() ==> precedes(a, b) && !precedes(b, a),
        k < a.len() && k < b.len() && a[k] < b[k] ==> precedes(a, b) && !precedes(b, a),
    decreases k,
{
    if k > 0 {
        let x = a.drop_first();
        let y = b.drop_first();
        assert(a.take(k)[0] == b.take(k)[0]);
        assert(a.take(k)[0] == a[0] && b.take(k)[0] == b[0]);
        assert forall|i: int| 0 <= i < k - 1 implies #[trigger] x.take(k - 1)[i] == y.take(k - 1)[i] by {
            assert(a.take(k)[i + 1] == b.take(k)[i + 1]);
            assert(a.take(k)[i + 1] == a[i + 1] && b.take(k)[i + 1] == b[i + 1]);
            assert(x[i] == a[i + 1] && y[i] == b[i + 1]);
        }
        assert(x.take(k - 1) =~= y.take(k - 1));
        if k < a.len() && k < b.len() {
            assert(x[k - 1] == a[k] && y[k - 1] == b[k]);
        }
        order_is_that_of_a_dictionary(x, y, k - 1);
    }
}

/// What is taken off the end is that character alone, all of it.
pub proof fn only_trailing_characters_go(s: Seq<char>, c: char)
    ensures
        ({
            let n = without_trailing(s, c).len() as int;
            &&& n <= s.len()
            &&& without_trailing(s, c) == s.take(n)
            &&& forall|k: int| n <= k < s.len() ==> #[trigger] s[k] == c
            &&& n > 0 ==> s[n - 1] != c
        }),
    decreases s.len(),
{
    if s.len() > 0 && s.last() == c {
        let rest = s.drop_last();
        only_trailing_characters_go(rest, c);
        let n = without_trailing(rest, c).len() as int;
        assert(rest.take(n) =~= s.take(n));
        assert forall|k: int| n <= k < s.len() implies #[trigger] s[k] == c by {
            if k < rest.len() {
                assert(rest[k] == s[k]);
            }
        }
    } else {
        assert(s.take(s.len() as int) =~= s);
    }
}

/// The pieces of a text hold no separator, and put together with it they are the text
/// again.
pub proof fn pieces_join_again(s: Seq<char>, a: char, b: char)
    ensures
        pieces(s, a, b).len() > 0,
        forall|i: int| 0 <= i < pieces(s, a, b).len() ==> in_one_piece(#[trigger] pieces(s, a, b)[i], a, b),
        a == b ==> joined(pieces(s, a, b), seq![a]) == s,
    decreases s.len(),
{
    let all = pieces(s, a, b);
    if s.len() == 0 {
        assert(all[0] == s);
    } else {
        let front = s.drop_last();
        let rest = pieces(front, a, b);
        let c = s.last();
        pieces_join_again(front, a, b);
        assert(front.push(c) =~= s);
        if c == a || c == b {
            assert(all.drop_last() =~= rest);
            assert(joined(all, seq![a]) =~= joined(rest, seq![a]) + seq![a] + Seq::<char>::empty());
            assert(a == b ==> joined(all, seq![a]) =~= s);
            assert forall|i: int| 0 <= i < all.len() implies in_one_piece(#[trigger] all[i], a, b) by {
                if i < rest.len() {
                    assert(all[i] == rest[i]);
                }
            }
        } else {
            let last = rest.last();
            assert(all.drop_last() =~= rest.drop_last());
            assert(all.last() == last.push(c));
            assert(in_one_piece(rest[rest.len() - 1], a, b));
            assert forall|i: int| 0 <= i < all.len() implies in_one_piece(#[trigger] all[i], a, b) by {
                if i < rest.len() - 1 {
                    assert(all[i] == rest[i]);
                } else {
                    assert forall|k: int| 0 <= k < all[i].len() implies #[trigger] all[i][k] != a
                        && all[i][k] != b by {
                        if k < last.len() {
                            assert(last[k] == all[i][k]);
                        }
                    }
                }
            }
            if rest.len() == 1 {
                assert(all[0] == rest[0].push(c));
                assert(joined(all, seq![a]) == all[0]);
                assert(joined(rest, seq![a]) == rest[0]);
            } else {
                assert(joined(all, seq![a]) =~= joined(rest, seq![a]).push(c));
            }
        }
    }
}

/// Texts are joined in their order, with the separator between two of them and nowhere
/// else.
pub proof fn texts_are_joined_in_order(parts: Seq<Seq<char>>, more: Seq<Seq<char>>, sep: Seq<char>)
    ensures
        joined(Seq::empty(), sep) == Seq::<char>::empty(),
        parts.len() == 1 ==> joined(parts, sep) == parts[0],
        parts.len() > 0 && more.len() > 0 ==> joined(parts + more, sep) == joined(parts, sep) + sep
            + joined(more, sep),
    decreases more.len(),
{
    if parts.len() > 0 && more.len() > 0 {
        let all = parts + more;
        assert(all.drop_last() =~= parts + more.drop_last());
        assert(all.last() == more.last());
        if more.len() == 1 {
            assert(parts + more.drop_last() =~= parts);
        } else {
            texts_are_joined_in_order(parts, more.drop_last(), sep);
            assert(joined(all, sep) =~= joined(parts, sep) + sep + joined(more, sep));
        }
    }
}

/// Replacing goes character by character: the one character gives way, every other stays,
/// and a text is treated part by part.
pub proof fn replacing_goes_by_character(s: Seq<char>, t: Seq<char>, c: char, d: char, with: Seq<char>)
    ensures
        replaced(seq![c], c, with) == with,
        d != c ==> replaced(seq![d], c, with) == seq![d],
        replaced(s + t, c, with) == replaced(s, c, with) + replaced(t, c, with),
    decreases t.len(),
{
    assert(seq![c].drop_last() =~= Seq::<char>::empty());
    assert(seq![d].drop_last() =~= Seq::<char>::empty());
    assert(replaced(seq![c].drop_last(), c, with) =~= Seq::<char>::empty());
    assert(replaced(seq![d].drop_last(), c, with) =~= Seq::<char>::empty());
    assert(replaced(seq![c], c, with) =~= with);
    if t.len() == 0 {
        assert(s + t =~= s);
        assert(replaced(t, c, with) =~= Seq::<char>::empty());
        assert(replaced(s, c, with) + replaced(t, c, with) =~= replaced(s, c, with));
    } else {
        replacing_goes_by_character(s, t.drop_last(), c, d, with);
        assert((s + t).drop_last() =~= s + t.drop_last());
        assert(replaced(s + t, c, with) =~= replaced(s, c, with) + replaced(t, c, with));
    }
}

/// Escaping goes character by character: the four that mean something in a page are
/// written by name, every other stays, and a text is treated part by part.
pub proof fn escaping_goes_by_character(s: Seq<char>, t: Seq<char>, c: char)
    ensures
        escaped(seq!['&']) == "&amp;"@,
        escaped(seq!['<']) == "&lt;"@,
        escaped(seq!['>']) == "&gt;"@,
        escaped(seq!['"']) == "&quot;"@,
        c != '&' && c != '<' && c != '>' && c != '"' ==> escaped(seq![c]) == seq![c],
        escaped(s + t) == escaped(s) + escaped(t),
    decreases t.len(),
{
    lemma_escaped_one('&');
    lemma_escaped_one('<');
    lemma_escaped_one('>');
    lemma_escaped_one('"');
    lemma_escaped_one(c);
    if t.len() == 0 {
        assert(s + t =~= s);
        assert(escaped(s) + escaped(t) =~= escaped(s));
    } else {
        escaping_goes_by_character(s, t.drop_last(), c);
        assert((s + t).drop_last() =~= s + t.drop_last());
        assert(escaped(s + t) =~= escaped(s) + escaped(t));
    }
}

proof fn lemma_escaped_one(c: char)
    ensures
        escaped(seq![c]) == escaped_char(c),
{
    assert(seq![c].drop_last() =~= Seq::<char>::empty());
    assert(escaped(seq![c].drop_last()) =~= Seq::<char>::empty());
    assert(escaped(seq![c]) =~= escaped_char(c));
}

/// A placeholder gives way to the first value of its name, and text without placeholders
/// stays as it is.
pub proof fn placeholders_are_filled(
    name: Seq<char>,
    rest: Seq<char>,
    plain: Seq<char>,
    values: Seq<(Seq<char>, Seq<char>)>,
    i: int,
)
    requires
        !name.contains('}'),
        !plain.contains('{'),
    ensures
        filled(seq!['{'] + name + seq!['}'] + rest, values) == value_named(values, name) + filled(
            rest,
            values,
        ),
        filled(plain + rest, values) == plain + filled(rest, values),
        0 <= i < values.len() && values[i].0 == name && (forall|j: int|
            0 <= j < i ==> (#[trigger] values[j]).0 != name) ==> value_named(values, name)
            == values[i].1,
    decreases plain.len() + values.len(),
{
    let t = seq!['{'] + name + seq!['}'] + rest;
    let end = name.len() as int + 1;
    lemma_first_place(t, '}', end);
    assert(t.subrange(1, end) =~= name);
    assert(t.skip(end + 1) =~= rest);
    lemma_plain_is_kept(plain, rest, values);
    if 0 <= i < values.len() && values[i].0 == name && (forall|j: int|
        0 <= j < i ==> (#[trigger] values[j]).0 != name) {
        lemma_first_named(values, name, i);
    }
}

proof fn lemma_first_place(t: Seq<char>, c: char, n: int)
    requires
        0 <= n < t.len(),
        t[n] == c,
        forall|k: int| 0 <= k < n ==> #[trigger] t[k] != c,
    ensures
        first_place(t, c) == n,
    decreases n,
{
    if n > 0 {
        let rest = t.drop_first();
        assert(t[0] != c);
        assert forall|k: int| 0 <= k < n - 1 implies #[trigger] rest[k] != c by {
            assert(rest[k] == t[k + 1]);
        }
        lemma_first_place(rest, c, n - 1);
    }
}

proof fn lemma_plain_is_kept(
    plain: Seq<char>,
    rest: Seq<char>,
    values: Seq<(Seq<char>, Seq<char>)>,
)
    requires
        !plain.contains('{'),
    ensures
        filled(plain + rest, values) == plain + filled(rest, values),
    decreases plain.len(),
{
    if plain.len() == 0 {
        assert(plain + rest =~= rest);
        assert(plain + filled(rest, values) =~= filled(rest, values));
    } else {
        let t = plain + rest;
        let tail = plain.drop_first();
        assert(plain.contains(plain[0]));
        assert(!tail.contains('{')) by {
            if tail.contains('{') {
                let k = choose|k: int| 0 <= k < tail.len() && tail[k] == '{';
                assert(plain[k + 1] == '{');
            }
        }
        lemma_plain_is_kept(tail, rest, values);
        assert(t.drop_first() =~= tail + rest);
        assert(filled(t, values) =~= plain + filled(rest, values));
    }
}

/// The first value of a name is the one that counts.
pub proof fn lemma_first_named(values: Seq<(Seq<char>, Seq<char>)>, name: Seq<char>, i: int)
    requires
        0 <= i < values.len(),
        values[i].0 == name,
        forall|j: int| 0 <= j < i ==> (#[trigger] values[j]).0 != name,
    ensures
        value_named(values, name) == values[i].1,
    decreases i,
{
    if i > 0 {
        let rest = values.drop_first();
        assert(values[0].0 != name);
        assert forall|j: int| 0 <= j < i - 1 implies (#[trigger] rest[j]).0 != name by {
            assert(rest[j] == values[j + 1]);
        }
        lemma_first_named(rest, name, i - 1);
    }
}

/// A text begins with any text it is made of from the front, and holds any it is made of.
pub proof fn parts_are_found(a: Seq<char>, part: Seq<char>, b: Seq<char>)
    ensures
        has_prefix(part + b, part),
        (part + b).skip(part.len() as int) == b,
        contains_text(a + part + b, part),
{
    assert((part + b).take(part.len() as int) =~= part);
    assert((part + b).skip(part.len() as int) =~= b);
    assert((a + part + b).subrange(a.len() as int, (a.len() + part.len()) as int) =~= part);
}

/// A capital letter of ASCII has its small letter, and everything else stays.
pub proof fn small_letters_stay(c: char)
    ensures
        ascii_lower('A') == 'a' && ascii_lower('Z') == 'z',
        'A' <= c <= 'Z' ==> 'a' <= ascii_lower(c) <= 'z' && ascii_lower(c) as u32 == c as u32 + 32,
        !('A' <= c <= 'Z') ==> ascii_lower(c) == c,
        ascii_lower(ascii_lower(c)) == ascii_lower(c),
{
}

/// Bytes that are text read as the text that they are the bytes of.
pub proof fn bytes_of_a_text_read_back(s: Seq<char>)
    ensures
        text_of_bytes(vstd::utf8::encode_utf8(s)) == Some(s),
        byte_count(s) == vstd::utf8::encode_utf8(s).len(),
{
    vstd::utf8::encode_utf8_valid_utf8(s);
    vstd::utf8::encode_utf8_decode_utf8(s);
}

/// A number is read digit by digit; a sign may stand before it, and anything else makes it
/// no number.
pub proof fn numbers_are_read_by_digit(s: Seq<char>, c: char, i: int)
    ensures
        '0' <= c <= '9' ==> digits_value(s.push(c)) == 10 * digits_value(s) + (c as int - 48),
        s.len() > 0 && all_digits(s) ==> int_of_text(s) == Some(digits_value(s) as int)
            && int_of_text(seq!['-'] + s) == Some(-digits_value(s)) && int_of_text(seq!['+'] + s)
            == Some(digits_value(s) as int),
        0 < i < s.len() && !('0' <= s[i] <= '9') ==> int_of_text(s) is None,
        int_of_text(Seq::empty()) is None,
        int_of_text(s) matches Some(n) ==> (i64::MIN <= n <= i64::MAX ==> i64_of_text(s) == Some(
            n as i64,
        )),
        int_of_text(s) matches Some(n) ==> ((n < i64::MIN || n > i64::MAX) ==> i64_of_text(s) is None),
{
    assert(s.push(c).drop_last() =~= s);
    if s.len() > 0 && all_digits(s) {
        assert(ascii_digit(s[0]));
        let m = seq!['-'] + s;
        let p = seq!['+'] + s;
        assert(m.drop_first() =~= s && p.drop_first() =~= s);
    }
    if 0 < i < s.len() && !('0' <= s[i] <= '9') {
        if signed(s) {
            assert(without_sign(s)[i - 1] == s[i]);
        } else {
            assert(without_sign(s)[i] == s[i]);
        }
    }
}

/// A text without a line break is one line; a line break ends a line, with or without a
/// carriage return before it.
pub proof fn line_breaks_end_lines(s: Seq<char>, t: Seq<char>)
    requires
        in_one_piece(t, '\n', '\n'),
    ensures
        t.len() > 0 ==> lines_of(t) == seq![t],
        t.len() > 0 && t.last() != '\r' ==> lines_of(t.push('\n')) == seq![t],
        lines_of(t.push('\r').push('\n')) == seq![t],
        t.len() > 0 ==> lines_of(s.push('\n') + t) == lines_of(s.push('\n')).push(t),
{
    let e = Seq::<char>::empty();
    last_piece(e, '\n', '\n', t);
    if t.len() > 0 {
        assert(seq![t].drop_last().map_values(|x: Seq<char>| without_cr(x)).push(t) =~= seq![t]);
    }
    last_piece(t, '\n', '\n', e);
    assert(t.push('\n') + e =~= t.push('\n'));
    let p = pieces(t.push('\n'), '\n', '\n');
    assert(p =~= seq![t].push(e));
    assert(p.drop_last() =~= seq![t]);
    if t.len() > 0 && t.last() != '\r' {
        assert(p.drop_last().map_values(|x: Seq<char>| without_cr(x)) =~= seq![t]);
    }
    let u = t.push('\r');
    assert(in_one_piece(u, '\n', '\n')) by {
        assert forall|i: int| 0 <= i < u.len() implies #[trigger] u[i] != '\n' && u[i] != '\n' by {
            if i < t.len() {
                assert(t[i] == u[i]);
            }
        }
    }
    last_piece(e, '\n', '\n', u);
    last_piece(u, '\n', '\n', e);
    assert(u.push('\n') + e =~= u.push('\n'));
    let q = pieces(u.push('\n'), '\n', '\n');
    assert(q =~= seq![u].push(e));
    assert(q.drop_last() =~= seq![u]);
    assert(u.drop_last() =~= t);
    assert(q.drop_last().map_values(|x: Seq<char>| without_cr(x)) =~= seq![t]);
    if t.len() > 0 {
        last_piece(s, '\n', '\n', t);
        last_piece(s, '\n', '\n', e);
        assert(s.push('\n') + e =~= s.push('\n'));
        let a = pieces(s, '\n', '\n');
        assert(a.push(t).drop_last() =~= a);
        assert(a.push(e).drop_last() =~= a);
    }
}

/// A slug keeps letters and digits, in any script, and puts a hyphen for everything else.
pub proof fn slugs_keep_letters_and_digits(s: Seq<char>, i: int)
    requires
        0 <= i < s.len(),
    ensures
        slug_of(s).len() == s.len(),
        alphanumeric(s[i]) ==> slug_of(s)[i] == s[i],
        !alphanumeric(s[i]) ==> slug_of(s)[i] == '-',
{
}

/// A count that fits is kept, and one that does not is the largest there is.
pub proof fn counts_are_kept_where_they_fit(n: nat)
    ensures
        n <= i64::MAX ==> as_count(n) == n,
        n > i64::MAX ==> as_count(n) == i64::MAX,
{
}

} // verus!
