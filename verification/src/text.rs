//! Character-level text operations with specifications over `Seq<char>`.
//!
//! Every operation here mirrors the behaviour of the `str` method of the
//! same purpose (`trim`, `lines`, `split`, `contains`, `replace`, ...), and
//! its contract states that behaviour as a spec function.
use vstd::prelude::*;
use vstd::string::StringExecFns;

verus! {

// ---------------------------------------------------------------------------
// Specifications
// ---------------------------------------------------------------------------

/// The Unicode `White_Space` property, as `char::is_whitespace` defines it.
pub open spec fn is_white(c: char) -> bool {
    let n = c as u32;
    (9 <= n && n <= 13) || n == 32 || n == 0x85 || n == 0xA0 || n == 0x1680 || (0x2000 <= n
        && n <= 0x200A) || n == 0x2028 || n == 0x2029 || n == 0x202F || n == 0x205F || n
        == 0x3000
}

/// ASCII decimal digit.
pub open spec fn is_digit(c: char) -> bool {
    '0' <= c && c <= '9'
}

/// Number of leading white-space characters.
pub open spec fn lead_ws(s: Seq<char>) -> nat
    decreases s.len(),
{
    if s.len() > 0 && is_white(s[0]) {
        1 + lead_ws(s.drop_first())
    } else {
        0
    }
}

/// Number of trailing white-space characters.
pub open spec fn trail_ws(s: Seq<char>) -> nat
    decreases s.len(),
{
    if s.len() > 0 && is_white(s.last()) {
        1 + trail_ws(s.drop_last())
    } else {
        0
    }
}

/// `str::trim_start`.
pub open spec fn trim_start(s: Seq<char>) -> Seq<char> {
    s.skip(lead_ws(s) as int)
}

/// `str::trim_end`.
pub open spec fn trim_end(s: Seq<char>) -> Seq<char> {
    s.take(s.len() - trail_ws(s))
}

/// `str::trim`.
pub open spec fn trim(s: Seq<char>) -> Seq<char> {
    trim_end(trim_start(s))
}

/// `p` occurs in `s` at index `i`.
pub open spec fn occurs_at(s: Seq<char>, p: Seq<char>, i: int) -> bool {
    0 <= i && i + p.len() <= s.len() && s.subrange(i, i + p.len()) == p
}

/// `str::starts_with`.
pub open spec fn starts_with(s: Seq<char>, p: Seq<char>) -> bool {
    occurs_at(s, p, 0)
}

/// `str::ends_with`.
pub open spec fn ends_with(s: Seq<char>, p: Seq<char>) -> bool {
    p.len() <= s.len() && occurs_at(s, p, s.len() - p.len())
}

/// `str::contains` with a string pattern.
pub open spec fn contains(s: Seq<char>, p: Seq<char>) -> bool {
    exists|i: int| occurs_at(s, p, i)
}

/// Index of the first occurrence of `p` in `s` at or after `from`
/// (`s.len() + 1` when there is none).
pub open spec fn find_from(s: Seq<char>, p: Seq<char>, from: int) -> int
    decreases s.len() + 1 - from,
{
    if from > s.len() {
        s.len() + 1int
    } else if occurs_at(s, p, from) {
        from
    } else {
        find_from(s, p, from + 1)
    }
}

/// What `find_from` returns: no occurrence (and none from `from` on), or the
/// first occurrence at or after `from`.
pub proof fn lemma_find_from(s: Seq<char>, p: Seq<char>, from: int)
    ensures
        ({
            let k = find_from(s, p, from);
            (k == s.len() + 1 && forall|j: int| from <= j ==> !occurs_at(s, p, j)) || (from
                <= k <= s.len() && occurs_at(s, p, k) && forall|j: int|
                from <= j < k ==> !occurs_at(s, p, j))
        }),
    decreases s.len() + 1 - from,
{
    if from <= s.len() && !occurs_at(s, p, from) {
        lemma_find_from(s, p, from + 1);
    }
}

/// Index of the first occurrence of `p` in `s` (`s.len() + 1` when none).
pub open spec fn find(s: Seq<char>, p: Seq<char>) -> int {
    find_from(s, p, 0)
}

/// `str::split_once`.
pub open spec fn split_once(s: Seq<char>, p: Seq<char>) -> Option<(Seq<char>, Seq<char>)> {
    let k = find(s, p);
    if k <= s.len() {
        Some((s.take(k), s.skip(k + p.len())))
    } else {
        None
    }
}

/// `str::split` with a non-empty string pattern: the pieces in order.
pub open spec fn split(s: Seq<char>, p: Seq<char>) -> Seq<Seq<char>>
    decreases s.len(),
{
    let k = find(s, p);
    if p.len() == 0 || k > s.len() {
        seq![s]
    } else {
        proof {
            lemma_find_from(s, p, 0);
        }
        seq![s.take(k)] + split(s.skip(k + p.len()), p)
    }
}

/// Splitting gives at least one piece.
pub proof fn lemma_split_nonempty(s: Seq<char>, p: Seq<char>)
    ensures
        split(s, p).len() >= 1,
    decreases s.len(),
{
    let k = find(s, p);
    if p.len() > 0 && k <= s.len() {
        lemma_find_from(s, p, 0);
        lemma_split_nonempty(s.skip(k + p.len()), p);
    }
}

/// `str::replace` with a non-empty pattern.
pub open spec fn replace(s: Seq<char>, from: Seq<char>, to: Seq<char>) -> Seq<char>
    decreases s.len(),
{
    let k = find(s, from);
    if from.len() == 0 || k > s.len() {
        s
    } else {
        proof {
            lemma_find_from(s, from, 0);
        }
        s.take(k) + to + replace(s.skip(k + from.len()), from, to)
    }
}

/// `str::trim_end_matches` with a non-empty string pattern.
pub open spec fn trim_end_matches(s: Seq<char>, p: Seq<char>) -> Seq<char>
    decreases s.len(),
{
    if p.len() > 0 && ends_with(s, p) {
        trim_end_matches(s.take(s.len() - p.len()), p)
    } else {
        s
    }
}

/// `str::trim_start_matches` with a character pattern.
pub open spec fn trim_start_char(s: Seq<char>, c: char) -> Seq<char>
    decreases s.len(),
{
    if s.len() > 0 && s[0] == c {
        trim_start_char(s.drop_first(), c)
    } else {
        s
    }
}

/// `str::trim_end_matches` with a character pattern.
pub open spec fn trim_end_char(s: Seq<char>, c: char) -> Seq<char>
    decreases s.len(),
{
    if s.len() > 0 && s.last() == c {
        trim_end_char(s.drop_last(), c)
    } else {
        s
    }
}

/// Index of the first white-space character of `t` at or after `i`
/// (`t.len()` when there is none).
pub open spec fn word_end(t: Seq<char>, i: int) -> int
    decreases t.len() - i,
{
    if 0 <= i < t.len() && !is_white(t[i]) {
        word_end(t, i + 1)
    } else {
        i
    }
}

/// The first item of `str::split_whitespace`: the first run of characters
/// that are not white space, if there is one.
pub open spec fn first_word(s: Seq<char>) -> Option<Seq<char>> {
    let t = trim_start(s);
    if t.len() == 0 {
        None
    } else {
        Some(t.take(word_end(t, 0)))
    }
}

/// A line as `str::lines` yields it from a piece that ended at a `'\n'`:
/// the piece without a final `'\r'`.
pub open spec fn strip_cr(s: Seq<char>) -> Seq<char> {
    if s.len() > 0 && s.last() == '\r' {
        s.drop_last()
    } else {
        s
    }
}

/// `str::lines`: pieces separated by `'\n'`, each without a `'\r'` that
/// preceded its `'\n'`; a final empty piece is not a line.
pub open spec fn lines(s: Seq<char>) -> Seq<Seq<char>>
    decreases s.len(),
{
    let k = find(s, seq!['\n']);
    if s.len() == 0 {
        seq![]
    } else if k > s.len() {
        seq![s]
    } else {
        proof {
            lemma_find_from(s, seq!['\n'], 0);
        }
        seq![strip_cr(s.take(k))] + lines(s.skip(k + 1))
    }
}

/// `s.lines().next().unwrap_or("")`.
pub open spec fn first_line(s: Seq<char>) -> Seq<char> {
    if lines(s).len() > 0 {
        lines(s)[0]
    } else {
        seq![]
    }
}

/// Decimal text of a natural number, as `Display` prints an unsigned integer.
pub open spec fn dec(n: nat) -> Seq<char>
    decreases n,
{
    if n < 10 {
        seq![digit_char(n)]
    } else {
        dec(n / 10) + seq![digit_char(n % 10)]
    }
}

/// The ASCII digit of a value below ten.
pub open spec fn digit_char(d: nat) -> char {
    if d == 0 {
        '0'
    } else if d == 1 {
        '1'
    } else if d == 2 {
        '2'
    } else if d == 3 {
        '3'
    } else if d == 4 {
        '4'
    } else if d == 5 {
        '5'
    } else if d == 6 {
        '6'
    } else if d == 7 {
        '7'
    } else if d == 8 {
        '8'
    } else {
        '9'
    }
}

/// Number of bytes of the UTF-8 encoding of one character.
pub open spec fn char_utf8_len(c: char) -> nat {
    let n = c as u32;
    if n < 0x80 {
        1
    } else if n < 0x800 {
        2
    } else if n < 0x10000 {
        3
    } else {
        4
    }
}

/// Number of bytes of the UTF-8 encoding of a text (`str::len`).
pub open spec fn utf8_len(s: Seq<char>) -> nat
    decreases s.len(),
{
    if s.len() == 0 {
        0
    } else {
        utf8_len(s.drop_last()) + char_utf8_len(s.last())
    }
}

/// Number of leading characters of `s`, from index `i` on, that fit in `n`
/// bytes of UTF-8 together with the first `i`.
pub open spec fn prefix_end(s: Seq<char>, n: nat, i: nat) -> nat
    decreases s.len() - i,
{
    if i < s.len() && utf8_len(s.take(i + 1int)) <= n {
        prefix_end(s, n, i + 1)
    } else {
        i
    }
}

/// The longest prefix of `s` whose UTF-8 encoding takes at most `n` bytes.
pub open spec fn byte_prefix(s: Seq<char>, n: nat) -> Seq<char> {
    s.take(prefix_end(s, n, 0) as int)
}

/// The prefix found from index `i` on still fits in `n` bytes.
pub proof fn lemma_prefix_end_fits(s: Seq<char>, n: nat, i: nat)
    requires
        i <= s.len(),
        utf8_len(s.take(i as int)) <= n,
    ensures
        i <= prefix_end(s, n, i) <= s.len(),
        utf8_len(s.take(prefix_end(s, n, i) as int)) <= n,
    decreases s.len() - i,
{
    if i < s.len() && utf8_len(s.take(i + 1int)) <= n {
        lemma_prefix_end_fits(s, n, i + 1);
    }
}

/// Whether byte offset `n` of `s` falls on a character boundary
/// (`str::is_char_boundary`), so that `&s[..n]` does not panic.
pub open spec fn is_boundary(s: Seq<char>, n: nat) -> bool {
    n == 0 || n == utf8_len(s) || utf8_len(byte_prefix(s, n)) == n
}

/// What `char::is_numeric` returns: whether the character's Unicode general
/// category is one of the number categories (a function of the character).
pub uninterp spec fn numeric_char(c: char) -> bool;

/// Calls `char::is_numeric`. The contract names the result; of the Unicode
/// tables behind it, only that among ASCII characters exactly the digits are
/// numeric is stated.
#[verifier::external_body]
pub(crate) fn is_numeric_char(c: char) -> (r: bool)
    ensures
        r == numeric_char(c),
        ('0' <= c && c <= '9') ==> r,
        (c <= '\x7f' && !('0' <= c && c <= '9')) ==> !r,
{
    c.is_numeric()
}

// ---------------------------------------------------------------------------
// Conversions between `str` and characters
// ---------------------------------------------------------------------------

/// The characters of `s`, in order.
pub fn chars_of(s: &str) -> (v: Vec<char>)
    ensures
        v@ == s@,
{
    let mut v: Vec<char> = Vec::new();
    for c in it: s.chars()
        invariant
            v@ == it.seq().take(it.index() as int),
    {
        v.push(c);
    }
    v
}

/// Appends the character `c` to `out` (`String::push`).
#[verifier::external_body]
pub(crate) fn push_char(out: &mut String, c: char)
    ensures
        final(out)@ == old(out)@.push(c),
{
    out.push(c);
}

/// Appends the text `s` to `out`.
pub fn push_text(out: &mut String, s: &str)
    ensures
        final(out)@ == old(out)@ + s@,
{
    out.append(s);
}

/// Appends the characters `v` to `out`.
pub fn push_chars(out: &mut String, v: &Vec<char>)
    ensures
        final(out)@ == old(out)@ + v@,
{
    let ghost start = out@;
    let mut i: usize = 0;
    while i < v.len()
        invariant
            i <= v.len(),
            out@ == start + v@.take(i as int),
        decreases v.len() - i,
    {
        push_char(out, v[i]);
        assert(v@.take(i as int).push(v@[i as int]) =~= v@.take(i + 1));
        i += 1;
    }
    assert(v@.take(v.len() as int) =~= v@);
}

/// A `String` holding the characters `v`.
pub fn string_of(v: &Vec<char>) -> (s: String)
    ensures
        s@ == v@,
{
    let mut s = String::new();
    push_chars(&mut s, v);
    s
}

/// A copy of a string.
pub fn copy_text(s: &str) -> (r: String)
    ensures
        r@ == s@,
{
    let mut r = String::new();
    push_text(&mut r, s);
    r
}

/// What `str::to_lowercase` returns for a text: its Unicode lowercase
/// mapping, which is applied per character except for context rules such as
/// the final sigma (a function of the text alone).
pub uninterp spec fn lowercase_of(s: Seq<char>) -> Seq<char>;

/// Calls `str::to_lowercase`. The contract only names the result: the
/// Unicode lowercase tables it depends on are not written out here.
#[verifier::external_body]
pub(crate) fn to_lowercase(s: &str) -> (r: String)
    ensures
        r@ == lowercase_of(s@),
{
    s.to_lowercase()
}

// ---------------------------------------------------------------------------
// Character-sequence operations
// ---------------------------------------------------------------------------

/// The views of a sequence of character vectors.
pub open spec fn views(v: Seq<Vec<char>>) -> Seq<Seq<char>> {
    v.map_values(|x: Vec<char>| x@)
}

/// The views of a sequence of strings.
pub open spec fn string_views(v: Seq<String>) -> Seq<Seq<char>> {
    v.map_values(|s: String| s@)
}

/// Whether `p` occurs in `s` at index `i`.
pub fn occurs_at_exec(s: &Vec<char>, p: &Vec<char>, i: usize) -> (b: bool)
    ensures
        b == occurs_at(s@, p@, i as int),
{
    if i > s.len() || p.len() > s.len() - i {
        return false;
    }
    let mut j: usize = 0;
    while j < p.len()
        invariant
            i + p.len() <= s.len(),
            j <= p.len(),
            forall|k: int| 0 <= k < j ==> s@[i + k] == p@[k],
        decreases p.len() - j,
    {
        if s[i + j] != p[j] {
            assert(s@.subrange(i as int, i + p.len())[j as int] != p@[j as int]);
            return false;
        }
        j += 1;
    }
    assert(s@.subrange(i as int, i + p.len()) =~= p@);
    true
}

/// The first occurrence of `p` in `s` at or after `from`, if any.
pub fn find_from_exec(s: &Vec<char>, p: &Vec<char>, from: usize) -> (r: Option<usize>)
    ensures
        match r {
            Some(k) => k == find_from(s@, p@, from as int) && k <= s.len(),
            None => find_from(s@, p@, from as int) == s.len() + 1,
        },
{
    proof {
        lemma_find_from(s@, p@, from as int);
    }
    if from > s.len() {
        return None;
    }
    let mut i = from;
    while i <= s.len()
        invariant
            from <= i,
            i <= s.len() + 1,
            forall|j: int| from <= j < i ==> !occurs_at(s@, p@, j),
        decreases s.len() + 1 - i,
    {
        proof {
            lemma_find_from(s@, p@, from as int);
        }
        if occurs_at_exec(s, p, i) {
            return Some(i);
        }
        if i == s.len() {
            assert forall|j: int| from <= j implies !occurs_at(s@, p@, j) by {
                if j > s.len() {
                    assert(!occurs_at(s@, p@, j));
                }
            }
            return None;
        }
        i += 1;
    }
    None
}

/// Whether `p` occurs somewhere in `s` (`str::contains`).
pub fn contains_exec(s: &Vec<char>, p: &Vec<char>) -> (b: bool)
    ensures
        b == contains(s@, p@),
{
    let r = find_from_exec(s, p, 0);
    proof {
        lemma_find_from(s@, p@, 0);
    }
    r.is_some()
}

/// `str::contains` on a string and a pattern string.
pub fn text_contains(s: &str, p: &str) -> (b: bool)
    ensures
        b == contains(s@, p@),
{
    contains_exec(&chars_of(s), &chars_of(p))
}

/// `str::starts_with`.
pub fn starts_with_exec(s: &Vec<char>, p: &Vec<char>) -> (b: bool)
    ensures
        b == starts_with(s@, p@),
{
    occurs_at_exec(s, p, 0)
}

/// `str::ends_with`.
pub fn ends_with_exec(s: &Vec<char>, p: &Vec<char>) -> (b: bool)
    ensures
        b == ends_with(s@, p@),
{
    if p.len() > s.len() {
        false
    } else {
        occurs_at_exec(s, p, s.len() - p.len())
    }
}

/// The characters `s[from..to]`.
pub fn slice_chars(s: &Vec<char>, from: usize, to: usize) -> (r: Vec<char>)
    requires
        from <= to <= s.len(),
    ensures
        r@ == s@.subrange(from as int, to as int),
{
    let mut r: Vec<char> = Vec::new();
    let mut i = from;
    while i < to
        invariant
            from <= i <= to <= s.len(),
            r@ == s@.subrange(from as int, i as int),
        decreases to - i,
    {
        r.push(s[i]);
        assert(s@.subrange(from as int, i as int).push(s@[i as int]) =~= s@.subrange(
            from as int,
            i + 1,
        ));
        i += 1;
    }
    r
}

/// Concatenation of two character vectors.
pub fn concat_chars(a: &Vec<char>, b: &Vec<char>) -> (r: Vec<char>)
    ensures
        r@ == a@ + b@,
{
    let mut r = a.clone();
    let mut i: usize = 0;
    while i < b.len()
        invariant
            i <= b.len(),
            r@ == a@ + b@.take(i as int),
        decreases b.len() - i,
    {
        r.push(b[i]);
        assert(a@ + b@.take(i as int).push(b@[i as int]) =~= a@ + b@.take(i + 1));
        i += 1;
    }
    assert(b@.take(b.len() as int) =~= b@);
    r
}

/// Whether two character vectors are equal.
pub fn chars_eq(a: &Vec<char>, b: &Vec<char>) -> (r: bool)
    ensures
        r == (a@ == b@),
{
    if a.len() != b.len() {
        return false;
    }
    let mut i: usize = 0;
    while i < a.len()
        invariant
            a.len() == b.len(),
            i <= a.len(),
            forall|j: int| 0 <= j < i ==> a@[j] == b@[j],
        decreases a.len() - i,
    {
        if a[i] != b[i] {
            return false;
        }
        i += 1;
    }
    assert(a@ =~= b@);
    true
}

/// Whether two strings are equal.
pub fn text_eq(a: &str, b: &str) -> (r: bool)
    ensures
        r == (a@ == b@),
{
    chars_eq(&chars_of(a), &chars_of(b))
}

/// Occurrences in a suffix are occurrences in the whole, shifted.
pub proof fn lemma_occurs_skip(s: Seq<char>, p: Seq<char>, start: int, j: int)
    requires
        0 <= start <= s.len(),
        0 <= j,
    ensures
        occurs_at(s.skip(start), p, j) == occurs_at(s, p, start + j),
{
    if 0 <= j && j + p.len() <= s.len() - start {
        assert(s.skip(start).subrange(j, j + p.len()) =~= s.subrange(
            start + j,
            start + j + p.len(),
        ));
    }
}

/// Searching a suffix is searching the whole from the suffix's start.
pub proof fn lemma_find_skip(s: Seq<char>, p: Seq<char>, start: int)
    requires
        0 <= start <= s.len(),
    ensures
        find(s.skip(start), p) == if find_from(s, p, start) <= s.len() {
            find_from(s, p, start) - start
        } else {
            s.len() - start + 1
        },
{
    let t = s.skip(start);
    lemma_find_from(s, p, start);
    lemma_find_from(t, p, 0);
    let k = find_from(s, p, start);
    let m = find(t, p);
    if m <= t.len() {
        lemma_occurs_skip(s, p, start, m);
        if k < start + m {
            lemma_occurs_skip(s, p, start, k - start);
        }
    } else if k <= s.len() {
        lemma_occurs_skip(s, p, start, k - start);
    }
}

/// `str::split` with a non-empty pattern.
pub fn split_exec(s: &Vec<char>, p: &Vec<char>) -> (r: Vec<Vec<char>>)
    requires
        p.len() > 0,
    ensures
        views(r@) == split(s@, p@),
{
    let mut pieces: Vec<Vec<char>> = Vec::new();
    let mut start: usize = 0;
    assert(s@.skip(0) =~= s@);
    loop
        invariant
            p.len() > 0,
            start <= s.len(),
            split(s@, p@) == views(pieces@) + split(s@.skip(start as int), p@),
        decreases s.len() - start,
    {
        proof {
            lemma_find_skip(s@, p@, start as int);
            lemma_find_from(s@, p@, start as int);
        }
        let ghost rest = s@.skip(start as int);
        match find_from_exec(s, p, start) {
            None => {
                let piece = slice_chars(s, start, s.len());
                assert(piece@ =~= rest);
                pieces.push(piece);
                assert(views(pieces@) =~= split(s@, p@));
                return pieces;
            },
            Some(k) => {
                let piece = slice_chars(s, start, k);
                assert(piece@ =~= rest.take(k - start));
                assert(rest.skip(k - start + p.len()) =~= s@.skip(k + p.len()));
                pieces.push(piece);
                assert(views(pieces@) =~= views(pieces@.drop_last()) + seq![piece@]);
                start = k + p.len();
            },
        }
    }
}

/// `str::split` on strings with a non-empty string pattern.
pub fn split_text(s: &str, p: &str) -> (r: Vec<Vec<char>>)
    requires
        p@.len() > 0,
    ensures
        views(r@) == split(s@, p@),
{
    split_exec(&chars_of(s), &chars_of(p))
}

/// `str::replace` with a non-empty pattern.
pub fn replace_exec(s: &Vec<char>, from: &Vec<char>, to: &Vec<char>) -> (r: Vec<char>)
    requires
        from.len() > 0,
    ensures
        r@ == replace(s@, from@, to@),
{
    let mut out: Vec<char> = Vec::new();
    let mut start: usize = 0;
    assert(s@.skip(0) =~= s@);
    loop
        invariant
            from.len() > 0,
            start <= s.len(),
            replace(s@, from@, to@) == out@ + replace(s@.skip(start as int), from@, to@),
        decreases s.len() - start,
    {
        proof {
            lemma_find_skip(s@, from@, start as int);
            lemma_find_from(s@, from@, start as int);
        }
        let ghost rest = s@.skip(start as int);
        match find_from_exec(s, from, start) {
            None => {
                let piece = slice_chars(s, start, s.len());
                assert(piece@ =~= rest);
                let r = concat_chars(&out, &piece);
                return r;
            },
            Some(k) => {
                let piece = slice_chars(s, start, k);
                assert(piece@ =~= rest.take(k - start));
                assert(rest.skip(k - start + from.len()) =~= s@.skip(k + from.len()));
                let o1 = concat_chars(&out, &piece);
                out = concat_chars(&o1, to);
                assert(out@ + replace(s@.skip(k + from.len()), from@, to@) =~= o1@ + to@
                    + replace(s@.skip(k + from.len()), from@, to@));
                start = k + from.len();
            },
        }
    }
}

/// `str::lines`.
pub fn lines_exec(s: &Vec<char>) -> (r: Vec<Vec<char>>)
    ensures
        views(r@) == lines(s@),
{
    let nl: Vec<char> = vec!['\n'];
    assert(nl@ =~= seq!['\n']);
    let mut out: Vec<Vec<char>> = Vec::new();
    let mut start: usize = 0;
    assert(s@.skip(0) =~= s@);
    loop
        invariant
            nl@ == seq!['\n'],
            start <= s.len(),
            lines(s@) == views(out@) + lines(s@.skip(start as int)),
        decreases s.len() - start,
    {
        proof {
            lemma_find_skip(s@, nl@, start as int);
            lemma_find_from(s@, nl@, start as int);
        }
        let ghost rest = s@.skip(start as int);
        if start == s.len() {
            assert(views(out@) + lines(rest) =~= views(out@));
            return out;
        }
        match find_from_exec(s, &nl, start) {
            None => {
                let piece = slice_chars(s, start, s.len());
                assert(piece@ =~= rest);
                out.push(piece);
                assert(views(out@) =~= lines(s@));
                return out;
            },
            Some(k) => {
                let mut piece = slice_chars(s, start, k);
                assert(piece@ =~= rest.take(k - start));
                if piece.len() > 0 && piece[piece.len() - 1] == '\r' {
                    piece.pop();
                }
                assert(piece@ =~= strip_cr(rest.take(k - start)));
                assert(rest.skip(k - start + 1) =~= s@.skip(k + 1));
                out.push(piece);
                assert(views(out@) =~= views(out@.drop_last()) + seq![piece@]);
                start = k + 1;
            },
        }
    }
}

/// `s.lines().next().unwrap_or("")`.
pub fn first_line_exec(s: &Vec<char>) -> (r: Vec<char>)
    ensures
        r@ == first_line(s@),
{
    let ls = lines_exec(s);
    if ls.len() > 0 {
        assert(views(ls@)[0] == ls@[0]@);
        ls[0].clone()
    } else {
        Vec::new()
    }
}

proof fn lemma_lead_ws_step(s: Seq<char>, i: int)
    requires
        0 <= i < s.len(),
        is_white(s[i]),
    ensures
        lead_ws(s.skip(i)) == 1 + lead_ws(s.skip(i + 1)),
{
    assert(s.skip(i).drop_first() =~= s.skip(i + 1));
}

proof fn lemma_trail_ws_step(s: Seq<char>, i: int)
    requires
        0 < i <= s.len(),
        is_white(s[i - 1]),
    ensures
        trail_ws(s.take(i)) == 1 + trail_ws(s.take(i - 1)),
{
    assert(s.take(i).drop_last() =~= s.take(i - 1));
}

/// `str::trim`.
pub fn trim_exec(s: &Vec<char>) -> (r: Vec<char>)
    ensures
        r@ == trim(s@),
{
    let mut a: usize = 0;
    assert(s@.skip(0) =~= s@);
    while a < s.len() && is_white_exec(s[a])
        invariant
            a <= s.len(),
            lead_ws(s@) == a + lead_ws(s@.skip(a as int)),
        decreases s.len() - a,
    {
        proof {
            lemma_lead_ws_step(s@, a as int);
        }
        a += 1;
    }
    let ghost t = trim_start(s@);
    assert(t =~= s@.skip(a as int));
    let mut b: usize = s.len();
    assert(t.take(t.len() as int) =~= t);
    while b > a && is_white_exec(s[b - 1])
        invariant
            a <= b <= s.len(),
            t == s@.skip(a as int),
            trail_ws(t) == (s.len() - b) + trail_ws(t.take(b - a)),
        decreases b,
    {
        proof {
            lemma_trail_ws_step(t, b - a);
        }
        b -= 1;
    }
    let r = slice_chars(s, a, b);
    assert(r@ =~= trim_end(t));
    r
}

/// `s.split_whitespace().next()`.
pub fn first_word_exec(s: &Vec<char>) -> (r: Option<Vec<char>>)
    ensures
        match r {
            Some(w) => first_word(s@) == Some(w@),
            None => first_word(s@) is None,
        },
{
    let mut a: usize = 0;
    assert(s@.skip(0) =~= s@);
    while a < s.len() && is_white_exec(s[a])
        invariant
            a <= s.len(),
            lead_ws(s@) == a + lead_ws(s@.skip(a as int)),
        decreases s.len() - a,
    {
        proof {
            lemma_lead_ws_step(s@, a as int);
        }
        a += 1;
    }
    let ghost t = trim_start(s@);
    assert(t =~= s@.skip(a as int));
    if a == s.len() {
        return None;
    }
    let mut b: usize = a;
    while b < s.len() && !is_white_exec(s[b])
        invariant
            a <= b <= s.len(),
            t == s@.skip(a as int),
            word_end(t, 0) == word_end(t, b - a),
            forall|k: int| 0 <= k < b - a ==> !is_white(t[k]),
        decreases s.len() - b,
    {
        b += 1;
    }
    let w = slice_chars(s, a, b);
    assert(w@ =~= t.take(word_end(t, 0)));
    Some(w)
}

/// An answer that means yes: `y` or `yes`, given in lowercase.
pub open spec fn affirmative(lower: Seq<char>) -> bool {
    lower == "y"@ || lower == "yes"@
}

/// Whether a lowercase answer means yes.
pub fn affirmative_text(lower: &str) -> (r: bool)
    ensures
        r == affirmative(lower@),
{
    text_eq(lower, "y") || text_eq(lower, "yes")
}

/// Whether an answer means yes, in any case (`y`, `Y`, `yes`, `YES`, ...).
pub fn answer_is_yes(answer: &str) -> (r: bool)
    ensures
        r == affirmative(lowercase_of(answer@)),
{
    let lower = to_lowercase(answer);
    affirmative_text(lower.as_str())
}

/// `str::trim` on a string.
pub fn trim_text(s: &str) -> (r: Vec<char>)
    ensures
        r@ == trim(s@),
{
    trim_exec(&chars_of(s))
}

/// `char::is_whitespace`.
pub fn is_white_exec(c: char) -> (b: bool)
    ensures
        b == is_white(c),
{
    let n = c as u32;
    (9 <= n && n <= 13) || n == 32 || n == 0x85 || n == 0xA0 || n == 0x1680 || (0x2000 <= n
        && n <= 0x200A) || n == 0x2028 || n == 0x2029 || n == 0x202F || n == 0x205F || n
        == 0x3000
}

/// `str::trim_end_matches` with a non-empty string pattern.
pub fn trim_end_matches_exec(s: &Vec<char>, p: &Vec<char>) -> (r: Vec<char>)
    requires
        p.len() > 0,
    ensures
        r@ == trim_end_matches(s@, p@),
{
    let mut e: usize = s.len();
    assert(s@.take(s.len() as int) =~= s@);
    loop
        invariant
            p.len() > 0,
            e <= s.len(),
            trim_end_matches(s@, p@) == trim_end_matches(s@.take(e as int), p@),
        decreases e,
    {
        let cur = slice_chars(s, 0, e);
        if ends_with_exec(&cur, p) {
            assert(cur@.take(cur.len() - p.len()) =~= s@.take(e - p.len()));
            e = e - p.len();
        } else {
            return cur;
        }
    }
}

/// `str::trim_start_matches` with a character pattern.
pub fn trim_start_char_exec(s: &Vec<char>, c: char) -> (r: Vec<char>)
    ensures
        r@ == trim_start_char(s@, c),
{
    let mut a: usize = 0;
    assert(s@.skip(0) =~= s@);
    while a < s.len() && s[a] == c
        invariant
            a <= s.len(),
            trim_start_char(s@, c) == trim_start_char(s@.skip(a as int), c),
        decreases s.len() - a,
    {
        assert(s@.skip(a as int).drop_first() =~= s@.skip(a + 1));
        a += 1;
    }
    slice_chars(s, a, s.len())
}

/// `str::trim_end_matches` with a character pattern.
pub fn trim_end_char_exec(s: &Vec<char>, c: char) -> (r: Vec<char>)
    ensures
        r@ == trim_end_char(s@, c),
{
    let mut b: usize = s.len();
    assert(s@.take(b as int) =~= s@);
    while b > 0 && s[b - 1] == c
        invariant
            b <= s.len(),
            trim_end_char(s@, c) == trim_end_char(s@.take(b as int), c),
        decreases b,
    {
        assert(s@.take(b as int).drop_last() =~= s@.take(b - 1));
        b -= 1;
    }
    slice_chars(s, 0, b)
}

// ---------------------------------------------------------------------------
// Ordering of texts
// ---------------------------------------------------------------------------

/// `a <= b` in the order of `String`: lexicographic by character value (the
/// order of the UTF-8 bytes).
pub open spec fn lex_le(a: Seq<char>, b: Seq<char>) -> bool
    decreases a.len(),
{
    if a.len() == 0 {
        true
    } else if b.len() == 0 {
        false
    } else if a[0] != b[0] {
        (a[0] as int) < (b[0] as int)
    } else {
        lex_le(a.drop_first(), b.drop_first())
    }
}

/// Two texts are always ordered one way or the other.
pub proof fn lemma_lex_total(a: Seq<char>, b: Seq<char>)
    ensures
        lex_le(a, b) || lex_le(b, a),
    decreases a.len(),
{
    if a.len() > 0 && b.len() > 0 {
        if a[0] == b[0] {
            lemma_lex_total(a.drop_first(), b.drop_first());
        } else {
            assert((a[0] as int) != (b[0] as int));
        }
    }
}

/// The order is transitive.
pub proof fn lemma_lex_trans(a: Seq<char>, b: Seq<char>, c: Seq<char>)
    requires
        lex_le(a, b),
        lex_le(b, c),
    ensures
        lex_le(a, c),
    decreases a.len(),
{
    if a.len() > 0 && b.len() > 0 && c.len() > 0 && a[0] == b[0] && b[0] == c[0] {
        lemma_lex_trans(a.drop_first(), b.drop_first(), c.drop_first());
    }
}

/// Texts ordered both ways are equal.
pub proof fn lemma_lex_antisym(a: Seq<char>, b: Seq<char>)
    requires
        lex_le(a, b),
        lex_le(b, a),
    ensures
        a == b,
    decreases a.len(),
{
    if a.len() > 0 && b.len() > 0 {
        lemma_lex_antisym(a.drop_first(), b.drop_first());
        assert(a =~= seq![a[0]] + a.drop_first());
        assert(b =~= seq![b[0]] + b.drop_first());
    }
}

/// `a <= b` in the order of `String`.
pub fn lex_le_exec(a: &Vec<char>, b: &Vec<char>) -> (r: bool)
    ensures
        r == lex_le(a@, b@),
{
    let mut i: usize = 0;
    assert(a@.skip(0) =~= a@ && b@.skip(0) =~= b@);
    while i < a.len() && i < b.len() && a[i] == b[i]
        invariant
            i <= a.len(),
            i <= b.len(),
            lex_le(a@, b@) == lex_le(a@.skip(i as int), b@.skip(i as int)),
        decreases a.len() - i,
    {
        assert(a@.skip(i as int).drop_first() =~= a@.skip(i + 1));
        assert(b@.skip(i as int).drop_first() =~= b@.skip(i + 1));
        i += 1;
    }
    if i == a.len() {
        true
    } else if i == b.len() {
        false
    } else {
        a[i] < b[i]
    }
}

/// The views of a sequence of character vectors are in order.
pub open spec fn lex_sorted(s: Seq<Seq<char>>) -> bool {
    forall|i: int, j: int| 0 <= i < j < s.len() ==> lex_le(s[i], s[j])
}

/// Sorts texts in the order of `String` (a stable insertion sort).
pub fn sort_texts(v: Vec<Vec<char>>) -> (r: Vec<Vec<char>>)
    ensures
        lex_sorted(views(r@)),
        views(r@).to_multiset() == views(v@).to_multiset(),
{
    let mut r: Vec<Vec<char>> = Vec::new();
    let mut i: usize = 0;
    let ghost vv = views(v@);
    broadcast use vstd::seq_lib::group_to_multiset_ensures;
    assert(vv.take(0) =~= seq![]);
    assert(views(r@) =~= seq![]);
    while i < v.len()
        invariant
            i <= v.len(),
            vv == views(v@),
            lex_sorted(views(r@)),
            views(r@).to_multiset() == vv.take(i as int).to_multiset(),
        decreases v.len() - i,
    {
        let x = v[i].clone();
        assert(x@ == vv[i as int]);
        let mut p: usize = 0;
        while p < r.len() && lex_le_exec(&r[p], &x)
            invariant
                p <= r.len(),
                lex_sorted(views(r@)),
                forall|q: int| 0 <= q < p ==> lex_le(views(r@)[q], x@),
            decreases r.len() - p,
        {
            assert(views(r@)[p as int] == r@[p as int]@);
            p += 1;
        }
        let ghost before = views(r@);
        proof {
            if p < r.len() {
                assert(before[p as int] == r@[p as int]@);
                lemma_lex_total(x@, before[p as int]);
            }
        }
        r.insert(p, x);
        let ghost after = views(r@);
        assert(after =~= before.insert(p as int, x@));
        assert forall|a: int, b: int| 0 <= a < b < after.len() implies lex_le(after[a], after[b]) by {
            if b < p {
            } else if a < p && b == p {
            } else if a < p && b > p {
                assert(after[b] == before[b - 1]);
                lemma_lex_trans(after[a], x@, before[p as int]);
                if b - 1 > p {
                    lemma_lex_trans(after[a], before[p as int], before[b - 1]);
                }
            } else if a == p {
                assert(after[b] == before[b - 1]);
                if b - 1 > p {
                    lemma_lex_trans(x@, before[p as int], before[b - 1]);
                }
            } else {
                assert(after[a] == before[a - 1] && after[b] == before[b - 1]);
            }
        }
        proof {
            assert(after.remove(p as int) =~= before);
            assert(vv.take(i + 1) =~= vv.take(i as int).push(vv[i as int]));
            lemma_multiset_insert(after, p as int);
            assert(after[p as int] == x@);
            vv.take(i as int).to_multiset_ensures();
            assert(vv.take(i as int).push(vv[i as int]).to_multiset() == vv.take(
                i as int,
            ).to_multiset().insert(vv[i as int]));
        }
        i += 1;
    }
    assert(vv.take(i as int) =~= vv);
    r
}

/// Inserting an element adds it to the multiset.
pub proof fn lemma_multiset_insert<A>(s: Seq<A>, p: int)
    requires
        0 <= p < s.len(),
    ensures
        s.to_multiset() == s.remove(p).to_multiset().insert(s[p]),
{
    broadcast use vstd::seq_lib::group_to_multiset_ensures;
    broadcast use vstd::multiset::group_multiset_axioms;
    assert(s.remove(p).to_multiset() == s.to_multiset().remove(s[p]));
    assert(s.to_multiset().count(s[p]) > 0) by {
        assert(s.contains(s[p]));
    }
    assert(s.to_multiset() =~= s.to_multiset().remove(s[p]).insert(s[p]));
}

// ---------------------------------------------------------------------------
// Numbers
// ---------------------------------------------------------------------------

/// The ASCII digit for a value below ten.
pub fn digit_char_exec(d: u64) -> (c: char)
    requires
        d < 10,
    ensures
        c == digit_char(d as nat),
{
    if d == 0 {
        '0'
    } else if d == 1 {
        '1'
    } else if d == 2 {
        '2'
    } else if d == 3 {
        '3'
    } else if d == 4 {
        '4'
    } else if d == 5 {
        '5'
    } else if d == 6 {
        '6'
    } else if d == 7 {
        '7'
    } else if d == 8 {
        '8'
    } else {
        '9'
    }
}

/// Decimal digits of `n`, as `Display` prints it.
pub fn dec_exec(n: u64) -> (r: Vec<char>)
    ensures
        r@ == dec(n as nat),
{
    let mut m = n;
    let mut suffix: Vec<char> = Vec::new();
    while m >= 10
        invariant
            dec(n as nat) == dec(m as nat) + suffix@,
        decreases m,
    {
        let c = digit_char_exec(m % 10);
        let ghost old_suffix = suffix@;
        suffix.insert(0, c);
        assert(dec(m as nat) == dec((m / 10) as nat) + seq![digit_char((m % 10) as nat)]);
        assert(suffix@ =~= seq![c] + old_suffix);
        assert(dec((m / 10) as nat) + seq![c] + old_suffix =~= dec((m / 10) as nat) + suffix@);
        m = m / 10;
    }
    let mut r: Vec<char> = Vec::new();
    r.push(digit_char_exec(m));
    assert(r@ =~= dec(m as nat));
    concat_chars(&r, &suffix)
}

/// Appends the decimal text of `n` to `out`.
pub fn push_dec(out: &mut String, n: u64)
    ensures
        final(out)@ == old(out)@ + dec(n as nat),
{
    let d = dec_exec(n);
    push_chars(out, &d);
}

/// The value of a non-empty run of ASCII digits.
pub open spec fn digits_value(d: Seq<char>) -> nat
    decreases d.len(),
{
    if d.len() == 0 {
        0
    } else {
        digits_value(d.drop_last()) * 10 + ((d.last() as u32) - 48) as nat
    }
}

/// All characters are ASCII digits.
pub open spec fn all_digits(d: Seq<char>) -> bool {
    forall|i: int| 0 <= i < d.len() ==> is_digit(d[i])
}

/// The text after an optional leading `'+'`.
pub open spec fn unsigned_body(s: Seq<char>) -> Seq<char> {
    if s.len() > 0 && s[0] == '+' {
        s.drop_first()
    } else {
        s
    }
}

/// `<u32 as FromStr>::from_str`: an optional `'+'` followed by one or more
/// ASCII digits whose value fits in 32 bits.
pub open spec fn parse_u32(s: Seq<char>) -> Option<u32> {
    let d = unsigned_body(s);
    if d.len() > 0 && all_digits(d) && digits_value(d) <= u32::MAX {
        Some(digits_value(d) as u32)
    } else {
        None
    }
}

/// `<u64 as FromStr>::from_str`, in the same way as `parse_u32`.
pub open spec fn parse_u64(s: Seq<char>) -> Option<u64> {
    let d = unsigned_body(s);
    if d.len() > 0 && all_digits(d) && digits_value(d) <= u64::MAX {
        Some(digits_value(d) as u64)
    } else {
        None
    }
}

/// Reads the digits of `s` after position `start`: `Some(value)` when all
/// are digits and the value is at most `limit`.
fn read_digits(s: &Vec<char>, start: usize, limit: u64) -> (r: Option<u64>)
    requires
        start <= s.len(),
        limit >= 9,
    ensures
        ({
            let d = s@.skip(start as int);
            match r {
                Some(v) => all_digits(d) && digits_value(d) <= limit && v == digits_value(d),
                None => !all_digits(d) || digits_value(d) > limit,
            }
        }),
{
    let ghost d = s@.skip(start as int);
    let mut acc: u64 = 0;
    let mut i = start;
    assert(d.take(0) =~= seq![]);
    while i < s.len()
        invariant
            start <= i <= s.len(),
            d == s@.skip(start as int),
            all_digits(d.take(i - start)),
            acc == digits_value(d.take(i - start)),
            acc <= limit,
            limit >= 9,
        decreases s.len() - i,
    {
        let c = s[i];
        let ghost t = d.take(i - start + 1);
        assert(t.drop_last() =~= d.take(i - start));
        if !('0' <= c && c <= '9') {
            assert(!is_digit(d[i - start]));
            return None;
        }
        let dig = (c as u32 - 48) as u64;
        if acc > (limit - dig) / 10 {
            proof {
                lemma_digits_value_monotone(d, i - start + 1);
                assert(acc * 10 + dig > limit) by (nonlinear_arith)
                    requires
                        acc > (limit - dig) / 10,
                        dig <= limit,
                ;
            }
            return None;
        }
        assert(acc * 10 + dig <= limit) by (nonlinear_arith)
            requires
                acc <= (limit - dig) / 10,
                dig <= limit,
        ;
        acc = acc * 10 + dig;
        i += 1;
        assert(all_digits(d.take(i - start)));
    }
    assert(d.take(i - start) =~= d);
    Some(acc)
}

/// A longer all-digit text has at least the value of its prefix.
proof fn lemma_digits_value_monotone(d: Seq<char>, k: int)
    requires
        0 <= k <= d.len(),
    ensures
        all_digits(d) ==> digits_value(d) >= digits_value(d.take(k)),
    decreases d.len() - k,
{
    if k < d.len() && all_digits(d) {
        lemma_digits_value_monotone(d, k + 1);
        assert(d.take(k + 1).drop_last() =~= d.take(k));
    } else if k == d.len() {
        assert(d.take(k) =~= d);
    }
}

/// `str::parse::<u32>`.
pub fn parse_u32_exec(s: &Vec<char>) -> (r: Option<u32>)
    ensures
        r == parse_u32(s@),
{
    let start: usize = if s.len() > 0 && s[0] == '+' {
        1
    } else {
        0
    };
    assert(unsigned_body(s@) =~= s@.skip(start as int));
    if start == s.len() {
        return None;
    }
    match read_digits(s, start, 0xFFFF_FFFF) {
        Some(v) => Some(v as u32),
        None => None,
    }
}

/// `str::parse::<u64>`.
pub fn parse_u64_exec(s: &Vec<char>) -> (r: Option<u64>)
    ensures
        r == parse_u64(s@),
{
    let start: usize = if s.len() > 0 && s[0] == '+' {
        1
    } else {
        0
    };
    assert(unsigned_body(s@) =~= s@.skip(start as int));
    if start == s.len() {
        return None;
    }
    read_digits(s, start, 0xFFFF_FFFF_FFFF_FFFF)
}

/// Number of bytes of the UTF-8 encoding of `c`.
pub fn char_utf8_len_exec(c: char) -> (n: usize)
    ensures
        n == char_utf8_len(c),
{
    let v = c as u32;
    if v < 0x80 {
        1
    } else if v < 0x800 {
        2
    } else if v < 0x10000 {
        3
    } else {
        4
    }
}


/// The longest prefix of `s` that fits in `n` bytes of UTF-8.
pub fn byte_prefix_exec(s: &Vec<char>, n: usize) -> (r: Vec<char>)
    ensures
        r@ == byte_prefix(s@, n as nat),
        utf8_len(r@) <= n,
{
    let mut i: usize = 0;
    let mut bytes: usize = 0;
    assert(s@.take(0) =~= seq![]);
    let mut full = false;
    while i < s.len() && !full
        invariant
            i <= s.len(),
            bytes == utf8_len(s@.take(i as int)),
            bytes <= n,
            prefix_end(s@, n as nat, i as nat) == prefix_end(s@, n as nat, 0),
            full ==> prefix_end(s@, n as nat, i as nat) == i,
        decreases s.len() - i + (if full { 0int } else { 1int }),
    {
        let w = char_utf8_len_exec(s[i]);
        assert(s@.take(i + 1).drop_last() =~= s@.take(i as int));
        assert(utf8_len(s@.take(i + 1)) == bytes + w);
        if w > n - bytes {
            full = true;
        } else {
            bytes = bytes + w;
            i = i + 1;
        }
    }
    assert(prefix_end(s@, n as nat, i as nat) == i);
    slice_chars(s, 0, i)
}

/// The digit of a value below ten has that value.
pub proof fn lemma_digit_value(n: nat)
    requires
        n < 10,
    ensures
        is_digit(digit_char(n)),
        (digit_char(n) as u32) - 48 == n,
{
    if n == 0 {
    } else if n == 1 {
    } else if n == 2 {
    } else if n == 3 {
    } else if n == 4 {
    } else if n == 5 {
    } else if n == 6 {
    } else if n == 7 {
    } else if n == 8 {
    } else {
        assert(n == 9);
    }
}

/// The decimal text of a number is a non-empty run of digits of its value.
pub proof fn lemma_dec_digits(n: nat)
    ensures
        dec(n).len() > 0,
        all_digits(dec(n)),
        digits_value(dec(n)) == n,
    decreases n,
{
    if n < 10 {
        let d = dec(n);
        lemma_digit_value(n);
        assert(d == seq![digit_char(n)]);
        assert(d.drop_last() =~= Seq::<char>::empty());
        assert(digits_value(d.drop_last()) == 0);
        assert(digits_value(d) == digits_value(d.drop_last()) * 10 + ((d.last() as u32) - 48) as nat);
    } else {
        lemma_dec_digits(n / 10);
        lemma_digit_value(n % 10);
        let d = dec(n);
        let p = dec(n / 10);
        assert(d == p + seq![digit_char(n % 10)]);
        assert(d.drop_last() =~= p);
        assert(d.last() == digit_char(n % 10));
        assert(digits_value(d) == digits_value(p) * 10 + ((d.last() as u32) - 48) as nat);
        assert(n == (n / 10) * 10 + n % 10);
        assert forall|i: int| 0 <= i < d.len() implies is_digit(d[i]) by {
            if i < p.len() {
                assert(d[i] == p[i]);
            }
        }
    }
}

} // verus!
