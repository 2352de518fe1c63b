//! Character-level helpers shared by the parsers and formatters.
use vstd::prelude::*;
use vstd::utf8::is_ascii_chars;

verus! {

// ---------------------------------------------------------------------------
// Conversions between strings and character vectors
// ---------------------------------------------------------------------------

/// The characters of `s`, in order.
pub fn chars_of(s: &str) -> (r: Vec<char>)
    ensures
        r@ == s@,
{
    let mut r: Vec<char> = Vec::new();
    let n = s.unicode_len();
    let mut i: usize = 0;
    while i < n
        invariant
            n == s@.len(),
            i <= n,
            r@ == s@.subrange(0, i as int),
        decreases n - i,
    {
        let c = s.get_char(i);
        r.push(c);
        i = i + 1;
        assert(r@ =~= s@.subrange(0, i as int));
    }
    assert(r@ =~= s@);
    r
}

/// Relies on `FromIterator<char> for String`: the string holds exactly the given characters.
#[verifier::external_body]
pub(crate) fn string_from_chars(v: &[char]) -> (r: String)
    ensures
        r@ == v@,
{
    v.iter().collect()
}

/// Whether `a` and `b` hold the same characters.
pub fn str_eq(a: &str, b: &str) -> (r: bool)
    ensures
        r == (a@ == b@),
{
    let x = a.to_owned();
    let y = b.to_owned();
    x == y
}

/// A new string holding `a` followed by `b`.
pub fn concat_str(a: &str, b: &str) -> (r: String)
    ensures
        r@ == a@ + b@,
{
    let s = a.to_owned();
    s.concat(b)
}

/// A new string holding `a`, `b` and `c` in that order.
pub fn concat3(a: &str, b: &str, c: &str) -> (r: String)
    ensures
        r@ == a@ + b@ + c@,
{
    let s = a.to_owned();
    let s = s.concat(b);
    s.concat(c)
}

/// A copy of an optional string.
pub fn clone_opt_string(s: &Option<String>) -> (r: Option<String>)
    ensures
        r == *s,
{
    match s {
        Some(v) => Some(v.clone()),
        None => None,
    }
}

/// A copy of a vector of strings.
pub fn clone_strings(v: &Vec<String>) -> (r: Vec<String>)
    ensures
        r@ == v@,
{
    let mut r: Vec<String> = Vec::new();
    let mut i: usize = 0;
    while i < v.len()
        invariant
            i <= v@.len(),
            r@ == v@.subrange(0, i as int),
        decreases v@.len() - i,
    {
        r.push(v[i].clone());
        i = i + 1;
        assert(r@ =~= v@.subrange(0, i as int));
    }
    assert(r@ =~= v@);
    r
}

/// The views of a sequence of strings.
pub open spec fn string_views(v: Seq<String>) -> Seq<Seq<char>> {
    v.map_values(|x: String| x@)
}

/// The view of an optional string.
pub open spec fn opt_view(s: Option<String>) -> Option<Seq<char>> {
    match s {
        Some(v) => Some(v@),
        None => None,
    }
}

// ---------------------------------------------------------------------------
// Trimming white space
// ---------------------------------------------------------------------------

/// `s` without its leading white space.
pub open spec fn trim_start_spec(s: Seq<char>) -> Seq<char>
    decreases s.len(),
{
    if s.len() > 0 && is_whitespace_spec(s[0]) {
        trim_start_spec(s.drop_first())
    } else {
        s
    }
}

/// `s` without its trailing white space.
pub open spec fn trim_end_spec(s: Seq<char>) -> Seq<char>
    decreases s.len(),
{
    if s.len() > 0 && is_whitespace_spec(s.last()) {
        trim_end_spec(s.drop_last())
    } else {
        s
    }
}

/// `s` without leading and trailing white space, as `str::trim` returns it.
pub open spec fn trim_spec(s: Seq<char>) -> Seq<char> {
    trim_end_spec(trim_start_spec(s))
}

/// `s` without leading and trailing white space.
pub fn trim(s: &str) -> (r: String)
    ensures
        r@ == trim_spec(s@),
{
    let cs = chars_of(s);
    let n = cs.len();
    let mut a: usize = 0;
    assert(s@.subrange(0, n as int) =~= s@);
    while a < n && is_whitespace(cs[a])
        invariant
            cs@ == s@,
            n == cs@.len(),
            a <= n,
            trim_start_spec(s@) == trim_start_spec(s@.subrange(a as int, n as int)),
        decreases n - a,
    {
        assert(s@.subrange(a as int, n as int).drop_first() =~= s@.subrange(a as int + 1, n as int));
        a = a + 1;
    }
    assert(trim_start_spec(s@) == s@.subrange(a as int, n as int));
    let ghost mid = s@.subrange(a as int, n as int);
    let mut b: usize = n;
    while b > a && is_whitespace(cs[b - 1])
        invariant
            cs@ == s@,
            n == cs@.len(),
            a <= b <= n,
            mid == s@.subrange(a as int, n as int),
            trim_end_spec(mid) == trim_end_spec(s@.subrange(a as int, b as int)),
        decreases b - a,
    {
        assert(s@.subrange(a as int, b as int).drop_last() =~= s@.subrange(a as int, b as int - 1));
        b = b - 1;
    }
    assert(trim_end_spec(mid) == s@.subrange(a as int, b as int));
    let v = chars_slice(&cs, a, b);
    string_from_chars(v.as_slice())
}

// ---------------------------------------------------------------------------
// Prefixes and suffixes
// ---------------------------------------------------------------------------

/// Whether `p` is a prefix of `s`.
pub fn chars_start_with(s: &Vec<char>, p: &Vec<char>) -> (r: bool)
    ensures
        r == p@.is_prefix_of(s@),
{
    if p.len() > s.len() {
        return false;
    }
    let mut i: usize = 0;
    while i < p.len()
        invariant
            p@.len() <= s@.len(),
            i <= p@.len(),
            forall|j: int| 0 <= j < i ==> s@[j] == p@[j],
        decreases p@.len() - i,
    {
        if s[i] != p[i] {
            assert(!(p@ =~= s@.subrange(0, p@.len() as int)));
            return false;
        }
        i = i + 1;
    }
    assert(p@ =~= s@.subrange(0, p@.len() as int));
    true
}

/// Whether `p` is a suffix of `s`.
pub fn chars_end_with(s: &Vec<char>, p: &Vec<char>) -> (r: bool)
    ensures
        r == p@.is_suffix_of(s@),
{
    if p.len() > s.len() {
        return false;
    }
    let slen = s.len();
    let off = slen - p.len();
    let mut i: usize = 0;
    while i < p.len()
        invariant
            p@.len() <= s@.len(),
            slen == s@.len(),
            off + p@.len() == slen,
            i <= p@.len(),
            forall|j: int| 0 <= j < i ==> s@[off + j] == p@[j],
        decreases p@.len() - i,
    {
        if s[off + i] != p[i] {
            assert(!(p@ =~= s@.subrange(off as int, s@.len() as int)));
            return false;
        }
        i = i + 1;
    }
    assert(p@ =~= s@.subrange(off as int, s@.len() as int));
    true
}

/// Whether the string `s` begins with `p`.
pub fn str_starts_with(s: &str, p: &str) -> (r: bool)
    ensures
        r == p@.is_prefix_of(s@),
{
    let sc = chars_of(s);
    let pc = chars_of(p);
    chars_start_with(&sc, &pc)
}

/// Whether the string `s` ends with `p`.
pub fn str_ends_with(s: &str, p: &str) -> (r: bool)
    ensures
        r == p@.is_suffix_of(s@),
{
    let sc = chars_of(s);
    let pc = chars_of(p);
    chars_end_with(&sc, &pc)
}

/// The characters of `s` from position `from` up to (not including) `to`.
pub fn chars_slice(s: &Vec<char>, from: usize, to: usize) -> (r: Vec<char>)
    requires
        from <= to <= s@.len(),
    ensures
        r@ == s@.subrange(from as int, to as int),
{
    let mut r: Vec<char> = Vec::new();
    let mut i: usize = from;
    while i < to
        invariant
            from <= i <= to <= s@.len(),
            r@ == s@.subrange(from as int, i as int),
        decreases to - i,
    {
        r.push(s[i]);
        i = i + 1;
        assert(r@ =~= s@.subrange(from as int, i as int));
    }
    r
}

// ---------------------------------------------------------------------------
// Splitting into non-empty pieces, and joining
// ---------------------------------------------------------------------------

/// Scans `s` from the left, cutting at every separator: the pieces completed
/// so far (empty ones dropped) and the piece still open at the end.
pub open spec fn runs_by(s: Seq<char>, is_sep: spec_fn(char) -> bool) -> (Seq<Seq<char>>, Seq<char>)
    decreases s.len(),
{
    if s.len() == 0 {
        (Seq::empty(), Seq::empty())
    } else {
        let prev = runs_by(s.drop_last(), is_sep);
        let c = s.last();
        if is_sep(c) {
            if prev.1.len() > 0 {
                (prev.0.push(prev.1), Seq::empty())
            } else {
                (prev.0, Seq::empty())
            }
        } else {
            (prev.0, prev.1.push(c))
        }
    }
}

/// The maximal runs of non-separator characters of `s`, in order: `s` split
/// at each separator, with the empty pieces discarded.
pub open spec fn pieces_by(s: Seq<char>, is_sep: spec_fn(char) -> bool) -> Seq<Seq<char>> {
    let r = runs_by(s, is_sep);
    if r.1.len() > 0 {
        r.0.push(r.1)
    } else {
        r.0
    }
}

/// The views of a vector of character vectors.
pub open spec fn views_of(v: Seq<Vec<char>>) -> Seq<Seq<char>> {
    v.map_values(|x: Vec<char>| x@)
}

/// Splits `s` into its non-empty runs; `seps[i]` says whether `s[i]` separates.
pub fn split_runs(s: &Vec<char>, seps: &Vec<bool>, Ghost(is_sep): Ghost<spec_fn(char) -> bool>) -> (r: Vec<Vec<char>>)
    requires
        seps@.len() == s@.len(),
        forall|i: int| 0 <= i < s@.len() ==> seps@[i] == is_sep(s@[i]),
    ensures
        views_of(r@) == pieces_by(s@, is_sep),
        forall|i: int| 0 <= i < r@.len() ==> r@[i]@.len() > 0,
{
    let mut done: Vec<Vec<char>> = Vec::new();
    let mut cur: Vec<char> = Vec::new();
    let mut i: usize = 0;
    while i < s.len()
        invariant
            seps@.len() == s@.len(),
            forall|k: int| 0 <= k < s@.len() ==> seps@[k] == is_sep(s@[k]),
            i <= s@.len(),
            views_of(done@) == runs_by(s@.subrange(0, i as int), is_sep).0,
            cur@ == runs_by(s@.subrange(0, i as int), is_sep).1,
            forall|k: int| 0 <= k < done@.len() ==> done@[k]@.len() > 0,
        decreases s@.len() - i,
    {
        let ghost pre = s@.subrange(0, i as int);
        let ghost next = s@.subrange(0, i as int + 1);
        assert(next.drop_last() =~= pre);
        assert(next.last() == s@[i as int]);
        if seps[i] {
            if cur.len() > 0 {
                let piece = cur;
                cur = Vec::new();
                done.push(piece);
                assert(views_of(done@) =~= runs_by(next, is_sep).0);
            }
            assert(cur@ =~= runs_by(next, is_sep).1);
        } else {
            cur.push(s[i]);
        }
        i = i + 1;
    }
    assert(s@.subrange(0, s@.len() as int) =~= s@);
    if cur.len() > 0 {
        done.push(cur);
        assert(views_of(done@) =~= pieces_by(s@, is_sep));
    }
    done
}

/// `pieces` joined with `sep` between consecutive pieces.
pub open spec fn join_with(pieces: Seq<Seq<char>>, sep: char) -> Seq<char>
    decreases pieces.len(),
{
    if pieces.len() == 0 {
        Seq::empty()
    } else if pieces.len() == 1 {
        pieces[0]
    } else {
        join_with(pieces.drop_last(), sep).push(sep) + pieces.last()
    }
}

/// Joins `pieces` with `sep` between consecutive pieces.
pub fn join_chars(pieces: &Vec<Vec<char>>, sep: char) -> (r: Vec<char>)
    ensures
        r@ == join_with(views_of(pieces@), sep),
{
    let mut r: Vec<char> = Vec::new();
    let mut i: usize = 0;
    while i < pieces.len()
        invariant
            i <= pieces@.len(),
            r@ == join_with(views_of(pieces@.subrange(0, i as int)), sep),
        decreases pieces@.len() - i,
    {
        let ghost before = r@;
        if i > 0 {
            r.push(sep);
        }
        let mut j: usize = 0;
        let ghost mid = r@;
        while j < pieces[i].len()
            invariant
                i < pieces@.len(),
                j <= pieces@[i as int]@.len(),
                r@ == mid + pieces@[i as int]@.subrange(0, j as int),
            decreases pieces@[i as int]@.len() - j,
        {
            r.push(pieces[i][j]);
            j = j + 1;
            assert(r@ =~= mid + pieces@[i as int]@.subrange(0, j as int));
        }
        let ghost sub = views_of(pieces@.subrange(0, i as int + 1));
        assert(sub.drop_last() =~= views_of(pieces@.subrange(0, i as int)));
        assert(pieces@[i as int]@.subrange(0, j as int) =~= pieces@[i as int]@);
        if i == 0 {
            assert(r@ =~= join_with(sub, sep));
        } else {
            assert(r@ =~= join_with(sub, sep));
        }
        i = i + 1;
    }
    assert(pieces@.subrange(0, pieces@.len() as int) =~= pieces@);
    r
}

// ---------------------------------------------------------------------------
// ASCII case folding
// ---------------------------------------------------------------------------

/// The code of `c` with ASCII upper-case letters mapped to lower case.
pub open spec fn ascii_fold(c: char) -> u32 {
    if 'A' <= c && c <= 'Z' {
        (c as u32 + 32) as u32
    } else {
        c as u32
    }
}

/// Equality up to ASCII case, as `str::eq_ignore_ascii_case` defines it.
pub open spec fn eq_ignore_ascii_case_spec(a: Seq<char>, b: Seq<char>) -> bool {
    a.len() == b.len() && forall|i: int| 0 <= i < a.len() ==> ascii_fold(a[i]) == ascii_fold(b[i])
}

fn fold_char(c: char) -> (r: u32)
    ensures
        r == ascii_fold(c),
{
    let v = c as u32;
    if 'A' <= c && c <= 'Z' {
        v + 32
    } else {
        v
    }
}

/// Whether `a` and `b` are equal up to ASCII case.
pub fn eq_ignore_ascii_case(a: &str, b: &str) -> (r: bool)
    ensures
        r == eq_ignore_ascii_case_spec(a@, b@),
{
    let ac = chars_of(a);
    let bc = chars_of(b);
    if ac.len() != bc.len() {
        return false;
    }
    let mut i: usize = 0;
    while i < ac.len()
        invariant
            ac@ == a@,
            bc@ == b@,
            ac@.len() == bc@.len(),
            i <= ac@.len(),
            forall|j: int| 0 <= j < i ==> ascii_fold(a@[j]) == ascii_fold(b@[j]),
        decreases ac@.len() - i,
    {
        if fold_char(ac[i]) != fold_char(bc[i]) {
            return false;
        }
        i = i + 1;
    }
    true
}

// ---------------------------------------------------------------------------
// Unicode case mapping
// ---------------------------------------------------------------------------

/// What `str::to_lowercase` returns for a string with these characters.
pub uninterp spec fn lower_of(s: Seq<char>) -> Seq<char>;

/// `c` with an ASCII upper-case letter mapped to lower case.
pub open spec fn ascii_lower(c: char) -> char {
    if 'A' <= c && c <= 'Z' {
        ((c as u32) + 32) as char
    } else {
        c
    }
}

/// `s` with its ASCII upper-case letters mapped to lower case.
pub open spec fn ascii_lower_seq(s: Seq<char>) -> Seq<char> {
    s.map_values(|c: char| ascii_lower(c))
}

/// Relies on `str::to_lowercase`: the result depends on the characters alone,
/// and on ASCII text it maps exactly the letters `A` to `Z` to lower case.
#[verifier::external_body]
pub(crate) fn to_lowercase(s: &str) -> (r: String)
    ensures
        r@ == lower_of(s@),
        is_ascii_chars(s@) ==> r@ == ascii_lower_seq(s@),
{
    s.to_lowercase()
}

// ---------------------------------------------------------------------------
// Whitespace and words
// ---------------------------------------------------------------------------

/// The characters with the Unicode `White_Space` property, which is what
/// `char::is_whitespace` tests for.
pub open spec fn is_whitespace_spec(c: char) -> bool {
    ('\u{9}' <= c && c <= '\u{d}') || c == ' ' || c == '\u{85}' || c == '\u{a0}' || c == '\u{1680}'
        || ('\u{2000}' <= c && c <= '\u{200a}') || c == '\u{2028}' || c == '\u{2029}'
        || c == '\u{202f}' || c == '\u{205f}' || c == '\u{3000}'
}

/// Whether `c` is Unicode white space.
pub fn is_whitespace(c: char) -> (r: bool)
    ensures
        r == is_whitespace_spec(c),
{
    ('\u{9}' <= c && c <= '\u{d}') || c == ' ' || c == '\u{85}' || c == '\u{a0}' || c == '\u{1680}'
        || ('\u{2000}' <= c && c <= '\u{200a}') || c == '\u{2028}' || c == '\u{2029}'
        || c == '\u{202f}' || c == '\u{205f}' || c == '\u{3000}'
}

/// The number of words of `s`: maximal runs of characters that are not white space.
pub open spec fn word_count(s: Seq<char>) -> nat
    decreases s.len(),
{
    if s.len() == 0 {
        0
    } else {
        let starts_word = !is_whitespace_spec(s.last()) && (s.len() == 1 || is_whitespace_spec(
            s[s.len() - 2],
        ));
        word_count(s.drop_last()) + if starts_word {
            1nat
        } else {
            0nat
        }
    }
}

proof fn lemma_word_count_bound(s: Seq<char>)
    ensures
        word_count(s) <= s.len(),
    decreases s.len(),
{
    if s.len() > 0 {
        lemma_word_count_bound(s.drop_last());
    }
}

/// Counts the words of `s`, as `str::split_whitespace` delimits them.
pub fn count_words(s: &str) -> (r: usize)
    ensures
        r == word_count(s@),
{
    let cs = chars_of(s);
    let mut count: usize = 0;
    let mut prev_ws = true;
    let mut i: usize = 0;
    while i < cs.len()
        invariant
            cs@ == s@,
            i <= cs@.len(),
            count == word_count(s@.subrange(0, i as int)),
            i > 0 ==> prev_ws == is_whitespace_spec(s@[i - 1]),
            i == 0 ==> prev_ws,
        decreases cs@.len() - i,
    {
        let ghost next = s@.subrange(0, i as int + 1);
        assert(next.drop_last() =~= s@.subrange(0, i as int));
        proof {
            lemma_word_count_bound(s@.subrange(0, i as int));
        }
        let ws = is_whitespace(cs[i]);
        if !ws && prev_ws {
            count = count + 1;
        }
        prev_ws = ws;
        i = i + 1;
    }
    assert(s@.subrange(0, cs@.len() as int) =~= s@);
    count
}

// ---------------------------------------------------------------------------
// Decimal notation
// ---------------------------------------------------------------------------

/// The ASCII digit for `d`, which is below ten.
pub open spec fn digit_char(d: nat) -> char {
    if d == 0 {
        '0'
    } else if d == 1 {
        '1'
    } else if d == 2 {
        '2'
    } else if d == 3 {
        '3'
    } else if d == 4 {
        '4'
    } else if d == 5 {
        '5'
    } else if d == 6 {
        '6'
    } else if d == 7 {
        '7'
    } else if d == 8 {
        '8'
    } else {
        '9'
    }
}

/// `n` in decimal notation, without leading zeros.
pub open spec fn decimal(n: nat) -> Seq<char>
    decreases n,
{
    if n < 10 {
        seq![digit_char(n)]
    } else {
        decimal(n / 10).push(digit_char(n % 10))
    }
}

fn digit(d: u64) -> (c: char)
    requires
        d < 10,
    ensures
        c == digit_char(d as nat),
{
    if d == 0 {
        '0'
    } else if d == 1 {
        '1'
    } else if d == 2 {
        '2'
    } else if d == 3 {
        '3'
    } else if d == 4 {
        '4'
    } else if d == 5 {
        '5'
    } else if d == 6 {
        '6'
    } else if d == 7 {
        '7'
    } else if d == 8 {
        '8'
    } else {
        '9'
    }
}

/// The decimal digits of `n`.
pub fn decimal_chars(n: u64) -> (r: Vec<char>)
    ensures
        r@ == decimal(n as nat),
{
    let mut out: Vec<char> = Vec::new();
    let mut m: u64 = n;
    while m >= 10
        invariant
            decimal(n as nat) == decimal(m as nat) + out@,
        decreases m,
    {
        let d = digit(m % 10);
        out.insert(0, d);
        m = m / 10;
        assert(decimal(n as nat) =~= decimal(m as nat) + out@);
    }
    let d = digit(m);
    out.insert(0, d);
    assert(out@ =~= decimal(n as nat));
    out
}

/// `n` in decimal notation.
pub fn decimal_string(n: u64) -> (r: String)
    ensures
        r@ == decimal(n as nat),
{
    let v = decimal_chars(n);
    string_from_chars(v.as_slice())
}

// ---------------------------------------------------------------------------
// Lexicographic order
// ---------------------------------------------------------------------------

/// `a` comes before `b`, or equals it, in the order of character codes; this
/// is the order in which Rust compares strings.
pub open spec fn lex_le(a: Seq<char>, b: Seq<char>) -> bool
    decreases a.len(),
{
    if a.len() == 0 {
        true
    } else if b.len() == 0 {
        false
    } else if a[0] != b[0] {
        a[0] < b[0]
    } else {
        lex_le(a.drop_first(), b.drop_first())
    }
}

/// Any two strings are ordered one way or the other.
pub proof fn lemma_lex_total(a: Seq<char>, b: Seq<char>)
    ensures
        lex_le(a, b) || lex_le(b, a),
    decreases a.len(),
{
    if a.len() > 0 && b.len() > 0 && a[0] == b[0] {
        lemma_lex_total(a.drop_first(), b.drop_first());
    }
}

/// The order is transitive.
pub proof fn lemma_lex_trans(a: Seq<char>, b: Seq<char>, c: Seq<char>)
    requires
        lex_le(a, b),
        lex_le(b, c),
    ensures
        lex_le(a, c),
    decreases a.len(),
{
    if a.len() > 0 && b.len() > 0 && c.len() > 0 && a[0] == b[0] && b[0] == c[0] {
        lemma_lex_trans(a.drop_first(), b.drop_first(), c.drop_first());
    }
}

/// Whether `a` comes before `b` or equals it.
pub fn str_le(a: &str, b: &str) -> (r: bool)
    ensures
        r == lex_le(a@, b@),
{
    let ac = chars_of(a);
    let bc = chars_of(b);
    let mut i: usize = 0;
    assert(a@.subrange(0, a@.len() as int) =~= a@);
    assert(b@.subrange(0, b@.len() as int) =~= b@);
    while i < ac.len() && i < bc.len() && ac[i] == bc[i]
        invariant
            ac@ == a@,
            bc@ == b@,
            i <= a@.len(),
            i <= b@.len(),
            lex_le(a@, b@) == lex_le(a@.subrange(i as int, a@.len() as int), b@.subrange(i as int, b@.len() as int)),
        decreases a@.len() - i,
    {
        assert(a@.subrange(i as int, a@.len() as int).drop_first() =~= a@.subrange(i as int + 1, a@.len() as int));
        assert(b@.subrange(i as int, b@.len() as int).drop_first() =~= b@.subrange(i as int + 1, b@.len() as int));
        i = i + 1;
    }
    if i == ac.len() {
        true
    } else if i == bc.len() {
        false
    } else {
        ac[i] < bc[i]
    }
}

} // verus!
