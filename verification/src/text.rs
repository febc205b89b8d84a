//! Character-level text helpers: whitespace, trimming, searching, splitting,
//! decimal numbers and string ordering, each with its specification over the
//! characters of a string.
use vstd::prelude::*;
use vstd::string::StringExecFns;

verus! {

/// Appends one character to a string.
#[verifier::external_body]
pub(crate) fn push_char(s: &mut String, c: char)
    ensures
        final(s)@ == old(s)@.push(c),
{
    s.push(c);
}

/// Removes the last character of a string, if it has one (`String::pop`).
#[verifier::external_body]
pub(crate) fn pop_char(s: &mut String)
    ensures
        final(s)@ == (if old(s)@.len() == 0 {
            old(s)@
        } else {
            old(s)@.drop_last()
        }),
{
    s.pop();
}

/// What `str::to_lowercase` returns for a string (Unicode lowercase mapping).
pub uninterp spec fn lowercase(s: Seq<char>) -> Seq<char>;

/// Calls `str::to_lowercase`; the result is named `lowercase` of the argument.
#[verifier::external_body]
pub(crate) fn to_lowercase(s: &str) -> (r: String)
    ensures
        r@ == lowercase(s@),
{
    s.to_lowercase()
}

/// What `char::to_lowercase` yields for `c` (its Unicode lowercase mapping,
/// one or more characters).
pub uninterp spec fn char_lowercase(c: char) -> Seq<char>;

/// Calls `char::to_lowercase` and collects the characters it yields.
#[verifier::external_body]
pub(crate) fn char_to_lowercase(c: char) -> (r: String)
    ensures
        r@ == char_lowercase(c),
{
    c.to_lowercase().collect()
}

/// The characters of `s`, in order.
pub fn chars_of(s: &str) -> (r: Vec<char>)
    ensures
        r@ == s@,
{
    let mut r: Vec<char> = Vec::new();
    for c in it: s.chars()
        invariant
            it.seq() == s@,
            r@ == it.seq().take(it.index() as int),
    {
        r.push(c);
    }
    r
}

/// A string holding exactly the characters `cs[lo..hi]`.
pub fn string_of(cs: &[char], lo: usize, hi: usize) -> (r: String)
    requires
        lo <= hi <= cs@.len(),
    ensures
        r@ == cs@.subrange(lo as int, hi as int),
{
    let mut r = String::new();
    let mut i = lo;
    while i < hi
        invariant
            lo <= i <= hi <= cs@.len(),
            r@ == cs@.subrange(lo as int, i as int),
        decreases hi - i,
    {
        push_char(&mut r, cs[i]);
        assert(cs@.subrange(lo as int, i + 1) == cs@.subrange(lo as int, i as int).push(
            cs@[i as int],
        ));
        i += 1;
    }
    r
}

/// A fresh string with the same characters as `s`.
pub fn copy_str(s: &str) -> (r: String)
    ensures
        r@ == s@,
{
    String::from_str(s)
}

/// Whether two strings have the same characters.
pub fn str_eq(a: &str, b: &str) -> (r: bool)
    ensures
        r == (a@ == b@),
{
    let x = chars_of(a);
    let y = chars_of(b);
    if x.len() != y.len() {
        return false;
    }
    let mut i: usize = 0;
    while i < x.len()
        invariant
            x@ == a@,
            y@ == b@,
            x@.len() == y@.len(),
            i <= x@.len(),
            forall|k: int| 0 <= k < i ==> x@[k] == y@[k],
        decreases x@.len() - i,
    {
        if x[i] != y[i] {
            return false;
        }
        i += 1;
    }
    assert(x@ =~= y@);
    true
}

/// Concatenation of two strings into a new one.
pub fn concat(a: &str, b: &str) -> (r: String)
    ensures
        r@ == a@ + b@,
{
    let mut r = String::from_str(a);
    r.append(b);
    r
}

// ---------------------------------------------------------------------------
// Whitespace
/// The Unicode `White_Space` property, which is what `char::is_whitespace` tests.
pub open spec fn is_ws(c: char) -> bool {
    let v = c as u32;
    ||| 0x09 <= v <= 0x0d
    ||| v == 0x20
    ||| v == 0x85
    ||| v == 0xa0
    ||| v == 0x1680
    ||| 0x2000 <= v <= 0x200a
    ||| v == 0x2028
    ||| v == 0x2029
    ||| v == 0x202f
    ||| v == 0x205f
    ||| v == 0x3000
}

/// Whether `c` is Unicode whitespace.
pub fn is_whitespace(c: char) -> (r: bool)
    ensures
        r == is_ws(c),
{
    let v = c as u32;
    (0x09 <= v && v <= 0x0d) || v == 0x20 || v == 0x85 || v == 0xa0 || v == 0x1680 || (0x2000 <= v
        && v <= 0x200a) || v == 0x2028 || v == 0x2029 || v == 0x202f || v == 0x205f || v == 0x3000
}

/// `s` without its leading whitespace.
pub open spec fn trim_start(s: Seq<char>) -> Seq<char>
    decreases s.len(),
{
    if s.len() > 0 && is_ws(s[0]) {
        trim_start(s.drop_first())
    } else {
        s
    }
}

/// `s` without its trailing whitespace.
pub open spec fn trim_end(s: Seq<char>) -> Seq<char>
    decreases s.len(),
{
    if s.len() > 0 && is_ws(s.last()) {
        trim_end(s.drop_last())
    } else {
        s
    }
}

/// `s` without leading and trailing whitespace.
pub open spec fn trim(s: Seq<char>) -> Seq<char> {
    trim_end(trim_start(s))
}

/// Index of the first character of `cs[lo..]` that is not whitespace (or `cs.len()`).
pub fn skip_ws(cs: &[char], lo: usize) -> (r: usize)
    requires
        lo <= cs@.len(),
    ensures
        lo <= r <= cs@.len(),
        trim_start(cs@.subrange(lo as int, cs@.len() as int)) == cs@.subrange(
            r as int,
            cs@.len() as int,
        ),
        forall|k: int| lo <= k < r ==> is_ws(#[trigger] cs@[k]),
        r < cs@.len() ==> !is_ws(cs@[r as int]),
    decreases cs@.len() - lo,
{
    if lo < cs.len() && is_whitespace(cs[lo]) {
        assert(cs@.subrange(lo as int, cs@.len() as int).drop_first() == cs@.subrange(
            lo + 1,
            cs@.len() as int,
        ));
        skip_ws(cs, lo + 1)
    } else {
        lo
    }
}

/// Index just past the last character of `cs[..hi]` that is not whitespace (or 0).
pub fn skip_ws_back(cs: &[char], hi: usize) -> (r: usize)
    requires
        hi <= cs@.len(),
    ensures
        r <= hi,
        trim_end(cs@.subrange(0, hi as int)) == cs@.subrange(0, r as int),
        forall|k: int| r <= k < hi ==> is_ws(#[trigger] cs@[k]),
        r > 0 ==> !is_ws(cs@[r - 1]),
    decreases hi,
{
    if hi > 0 && is_whitespace(cs[hi - 1]) {
        assert(cs@.subrange(0, hi as int).drop_last() == cs@.subrange(0, hi - 1));
        skip_ws_back(cs, hi - 1)
    } else {
        hi
    }
}

/// Trailing whitespace of a sequence ends the sequence: removing it keeps a prefix.
pub proof fn lemma_trim_end_prefix(s: Seq<char>)
    ensures
        trim_end(s).len() <= s.len(),
        trim_end(s) == s.subrange(0, trim_end(s).len() as int),
    decreases s.len(),
{
    if s.len() > 0 && is_ws(s.last()) {
        lemma_trim_end_prefix(s.drop_last());
    } else {
        assert(s == s.subrange(0, s.len() as int));
    }
}

/// Removing leading whitespace keeps a suffix.
pub proof fn lemma_trim_start_suffix(s: Seq<char>)
    ensures
        trim_start(s).len() <= s.len(),
        trim_start(s) == s.subrange(s.len() - trim_start(s).len(), s.len() as int),
    decreases s.len(),
{
    if s.len() > 0 && is_ws(s[0]) {
        lemma_trim_start_suffix(s.drop_first());
    } else {
        assert(s == s.subrange(0, s.len() as int));
    }
}

/// `str::trim_end`: a copy of `s` without trailing whitespace.
pub fn trim_end_string(s: &str) -> (r: String)
    ensures
        r@ == trim_end(s@),
{
    let cs = chars_of(s);
    let hi = skip_ws_back(cs.as_slice(), cs.len());
    assert(cs@.subrange(0, cs@.len() as int) == cs@);
    string_of(cs.as_slice(), 0, hi)
}

/// `str::trim`: a copy of `s` without leading or trailing whitespace.
pub fn trim_string(s: &str) -> (r: String)
    ensures
        r@ == trim(s@),
{
    let cs = chars_of(s);
    let lo = skip_ws(cs.as_slice(), 0);
    assert(cs@.subrange(0, cs@.len() as int) == cs@);
    let rest = string_of(cs.as_slice(), lo, cs.len());
    trim_end_string(rest.as_str())
}

/// Whether `s` has no characters other than whitespace.
pub fn is_blank(s: &str) -> (r: bool)
    ensures
        r == (trim(s@).len() == 0),
{
    let t = trim_string(s);
    t.as_str().is_empty()
}

// ---------------------------------------------------------------------------
// Searching
/// `needle` occurs in `hay` starting at position `i`.
pub open spec fn occurs_at(hay: Seq<char>, needle: Seq<char>, i: int) -> bool {
    0 <= i && i + needle.len() <= hay.len() && hay.subrange(i, i + needle.len()) == needle
}

/// `needle` occurs somewhere in `hay` (what `str::contains` answers for a string pattern).
pub open spec fn contains(hay: Seq<char>, needle: Seq<char>) -> bool {
    exists|i: int| occurs_at(hay, needle, i)
}

/// Whether `needle` occurs in `hay` at position `i`.
pub fn matches_at(hay: &[char], needle: &[char], i: usize) -> (r: bool)
    requires
        i <= hay@.len(),
    ensures
        r == occurs_at(hay@, needle@, i as int),
{
    if needle.len() > hay.len() - i {
        return false;
    }
    let mut k: usize = 0;
    while k < needle.len()
        invariant
            i + needle@.len() <= hay@.len(),
            hay@.len() == hay.len(),
            k <= needle@.len(),
            forall|j: int| 0 <= j < k ==> hay@[i + j] == needle@[j],
        decreases needle@.len() - k,
    {
        if hay[i + k] != needle[k] {
            assert(hay@.subrange(i as int, i + needle@.len())[k as int] != needle@[k as int]);
            return false;
        }
        k += 1;
    }
    assert(hay@.subrange(i as int, i + needle@.len()) =~= needle@);
    true
}

/// The first position at or after `from` where `needle` occurs in `hay`.
pub fn find_from(hay: &[char], needle: &[char], from: usize) -> (r: Option<usize>)
    requires
        from <= hay@.len(),
    ensures
        match r {
            Some(i) => from <= i && occurs_at(hay@, needle@, i as int) && forall|j: int|
                from <= j < i ==> !occurs_at(hay@, needle@, j),
            None => forall|j: int| from <= j ==> !occurs_at(hay@, needle@, j),
        },
{
    let mut i = from;
    loop
        invariant
            from <= i <= hay@.len(),
            forall|j: int| from <= j < i ==> !occurs_at(hay@, needle@, j),
        decreases hay@.len() - i,
    {
        if matches_at(hay, needle, i) {
            return Some(i);
        }
        if i == hay.len() {
            assert forall|j: int| from <= j implies !occurs_at(hay@, needle@, j) by {
                if j > i {
                    assert(!occurs_at(hay@, needle@, j));
                }
            }
            return None;
        }
        i += 1;
    }
}

/// `str::contains`: whether `needle` occurs in `hay`.
pub fn contains_str(hay: &str, needle: &str) -> (r: bool)
    ensures
        r == contains(hay@, needle@),
{
    let h = chars_of(hay);
    let n = chars_of(needle);
    match find_from(h.as_slice(), n.as_slice(), 0) {
        Some(_) => true,
        None => false,
    }
}

/// `a` and `b` are the same character ignoring case: their lowercase
/// mappings agree.
pub open spec fn same_ignoring_case(a: char, b: char) -> bool {
    char_lowercase(a) == char_lowercase(b)
}

/// `needle` occurs in `hay` at position `i`, ignoring case character by
/// character.
pub open spec fn occurs_at_ignoring_case(hay: Seq<char>, needle: Seq<char>, i: int) -> bool {
    &&& 0 <= i
    &&& i + needle.len() <= hay.len()
    &&& forall|k: int| 0 <= k < needle.len() ==> #[trigger] same_ignoring_case(hay[i + k], needle[k])
}

/// The unmatched piece `text[a..b]`, when it is not empty.
pub open spec fn plain_piece(text: Seq<char>, a: int, b: int) -> Seq<(Seq<char>, bool)> {
    if a < b {
        seq![(text.subrange(a, b), false)]
    } else {
        seq![]
    }
}

/// `text` from `start` cut into pieces, looking for `needle` from position
/// `i` on: each occurrence (ignoring case) found scanning left to right and
/// not overlapping an earlier one is a piece marked `true`; the text between
/// them makes the pieces marked `false`.
pub open spec fn pieces_from(text: Seq<char>, needle: Seq<char>, start: int, i: int) -> Seq<(Seq<char>, bool)>
    decreases text.len() - i,
{
    if needle.len() == 0 || i < start || start < 0 || i + needle.len() > text.len() {
        plain_piece(text, start, text.len() as int)
    } else if occurs_at_ignoring_case(text, needle, i) {
        plain_piece(text, start, i) + seq![(text.subrange(i, i + needle.len()), true)] + pieces_from(
            text,
            needle,
            i + needle.len(),
            i + needle.len(),
        )
    } else {
        pieces_from(text, needle, start, i + 1)
    }
}

/// The texts of `pieces`, joined.
pub open spec fn joined_pieces(pieces: Seq<(Seq<char>, bool)>) -> Seq<char>
    decreases pieces.len(),
{
    if pieces.len() == 0 {
        seq![]
    } else {
        pieces[0].0 + joined_pieces(pieces.drop_first())
    }
}

/// A list of pieces as values.
pub open spec fn piece_views(v: Seq<(String, bool)>) -> Seq<(Seq<char>, bool)> {
    v.map_values(|p: (String, bool)| (p.0@, p.1))
}

proof fn lemma_joined_append(a: Seq<(Seq<char>, bool)>, b: Seq<(Seq<char>, bool)>)
    ensures
        joined_pieces(a + b) == joined_pieces(a) + joined_pieces(b),
    decreases a.len(),
{
    if a.len() == 0 {
        assert(a + b =~= b);
        assert(joined_pieces(a) + joined_pieces(b) =~= joined_pieces(b));
    } else {
        lemma_joined_append(a.drop_first(), b);
        assert((a + b).drop_first() =~= a.drop_first() + b);
        assert(joined_pieces(a + b) =~= joined_pieces(a) + joined_pieces(b));
    }
}

proof fn lemma_plain_piece_joined(text: Seq<char>, a: int, b: int)
    requires
        0 <= a <= b <= text.len(),
    ensures
        joined_pieces(plain_piece(text, a, b)) == text.subrange(a, b),
{
    if a < b {
        let p = seq![(text.subrange(a, b), false)];
        assert(p.drop_first() =~= Seq::<(Seq<char>, bool)>::empty());
        assert(joined_pieces(p.drop_first()) == Seq::<char>::empty());
        assert(joined_pieces(p) == p[0].0 + joined_pieces(p.drop_first()));
        assert(joined_pieces(p) =~= text.subrange(a, b));
    } else {
        assert(text.subrange(a, b) =~= Seq::<char>::empty());
    }
}

/// From `start` on, the pieces joined are the rest of the text.
pub proof fn lemma_pieces_from_cover(text: Seq<char>, needle: Seq<char>, start: int, i: int)
    requires
        0 <= start <= i <= text.len(),
    ensures
        joined_pieces(pieces_from(text, needle, start, i)) == text.subrange(start, text.len() as int),
    decreases text.len() - i,
{
    if needle.len() == 0 || i + needle.len() > text.len() {
        lemma_plain_piece_joined(text, start, text.len() as int);
    } else if occurs_at_ignoring_case(text, needle, i) {
        let m = i + needle.len();
        let hit = seq![(text.subrange(i, m), true)];
        lemma_pieces_from_cover(text, needle, m, m);
        lemma_plain_piece_joined(text, start, i);
        lemma_joined_append(plain_piece(text, start, i), hit);
        lemma_joined_append(plain_piece(text, start, i) + hit, pieces_from(text, needle, m, m));
        assert(hit.drop_first() =~= Seq::<(Seq<char>, bool)>::empty());
        assert(joined_pieces(hit.drop_first()) == Seq::<char>::empty());
        assert(joined_pieces(hit) == hit[0].0 + joined_pieces(hit.drop_first()));
        assert(joined_pieces(hit) =~= text.subrange(i, m));
        assert(text.subrange(start, i) + text.subrange(i, m) + text.subrange(m, text.len() as int)
            =~= text.subrange(start, text.len() as int));
    } else {
        lemma_pieces_from_cover(text, needle, start, i + 1);
    }
}

/// Cutting text into matched and unmatched pieces loses and adds nothing:
/// the pieces, joined, are the text.
pub proof fn lemma_match_pieces_cover(text: Seq<char>, needle: Seq<char>)
    ensures
        joined_pieces(pieces_from(text, needle, 0, 0)) == text,
{
    lemma_pieces_from_cover(text, needle, 0, 0);
    assert(text.subrange(0, text.len() as int) =~= text);
}

/// Whether `needle` occurs in `hay` at `i`, ignoring case; `lowered` holds
/// the lowercase mappings of the needle's characters.
fn occurs_ignoring_case(hay: &[char], needle: &[char], lowered: &Vec<String>, i: usize) -> (r: bool)
    requires
        i <= hay@.len(),
        lowered@.len() == needle@.len(),
        forall|k: int| 0 <= k < needle@.len() ==> #[trigger] lowered@[k]@ == char_lowercase(needle@[k]),
    ensures
        r == occurs_at_ignoring_case(hay@, needle@, i as int),
{
    if needle.len() > hay.len() - i {
        return false;
    }
    let mut k: usize = 0;
    while k < needle.len()
        invariant
            i + needle@.len() <= hay@.len(),
            hay@.len() == hay.len(),
            lowered@.len() == needle@.len(),
            forall|j: int| 0 <= j < needle@.len() ==> #[trigger] lowered@[j]@ == char_lowercase(needle@[j]),
            k <= needle@.len(),
            forall|j: int| 0 <= j < k ==> #[trigger] same_ignoring_case(hay@[i + j], needle@[j]),
        decreases needle@.len() - k,
    {
        let c = char_to_lowercase(hay[i + k]);
        if !str_eq(c.as_str(), lowered[k].as_str()) {
            assert(!same_ignoring_case(hay@[i + k], needle@[k as int]));
            return false;
        }
        k += 1;
    }
    true
}

/// Cuts `text` into the occurrences of `needle` (ignoring case, leftmost
/// first, not overlapping), marked `true`, and the text between them,
/// marked `false` (see `pieces_from`).
pub fn match_pieces(text: &str, needle: &str) -> (r: Vec<(String, bool)>)
    requires
        needle@.len() > 0,
    ensures
        piece_views(r@) == pieces_from(text@, needle@, 0, 0),
        joined_pieces(piece_views(r@)) == text@,
{
    proof {
        lemma_match_pieces_cover(text@, needle@);
    }
    let t = chars_of(text);
    let nd = chars_of(needle);
    let n = t.len();
    let m = nd.len();
    let mut lowered: Vec<String> = Vec::new();
    let mut k: usize = 0;
    while k < m
        invariant
            m == nd@.len(),
            k <= m,
            lowered@.len() == k,
            forall|j: int| 0 <= j < k ==> #[trigger] lowered@[j]@ == char_lowercase(nd@[j]),
        decreases m - k,
    {
        lowered.push(char_to_lowercase(nd[k]));
        k += 1;
    }
    let mut out: Vec<(String, bool)> = Vec::new();
    let mut start: usize = 0;
    let mut i: usize = 0;
    while i <= n && m <= n - i
        invariant
            n == t@.len(),
            m == nd@.len(),
            m > 0,
            t@ == text@,
            nd@ == needle@,
            lowered@.len() == m,
            forall|j: int| 0 <= j < m ==> #[trigger] lowered@[j]@ == char_lowercase(nd@[j]),
            start <= i <= n,
            piece_views(out@) + pieces_from(t@, nd@, start as int, i as int) == pieces_from(t@, nd@, 0, 0),
        decreases n - i,
    {
        let ghost before = piece_views(out@);
        if occurs_ignoring_case(t.as_slice(), nd.as_slice(), &lowered, i) {
            if start < i {
                out.push((string_of(t.as_slice(), start, i), false));
            }
            out.push((string_of(t.as_slice(), i, i + m), true));
            proof {
                assert(piece_views(out@) =~= before + plain_piece(t@, start as int, i as int) + seq![
                    (t@.subrange(i as int, i + m), true),
                ]);
            }
            i = i + m;
            start = i;
        } else {
            i = i + 1;
        }
    }
    let ghost before = piece_views(out@);
    if start < n {
        out.push((string_of(t.as_slice(), start, n), false));
    }
    proof {
        assert(piece_views(out@) =~= before + plain_piece(t@, start as int, n as int));
    }
    out
}

/// Whether `s` starts with `c`.
pub open spec fn starts_with_char(s: Seq<char>, c: char) -> bool {
    s.len() > 0 && s[0] == c
}

/// Whether `s` ends with `c`.
pub open spec fn ends_with_char(s: Seq<char>, c: char) -> bool {
    s.len() > 0 && s.last() == c
}

// ---------------------------------------------------------------------------
// Splitting
/// Number of leading characters of `s` that are not whitespace.
pub open spec fn word_len(s: Seq<char>) -> nat
    decreases s.len(),
{
    if s.len() > 0 && !is_ws(s[0]) {
        1 + word_len(s.drop_first())
    } else {
        0
    }
}

/// The words of `s`: maximal runs of non-whitespace characters, in order
/// (what `str::split_whitespace` yields).
pub open spec fn words(s: Seq<char>) -> Seq<Seq<char>>
    decreases s.len(),
{
    if s.len() == 0 {
        seq![]
    } else if is_ws(s[0]) {
        words(s.drop_first())
    } else {
        let n = word_len(s);
        if 0 < n <= s.len() {
            seq![s.take(n as int)] + words(s.skip(n as int))
        } else {
            seq![s]
        }
    }
}

proof fn lemma_word_len_bound(s: Seq<char>)
    ensures
        word_len(s) <= s.len(),
        s.len() > 0 && !is_ws(s[0]) ==> word_len(s) > 0,
        forall|k: int| 0 <= k < word_len(s) ==> !is_ws(#[trigger] s[k]),
        word_len(s) < s.len() ==> is_ws(s[word_len(s) as int]),
    decreases s.len(),
{
    if s.len() > 0 && !is_ws(s[0]) {
        lemma_word_len_bound(s.drop_first());
        assert forall|k: int| 0 <= k < word_len(s) implies !is_ws(#[trigger] s[k]) by {
            if k > 0 {
                assert(s[k] == s.drop_first()[k - 1]);
            }
        }
    }
}

proof fn lemma_word_len_of(s: Seq<char>, n: int)
    requires
        0 <= n <= s.len(),
        forall|k: int| 0 <= k < n ==> !is_ws(#[trigger] s[k]),
        n < s.len() ==> is_ws(s[n]),
    ensures
        word_len(s) == n,
    decreases s.len(),
{
    if n > 0 {
        assert forall|k: int| 0 <= k < n - 1 implies !is_ws(#[trigger] s.drop_first()[k]) by {
            assert(s.drop_first()[k] == s[k + 1]);
        }
        if n - 1 < s.drop_first().len() {
            assert(s.drop_first()[n - 1] == s[n]);
        }
        lemma_word_len_of(s.drop_first(), n - 1);
    }
}

/// The words of a string, each as a new `String` (`str::split_whitespace`).
pub fn split_whitespace(s: &str) -> (r: Vec<String>)
    ensures
        r@.len() == words(s@).len(),
        forall|k: int| 0 <= k < r@.len() ==> #[trigger] r@[k]@ == words(s@)[k],
{
    let cs = chars_of(s);
    let n = cs.len();
    let mut out: Vec<String> = Vec::new();
    let ghost mut got: Seq<Seq<char>> = seq![];
    let mut i: usize = 0;
    assert(cs@.skip(0) == cs@);
    while i < n
        invariant
            n == cs@.len(),
            i <= n,
            cs@ == s@,
            out@.len() == got.len(),
            forall|k: int| 0 <= k < out@.len() ==> #[trigger] out@[k]@ == got[k],
            got + words(cs@.skip(i as int)) == words(s@),
        decreases n - i,
    {
        let ghost rest = cs@.skip(i as int);
        if is_whitespace(cs[i]) {
            assert(rest.drop_first() == cs@.skip(i + 1));
            i += 1;
        } else {
            let mut j = i;
            while j < n && !is_whitespace(cs[j])
                invariant
                    i <= j <= n,
                    n == cs@.len(),
                    forall|k: int| i <= k < j ==> !is_ws(#[trigger] cs@[k]),
                decreases n - j,
            {
                j += 1;
            }
            proof {
                assert forall|k: int| 0 <= k < j - i implies !is_ws(#[trigger] rest[k]) by {
                    assert(rest[k] == cs@[i + k]);
                }
                if j < n {
                    assert(rest[j - i] == cs@[j as int]);
                }
                lemma_word_len_of(rest, (j - i) as int);
                assert(rest.take((j - i) as int) == cs@.subrange(i as int, j as int));
                assert(rest.skip((j - i) as int) == cs@.skip(j as int));
            }
            let w = string_of(cs.as_slice(), i, j);
            out.push(w);
            proof {
                let w_seq = cs@.subrange(i as int, j as int);
                assert(words(rest) == seq![w_seq] + words(cs@.skip(j as int)));
                assert(got.push(w_seq) + words(cs@.skip(j as int)) == got + words(rest));
                got = got.push(w_seq);
            }
            i = j;
        }
    }
    assert(cs@.skip(n as int) =~= Seq::<char>::empty());
    assert(got + words(Seq::<char>::empty()) == got);
    out
}

/// Index of the first `c` in `s`, if any.
pub open spec fn first_index_of(s: Seq<char>, c: char) -> Option<int>
    decreases s.len(),
{
    if s.len() == 0 {
        None
    } else if s[0] == c {
        Some(0)
    } else {
        match first_index_of(s.drop_first(), c) {
            Some(i) => Some(i + 1),
            None => None,
        }
    }
}

proof fn lemma_first_index_of(s: Seq<char>, c: char, n: int)
    requires
        0 <= n <= s.len(),
        forall|k: int| 0 <= k < n ==> #[trigger] s[k] != c,
    ensures
        n < s.len() && s[n] == c ==> first_index_of(s, c) == Some(n),
        n == s.len() ==> first_index_of(s, c) is None,
    decreases n,
{
    if n > 0 {
        assert forall|k: int| 0 <= k < n - 1 implies #[trigger] s.drop_first()[k] != c by {
            assert(s.drop_first()[k] == s[k + 1]);
        }
        lemma_first_index_of(s.drop_first(), c, n - 1);
    }
}

/// The pieces of `s` between occurrences of `sep` (what `str::split(sep)` yields);
/// there is always at least one piece.
pub open spec fn split_on(s: Seq<char>, sep: char) -> Seq<Seq<char>>
    decreases s.len(),
{
    match first_index_of(s, sep) {
        Some(i) => if 0 <= i < s.len() {
            seq![s.take(i)] + split_on(s.skip(i + 1), sep)
        } else {
            seq![s]
        },
        None => seq![s],
    }
}

/// The pieces of `s` between occurrences of `sep`, each as a new `String`.
pub fn split_char(s: &str, sep: char) -> (r: Vec<String>)
    ensures
        r@.len() == split_on(s@, sep).len(),
        forall|k: int| 0 <= k < r@.len() ==> #[trigger] r@[k]@ == split_on(s@, sep)[k],
{
    let cs = chars_of(s);
    let n = cs.len();
    let mut out: Vec<String> = Vec::new();
    let ghost mut got: Seq<Seq<char>> = seq![];
    let mut i: usize = 0;
    assert(cs@.skip(0) == cs@);
    loop
        invariant
            n == cs@.len(),
            i <= n,
            cs@ == s@,
            out@.len() == got.len(),
            forall|k: int| 0 <= k < out@.len() ==> #[trigger] out@[k]@ == got[k],
            got + split_on(cs@.skip(i as int), sep) == split_on(s@, sep),
        decreases n - i,
    {
        let ghost rest = cs@.skip(i as int);
        let mut j = i;
        while j < n && cs[j] != sep
            invariant
                i <= j <= n,
                n == cs@.len(),
                forall|k: int| i <= k < j ==> #[trigger] cs@[k] != sep,
            decreases n - j,
        {
            j += 1;
        }
        proof {
            assert forall|k: int| 0 <= k < j - i implies #[trigger] rest[k] != sep by {
                assert(rest[k] == cs@[i + k]);
            }
            if j < n {
                assert(rest[j - i] == cs@[j as int]);
            }
            lemma_first_index_of(rest, sep, (j - i) as int);
        }
        let piece = string_of(cs.as_slice(), i, j);
        out.push(piece);
        if j == n {
            proof {
                assert(rest == cs@.subrange(i as int, j as int));
                assert(got.push(rest) == got + split_on(rest, sep));
                got = got.push(rest);
            }
            return out;
        }
        proof {
            let p = cs@.subrange(i as int, j as int);
            assert(rest.take((j - i) as int) == p);
            assert(rest.skip((j - i) + 1) == cs@.skip(j + 1));
            assert(split_on(rest, sep) == seq![p] + split_on(cs@.skip(j + 1), sep));
            assert(got.push(p) + split_on(cs@.skip(j + 1), sep) == got + split_on(rest, sep));
            got = got.push(p);
        }
        i = j + 1;
    }
}

// ---------------------------------------------------------------------------
// Decimal numbers
/// Whether `c` is an ASCII decimal digit.
pub open spec fn is_digit(c: char) -> bool {
    '0' <= c <= '9'
}

/// The value of a string of ASCII digits.
pub open spec fn digits_value(s: Seq<char>) -> nat
    decreases s.len(),
{
    if s.len() == 0 {
        0
    } else {
        digits_value(s.drop_last()) * 10 + (s.last() as nat - '0' as nat) as nat
    }
}

/// All characters of `d` are ASCII digits.
pub open spec fn all_digits(d: Seq<char>) -> bool {
    forall|k: int| 0 <= k < d.len() ==> is_digit(#[trigger] d[k])
}

/// The characters after an optional leading `+`.
pub open spec fn unsigned_digits(s: Seq<char>) -> Seq<char> {
    if s.len() > 0 && s[0] == '+' {
        s.drop_first()
    } else {
        s
    }
}

/// The number that `str::parse` reads for an unsigned integer type, before
/// the range check: an optional `+`, then one or more ASCII digits.
pub open spec fn unsigned_value(s: Seq<char>) -> Option<nat> {
    let d = unsigned_digits(s);
    if d.len() > 0 && all_digits(d) {
        Some(digits_value(d))
    } else {
        None
    }
}

/// Parses an unsigned integer no larger than `max`, as `str::parse` does for
/// `u8`, `u16` or `u64` (with `max` the type's largest value).
pub fn parse_unsigned(s: &str, max: u64) -> (r: Option<u64>)
    ensures
        match unsigned_value(s@) {
            Some(v) => if v <= max {
                r == Some(v as u64)
            } else {
                r is None
            },
            None => r is None,
        },
{
    let cs = chars_of(s);
    parse_unsigned_chars(cs.as_slice(), max)
}

/// `parse_unsigned` on the characters `cs`.
pub fn parse_unsigned_chars(cs: &[char], max: u64) -> (r: Option<u64>)
    ensures
        match unsigned_value(cs@) {
            Some(v) => if v <= max {
                r == Some(v as u64)
            } else {
                r is None
            },
            None => r is None,
        },
{
    let start: usize = if cs.len() > 0 && cs[0] == '+' {
        1
    } else {
        0
    };
    let ghost d = unsigned_digits(cs@);
    assert(d == cs@.skip(start as int));
    if start == cs.len() {
        return None;
    }
    let mut acc: u64 = 0;
    let mut overflow = false;
    let mut i = start;
    while i < cs.len()
        invariant
            start <= i <= cs@.len(),
            d == cs@.skip(start as int),
            d == unsigned_digits(cs@),
            start < cs@.len(),
            forall|k: int| start <= k < i ==> is_digit(#[trigger] cs@[k]),
            !overflow ==> acc == digits_value(cs@.subrange(start as int, i as int)),
            !overflow ==> acc <= max,
            overflow ==> digits_value(cs@.subrange(start as int, i as int)) > max,
        decreases cs@.len() - i,
    {
        let c = cs[i];
        if !('0' <= c && c <= '9') {
            assert(d[i - start] == c);
            assert(!is_digit(d[i - start]));
            return None;
        }
        let dig = (c as u32 - '0' as u32) as u64;
        proof {
            let sub = cs@.subrange(start as int, i + 1);
            assert(sub.drop_last() == cs@.subrange(start as int, i as int));
            assert(sub.last() == c);
            assert(digits_value(sub) == digits_value(cs@.subrange(start as int, i as int)) * 10
                + dig);
        }
        if !overflow {
            if dig > max || acc > (max - dig) / 10 {
                overflow = true;
                assert(acc * 10 + dig > max) by (nonlinear_arith)
                    requires
                        dig > max || acc > (max - dig) / 10,
                        acc >= 0,
                ;
            } else {
                assert(acc * 10 + dig <= max) by (nonlinear_arith)
                    requires
                        acc <= (max - dig) / 10,
                        dig <= 9,
                ;
                acc = acc * 10 + dig;
            }
        } else {
            assert(digits_value(cs@.subrange(start as int, i as int)) * 10 + dig > max) by (
            nonlinear_arith)
                requires
                    digits_value(cs@.subrange(start as int, i as int)) > max,
            ;
        }
        i += 1;
    }
    assert(cs@.subrange(start as int, cs@.len() as int) == d);
    if overflow {
        None
    } else {
        Some(acc)
    }
}

/// The decimal digits of `n` (no sign, no leading zeros; "0" for zero).
pub open spec fn decimal(n: nat) -> Seq<char>
    decreases n,
{
    if n < 10 {
        seq![(('0' as nat) + n) as char]
    } else {
        decimal(n / 10).push((('0' as nat) + n % 10) as char)
    }
}

/// The decimal text of `n` (what `u64::to_string` gives).
pub fn u64_to_string(n: u64) -> (r: String)
    ensures
        r@ == decimal(n as nat),
    decreases n,
{
    if n < 10 {
        let mut r = String::new();
        push_char(&mut r, char_of_digit(n));
        r
    } else {
        let mut r = u64_to_string(n / 10);
        push_char(&mut r, char_of_digit(n % 10));
        r
    }
}

pub(crate) fn char_of_digit(d: u64) -> (c: char)
    requires
        d < 10,
    ensures
        c == (('0' as nat) + d) as char,
{
    if d == 0 { '0' }
    else if d == 1 { '1' }
    else if d == 2 { '2' }
    else if d == 3 { '3' }
    else if d == 4 { '4' }
    else if d == 5 { '5' }
    else if d == 6 { '6' }
    else if d == 7 { '7' }
    else if d == 8 { '8' }
    else { '9' }
}

// ---------------------------------------------------------------------------
// Ordering
/// Lexicographic order on strings by code point, which is the order `String`'s
/// `Ord` gives (UTF-8 preserves code point order): `a` comes strictly before `b`.
pub open spec fn str_lt(a: Seq<char>, b: Seq<char>) -> bool
    decreases a.len(),
{
    if a.len() == 0 {
        b.len() > 0
    } else if b.len() == 0 {
        false
    } else if a[0] != b[0] {
        a[0] < b[0]
    } else {
        str_lt(a.drop_first(), b.drop_first())
    }
}

/// `a` comes before `b` or equals it.
pub open spec fn str_le(a: Seq<char>, b: Seq<char>) -> bool {
    a == b || str_lt(a, b)
}

/// The order is total: of two different strings one comes first.
pub proof fn lemma_str_lt_total(a: Seq<char>, b: Seq<char>)
    ensures
        a == b || str_lt(a, b) || str_lt(b, a),
        !(str_lt(a, b) && str_lt(b, a)),
        !str_lt(a, a),
    decreases a.len(),
{
    if a.len() == 0 && b.len() == 0 {
        assert(a =~= b);
    }
    if a.len() > 0 && b.len() > 0 && a[0] == b[0] {
        lemma_str_lt_total(a.drop_first(), b.drop_first());
        if a.drop_first() == b.drop_first() {
            assert(a == seq![a[0]] + a.drop_first());
            assert(b == seq![b[0]] + b.drop_first());
        }
    }
    if a.len() > 0 {
        lemma_str_lt_irrefl(a);
    }
}

proof fn lemma_str_lt_irrefl(a: Seq<char>)
    ensures
        !str_lt(a, a),
    decreases a.len(),
{
    if a.len() > 0 {
        lemma_str_lt_irrefl(a.drop_first());
    }
}

/// The order is transitive.
pub proof fn lemma_str_lt_trans(a: Seq<char>, b: Seq<char>, c: Seq<char>)
    requires
        str_lt(a, b),
        str_lt(b, c),
    ensures
        str_lt(a, c),
    decreases a.len(),
{
    if a.len() > 0 && b.len() > 0 && c.len() > 0 && a[0] == b[0] && b[0] == c[0] {
        lemma_str_lt_trans(a.drop_first(), b.drop_first(), c.drop_first());
    }
}

/// Whether `a` comes strictly before `b`.
pub fn string_less(a: &str, b: &str) -> (r: bool)
    ensures
        r == str_lt(a@, b@),
{
    let x = chars_of(a);
    let y = chars_of(b);
    let mut i: usize = 0;
    assert(x@.skip(0) == x@);
    assert(y@.skip(0) == y@);
    while i < x.len() && i < y.len() && x[i] == y[i]
        invariant
            i <= x@.len(),
            i <= y@.len(),
            str_lt(x@, y@) == str_lt(x@.skip(i as int), y@.skip(i as int)),
        decreases x@.len() - i,
    {
        assert(x@.skip(i as int).drop_first() == x@.skip(i + 1));
        assert(y@.skip(i as int).drop_first() == y@.skip(i + 1));
        i += 1;
    }
    if i == x.len() {
        i < y.len()
    } else if i == y.len() {
        false
    } else {
        x[i] < y[i]
    }
}

/// The characters of each string of `v`.
pub open spec fn string_views(v: Seq<String>) -> Seq<Seq<char>> {
    v.map_values(|x: String| x@)
}

/// `v` is in ascending order.
pub open spec fn sorted_strs(v: Seq<Seq<char>>) -> bool {
    forall|i: int, j: int| 0 <= i < j < v.len() ==> str_le(#[trigger] v[i], #[trigger] v[j])
}

/// Sorting gives a single order: two ascending lists of the same strings
/// (counted with repeats) are the same list.
pub proof fn lemma_sorted_strings_unique(x: Seq<Seq<char>>, y: Seq<Seq<char>>)
    requires
        sorted_strs(x),
        sorted_strs(y),
        x.to_multiset() == y.to_multiset(),
    ensures
        x == y,
{
    let leq = |a: Seq<char>, b: Seq<char>| str_le(a, b);
    assert(vstd::relations::total_ordering(leq)) by {
        assert forall|a: Seq<char>, b: Seq<char>| #[trigger] leq(a, b) && #[trigger] leq(b, a) implies a == b by {
            lemma_str_lt_total(a, b);
        }
        assert forall|a: Seq<char>, b: Seq<char>, c: Seq<char>| #[trigger] leq(a, b) && #[trigger] leq(b, c) implies leq(a, c) by {
            if a != b && b != c {
                lemma_str_lt_trans(a, b, c);
            }
        }
        assert forall|a: Seq<char>, b: Seq<char>| #[trigger] leq(a, b) || #[trigger] leq(b, a) by {
            lemma_str_lt_total(a, b);
        }
    }
    assert(vstd::relations::sorted_by(x, leq));
    assert(vstd::relations::sorted_by(y, leq));
    vstd::seq_lib::lemma_sorted_unique(x, y, leq);
}

/// Copies of the strings of `v` in ascending order (the order `sort` gives
/// `String`s).
pub fn sorted_strings(v: &Vec<String>) -> (r: Vec<String>)
    ensures
        sorted_strs(string_views(r@)),
        string_views(r@).to_multiset() == string_views(v@).to_multiset(),
{
    let mut out: Vec<String> = Vec::new();
    let mut i: usize = 0;
    assert(string_views(out@) =~= string_views(v@.take(0)));
    while i < v.len()
        invariant
            i <= v@.len(),
            sorted_strs(string_views(out@)),
            string_views(out@).to_multiset() == string_views(v@.take(i as int)).to_multiset(),
        decreases v@.len() - i,
    {
        let s = copy_str(v[i].as_str());
        let mut p: usize = 0;
        while p < out.len() && !string_less(s.as_str(), out[p].as_str())
            invariant
                p <= out@.len(),
                forall|k: int| 0 <= k < p ==> str_le(#[trigger] out@[k]@, s@),
            decreases out@.len() - p,
        {
            proof {
                lemma_str_lt_total(s@, out@[p as int]@);
            }
            p += 1;
        }
        let ghost before = string_views(out@);
        out.insert(p, s);
        proof {
            let after = string_views(out@);
            assert(after =~= before.insert(p as int, v@[i as int]@));
            assert(string_views(v@.take(i + 1)) =~= string_views(v@.take(i as int)).push(v@[i as int]@));
            vstd::seq_lib::to_multiset_insert(before, p as int, v@[i as int]@);
            vstd::seq_lib::to_multiset_build(string_views(v@.take(i as int)), v@[i as int]@);
            assert forall|a: int, b: int| 0 <= a < b < after.len() implies str_le(
                #[trigger] after[a],
                #[trigger] after[b],
            ) by {
                if a < p && b == p {
                } else if a == p && b > p {
                    // s comes before out[p] <= out[b - 1]
                    let o = before[p as int];
                    let q = before[b - 1];
                    if p as int == b - 1 {
                    } else {
                        assert(str_le(o, q));
                        if str_lt(o, q) {
                            lemma_str_lt_trans(after[a], o, q);
                        }
                    }
                } else if a < p && b > p {
                    assert(str_le(before[a], before[b - 1]));
                } else if b < p {
                    assert(str_le(before[a], before[b]));
                } else {
                    assert(str_le(before[a - 1], before[b - 1]));
                }
            }
        }
        i += 1;
    }
    assert(v@.take(v@.len() as int) =~= v@);
    out
}

/// Whether the character `c` occurs in `s`.
pub fn contains_char(s: &str, c: char) -> (r: bool)
    ensures
        r == s@.contains(c),
{
    let mut found = false;
    for x in it: s.chars()
        invariant
            it.seq() == s@,
            found == exists|i: int| 0 <= i < it.index() && #[trigger] s@[i] == c,
    {
        if x == c {
            found = true;
        }
    }
    found
}

/// The strings of `v` with `sep` between each two.
pub open spec fn joined(v: Seq<Seq<char>>, sep: Seq<char>) -> Seq<char>
    decreases v.len(),
{
    if v.len() == 0 {
        seq![]
    } else if v.len() == 1 {
        v[0]
    } else {
        joined(v.drop_last(), sep) + sep + v.last()
    }
}

/// The strings of `v` with `sep` between each two (`join`).
pub fn join_with(v: &Vec<String>, sep: &str) -> (r: String)
    ensures
        r@ == joined(string_views(v@), sep@),
{
    let mut r = String::new();
    let mut i: usize = 0;
    while i < v.len()
        invariant
            i <= v@.len(),
            r@ == joined(string_views(v@.take(i as int)), sep@),
        decreases v@.len() - i,
    {
        assert(string_views(v@.take(i + 1)).drop_last() =~= string_views(v@.take(i as int)));
        if i > 0 {
            r.append(sep);
        }
        r.append(v[i].as_str());
        proof {
            if i == 0 {
                assert(string_views(v@.take(1)) =~= seq![v@[0]@]);
            }
        }
        i += 1;
    }
    assert(v@.take(v@.len() as int) =~= v@);
    r
}

/// Copies of the strings of `v`.
pub fn copy_strings(v: &Vec<String>) -> (r: Vec<String>)
    ensures
        string_views(r@) == string_views(v@),
{
    let mut r: Vec<String> = Vec::new();
    let mut i: usize = 0;
    while i < v.len()
        invariant
            i <= v@.len(),
            string_views(r@) == string_views(v@.take(i as int)),
        decreases v@.len() - i,
    {
        r.push(copy_str(v[i].as_str()));
        assert(string_views(v@.take(i + 1)) =~= string_views(v@.take(i as int)).push(v@[i as int]@));
        i += 1;
    }
    assert(v@.take(v@.len() as int) =~= v@);
    r
}

} // verus!
