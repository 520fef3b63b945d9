//! Character-level text operations with exact contracts.
//!
//! Every operation is specified over `Seq<char>`, the view of `str` and
//! `String`, and computed over `Vec<char>`.

use vstd::prelude::*;

verus! {

/// Appending a character to a `String` (`String::push`) extends its view by
/// exactly that character.
pub assume_specification[ String::push ](s: &mut String, c: char)
    ensures
        final(s)@ == old(s)@.push(c),
;

/// The characters of `s`, in order.
pub fn to_chars(s: &str) -> (v: Vec<char>)
    ensures
        v@ == s@,
{
    let mut v: Vec<char> = Vec::new();
    for c in it: s.chars()
        invariant
            v@ == it.seq().take(it.index() as int),
            it.seq() == s@,
    {
        v.push(c);
    }
    v
}

/// The string made of the characters `v[from..to]`.
pub(crate) fn to_text(v: &Vec<char>, from: usize, to: usize) -> (s: String)
    requires
        from <= to <= v.len(),
    ensures
        s@ == v@.subrange(from as int, to as int),
{
    let mut s = String::new();
    let mut i: usize = from;
    while i < to
        invariant
            from <= i <= to <= v.len(),
            s@ == v@.subrange(from as int, i as int),
        decreases to - i,
    {
        s.push(v[i]);
        i += 1;
    }
    s
}

/// The string made of all the characters of `v`.
pub fn text_of(v: &Vec<char>) -> (s: String)
    ensures
        s@ == v@,
{
    let s = to_text(v, 0, v.len());
    assert(v@.subrange(0, v@.len() as int) =~= v@);
    s
}

/// A copy of the characters `v[from..to]`.
pub(crate) fn slice(v: &Vec<char>, from: usize, to: usize) -> (r: Vec<char>)
    requires
        from <= to <= v.len(),
    ensures
        r@ == v@.subrange(from as int, to as int),
{
    let mut r: Vec<char> = Vec::new();
    let mut i: usize = from;
    while i < to
        invariant
            from <= i <= to <= v.len(),
            r@ == v@.subrange(from as int, i as int),
        decreases to - i,
    {
        r.push(v[i]);
        i += 1;
    }
    r
}

/// The characters with the Unicode property `White_Space`.
pub open spec fn is_whitespace(c: char) -> bool {
    let n = c as u32;
    ||| 0x09 <= n <= 0x0D
    ||| n == 0x20
    ||| n == 0x85
    ||| n == 0xA0
    ||| n == 0x1680
    ||| 0x2000 <= n <= 0x200A
    ||| n == 0x2028
    ||| n == 0x2029
    ||| n == 0x202F
    ||| n == 0x205F
    ||| n == 0x3000
}

/// Whether `c` is a white-space character.
pub fn is_space(c: char) -> (b: bool)
    ensures
        b == is_whitespace(c),
{
    let n: u32 = c as u32;
    (0x09 <= n && n <= 0x0D) || n == 0x20 || n == 0x85 || n == 0xA0 || n == 0x1680 || (0x2000 <= n
        && n <= 0x200A) || n == 0x2028 || n == 0x2029 || n == 0x202F || n == 0x205F || n
        == 0x3000
}

/// The first position at or after `i` that holds no white space, or the
/// length of `s` when there is none.
pub open spec fn skip_whitespace(s: Seq<char>, i: int) -> int
    decreases s.len() - i,
{
    if 0 <= i < s.len() && is_whitespace(s[i]) {
        skip_whitespace(s, i + 1)
    } else {
        i
    }
}

/// The end of the text that remains of `s[lo..j]` once its trailing white
/// space is dropped.
pub open spec fn drop_whitespace_back(s: Seq<char>, lo: int, j: int) -> int
    decreases j,
{
    if 0 <= lo < j <= s.len() && is_whitespace(s[j - 1]) {
        drop_whitespace_back(s, lo, j - 1)
    } else {
        j
    }
}

/// `s` without its leading and trailing white space.
pub open spec fn trimmed(s: Seq<char>) -> Seq<char> {
    let a = skip_whitespace(s, 0);
    let b = drop_whitespace_back(s, a, s.len() as int);
    s.subrange(a, b)
}

/// Where `skip_whitespace` stops: everything before is white space, and the
/// character there, if any, is not.
pub proof fn lemma_skip_whitespace(s: Seq<char>, i: int)
    requires
        0 <= i <= s.len(),
    ensures
        i <= skip_whitespace(s, i) <= s.len(),
        forall|k: int| i <= k < skip_whitespace(s, i) ==> is_whitespace(#[trigger] s[k]),
        skip_whitespace(s, i) < s.len() ==> !is_whitespace(s[skip_whitespace(s, i)]),
    decreases s.len() - i,
{
    if i < s.len() && is_whitespace(s[i]) {
        lemma_skip_whitespace(s, i + 1);
    }
}

/// Where `drop_whitespace_back` stops: everything after is white space, and
/// the character before, if any, is not.
pub proof fn lemma_drop_whitespace_back(s: Seq<char>, lo: int, j: int)
    requires
        0 <= lo <= j <= s.len(),
    ensures
        lo <= drop_whitespace_back(s, lo, j) <= j,
        forall|k: int|
            drop_whitespace_back(s, lo, j) <= k < j ==> is_whitespace(#[trigger] s[k]),
        lo < drop_whitespace_back(s, lo, j) ==> !is_whitespace(
            s[drop_whitespace_back(s, lo, j) - 1],
        ),
    decreases j,
{
    if lo < j && is_whitespace(s[j - 1]) {
        lemma_drop_whitespace_back(s, lo, j - 1);
    }
}

/// The bounds of the trimmed text within `v`.
pub fn trim_bounds(v: &Vec<char>) -> (r: (usize, usize))
    ensures
        r.0 == skip_whitespace(v@, 0),
        r.1 == drop_whitespace_back(v@, r.0 as int, v@.len() as int),
        r.0 <= r.1 <= v.len(),
        forall|k: int| 0 <= k < r.0 || r.1 <= k < v.len() ==> is_whitespace(#[trigger] v@[k]),
        r.0 < r.1 ==> !is_whitespace(v@[r.0 as int]) && !is_whitespace(v@[r.1 - 1]),
{
    proof {
        lemma_skip_whitespace(v@, 0);
        lemma_drop_whitespace_back(v@, skip_whitespace(v@, 0), v@.len() as int);
    }
    let n = v.len();
    let mut a: usize = 0;
    while a < n && is_space(v[a])
        invariant
            a <= n == v.len(),
            skip_whitespace(v@, 0) == skip_whitespace(v@, a as int),
        decreases n - a,
    {
        a += 1;
    }
    let mut b: usize = n;
    while a < b && is_space(v[b - 1])
        invariant
            a <= b <= n == v.len(),
            drop_whitespace_back(v@, a as int, n as int) == drop_whitespace_back(
                v@,
                a as int,
                b as int,
            ),
        decreases b,
    {
        b -= 1;
    }
    (a, b)
}

/// `v` without its leading and trailing white space.
pub fn trim(v: &Vec<char>) -> (r: Vec<char>)
    ensures
        r@ == trimmed(v@),
        r@.len() > 0 ==> !is_whitespace(r@.first()) && !is_whitespace(r@.last()),
{
    let (a, b) = trim_bounds(v);
    slice(v, a, b)
}

/// Whether `v` holds white space only (or nothing).
pub fn is_blank(v: &Vec<char>) -> (b: bool)
    ensures
        b == (trimmed(v@).len() == 0),
{
    let (a, b) = trim_bounds(v);
    a == b
}

/// Whether `p` occurs in `s` at position `i`.
pub open spec fn occurs_at(s: Seq<char>, p: Seq<char>, i: int) -> bool {
    0 <= i && i + p.len() <= s.len() && s.subrange(i, i + p.len()) == p
}

/// Whether `p` occurs somewhere in `s`.
pub open spec fn contains_text(s: Seq<char>, p: Seq<char>) -> bool {
    exists|i: int| occurs_at(s, p, i)
}

/// Whether `p` occurs in `v` at position `i`.
pub fn matches_at(v: &Vec<char>, p: &Vec<char>, i: usize) -> (b: bool)
    ensures
        b == occurs_at(v@, p@, i as int),
{
    if p.len() > v.len() || i > v.len() - p.len() {
        return false;
    }
    let mut k: usize = 0;
    while k < p.len()
        invariant
            k <= p.len(),
            i + p.len() <= v.len(),
            forall|j: int| 0 <= j < k ==> v@[i + j] == p@[j],
        decreases p.len() - k,
    {
        if v[i + k] != p[k] {
            proof {
                let sub = v@.subrange(i as int, i + p@.len());
                assert(sub[k as int] == v@[i + k]);
            }
            return false;
        }
        k += 1;
    }
    assert(v@.subrange(i as int, i + p@.len()) =~= p@);
    true
}

/// The first position at or after `from` where `p` occurs in `s`, or `None`.
pub open spec fn first_occurrence(s: Seq<char>, p: Seq<char>, from: int) -> Option<int>
    decreases s.len() + 1 - from,
{
    if from < 0 || from + p.len() > s.len() {
        None
    } else if occurs_at(s, p, from) {
        Some(from)
    } else {
        first_occurrence(s, p, from + 1)
    }
}

/// `first_occurrence` finds an occurrence exactly when there is one, and
/// then the earliest.
pub proof fn lemma_first_occurrence(s: Seq<char>, p: Seq<char>, from: int)
    requires
        0 <= from,
    ensures
        match first_occurrence(s, p, from) {
            Some(i) => from <= i && occurs_at(s, p, i) && forall|k: int|
                from <= k < i ==> !occurs_at(s, p, k),
            None => forall|k: int| from <= k ==> !occurs_at(s, p, k),
        },
    decreases s.len() + 1 - from,
{
    if from + p.len() > s.len() {
    } else if occurs_at(s, p, from) {
    } else {
        lemma_first_occurrence(s, p, from + 1);
    }
}

/// `p` occurs in `s` exactly when a first occurrence exists.
pub proof fn lemma_contains_text(s: Seq<char>, p: Seq<char>)
    ensures
        contains_text(s, p) == first_occurrence(s, p, 0).is_some(),
{
    lemma_first_occurrence(s, p, 0);
    if contains_text(s, p) {
        let i = choose|i: int| occurs_at(s, p, i);
        assert(occurs_at(s, p, i));
    }
}

/// The first position at or after `from` where `p` occurs in `v`.
pub fn find(v: &Vec<char>, p: &Vec<char>, from: usize) -> (r: Option<usize>)
    ensures
        r.is_some() == first_occurrence(v@, p@, from as int).is_some(),
        r.is_some() ==> r.unwrap() as int == first_occurrence(v@, p@, from as int).unwrap(),
        r.is_some() ==> from <= r.unwrap() && r.unwrap() + p.len() <= v.len(),
{
    if p.len() > v.len() {
        proof {
            lemma_first_occurrence(v@, p@, from as int);
        }
        return None;
    }
    let last: usize = v.len() - p.len();
    let mut i: usize = from;
    while i < last
        invariant
            last == v.len() - p.len(),
            from <= i,
            first_occurrence(v@, p@, from as int) == first_occurrence(v@, p@, i as int),
        decreases last - i,
    {
        if matches_at(v, p, i) {
            return Some(i);
        }
        i += 1;
    }
    if i == last && matches_at(v, p, i) {
        Some(i)
    } else {
        proof {
            lemma_first_occurrence(v@, p@, i as int + 1);
        }
        None
    }
}

/// Whether `p` occurs somewhere in `v`.
pub fn contains(v: &Vec<char>, p: &Vec<char>) -> (b: bool)
    ensures
        b == contains_text(v@, p@),
{
    proof {
        lemma_contains_text(v@, p@);
    }
    find(v, p, 0).is_some()
}

/// Whether `v` begins with `p`.
pub fn starts_with(v: &Vec<char>, p: &Vec<char>) -> (b: bool)
    ensures
        b == p@.is_prefix_of(v@),
{
    let b = matches_at(v, p, 0);
    proof {
        if p@.len() <= v@.len() {
            assert(v@.subrange(0, p@.len() as int) == p@ <==> v@.subrange(0, p@.len() as int)
                =~= p@);
        }
    }
    b
}

/// Whether `v` ends with `p`.
pub fn ends_with(v: &Vec<char>, p: &Vec<char>) -> (b: bool)
    ensures
        b == p@.is_suffix_of(v@),
{
    if p.len() > v.len() {
        return false;
    }
    let b = matches_at(v, p, v.len() - p.len());
    proof {
        assert(v@.subrange(v@.len() - p@.len(), v@.len() as int) == p@ <==> v@.subrange(
            v@.len() - p@.len(),
            v@.len() as int,
        ) =~= p@);
    }
    b
}

/// Whether the character `c` occurs in `s`.
pub fn has_char(v: &Vec<char>, c: char) -> (b: bool)
    ensures
        b == v@.contains(c),
{
    let mut i: usize = 0;
    while i < v.len()
        invariant
            i <= v.len(),
            forall|k: int| 0 <= k < i ==> v@[k] != c,
        decreases v.len() - i,
    {
        if v[i] == c {
            return true;
        }
        i += 1;
    }
    false
}

/// The first position at or after `from` that holds `c`, or the length of
/// `s` when there is none.
pub open spec fn index_of_char(s: Seq<char>, c: char, from: int) -> int
    decreases s.len() - from,
{
    if 0 <= from < s.len() && s[from] != c {
        index_of_char(s, c, from + 1)
    } else {
        from
    }
}

/// Where `index_of_char` stops: nothing before holds `c`, and the character
/// there, if any, is `c`.
pub proof fn lemma_index_of_char(s: Seq<char>, c: char, from: int)
    requires
        0 <= from <= s.len(),
    ensures
        from <= index_of_char(s, c, from) <= s.len(),
        forall|k: int| from <= k < index_of_char(s, c, from) ==> #[trigger] s[k] != c,
        index_of_char(s, c, from) < s.len() ==> s[index_of_char(s, c, from)] == c,
    decreases s.len() - from,
{
    if from < s.len() && s[from] != c {
        lemma_index_of_char(s, c, from + 1);
    }
}

/// The first position at or after `from` that holds `c`, or the length.
pub(crate) fn position_of(v: &Vec<char>, c: char, from: usize) -> (i: usize)
    requires
        from <= v.len(),
    ensures
        i == index_of_char(v@, c, from as int),
        from <= i <= v.len(),
        forall|k: int| from <= k < i ==> #[trigger] v@[k] != c,
        i < v.len() ==> v@[i as int] == c,
{
    proof {
        lemma_index_of_char(v@, c, from as int);
    }
    let mut i: usize = from;
    while i < v.len() && v[i] != c
        invariant
            from <= i <= v.len(),
            index_of_char(v@, c, from as int) == index_of_char(v@, c, i as int),
        decreases v.len() - i,
    {
        i += 1;
    }
    i
}

/// The pieces of `s[start..]` between occurrences of `sep`. There is always
/// at least one piece; an occurrence at the very end leaves an empty last
/// piece.
pub open spec fn split_from(s: Seq<char>, sep: char, start: int) -> Seq<Seq<char>>
    decreases s.len() - start,
{
    let i = index_of_char(s, sep, start);
    if 0 <= start <= i < s.len() {
        seq![s.subrange(start, i)] + split_from(s, sep, i + 1)
    } else {
        seq![s.subrange(start, s.len() as int)]
    }
}

/// The pieces of `s` between occurrences of `sep`.
pub open spec fn split_on(s: Seq<char>, sep: char) -> Seq<Seq<char>> {
    split_from(s, sep, 0)
}

/// The pieces, with `sep` between neighbours.
pub open spec fn joined(pieces: Seq<Seq<char>>, sep: char) -> Seq<char>
    decreases pieces.len(),
{
    if pieces.len() == 0 {
        Seq::empty()
    } else if pieces.len() == 1 {
        pieces[0]
    } else {
        pieces[0] + seq![sep] + joined(pieces.drop_first(), sep)
    }
}

/// Splitting is the inverse of joining: there is at least one piece, no
/// piece holds the separator, and the pieces joined by the separator are
/// the text that was split.
pub proof fn lemma_split_from(s: Seq<char>, sep: char, start: int)
    requires
        0 <= start <= s.len(),
    ensures
        split_from(s, sep, start).len() >= 1,
        forall|i: int|
            0 <= i < split_from(s, sep, start).len() ==> !(#[trigger] split_from(
                s,
                sep,
                start,
            )[i]).contains(sep),
        joined(split_from(s, sep, start), sep) == s.subrange(start, s.len() as int),
    decreases s.len() - start,
{
    lemma_index_of_char(s, sep, start);
    let i = index_of_char(s, sep, start);
    let head = s.subrange(start, i);
    assert(!head.contains(sep)) by {
        if head.contains(sep) {
            let k = choose|k: int| 0 <= k < head.len() && head[k] == sep;
            assert(s[start + k] == sep);
        }
    }
    if i < s.len() {
        lemma_split_from(s, sep, i + 1);
        let rest = split_from(s, sep, i + 1);
        let all = seq![head] + rest;
        assert(all.drop_first() =~= rest);
        assert(all[0] == head);
        assert forall|k: int| 0 <= k < all.len() implies !(#[trigger] all[k]).contains(sep) by {
            if k > 0 {
                assert(all[k] == rest[k - 1]);
            }
        }
        assert(head + seq![sep] + s.subrange(i + 1, s.len() as int) =~= s.subrange(
            start,
            s.len() as int,
        ));
    } else {
        assert(head =~= s.subrange(start, s.len() as int));
    }
}

/// The deep view of a vector of characters is its view.
pub proof fn lemma_chars_deep_view(v: Vec<char>)
    ensures
        v.deep_view() == v@,
{
    assert(v.deep_view() =~= v@);
}

/// Pushing an element extends the deep view by that element's deep view.
pub proof fn lemma_deep_view_push<T: DeepView>(before: Vec<T>, after: Vec<T>, x: T)
    requires
        after@ == before@.push(x),
    ensures
        after.deep_view() == before.deep_view().push(x.deep_view()),
{
    assert(after.deep_view() =~= before.deep_view().push(x.deep_view()));
}

/// Pushing a row extends the deep view by that row's characters.
pub proof fn lemma_rows_push(before: Vec<Vec<char>>, after: Vec<Vec<char>>, row: Vec<char>)
    requires
        after@ == before@.push(row),
    ensures
        after.deep_view() == before.deep_view().push(row@),
{
    lemma_chars_deep_view(row);
    lemma_deep_view_push(before, after, row);
}

/// The pieces of `v` between occurrences of `sep`.
pub fn split(v: &Vec<char>, sep: char) -> (parts: Vec<Vec<char>>)
    ensures
        parts.deep_view() == split_on(v@, sep),
        parts.len() >= 1,
        forall|i: int| 0 <= i < parts.len() ==> !(#[trigger] parts.deep_view()[i]).contains(sep),
        joined(parts.deep_view(), sep) == v@,
{
    let mut parts: Vec<Vec<char>> = Vec::new();
    let mut start: usize = 0;
    loop
        invariant
            start <= v.len(),
            split_on(v@, sep) == parts.deep_view() + split_from(v@, sep, start as int),
        decreases v.len() - start,
    {
        let i = position_of(v, sep, start);
        let piece = slice(v, start, i);
        let ghost before = parts.deep_view();
        let ghost old_parts = parts;
        parts.push(piece);
        proof {
            lemma_rows_push(old_parts, parts, piece);
        }
        if i < v.len() {
            assert(before + (seq![v@.subrange(start as int, i as int)] + split_from(
                v@,
                sep,
                i + 1,
            )) =~= parts.deep_view() + split_from(v@, sep, i + 1));
            start = i + 1;
        } else {
            assert(before + seq![v@.subrange(start as int, v@.len() as int)]
                =~= parts.deep_view());
            proof {
                lemma_split_from(v@, sep, 0);
                assert(v@.subrange(0, v@.len() as int) =~= v@);
            }
            return parts;
        }
    }
}

/// `s` without one trailing carriage return.
pub open spec fn strip_cr(s: Seq<char>) -> Seq<char> {
    if s.len() > 0 && s.last() == '\r' {
        s.drop_last()
    } else {
        s
    }
}

/// The lines of `s[start..]`: the text is cut after each line feed, and a
/// line loses that line feed and a carriage return right before it. Text
/// after the last line feed is a line of its own if it is not empty.
pub open spec fn lines_from(s: Seq<char>, start: int) -> Seq<Seq<char>>
    decreases s.len() - start,
{
    if 0 <= start < s.len() {
        let i = index_of_char(s, '\n', start);
        if start <= i < s.len() {
            seq![strip_cr(s.subrange(start, i))] + lines_from(s, i + 1)
        } else {
            seq![s.subrange(start, s.len() as int)]
        }
    } else {
        Seq::empty()
    }
}

/// The lines of `s`.
pub open spec fn lines_of(s: Seq<char>) -> Seq<Seq<char>> {
    lines_from(s, 0)
}

/// The lines of `v`.
pub fn lines(v: &Vec<char>) -> (rows: Vec<Vec<char>>)
    ensures
        rows.deep_view() == lines_of(v@),
{
    let mut rows: Vec<Vec<char>> = Vec::new();
    let mut start: usize = 0;
    while start < v.len()
        invariant
            start <= v.len(),
            lines_of(v@) == rows.deep_view() + lines_from(v@, start as int),
        decreases v.len() - start,
    {
        let i = position_of(v, '\n', start);
        let ghost before = rows.deep_view();
        if i < v.len() {
            let end: usize = if start < i && v[i - 1] == '\r' {
                i - 1
            } else {
                i
            };
            let row = slice(v, start, end);
            proof {
                let whole = v@.subrange(start as int, i as int);
                if start < i && v@[i - 1] == '\r' {
                    assert(whole.last() == '\r');
                    assert(whole.drop_last() =~= v@.subrange(start as int, end as int));
                } else if start < i {
                    assert(whole.last() != '\r');
                }
                assert(row@ == strip_cr(whole));
            }
            let ghost old_rows = rows;
            rows.push(row);
            proof {
                lemma_rows_push(old_rows, rows, row);
            }
            assert(before + (seq![strip_cr(v@.subrange(start as int, i as int))] + lines_from(
                v@,
                i + 1,
            )) =~= rows.deep_view() + lines_from(v@, i + 1));
            start = i + 1;
        } else {
            let row = slice(v, start, i);
            let ghost old_rows = rows;
            rows.push(row);
            proof {
                lemma_rows_push(old_rows, rows, row);
            }
            assert(before + seq![v@.subrange(start as int, v@.len() as int)]
                =~= rows.deep_view());
            assert(lines_from(v@, v@.len() as int) =~= Seq::<Seq<char>>::empty());
            start = i;
        }
    }
    assert(rows.deep_view() + Seq::<Seq<char>>::empty() =~= rows.deep_view());
    rows
}

/// The first position at or after `i` that holds white space, or the length
/// of `s` when there is none.
pub open spec fn skip_text(s: Seq<char>, i: int) -> int
    decreases s.len() - i,
{
    if 0 <= i < s.len() && !is_whitespace(s[i]) {
        skip_text(s, i + 1)
    } else {
        i
    }
}

/// The maximal runs of characters other than white space in `s[start..]`,
/// in order.
pub open spec fn tokens_from(s: Seq<char>, start: int) -> Seq<Seq<char>>
    decreases s.len() - start,
{
    let a = skip_whitespace(s, start);
    let b = skip_text(s, a);
    if 0 <= start <= a < b <= s.len() {
        seq![s.subrange(a, b)] + tokens_from(s, b)
    } else {
        Seq::empty()
    }
}

/// The maximal runs of characters other than white space in `s`.
pub open spec fn tokens_of(s: Seq<char>) -> Seq<Seq<char>> {
    tokens_from(s, 0)
}

/// Where `skip_text` stops: nothing before is white space, and the
/// character there, if any, is.
pub proof fn lemma_skip_text(s: Seq<char>, i: int)
    requires
        0 <= i <= s.len(),
    ensures
        i <= skip_text(s, i) <= s.len(),
        forall|k: int| i <= k < skip_text(s, i) ==> !is_whitespace(#[trigger] s[k]),
        skip_text(s, i) < s.len() ==> is_whitespace(s[skip_text(s, i)]),
    decreases s.len() - i,
{
    if i < s.len() && !is_whitespace(s[i]) {
        lemma_skip_text(s, i + 1);
    }
}

/// Whether a text is not empty and holds no white space.
pub open spec fn is_token(t: Seq<char>) -> bool {
    t.len() > 0 && forall|k: int| 0 <= k < t.len() ==> !is_whitespace(#[trigger] t[k])
}

/// Every token is a text without white space, and not empty.
pub proof fn lemma_tokens_from(s: Seq<char>, start: int)
    requires
        0 <= start <= s.len(),
    ensures
        forall|i: int|
            0 <= i < tokens_from(s, start).len() ==> is_token(#[trigger] tokens_from(s, start)[i]),
    decreases s.len() - start,
{
    lemma_skip_whitespace(s, start);
    let a = skip_whitespace(s, start);
    lemma_skip_text(s, a);
    let b = skip_text(s, a);
    if a < b {
        lemma_tokens_from(s, b);
        let head = s.subrange(a, b);
        let rest = tokens_from(s, b);
        let all = seq![head] + rest;
        assert(is_token(head)) by {
            assert forall|k: int| 0 <= k < head.len() implies !is_whitespace(
                #[trigger] head[k],
            ) by {
                assert(head[k] == s[a + k]);
            }
        }
        assert forall|i: int| 0 <= i < all.len() implies is_token(#[trigger] all[i]) by {
            if i > 0 {
                assert(all[i] == rest[i - 1]);
            }
        }
    }
}

/// The maximal runs of characters other than white space in `v`.
pub fn split_whitespace(v: &Vec<char>) -> (parts: Vec<Vec<char>>)
    ensures
        parts.deep_view() == tokens_of(v@),
        forall|i: int| 0 <= i < parts.len() ==> is_token(#[trigger] parts.deep_view()[i]),
{
    let n = v.len();
    let mut parts: Vec<Vec<char>> = Vec::new();
    let mut start: usize = 0;
    loop
        invariant
            n == v.len(),
            start <= n,
            tokens_of(v@) == parts.deep_view() + tokens_from(v@, start as int),
        decreases n - start,
    {
        let mut a: usize = start;
        while a < n && is_space(v[a])
            invariant
                start <= a <= n == v.len(),
                skip_whitespace(v@, start as int) == skip_whitespace(v@, a as int),
            decreases n - a,
        {
            a += 1;
        }
        let mut b: usize = a;
        while b < n && !is_space(v[b])
            invariant
                a <= b <= n == v.len(),
                skip_text(v@, a as int) == skip_text(v@, b as int),
            decreases n - b,
        {
            b += 1;
        }
        if a < b {
            let piece = slice(v, a, b);
            let ghost before = parts.deep_view();
            let ghost old_parts = parts;
            parts.push(piece);
            proof {
                lemma_rows_push(old_parts, parts, piece);
            }
            assert(before + (seq![v@.subrange(a as int, b as int)] + tokens_from(v@, b as int))
                =~= parts.deep_view() + tokens_from(v@, b as int));
            start = b;
        } else {
            assert(parts.deep_view() + Seq::<Seq<char>>::empty() =~= parts.deep_view());
            proof {
                lemma_tokens_from(v@, 0);
            }
            return parts;
        }
    }
}

/// Names what `str::to_lowercase` returns for a text.
pub uninterp spec fn lowercase_of(s: Seq<char>) -> Seq<char>;

/// `str::to_lowercase` returns the lowercase form of its argument, a
/// function of the text alone.
pub assume_specification[ str::to_lowercase ](s: &str) -> (r: String)
    ensures
        r@ == lowercase_of(s@),
;

/// The lowercase form of `v`.
pub fn lowercase(v: &Vec<char>) -> (r: Vec<char>)
    ensures
        r@ == lowercase_of(v@),
{
    let s = text_of(v);
    let lower = s.as_str().to_lowercase();
    to_chars(lower.as_str())
}

/// Appends the characters of `v` to `out`.
pub fn append(out: &mut Vec<char>, v: &Vec<char>)
    ensures
        final(out)@ == old(out)@ + v@,
{
    let mut i: usize = 0;
    while i < v.len()
        invariant
            i <= v.len(),
            out@ == old(out)@ + v@.subrange(0, i as int),
        decreases v.len() - i,
    {
        out.push(v[i]);
        assert(old(out)@ + v@.subrange(0, i as int + 1) =~= (old(out)@ + v@.subrange(
            0,
            i as int,
        )).push(v@[i as int]));
        i += 1;
    }
    assert(v@.subrange(0, v@.len() as int) =~= v@);
}

/// Whether two texts hold the same characters.
pub fn same(a: &str, b: &str) -> (r: bool)
    ensures
        r == (a@ == b@),
{
    let x = a.to_owned();
    let y = b.to_owned();
    x == y
}

/// Whether `list` holds the text `s`.
pub fn holds(list: &Vec<String>, s: &str) -> (r: bool)
    ensures
        r == list.deep_view().contains(s@),
{
    let mut i: usize = 0;
    while i < list.len()
        invariant
            i <= list.len(),
            forall|k: int| 0 <= k < i ==> list.deep_view()[k] != s@,
        decreases list.len() - i,
    {
        if same(list[i].as_str(), s) {
            assert(list.deep_view()[i as int] == s@);
            return true;
        }
        i += 1;
    }
    false
}

/// `a` followed by `b`.
pub fn join_text(a: &str, b: &str) -> (r: String)
    ensures
        r@ == a@ + b@,
{
    let mut out = to_chars(a);
    let tail = to_chars(b);
    append(&mut out, &tail);
    text_of(&out)
}

/// The view of an optional text.
pub open spec fn text_view(s: Option<String>) -> Option<Seq<char>> {
    match s {
        Some(s) => Some(s@),
        None => None,
    }
}

/// `s` without its leading and trailing white space.
pub fn trim_text(s: &str) -> (r: String)
    ensures
        r@ == trimmed(s@),
{
    let chars = to_chars(s);
    let (a, b) = trim_bounds(&chars);
    to_text(&chars, a, b)
}

/// The first position at or after `i` that does not hold `c`, or the
/// length of `s` when there is none.
pub open spec fn skip_char(s: Seq<char>, c: char, i: int) -> int
    decreases s.len() - i,
{
    if 0 <= i < s.len() && s[i] == c {
        skip_char(s, c, i + 1)
    } else {
        i
    }
}

/// The end of the text that remains of `s[lo..j]` once the characters `c`
/// at its end are dropped.
pub open spec fn drop_char_back(s: Seq<char>, c: char, lo: int, j: int) -> int
    decreases j,
{
    if 0 <= lo < j <= s.len() && s[j - 1] == c {
        drop_char_back(s, c, lo, j - 1)
    } else {
        j
    }
}

/// `s` without the characters `c` at its start and at its end.
pub open spec fn stripped_of(s: Seq<char>, c: char) -> Seq<char> {
    let a = skip_char(s, c, 0);
    let b = drop_char_back(s, c, a, s.len() as int);
    s.subrange(a, b)
}

/// `v` without the characters `c` at its start and at its end.
pub fn strip_char(v: &Vec<char>, c: char) -> (r: Vec<char>)
    ensures
        r@ == stripped_of(v@, c),
{
    let n = v.len();
    let mut a: usize = 0;
    while a < n && v[a] == c
        invariant
            a <= n == v.len(),
            skip_char(v@, c, 0) == skip_char(v@, c, a as int),
        decreases n - a,
    {
        a += 1;
    }
    let mut b: usize = n;
    while a < b && v[b - 1] == c
        invariant
            a <= b <= n == v.len(),
            drop_char_back(v@, c, a as int, n as int) == drop_char_back(
                v@,
                c,
                a as int,
                b as int,
            ),
        decreases b,
    {
        b -= 1;
    }
    slice(v, a, b)
}

/// Skipping white space in a text that follows a prefix goes as far as it
/// goes in the text alone.
pub proof fn lemma_skip_whitespace_shift(p: Seq<char>, t: Seq<char>, i: int)
    requires
        0 <= i <= t.len(),
    ensures
        skip_whitespace(p + t, p.len() + i) == p.len() + skip_whitespace(t, i),
    decreases t.len() - i,
{
    if i < t.len() {
        assert((p + t)[p.len() + i] == t[i]);
        if is_whitespace(t[i]) {
            lemma_skip_whitespace_shift(p, t, i + 1);
        }
    }
}

/// Skipping text in a text that follows a prefix goes as far as it goes in
/// the text alone.
pub proof fn lemma_skip_text_shift(p: Seq<char>, t: Seq<char>, i: int)
    requires
        0 <= i <= t.len(),
    ensures
        skip_text(p + t, p.len() + i) == p.len() + skip_text(t, i),
    decreases t.len() - i,
{
    if i < t.len() {
        assert((p + t)[p.len() + i] == t[i]);
        if !is_whitespace(t[i]) {
            lemma_skip_text_shift(p, t, i + 1);
        }
    }
}

/// The tokens of a text that follows a prefix, taken from the end of the
/// prefix on, are the tokens of the text alone.
pub proof fn lemma_tokens_shift(p: Seq<char>, t: Seq<char>, i: int)
    requires
        0 <= i <= t.len(),
    ensures
        tokens_from(p + t, p.len() + i) == tokens_from(t, i),
    decreases t.len() - i,
{
    let s = p + t;
    lemma_skip_whitespace(t, i);
    lemma_skip_whitespace_shift(p, t, i);
    let a = skip_whitespace(t, i);
    lemma_skip_text(t, a);
    lemma_skip_text_shift(p, t, a);
    let b = skip_text(t, a);
    if a < b {
        lemma_tokens_shift(p, t, b);
        assert(s.subrange(p.len() + a, p.len() + b) =~= t.subrange(a, b));
    }
}

/// Skipping text inside a token that a white-space character follows goes
/// to the end of the token.
pub proof fn lemma_skip_text_in_token(s: Seq<char>, lo: int, hi: int, i: int)
    requires
        0 <= lo <= i <= hi <= s.len(),
        forall|k: int| lo <= k < hi ==> !is_whitespace(#[trigger] s[k]),
        hi < s.len() ==> is_whitespace(s[hi]),
    ensures
        skip_text(s, i) == hi,
    decreases hi - i,
{
    if i < hi {
        lemma_skip_text_in_token(s, lo, hi, i + 1);
    }
}

/// A token, a space and a text have the token and the tokens of the text
/// as their tokens.
pub proof fn lemma_token_then_space(a: Seq<char>, t: Seq<char>)
    requires
        is_token(a),
    ensures
        tokens_of(a + seq![' '] + t) == seq![a] + tokens_of(t),
{
    let p = a + seq![' '];
    let s = p + t;
    assert(s =~= a + seq![' '] + t);
    let n = a.len() as int;
    assert forall|k: int| 0 <= k < n implies !is_whitespace(#[trigger] s[k]) by {
        assert(s[k] == a[k]);
    }
    assert(s[n] == ' ');
    assert(skip_whitespace(s, 0) == 0);
    lemma_skip_text_in_token(s, 0, n, 0);
    assert(s.subrange(0, n) =~= a);
    lemma_skip_whitespace_shift(p, t, 0);
    lemma_tokens_shift(p, t, 0);
    assert(skip_whitespace(s, n) == skip_whitespace(s, n + 1));
    assert(tokens_from(s, n) == tokens_from(s, n + 1)) by {
        lemma_skip_whitespace(t, 0);
    }
}

/// A token is its own and only token.
pub proof fn lemma_single_token(a: Seq<char>)
    requires
        is_token(a),
    ensures
        tokens_of(a) == seq![a],
{
    let n = a.len() as int;
    assert(skip_whitespace(a, 0) == 0);
    lemma_skip_text_in_token(a, 0, n, 0);
    assert(a.subrange(0, n) =~= a);
    assert(tokens_from(a, n) =~= Seq::<Seq<char>>::empty());
    assert(seq![a] + Seq::<Seq<char>>::empty() =~= seq![a]);
}

/// Tokens joined by single spaces are the tokens of what they are joined
/// to.
pub proof fn lemma_tokens_of_joined(tokens: Seq<Seq<char>>)
    requires
        forall|i: int| 0 <= i < tokens.len() ==> is_token(#[trigger] tokens[i]),
    ensures
        tokens_of(joined(tokens, ' ')) == tokens,
    decreases tokens.len(),
{
    if tokens.len() == 0 {
        assert(tokens_of(Seq::<char>::empty()) =~= Seq::<Seq<char>>::empty());
        assert(tokens =~= Seq::<Seq<char>>::empty());
    } else if tokens.len() == 1 {
        lemma_single_token(tokens[0]);
        assert(tokens =~= seq![tokens[0]]);
    } else {
        let rest = tokens.drop_first();
        assert forall|i: int| 0 <= i < rest.len() implies is_token(#[trigger] rest[i]) by {
            assert(rest[i] == tokens[i + 1]);
        }
        lemma_tokens_of_joined(rest);
        lemma_token_then_space(tokens[0], joined(rest, ' '));
        assert(seq![tokens[0]] + rest =~= tokens);
    }
}

/// Joining one piece more appends the separator and the piece.
pub proof fn lemma_joined_push(pieces: Seq<Seq<char>>, last: Seq<char>, sep: char)
    requires
        pieces.len() >= 1,
    ensures
        joined(pieces.push(last), sep) == joined(pieces, sep) + seq![sep] + last,
    decreases pieces.len(),
{
    let all = pieces.push(last);
    if pieces.len() == 1 {
        assert(all.drop_first() =~= seq![last]);
        assert(joined(all.drop_first(), sep) == last);
        assert(all[0] == pieces[0]);
    } else {
        let rest = pieces.drop_first();
        lemma_joined_push(rest, last, sep);
        assert(all.drop_first() =~= rest.push(last));
        assert(all[0] == pieces[0]);
        assert(joined(all, sep) =~= joined(pieces, sep) + seq![sep] + last);
    }
}

} // verus!
