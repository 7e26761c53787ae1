//! Character-level helpers shared by the schema parser and the column classifier.

use vstd::prelude::*;

verus! {

/// `String::push` appends one character to the end of the string.
pub assume_specification[ std::string::String::push ](s: &mut std::string::String, c: char)
    ensures
        final(s)@ == old(s)@.push(c),
;

/// Whether `c` has the Unicode `White_Space` property.
pub open spec fn is_space(c: char) -> bool {
    let n = c as u32;
    (0x09 <= n <= 0x0D) || n == 0x20 || n == 0x85 || n == 0xA0 || n == 0x1680 || (0x2000 <= n
        <= 0x200A) || n == 0x2028 || n == 0x2029 || n == 0x202F || n == 0x205F || n == 0x3000
}

/// Decides [`is_space`].
pub fn char_is_space(c: char) -> (r: bool)
    ensures
        r == is_space(c),
{
    let n: u32 = c as u32;
    (0x09 <= n && n <= 0x0D) || n == 0x20 || n == 0x85 || n == 0xA0 || n == 0x1680 || (0x2000 <= n
        && n <= 0x200A) || n == 0x2028 || n == 0x2029 || n == 0x202F || n == 0x205F || n == 0x3000
}

/// `c` with the letters `A` to `Z` replaced by `a` to `z`.
pub open spec fn lower(c: char) -> char {
    if 'A' <= c <= 'Z' {
        ((c as u8) + 32) as char
    } else {
        c
    }
}

/// Computes [`lower`].
pub fn char_lower(c: char) -> (r: char)
    ensures
        r == lower(c),
{
    if 'A' <= c && c <= 'Z' {
        let b: u8 = c as u8;
        (b + 32) as char
    } else {
        c
    }
}

/// The characters of `s`, in order.
pub fn chars_of(s: &str) -> (v: Vec<char>)
    ensures
        v@ == s@,
{
    let mut v: Vec<char> = Vec::new();
    for c in it: s.chars()
        invariant
            v@ == it.seq().take(it.index() as int),
    {
        v.push(c);
    }
    v
}

/// The string made of `chars[from..to]`.
pub fn string_of(chars: &Vec<char>, from: usize, to: usize) -> (s: String)
    requires
        from <= to <= chars.len(),
    ensures
        s@ == chars@.subrange(from as int, to as int),
{
    let mut s = String::new();
    let mut i: usize = from;
    while i < to
        invariant
            from <= i <= to <= chars.len(),
            s@ == chars@.subrange(from as int, i as int),
        decreases to - i,
    {
        s.push(chars[i]);
        i += 1;
    }
    s
}

/// A copy of `chars[from..to]`.
pub fn sub_vec(chars: &Vec<char>, from: usize, to: usize) -> (v: Vec<char>)
    requires
        from <= to <= chars.len(),
    ensures
        v@ == chars@.subrange(from as int, to as int),
{
    let mut v: Vec<char> = Vec::new();
    let mut i: usize = from;
    while i < to
        invariant
            from <= i <= to <= chars.len(),
            v@ == chars@.subrange(from as int, i as int),
        decreases to - i,
    {
        v.push(chars[i]);
        i += 1;
    }
    v
}

/// First index at or after `i` that holds no white space, or the length of `s`.
pub open spec fn skip_spaces(s: Seq<char>, i: int) -> int
    decreases s.len() - i,
{
    if 0 <= i < s.len() && is_space(s[i]) {
        skip_spaces(s, i + 1)
    } else {
        i
    }
}

/// First index at or after `i` that holds white space, or the length of `s`.
pub open spec fn word_end(s: Seq<char>, i: int) -> int
    decreases s.len() - i,
{
    if 0 <= i < s.len() && !is_space(s[i]) {
        word_end(s, i + 1)
    } else {
        i
    }
}

/// [`skip_spaces`] passes over white space only and stops at the first
/// character that is none.
pub proof fn lemma_skip_spaces(s: Seq<char>, i: int)
    requires
        0 <= i <= s.len(),
    ensures
        i <= skip_spaces(s, i) <= s.len(),
        forall|k: int| i <= k < skip_spaces(s, i) ==> is_space(#[trigger] s[k]),
        skip_spaces(s, i) < s.len() ==> !is_space(s[skip_spaces(s, i)]),
    decreases s.len() - i,
{
    if i < s.len() && is_space(s[i]) {
        lemma_skip_spaces(s, i + 1);
    }
}

/// [`word_end`] passes over no white space and stops at the first.
pub proof fn lemma_word_end_bounds(s: Seq<char>, i: int)
    requires
        0 <= i <= s.len(),
    ensures
        i <= word_end(s, i) <= s.len(),
        i < s.len() && !is_space(s[i]) ==> i < word_end(s, i),
        forall|k: int| i <= k < word_end(s, i) ==> !is_space(#[trigger] s[k]),
    decreases s.len() - i,
{
    if i < s.len() && !is_space(s[i]) {
        lemma_word_end_bounds(s, i + 1);
    }
}

/// The maximal runs of characters without white space in `s[i..]`, in order.
pub open spec fn words_from(s: Seq<char>, i: int) -> Seq<Seq<char>>
    decreases s.len() - i,
    via words_from_decreases
{
    if i < 0 || i >= s.len() {
        Seq::empty()
    } else if is_space(s[i]) {
        words_from(s, i + 1)
    } else {
        seq![s.subrange(i, word_end(s, i))] + words_from(s, word_end(s, i))
    }
}

#[via_fn]
proof fn words_from_decreases(s: Seq<char>, i: int) {
    if 0 <= i < s.len() && !is_space(s[i]) {
        lemma_word_end_bounds(s, i);
    }
}

/// No word is empty, and no word holds white space.
pub proof fn lemma_words(s: Seq<char>, i: int)
    requires
        0 <= i <= s.len(),
    ensures
        forall|k: int|
            0 <= k < words_from(s, i).len() ==> (#[trigger] words_from(s, i)[k]).len() > 0,
        forall|k: int, j: int|
            0 <= k < words_from(s, i).len() && 0 <= j < words_from(s, i)[k].len() ==> !is_space(
                #[trigger] words_from(s, i)[k][j],
            ),
    decreases s.len() - i,
{
    if i >= s.len() {
        assert(words_from(s, i).len() == 0);
    } else {
        if is_space(s[i]) {
            lemma_words(s, i + 1);
            assert(words_from(s, i) == words_from(s, i + 1));
        } else {
            let end = word_end(s, i);
            lemma_word_end_bounds(s, i);
            lemma_words(s, end);
            assert forall|k: int| 0 <= k < words_from(s, i).len() implies (#[trigger] words_from(
                s,
                i,
            )[k]).len() > 0 by {
                if k == 0 {
                    assert(words_from(s, i)[0] == s.subrange(i, end));
                } else {
                    assert(words_from(s, i)[k] == words_from(s, end)[k - 1]);
                }
            }
            assert forall|k: int, j: int|
                0 <= k < words_from(s, i).len() && 0 <= j < words_from(s, i)[k].len()
                implies !is_space(#[trigger] words_from(s, i)[k][j]) by {
                if k == 0 {
                    assert(words_from(s, i)[0] == s.subrange(i, end));
                    assert(s.subrange(i, end)[j] == s[i + j]);
                } else {
                    assert(words_from(s, i)[k] == words_from(s, end)[k - 1]);
                }
            }
        }
    }
}

/// The words of `s`: its maximal runs of characters without white space.
pub open spec fn words(s: Seq<char>) -> Seq<Seq<char>> {
    words_from(s, 0)
}

/// The view of each string of `v`.
pub open spec fn views(v: Seq<String>) -> Seq<Seq<char>> {
    Seq::new(v.len(), |i: int| v[i]@)
}

/// Splits `chars` into its [`words`].
pub fn split_words(chars: &Vec<char>) -> (out: Vec<String>)
    ensures
        views(out@) == words(chars@),
{
    let mut out: Vec<String> = Vec::new();
    let mut i: usize = 0;
    while i < chars.len()
        invariant
            i <= chars.len(),
            words(chars@) == views(out@) + words_from(chars@, i as int),
        decreases chars.len() - i,
    {
        if char_is_space(chars[i]) {
            i += 1;
        } else {
            let start = i;
            while i < chars.len() && !char_is_space(chars[i])
                invariant
                    start <= i <= chars.len(),
                    word_end(chars@, start as int) == word_end(chars@, i as int),
                decreases chars.len() - i,
            {
                i += 1;
            }
            let word = string_of(chars, start, i);
            proof {
                assert(views(out@.push(word)) =~= views(out@) + seq![word@]);
            }
            out.push(word);
        }
    }
    out
}

/// End of `s[lo..hi]` once the white space at its end is left out.
pub open spec fn trim_end_index(s: Seq<char>, lo: int, hi: int) -> int
    decreases hi - lo,
{
    if lo < hi <= s.len() && is_space(s[hi - 1]) {
        trim_end_index(s, lo, hi - 1)
    } else {
        hi
    }
}

/// `s` without the white space at its start and at its end.
pub open spec fn trimmed(s: Seq<char>) -> Seq<char> {
    let start = skip_spaces(s, 0);
    s.subrange(start, trim_end_index(s, start, s.len() as int))
}

/// [`trim_end_index`] passes over white space only and stops behind the
/// last character that is none.
pub proof fn lemma_trim_end_index(s: Seq<char>, lo: int, hi: int)
    requires
        0 <= lo <= hi <= s.len(),
    ensures
        lo <= trim_end_index(s, lo, hi) <= hi,
        forall|k: int| trim_end_index(s, lo, hi) <= k < hi ==> is_space(#[trigger] s[k]),
        lo < trim_end_index(s, lo, hi) ==> !is_space(s[trim_end_index(s, lo, hi) - 1]),
    decreases hi - lo,
{
    if lo < hi && is_space(s[hi - 1]) {
        lemma_trim_end_index(s, lo, hi - 1);
    }
}

/// What is trimmed away is white space, and what is left neither starts nor
/// ends with white space.
pub proof fn trimmed_is_tight(s: Seq<char>)
    ensures
        ({
            let start = skip_spaces(s, 0);
            let end = trim_end_index(s, start, s.len() as int);
            &&& 0 <= start <= end <= s.len()
            &&& trimmed(s) == s.subrange(start, end)
            &&& forall|k: int| 0 <= k < start ==> is_space(#[trigger] s[k])
            &&& forall|k: int| end <= k < s.len() ==> is_space(#[trigger] s[k])
            &&& trimmed(s).len() > 0 ==> !is_space(trimmed(s).first()) && !is_space(
                trimmed(s).last(),
            )
        }),
{
    let start = skip_spaces(s, 0);
    lemma_skip_spaces(s, 0);
    lemma_trim_end_index(s, start, s.len() as int);
}

/// Computes [`skip_spaces`] from the start of `chars`.
pub fn leading_spaces(chars: &Vec<char>) -> (start: usize)
    ensures
        start == skip_spaces(chars@, 0),
        start <= chars.len(),
{
    let mut start: usize = 0;
    while start < chars.len() && char_is_space(chars[start])
        invariant
            start <= chars.len(),
            skip_spaces(chars@, 0) == skip_spaces(chars@, start as int),
        decreases chars.len() - start,
    {
        start += 1;
    }
    start
}

/// Computes [`trimmed`].
pub fn trim(chars: &Vec<char>) -> (v: Vec<char>)
    ensures
        v@ == trimmed(chars@),
{
    let start = leading_spaces(chars);
    let mut end: usize = chars.len();
    while start < end && char_is_space(chars[end - 1])
        invariant
            start <= end <= chars.len(),
            trim_end_index(chars@, start as int, chars@.len() as int) == trim_end_index(
                chars@,
                start as int,
                end as int,
            ),
        decreases end - start,
    {
        end -= 1;
    }
    sub_vec(chars, start, end)
}

/// Nesting depth after reading `c` at depth `depth`: `(` opens a level, `)` closes one.
pub open spec fn depth_after(depth: nat, c: char) -> nat {
    if c == '(' {
        depth + 1
    } else if c == ')' && depth > 0 {
        (depth - 1) as nat
    } else {
        depth
    }
}

/// First index at or after `i` that holds a separator, or the length of `s`.
/// With `nested`, a separator counts only outside parentheses; `depth` is the
/// nesting depth at `i`.
pub open spec fn separator_index(s: Seq<char>, sep: char, nested: bool, i: int, depth: nat) -> int
    decreases s.len() - i,
{
    if i < 0 || i >= s.len() {
        i
    } else if s[i] == sep && depth == 0 {
        i
    } else {
        separator_index(s, sep, nested, i + 1, if nested { depth_after(depth, s[i]) } else { 0 })
    }
}

pub proof fn lemma_separator_index_bounds(s: Seq<char>, sep: char, nested: bool, i: int, depth: nat)
    requires
        0 <= i <= s.len(),
    ensures
        i <= separator_index(s, sep, nested, i, depth) <= s.len(),
        separator_index(s, sep, nested, i, depth) < s.len() ==> s[separator_index(
            s,
            sep,
            nested,
            i,
            depth,
        )] == sep,
    decreases s.len() - i,
{
    if i < s.len() && !(s[i] == sep && depth == 0) {
        lemma_separator_index_bounds(
            s,
            sep,
            nested,
            i + 1,
            if nested { depth_after(depth, s[i]) } else { 0 },
        );
    }
}

/// The pieces of `s[i..]` between separators, in order. There is one piece more
/// than there are separators, so the result is never empty for `0 <= i <= s.len()`.
pub open spec fn split_from(s: Seq<char>, sep: char, nested: bool, i: int) -> Seq<Seq<char>>
    decreases s.len() - i,
    via split_from_decreases
{
    let end = separator_index(s, sep, nested, i, 0);
    if i < 0 || i > s.len() {
        Seq::empty()
    } else if end >= s.len() {
        seq![s.subrange(i, s.len() as int)]
    } else {
        seq![s.subrange(i, end)] + split_from(s, sep, nested, end + 1)
    }
}

#[via_fn]
proof fn split_from_decreases(s: Seq<char>, sep: char, nested: bool, i: int) {
    if 0 <= i <= s.len() {
        lemma_separator_index_bounds(s, sep, nested, i, 0);
    }
}

/// The pieces of `s` between the occurrences of `sep`; with `nested`, only the
/// occurrences outside parentheses separate.
pub open spec fn split(s: Seq<char>, sep: char, nested: bool) -> Seq<Seq<char>> {
    split_from(s, sep, nested, 0)
}

/// The pieces, with `sep` put between each two.
pub open spec fn joined(pieces: Seq<Seq<char>>, sep: char) -> Seq<char>
    decreases pieces.len(),
{
    if pieces.len() == 0 {
        Seq::empty()
    } else if pieces.len() == 1 {
        pieces[0]
    } else {
        pieces[0] + seq![sep] + joined(pieces.skip(1), sep)
    }
}

proof fn lemma_pieces_join_back(s: Seq<char>, sep: char, nested: bool, i: int)
    requires
        0 <= i <= s.len(),
    ensures
        split_from(s, sep, nested, i).len() > 0,
        joined(split_from(s, sep, nested, i), sep) == s.skip(i),
    decreases s.len() - i,
{
    let end = separator_index(s, sep, nested, i, 0);
    lemma_separator_index_bounds(s, sep, nested, i, 0);
    let pieces = split_from(s, sep, nested, i);
    if end >= s.len() {
        assert(s.subrange(i, s.len() as int) =~= s.skip(i));
    } else {
        lemma_pieces_join_back(s, sep, nested, end + 1);
        let rest = split_from(s, sep, nested, end + 1);
        assert(pieces.skip(1) =~= rest);
        assert(pieces[0] == s.subrange(i, end));
        assert(s.subrange(i, end) + seq![sep] + s.skip(end + 1) =~= s.skip(i));
    }
}

/// Splitting loses nothing: the pieces, joined by the separator, are the
/// text that was split.
pub proof fn pieces_join_back(s: Seq<char>, sep: char, nested: bool)
    ensures
        split(s, sep, nested).len() > 0,
        joined(split(s, sep, nested), sep) == s,
{
    lemma_pieces_join_back(s, sep, nested, 0);
    assert(s.skip(0) =~= s);
}

/// The nesting depth in front of index `i`: how many `(` before `i` are
/// still open.
pub open spec fn depth_at(s: Seq<char>, i: int) -> nat
    decreases i,
{
    if i <= 0 || i > s.len() {
        0
    } else {
        depth_after(depth_at(s, i - 1), s[i - 1])
    }
}

/// From `i` on no separator stands outside parentheses.
pub open spec fn separators_nested_from(s: Seq<char>, sep: char, i: int) -> bool {
    forall|k: int| i <= k < s.len() && s[k] == sep ==> depth_at(s, k) > 0
}

proof fn lemma_no_separator_found(s: Seq<char>, sep: char, i: int)
    requires
        0 <= i <= s.len(),
        separators_nested_from(s, sep, i),
    ensures
        separator_index(s, sep, true, i, depth_at(s, i)) == s.len(),
    decreases s.len() - i,
{
    if i < s.len() {
        assert(depth_at(s, i + 1) == depth_after(depth_at(s, i), s[i]));
        lemma_no_separator_found(s, sep, i + 1);
    }
}

/// A text whose separators all stand inside parentheses is not split: it
/// is its own single piece.
pub proof fn nested_separators_do_not_split(s: Seq<char>, sep: char)
    requires
        separators_nested_from(s, sep, 0),
    ensures
        split(s, sep, true) == seq![s],
{
    lemma_no_separator_found(s, sep, 0);
    assert(s.subrange(0, s.len() as int) =~= s);
}

/// The view of each vector of `v`.
pub open spec fn piece_views(v: Seq<Vec<char>>) -> Seq<Seq<char>> {
    Seq::new(v.len(), |i: int| v[i]@)
}

/// Computes [`split`].
pub fn split_pieces(chars: &Vec<char>, sep: char, nested: bool) -> (out: Vec<Vec<char>>)
    ensures
        piece_views(out@) == split(chars@, sep, nested),
{
    let mut out: Vec<Vec<char>> = Vec::new();
    let mut start: usize = 0;
    let mut i: usize = 0;
    let mut depth: usize = 0;
    while i < chars.len()
        invariant
            start <= i <= chars.len(),
            depth <= i - start,
            !nested ==> depth == 0,
            split(chars@, sep, nested) == piece_views(out@) + split_from(
                chars@,
                sep,
                nested,
                start as int,
            ),
            separator_index(chars@, sep, nested, start as int, 0) == separator_index(
                chars@,
                sep,
                nested,
                i as int,
                depth as nat,
            ),
        decreases chars.len() - i,
    {
        let c = chars[i];
        if c == sep && depth == 0 {
            let piece = sub_vec(chars, start, i);
            proof {
                assert(piece_views(out@.push(piece)) =~= piece_views(out@) + seq![piece@]);
            }
            out.push(piece);
            i += 1;
            start = i;
        } else {
            if nested {
                if c == '(' {
                    depth += 1;
                } else if c == ')' && depth > 0 {
                    depth -= 1;
                }
            }
            i += 1;
        }
    }
    let piece = sub_vec(chars, start, chars.len());
    proof {
        assert(piece_views(out@.push(piece)) =~= piece_views(out@) + seq![piece@]);
    }
    out.push(piece);
    out
}

/// First index at or after `i` that holds `c`, or the length of `s`.
pub open spec fn first_index(s: Seq<char>, c: char, i: int) -> int {
    separator_index(s, c, false, i, 0)
}

/// Last index in `lo..hi` that holds `c`, or `lo - 1` where there is none.
pub open spec fn last_index(s: Seq<char>, c: char, lo: int, hi: int) -> int
    decreases hi - lo,
{
    if lo < hi <= s.len() && s[hi - 1] != c {
        last_index(s, c, lo, hi - 1)
    } else if lo < hi {
        hi - 1
    } else {
        lo - 1
    }
}

/// Computes [`first_index`] from the start of `chars`.
pub fn find_first(chars: &Vec<char>, c: char) -> (r: usize)
    ensures
        r == first_index(chars@, c, 0),
        r <= chars.len(),
{
    let mut i: usize = 0;
    while i < chars.len() && chars[i] != c
        invariant
            i <= chars.len(),
            first_index(chars@, c, 0) == first_index(chars@, c, i as int),
        decreases chars.len() - i,
    {
        i += 1;
    }
    i
}

/// Looks for the last `c` in `chars[lo..]`: its index, or `None` where there is none.
pub fn find_last(chars: &Vec<char>, c: char, lo: usize) -> (r: Option<usize>)
    requires
        lo <= chars.len(),
    ensures
        match r {
            Some(k) => k == last_index(chars@, c, lo as int, chars@.len() as int) && lo <= k
                < chars.len(),
            None => last_index(chars@, c, lo as int, chars@.len() as int) == lo - 1,
        },
{
    let mut hi: usize = chars.len();
    while lo < hi && chars[hi - 1] != c
        invariant
            lo <= hi <= chars.len(),
            last_index(chars@, c, lo as int, chars@.len() as int) == last_index(
                chars@,
                c,
                lo as int,
                hi as int,
            ),
        decreases hi - lo,
    {
        hi -= 1;
    }
    if lo < hi {
        Some(hi - 1)
    } else {
        None
    }
}

/// `s` without the run of `c` at its end.
pub open spec fn strip_end(s: Seq<char>, c: char) -> Seq<char>
    decreases s.len(),
{
    if s.len() > 0 && s.last() == c {
        strip_end(s.drop_last(), c)
    } else {
        s
    }
}

/// Computes [`strip_end`] as a string.
pub fn strip_end_of(chars: &Vec<char>, c: char) -> (r: String)
    ensures
        r@ == strip_end(chars@, c),
{
    let mut end: usize = chars.len();
    proof {
        assert(chars@.take(chars@.len() as int) =~= chars@);
    }
    while end > 0 && chars[end - 1] == c
        invariant
            end <= chars.len(),
            strip_end(chars@, c) == strip_end(chars@.take(end as int), c),
        decreases end,
    {
        proof {
            assert(chars@.take(end as int).drop_last() =~= chars@.take(end - 1));
        }
        end -= 1;
    }
    proof {
        assert(chars@.take(end as int) =~= chars@.subrange(0, end as int));
    }
    string_of(chars, 0, end)
}

/// Whether `a` and `b` are equal once `A` to `Z` are read as `a` to `z`.
pub open spec fn eq_ignore_case(a: Seq<char>, b: Seq<char>) -> bool {
    a.len() == b.len() && forall|k: int| 0 <= k < a.len() ==> lower(#[trigger] a[k]) == lower(b[k])
}

/// Whether `needle` stands in `hay` at index `i`, letter case aside.
pub open spec fn occurs_at(hay: Seq<char>, needle: Seq<char>, i: int) -> bool {
    0 <= i && i + needle.len() <= hay.len() && eq_ignore_case(
        hay.subrange(i, i + needle.len()),
        needle,
    )
}

/// Whether `needle` stands somewhere in `hay`, letter case aside.
pub open spec fn contains_ignore_case(hay: Seq<char>, needle: Seq<char>) -> bool {
    exists|i: int| occurs_at(hay, needle, i)
}

/// Decides [`occurs_at`].
pub fn matches_at(hay: &Vec<char>, needle: &Vec<char>, i: usize) -> (r: bool)
    ensures
        r == occurs_at(hay@, needle@, i as int),
{
    if needle.len() > hay.len() || i > hay.len() - needle.len() {
        return false;
    }
    let ghost window = hay@.subrange(i as int, i + needle@.len());
    let mut k: usize = 0;
    while k < needle.len()
        invariant
            k <= needle.len(),
            i + needle.len() <= hay.len(),
            window == hay@.subrange(i as int, i + needle@.len()),
            forall|j: int| 0 <= j < k ==> lower(#[trigger] window[j]) == lower(needle@[j]),
        decreases needle.len() - k,
    {
        if char_lower(hay[i + k]) != char_lower(needle[k]) {
            assert(window[k as int] == hay@[i + k]);
            return false;
        }
        assert(window[k as int] == hay@[i + k]);
        k += 1;
    }
    true
}

/// Decides [`eq_ignore_case`].
pub fn same_ignore_case(a: &Vec<char>, b: &Vec<char>) -> (r: bool)
    ensures
        r == eq_ignore_case(a@, b@),
{
    if a.len() != b.len() {
        return false;
    }
    proof {
        assert(a@.subrange(0, 0 + b@.len() as int) =~= a@);
    }
    matches_at(a, b, 0)
}

/// Decides [`contains_ignore_case`].
pub fn contains(hay: &Vec<char>, needle: &Vec<char>) -> (r: bool)
    ensures
        r == contains_ignore_case(hay@, needle@),
{
    if needle.len() > hay.len() {
        return false;
    }
    let last: usize = hay.len() - needle.len();
    let mut i: usize = 0;
    while i < last
        invariant
            i <= last,
            last == hay.len() - needle.len(),
            forall|j: int| 0 <= j < i ==> !occurs_at(hay@, needle@, j),
        decreases last - i,
    {
        if matches_at(hay, needle, i) {
            return true;
        }
        i += 1;
    }
    matches_at(hay, needle, last)
}

/// Whether `c` is one of `0` to `9`.
pub open spec fn is_digit(c: char) -> bool {
    '0' <= c <= '9'
}

/// Whether `s` holds decimal digits only.
pub open spec fn all_digits(s: Seq<char>) -> bool {
    forall|k: int| 0 <= k < s.len() ==> is_digit(#[trigger] s[k])
}

/// The number that the digit `c` stands for.
pub open spec fn digit_value(c: char) -> nat {
    if is_digit(c) {
        (c as u32 - '0' as u32) as nat
    } else {
        0
    }
}

/// The number that the digits of `s` write in base ten.
pub open spec fn decimal_value(s: Seq<char>) -> nat
    decreases s.len(),
{
    if s.len() == 0 {
        0
    } else {
        decimal_value(s.drop_last()) * 10 + digit_value(s.last())
    }
}

/// The number written by `s`, where `s` is a non-empty run of digits whose
/// value fits in `usize`.
pub open spec fn decimal(s: Seq<char>) -> Option<usize> {
    if s.len() > 0 && all_digits(s) && decimal_value(s) <= usize::MAX {
        Some(decimal_value(s) as usize)
    } else {
        None
    }
}

/// A prefix of a digit string is worth no more than the whole.
pub proof fn lemma_decimal_value_monotonic(s: Seq<char>, k: int)
    requires
        0 <= k <= s.len(),
    ensures
        decimal_value(s.take(k)) <= decimal_value(s),
    decreases s.len() - k,
{
    if k == s.len() {
        assert(s.take(k) =~= s);
    } else {
        assert(s.drop_last().take(k) =~= s.take(k));
        lemma_decimal_value_monotonic(s.drop_last(), k);
    }
}

/// Computes [`decimal`].
pub fn parse_decimal(chars: &Vec<char>) -> (r: Option<usize>)
    ensures
        r == decimal(chars@),
{
    if chars.len() == 0 {
        return None;
    }
    let mut value: usize = 0;
    let mut i: usize = 0;
    while i < chars.len()
        invariant
            i <= chars.len(),
            all_digits(chars@.take(i as int)),
            value == decimal_value(chars@.take(i as int)),
        decreases chars.len() - i,
    {
        let c = chars[i];
        if !('0' <= c && c <= '9') {
            return None;
        }
        let d: usize = (c as u32 - '0' as u32) as usize;
        proof {
            assert(chars@.take(i + 1).drop_last() =~= chars@.take(i as int));
            assert(chars@.take(i + 1).last() == c);
        }
        if value > (usize::MAX - d) / 10 {
            proof {
                lemma_decimal_value_monotonic(chars@, i + 1);
            }
            return None;
        }
        value = value * 10 + d;
        i += 1;
    }
    proof {
        assert(chars@.take(i as int) =~= chars@);
    }
    Some(value)
}

/// Whether `needle` stands in `hay` at index `i`, letter for letter.
pub open spec fn stands_at(hay: Seq<char>, needle: Seq<char>, i: int) -> bool {
    0 <= i && i + needle.len() <= hay.len() && hay.subrange(i, i + needle.len()) == needle
}

/// Whether `needle` stands somewhere in `hay`, letter for letter.
pub open spec fn contains_exactly(hay: Seq<char>, needle: Seq<char>) -> bool {
    exists|i: int| stands_at(hay, needle, i)
}

/// Decides [`stands_at`].
pub fn found_at(hay: &Vec<char>, needle: &Vec<char>, i: usize) -> (r: bool)
    ensures
        r == stands_at(hay@, needle@, i as int),
{
    if needle.len() > hay.len() || i > hay.len() - needle.len() {
        return false;
    }
    let ghost window = hay@.subrange(i as int, i + needle@.len());
    let mut k: usize = 0;
    while k < needle.len()
        invariant
            k <= needle.len(),
            i + needle.len() <= hay.len(),
            window == hay@.subrange(i as int, i + needle@.len()),
            forall|j: int| 0 <= j < k ==> #[trigger] window[j] == needle@[j],
        decreases needle.len() - k,
    {
        assert(window[k as int] == hay@[i + k]);
        if hay[i + k] != needle[k] {
            return false;
        }
        k += 1;
    }
    assert(window =~= needle@);
    true
}

/// Decides [`contains_exactly`].
pub fn find(hay: &Vec<char>, needle: &Vec<char>) -> (r: bool)
    ensures
        r == contains_exactly(hay@, needle@),
{
    if needle.len() > hay.len() {
        return false;
    }
    let last: usize = hay.len() - needle.len();
    let mut i: usize = 0;
    while i < last
        invariant
            i <= last,
            last == hay.len() - needle.len(),
            forall|j: int| 0 <= j < i ==> !stands_at(hay@, needle@, j),
        decreases last - i,
    {
        if found_at(hay, needle, i) {
            return true;
        }
        i += 1;
    }
    found_at(hay, needle, last)
}

/// Whether `a` and `b` hold the same text.
pub fn same_text(a: &str, b: &str) -> (r: bool)
    ensures
        r == (a@ == b@),
{
    let x = chars_of(a);
    let y = chars_of(b);
    if x.len() != y.len() {
        return false;
    }
    proof {
        assert(x@.subrange(0, 0 + y@.len() as int) =~= x@);
    }
    found_at(&x, &y, 0)
}

/// The digit that writes `n`, for `n` below ten.
pub open spec fn digit_char(n: nat) -> char {
    ((n % 10) as u8 + 48) as char
}

/// `n` written in base ten, without leading zeros.
pub open spec fn digits_of(n: nat) -> Seq<char>
    decreases n,
{
    if n < 10 {
        seq![digit_char(n)]
    } else {
        digits_of(n / 10).push(digit_char(n % 10))
    }
}

/// Appends [`digits_of`] `n` to `out`.
pub fn push_decimal(out: &mut String, n: u64)
    ensures
        final(out)@ == old(out)@ + digits_of(n as nat),
    decreases n,
{
    if n >= 10 {
        push_decimal(out, n / 10);
    }
    let d: u8 = (n % 10) as u8;
    out.push((d + 48) as char);
    assert(out@ =~= old(out)@ + digits_of(n as nat));
}

/// What [`digits_of`] writes is a run of digits that reads back as the same
/// number.
pub proof fn lemma_digits_read_back(n: nat)
    ensures
        all_digits(digits_of(n)),
        decimal_value(digits_of(n)) == n,
        digits_of(n).len() > 0,
    decreases n,
{
    if n < 10 {
        assert(digits_of(n).drop_last() =~= Seq::<char>::empty());
        assert(decimal_value(digits_of(n).drop_last()) == 0);
    } else {
        lemma_digits_read_back(n / 10);
        assert(digits_of(n).drop_last() =~= digits_of(n / 10));
    }
}

/// Two numbers written in base ten, each followed by a character that is no
/// digit, can only give the same text where they are the same number.
pub proof fn lemma_number_ends_at_non_digit(a: nat, b: nat, after_a: Seq<char>, after_b: Seq<char>)
    requires
        after_a.len() > 0,
        after_b.len() > 0,
        !is_digit(after_a[0]),
        !is_digit(after_b[0]),
        digits_of(a) + after_a == digits_of(b) + after_b,
    ensures
        a == b,
{
    let da = digits_of(a);
    let db = digits_of(b);
    lemma_digits_read_back(a);
    lemma_digits_read_back(b);
    if da.len() < db.len() {
        assert((da + after_a)[da.len() as int] == after_a[0]);
        assert((db + after_b)[da.len() as int] == db[da.len() as int]);
    } else if db.len() < da.len() {
        assert((db + after_b)[db.len() as int] == after_b[0]);
        assert((da + after_a)[db.len() as int] == da[db.len() as int]);
    } else {
        assert forall|i: int| 0 <= i < da.len() implies da[i] == db[i] by {
            assert((da + after_a)[i] == da[i]);
            assert((db + after_b)[i] == db[i]);
        }
        assert(da =~= db);
    }
}

} // verus!
