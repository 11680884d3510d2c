//! Verified text primitives: character classes, conversions between
//! strings and character vectors, splitting, trimming, substring search
//! and joining.  All higher layers (tokenizers, the log-stream parser,
//! the metadata field splitter) are built on these.

use vstd::prelude::*;

verus! {

/// A character is whitespace in the sense of the tokenizer: one of the
/// Unicode `White_Space` code points.
pub open spec fn spec_is_whitespace(c: char) -> bool {
    let u = c as u32;
    (9 <= u <= 13) || u == 32 || u == 0x85 || u == 0xA0 || u == 0x1680
        || (0x2000 <= u <= 0x200A) || u == 0x2028 || u == 0x2029 || u == 0x202F
        || u == 0x205F || u == 0x3000
}

/// Decides whether `c` is a whitespace character.
pub fn is_whitespace(c: char) -> (r: bool)
    ensures
        r == spec_is_whitespace(c),
{
    let u = c as u32;
    (9 <= u && u <= 13) || u == 32 || u == 0x85 || u == 0xA0 || u == 0x1680
        || (0x2000 <= u && u <= 0x200A) || u == 0x2028 || u == 0x2029 || u == 0x202F
        || u == 0x205F || u == 0x3000
}

/// A character is punctuation in the sense of the code tokenizer: one of
/// the ASCII punctuation characters.
pub open spec fn spec_is_ascii_punc(c: char) -> bool {
    let u = c as u32;
    (33 <= u <= 47) || (58 <= u <= 64) || (91 <= u <= 96) || (123 <= u <= 126)
}

/// Decides whether `c` is an ASCII punctuation character.
pub fn is_ascii_punc(c: char) -> (r: bool)
    ensures
        r == spec_is_ascii_punc(c),
{
    let u = c as u32;
    (33 <= u && u <= 47) || (58 <= u && u <= 64) || (91 <= u && u <= 96)
        || (123 <= u && u <= 126)
}

/// Copies the characters of a string slice into a vector.
pub fn to_chars(s: &str) -> (r: Vec<char>)
    ensures
        r@ == s@,
{
    let n = s.unicode_len();
    let mut r: Vec<char> = Vec::new();
    let mut i: usize = 0;
    while i < n
        invariant
            n == s@.len(),
            i <= n,
            r@ == s@.take(i as int),
        decreases n - i,
    {
        r.push(s.get_char(i));
        i += 1;
        proof {
            assert(r@ =~= s@.take(i as int));
        }
    }
    proof {
        assert(r@ =~= s@);
    }
    r
}

/// Appends one character to a string.
///
/// Relies on `alloc::string::String::push`, which appends the given
/// character to the end of the string.
#[verifier::external_body]
pub fn push_char(s: &mut String, c: char)
    ensures
        final(s)@ == old(s)@ + seq![c],
{
    s.push(c)
}

/// Builds a string from a vector of characters.
pub fn chars_to_string(v: &Vec<char>) -> (r: String)
    ensures
        r@ == v@,
{
    let mut r = String::new();
    let mut i: usize = 0;
    while i < v.len()
        invariant
            i <= v@.len(),
            r@ == v@.take(i as int),
        decreases v@.len() - i,
    {
        push_char(&mut r, v[i]);
        i += 1;
        proof {
            assert(r@ =~= v@.take(i as int));
        }
    }
    proof {
        assert(r@ =~= v@);
    }
    r
}

/// Copies the characters of `v` between positions `a` and `b`.
pub fn copy_range(v: &Vec<char>, a: usize, b: usize) -> (r: Vec<char>)
    requires
        a <= b <= v@.len(),
    ensures
        r@ == v@.subrange(a as int, b as int),
{
    let mut r: Vec<char> = Vec::new();
    let mut k: usize = a;
    while k < b
        invariant
            a <= k <= b <= v@.len(),
            r@ == v@.subrange(a as int, k as int),
        decreases b - k,
    {
        r.push(v[k]);
        k += 1;
        proof {
            assert(r@ =~= v@.subrange(a as int, k as int));
        }
    }
    proof {
        assert(r@ =~= v@.subrange(a as int, b as int));
    }
    r
}

// ---------------------------------------------------------------------
// Splitting on a character class (tokenization)
// ---------------------------------------------------------------------

/// The first position at or after `i` where `sep` holds, or the length of
/// `s` if there is none.
pub open spec fn token_end(s: Seq<char>, sep: spec_fn(char) -> bool, i: int) -> int
    decreases s.len() - i,
{
    if i < 0 || i >= s.len() || sep(s[i]) {
        i
    } else {
        token_end(s, sep, i + 1)
    }
}

pub proof fn lemma_token_end(s: Seq<char>, sep: spec_fn(char) -> bool, i: int)
    requires
        0 <= i <= s.len(),
    ensures
        i <= token_end(s, sep, i) <= s.len(),
        forall|k: int| i <= k < token_end(s, sep, i) ==> !sep(s[k]),
        token_end(s, sep, i) < s.len() ==> sep(s[token_end(s, sep, i)]),
    decreases s.len() - i,
{
    if i < s.len() && !sep(s[i]) {
        lemma_token_end(s, sep, i + 1);
    }
}

/// `token_end` is the position that a left-to-right scan stops at.
pub proof fn lemma_token_end_eq(s: Seq<char>, sep: spec_fn(char) -> bool, i: int, j: int)
    requires
        0 <= i <= j <= s.len(),
        forall|k: int| i <= k < j ==> !sep(s[k]),
        j == s.len() || sep(s[j]),
    ensures
        token_end(s, sep, i) == j,
    decreases j - i,
{
    if i < j {
        lemma_token_end_eq(s, sep, i + 1, j);
    }
}

/// The tokens of `s` from position `i` on: maximal runs of characters on
/// which `sep` does not hold; separator characters are discarded.
pub open spec fn spec_split_at(s: Seq<char>, sep: spec_fn(char) -> bool, i: int) -> Seq<Seq<char>>
    decreases s.len() - i,
    via spec_split_at_decreases
{
    if i < 0 || i >= s.len() {
        Seq::empty()
    } else if sep(s[i]) {
        spec_split_at(s, sep, i + 1)
    } else {
        seq![s.subrange(i, token_end(s, sep, i))] + spec_split_at(s, sep, token_end(s, sep, i))
    }
}

#[via_fn]
proof fn spec_split_at_decreases(s: Seq<char>, sep: spec_fn(char) -> bool, i: int) {
    if 0 <= i < s.len() && !sep(s[i]) {
        lemma_token_end(s, sep, i);
        assert(token_end(s, sep, i) > i);
    }
}

/// The tokens of `s`: maximal runs of non-separator characters.
pub open spec fn spec_split(s: Seq<char>, sep: spec_fn(char) -> bool) -> Seq<Seq<char>> {
    spec_split_at(s, sep, 0)
}

/// The separator class used by the tokenizers: whitespace alone, or
/// whitespace together with ASCII punctuation.
pub open spec fn sep_of(with_punc: bool) -> spec_fn(char) -> bool {
    if with_punc {
        |c: char| spec_is_whitespace(c) || spec_is_ascii_punc(c)
    } else {
        |c: char| spec_is_whitespace(c)
    }
}

/// Decides whether `c` is a separator under the chosen class.
pub fn is_sep_char(c: char, with_punc: bool) -> (r: bool)
    ensures
        r == sep_of(with_punc)(c),
{
    if with_punc {
        is_whitespace(c) || is_ascii_punc(c)
    } else {
        is_whitespace(c)
    }
}

/// Splits `v` into maximal runs of non-separator characters, where the
/// separators are whitespace and, when `with_punc` is set, also ASCII
/// punctuation.
pub fn split_text(v: &Vec<char>, with_punc: bool) -> (r: Vec<Vec<char>>)
    ensures
        r.deep_view() == spec_split(v@, sep_of(with_punc)),
{
    let ghost sep = sep_of(with_punc);
    let mut r: Vec<Vec<char>> = Vec::new();
    let mut i: usize = 0;
    while i < v.len()
        invariant
            i <= v@.len(),
            sep == sep_of(with_punc),
            spec_split(v@, sep) =~= r.deep_view() + spec_split_at(v@, sep, i as int),
        decreases v@.len() - i,
    {
        if is_sep_char(v[i], with_punc) {
            proof {
                assert(spec_split_at(v@, sep, i as int) == spec_split_at(v@, sep, i + 1 as int));
            }
            i += 1;
        } else {
            let ghost start = i as int;
            let mut j: usize = i;
            while j < v.len() && !is_sep_char(v[j], with_punc)
                invariant
                    start <= j <= v@.len(),
                    sep == sep_of(with_punc),
                    forall|k: int| start <= k < j ==> !sep(v@[k]),
                decreases v@.len() - j,
            {
                j += 1;
            }
            proof {
                lemma_token_end_eq(v@, sep, start, j as int);
            }
            let tok = copy_range(v, i, j);
            let ghost old_dv = r.deep_view();
            r.push(tok);
            proof {
                assert(r.deep_view() =~~= old_dv.push(v@.subrange(start, j as int)));
                assert(spec_split_at(v@, sep, start) == seq![
                    v@.subrange(start, token_end(v@, sep, start)),
                ] + spec_split_at(v@, sep, token_end(v@, sep, start)));
                assert(spec_split(v@, sep) =~= r.deep_view() + spec_split_at(
                    v@,
                    sep,
                    j as int,
                ));
            }
            i = j;
        }
    }
    proof {
        assert(spec_split_at(v@, sep, v@.len() as int) =~= Seq::<Seq<char>>::empty());
        assert(r.deep_view() =~= spec_split(v@, sep));
    }
    r
}

// ---------------------------------------------------------------------
// Splitting on an exact delimiter
// ---------------------------------------------------------------------

/// The delimiter `d` occurs in `s` at position `i`.
pub open spec fn delim_at(s: Seq<char>, d: Seq<char>, i: int) -> bool {
    0 <= i && i + d.len() <= s.len() && s.subrange(i, i + d.len()) == d
}

/// The first position at or after `i` where `d` occurs in `s`, or the
/// length of `s` if it occurs nowhere at or after `i`.
pub open spec fn find_delim(s: Seq<char>, d: Seq<char>, i: int) -> int
    decreases s.len() - i,
{
    if i < 0 || i >= s.len() {
        s.len() as int
    } else if delim_at(s, d, i) {
        i
    } else {
        find_delim(s, d, i + 1)
    }
}

pub proof fn lemma_find_delim(s: Seq<char>, d: Seq<char>, i: int)
    requires
        0 <= i <= s.len(),
    ensures
        i <= find_delim(s, d, i) <= s.len(),
        forall|k: int| i <= k < find_delim(s, d, i) ==> !delim_at(s, d, k),
        find_delim(s, d, i) < s.len() ==> delim_at(s, d, find_delim(s, d, i)),
    decreases s.len() - i,
{
    if i < s.len() && !delim_at(s, d, i) {
        lemma_find_delim(s, d, i + 1);
    }
}

/// `find_delim` is the position that a left-to-right scan stops at.
pub proof fn lemma_find_delim_eq(s: Seq<char>, d: Seq<char>, i: int, j: int)
    requires
        0 <= i <= j <= s.len(),
        forall|k: int| i <= k < j ==> !delim_at(s, d, k),
        j == s.len() || delim_at(s, d, j),
    ensures
        find_delim(s, d, i) == j,
    decreases j - i,
{
    if i < j {
        lemma_find_delim_eq(s, d, i + 1, j);
    }
}

/// The fields of `s` from position `i` on, split on the exact delimiter
/// `d`; empty fields are kept, and a trailing delimiter yields a trailing
/// empty field.
pub open spec fn spec_split_delim_at(s: Seq<char>, d: Seq<char>, i: int) -> Seq<Seq<char>>
    decreases s.len() - i,
    when 0 <= i <= s.len() && d.len() >= 1
    via spec_split_delim_at_decreases
{
    let j = find_delim(s, d, i);
    if j >= s.len() {
        seq![s.subrange(i, s.len() as int)]
    } else {
        seq![s.subrange(i, j)] + spec_split_delim_at(s, d, j + d.len())
    }
}

#[via_fn]
proof fn spec_split_delim_at_decreases(s: Seq<char>, d: Seq<char>, i: int) {
    lemma_find_delim(s, d, i);
    let j = find_delim(s, d, i);
    if j < s.len() {
        assert(delim_at(s, d, j));
        assert(j + d.len() <= s.len());
    }
}

/// The fields of `s`, split on the exact delimiter `d`.
pub open spec fn spec_split_delim(s: Seq<char>, d: Seq<char>) -> Seq<Seq<char>> {
    spec_split_delim_at(s, d, 0)
}

/// Decides whether `d` occurs in `v` at position `i`.
pub fn delim_match(v: &Vec<char>, d: &Vec<char>, i: usize) -> (r: bool)
    requires
        i <= v@.len(),
    ensures
        r == delim_at(v@, d@, i as int),
{
    let n = v.len();
    let m = d.len();
    if m > n - i {
        proof {
            assert(!delim_at(v@, d@, i as int));
        }
        return false;
    }
    let mut k: usize = 0;
    while k < m
        invariant
            m == d@.len(),
            n == v@.len(),
            i + m <= n,
            k <= m,
            forall|x: int| 0 <= x < k ==> v@[i + x] == d@[x],
        decreases m - k,
    {
        proof {
            assert(i + k < n);
        }
        if v[i + k] != d[k] {
            proof {
                assert(v@.subrange(i as int, i + d@.len())[k as int] != d@[k as int]);
            }
            return false;
        }
        k += 1;
    }
    proof {
        assert(v@.subrange(i as int, i + d@.len()) =~= d@);
    }
    true
}

/// Splits `v` into fields on the exact delimiter `d`.
pub fn split_delim(v: &Vec<char>, d: &Vec<char>) -> (r: Vec<Vec<char>>)
    requires
        d@.len() >= 1,
    ensures
        r.deep_view() == spec_split_delim(v@, d@),
{
    let mut r: Vec<Vec<char>> = Vec::new();
    let mut i: usize = 0;
    loop
        invariant_except_break
            i <= v@.len(),
            d@.len() >= 1,
            spec_split_delim(v@, d@) =~= r.deep_view() + spec_split_delim_at(v@, d@, i as int),
        ensures
            r.deep_view() =~= spec_split_delim(v@, d@),
        decreases v@.len() - i,
    {
        // scan for the next delimiter occurrence
        let mut j: usize = i;
        while j < v.len() && !delim_match(v, d, j)
            invariant
                i <= j <= v@.len(),
                forall|k: int| i <= k < j ==> !delim_at(v@, d@, k),
            decreases v@.len() - j,
        {
            j += 1;
        }
        proof {
            lemma_find_delim_eq(v@, d@, i as int, j as int);
        }
        let field = copy_range(v, i, j);
        let ghost old_dv = r.deep_view();
        r.push(field);
        proof {
            assert(r.deep_view() =~~= old_dv.push(v@.subrange(i as int, j as int)));
        }
        if j >= v.len() {
            proof {
                assert(spec_split_delim_at(v@, d@, i as int) == seq![
                    v@.subrange(i as int, v@.len() as int),
                ]);
                assert(r.deep_view() =~= spec_split_delim(v@, d@));
            }
            break;
        } else {
            proof {
                assert(spec_split_delim_at(v@, d@, i as int) == seq![
                    v@.subrange(i as int, j as int),
                ] + spec_split_delim_at(v@, d@, j + d@.len()));
            }
            i = j + d.len();
            proof {
                assert(spec_split_delim(v@, d@) =~= r.deep_view() + spec_split_delim_at(
                    v@,
                    d@,
                    i as int,
                ));
            }
        }
    }
    r
}

/// Appends the characters of `src` to `dst`.
pub fn extend_chars(dst: &mut Vec<char>, src: &Vec<char>)
    ensures
        final(dst)@ == old(dst)@ + src@,
{
    let ghost base = dst@;
    let mut k: usize = 0;
    while k < src.len()
        invariant
            k <= src@.len(),
            dst@ == base + src@.take(k as int),
        decreases src@.len() - k,
    {
        dst.push(src[k]);
        k += 1;
        proof {
            assert(dst@ =~= base + src@.take(k as int));
        }
    }
    proof {
        assert(dst@ =~= base + src@);
    }
}

/// Converts a vector of character vectors into strings.
pub fn vecs_to_strings(v: &Vec<Vec<char>>) -> (r: Vec<String>)
    ensures
        r.deep_view() == v.deep_view(),
{
    let mut r: Vec<String> = Vec::new();
    let mut i: usize = 0;
    while i < v.len()
        invariant
            i <= v@.len(),
            r@.len() == i,
            forall|m: int| 0 <= m < i ==> #[trigger] r@[m]@ == v@[m]@,
        decreases v@.len() - i,
    {
        let s = chars_to_string(&v[i]);
        r.push(s);
        i += 1;
    }
    proof {
        assert(r.deep_view() =~~= v.deep_view()) by {
            assert(r.deep_view().len() == v.deep_view().len());
            assert forall|m: int| 0 <= m < v@.len() implies r.deep_view()[m]
                =~= v.deep_view()[m] by {
                assert(r@[m]@ == v@[m]@);
                assert(r.deep_view()[m] == r@[m]@);
                assert(v.deep_view()[m] =~= v@[m]@);
            }
        }
    }
    r
}

/// Decides whether two character vectors hold the same characters.
pub fn chars_eq(a: &Vec<char>, b: &Vec<char>) -> (r: bool)
    ensures
        r == (a@ == b@),
{
    if a.len() != b.len() {
        return false;
    }
    let mut k: usize = 0;
    while k < a.len()
        invariant
            a@.len() == b@.len(),
            k <= a@.len(),
            forall|m: int| 0 <= m < k ==> a@[m] == b@[m],
        decreases a@.len() - k,
    {
        if a[k] != b[k] {
            return false;
        }
        k += 1;
    }
    proof {
        assert(a@ =~= b@);
    }
    true
}

/// `s` contains `n` as a contiguous subsequence.
pub open spec fn spec_contains_sub(s: Seq<char>, n: Seq<char>) -> bool {
    exists|i: int| 0 <= i && i + n.len() <= s.len() && #[trigger] s.subrange(i, i + n.len()) == n
}

/// Decides whether `n` occurs contiguously in `v`.
pub fn contains_sub(v: &Vec<char>, n: &Vec<char>) -> (r: bool)
    ensures
        r == spec_contains_sub(v@, n@),
{
    if n.len() == 0 {
        proof {
            let w: int = 0;
            assert(v@.subrange(w, w + n@.len()) =~= n@);
            assert(spec_contains_sub(v@, n@));
        }
        return true;
    }
    let mut j: usize = 0;
    while j < v.len()
        invariant
            j <= v@.len(),
            n@.len() >= 1,
            forall|k: int| 0 <= k < j ==> !delim_at(v@, n@, k),
        decreases v@.len() - j,
    {
        if delim_match(v, n, j) {
            proof {
                let w = j as int;
                assert(0 <= w && w + n@.len() <= v@.len() && v@.subrange(w, w + n@.len()) == n@);
                assert(spec_contains_sub(v@, n@));
            }
            return true;
        }
        j += 1;
    }
    proof {
        assert(!spec_contains_sub(v@, n@)) by {
            if spec_contains_sub(v@, n@) {
                let i = choose|i: int|
                    0 <= i && i + n@.len() <= v@.len() && #[trigger] v@.subrange(i, i + n@.len())
                        == n@;
                assert(delim_at(v@, n@, i));
            }
        }
    }
    false
}

/// `s` starts with the prefix `p`.
pub open spec fn spec_starts_with(s: Seq<char>, p: Seq<char>) -> bool {
    p.len() <= s.len() && s.subrange(0, p.len() as int) == p
}

/// Decides whether `v` starts with the prefix `p`.
pub fn starts_with(v: &Vec<char>, p: &Vec<char>) -> (r: bool)
    ensures
        r == spec_starts_with(v@, p@),
{
    delim_match(v, p, 0)
}

// ---------------------------------------------------------------------
// Lines, trimming, joining
// ---------------------------------------------------------------------

/// `l` without one trailing carriage return, if it has one.
pub open spec fn strip_cr(l: Seq<char>) -> Seq<char> {
    if l.len() > 0 && l.last() == '\r' {
        l.drop_last()
    } else {
        l
    }
}

/// The lines of `s`: the fields around each newline, a final empty field
/// dropped, and one trailing carriage return stripped from each line.
pub open spec fn spec_lines(s: Seq<char>) -> Seq<Seq<char>> {
    let fs = spec_split_delim(s, seq!['\n']);
    let fs2 = if fs.len() > 0 && fs.last().len() == 0 {
        fs.drop_last()
    } else {
        fs
    };
    fs2.map_values(|l: Seq<char>| strip_cr(l))
}

/// Splits `v` into lines.
pub fn lines_of(v: &Vec<char>) -> (r: Vec<Vec<char>>)
    ensures
        r.deep_view() == spec_lines(v@),
{
    let nl: Vec<char> = vec!['\n'];
    proof {
        assert(nl@ =~= seq!['\n']);
    }
    let mut fs = split_delim(v, &nl);
    if fs.len() > 0 && fs[fs.len() - 1].len() == 0 {
        fs.pop();
    }
    let ghost target = {
        let raw = spec_split_delim(v@, seq!['\n']);
        if raw.len() > 0 && raw.last().len() == 0 {
            raw.drop_last()
        } else {
            raw
        }
    };
    proof {
        assert(fs.deep_view() =~~= target);
    }
    let mut r: Vec<Vec<char>> = Vec::new();
    let mut i: usize = 0;
    while i < fs.len()
        invariant
            i <= fs@.len(),
            fs.deep_view() == target,
            r.deep_view() =~= target.take(i as int).map_values(|l: Seq<char>| strip_cr(l)),
        decreases fs@.len() - i,
    {
        let flen = fs[i].len();
        let line = if flen > 0 && fs[i][flen - 1] == '\r' {
            copy_range(&fs[i], 0, flen - 1)
        } else {
            copy_range(&fs[i], 0, flen)
        };
        proof {
            let orig = fs.deep_view()[i as int];
            assert(fs@[i as int]@ == orig);
            assert(orig.subrange(0, orig.len() as int) =~= orig);
            if orig.len() > 0 && orig.last() == '\r' {
                assert(orig.subrange(0, orig.len() - 1) =~= orig.drop_last());
            }
            assert(line@ == strip_cr(orig));
        }
        let ghost old_dv = r.deep_view();
        r.push(line);
        i += 1;
        proof {
            assert(r.deep_view() =~~= old_dv.push(strip_cr(fs.deep_view()[i - 1])));
            assert(r.deep_view() =~= target.take(i as int).map_values(
                |l: Seq<char>| strip_cr(l),
            ));
        }
    }
    proof {
        assert(target.take(fs@.len() as int) =~= target);
        assert(r.deep_view() =~= spec_lines(v@));
    }
    r
}

/// `s` with leading and trailing whitespace removed.
pub open spec fn spec_trim(s: Seq<char>) -> Seq<char>
    decreases s.len(),
{
    if s.len() > 0 && spec_is_whitespace(s[0]) {
        spec_trim(s.drop_first())
    } else if s.len() > 0 && spec_is_whitespace(s.last()) {
        spec_trim(s.drop_last())
    } else {
        s
    }
}

/// Removes leading and trailing whitespace.
pub fn trim(v: &Vec<char>) -> (r: Vec<char>)
    ensures
        r@ == spec_trim(v@),
{
    proof {
        assert(v@.skip(0) =~= v@);
    }
    let mut a: usize = 0;
    while a < v.len() && is_whitespace(v[a])
        invariant
            a <= v@.len(),
            spec_trim(v@) == spec_trim(v@.skip(a as int)),
        decreases v@.len() - a,
    {
        proof {
            assert(v@.skip(a as int).drop_first() =~= v@.skip(a + 1 as int));
        }
        a += 1;
    }
    proof {
        assert(v@.skip(a as int) =~= v@.subrange(a as int, v@.len() as int));
    }
    let mut b: usize = v.len();
    while b > a && is_whitespace(v[b - 1])
        invariant
            a <= b <= v@.len(),
            a == v@.len() || !spec_is_whitespace(v@[a as int]),
            spec_trim(v@) == spec_trim(v@.subrange(a as int, b as int)),
        decreases b,
    {
        proof {
            let cur = v@.subrange(a as int, b as int);
            assert(cur.last() == v@[b - 1]);
            assert(cur[0] == v@[a as int]);
            assert(cur.drop_last() =~= v@.subrange(a as int, b - 1 as int));
        }
        b -= 1;
    }
    let r = copy_range(v, a, b);
    proof {
        let cur = v@.subrange(a as int, b as int);
        if a < b {
            assert(cur[0] == v@[a as int]);
            assert(cur.last() == v@[b - 1]);
        }
        assert(spec_trim(cur) == cur);
    }
    r
}

/// The sequences of `ss` joined with the separator `sep` between
/// neighbours.
pub open spec fn spec_join(ss: Seq<Seq<char>>, sep: Seq<char>) -> Seq<char>
    decreases ss.len(),
{
    if ss.len() == 0 {
        Seq::empty()
    } else if ss.len() == 1 {
        ss[0]
    } else {
        spec_join(ss.drop_last(), sep) + sep + ss.last()
    }
}

/// Joins the vectors of `ss` with the separator `sep`.
pub fn join(ss: &Vec<Vec<char>>, sep: &Vec<char>) -> (r: Vec<char>)
    ensures
        r@ == spec_join(ss.deep_view(), sep@),
{
    let mut r: Vec<char> = Vec::new();
    let mut i: usize = 0;
    while i < ss.len()
        invariant
            i <= ss@.len(),
            r@ == spec_join(ss.deep_view().take(i as int), sep@),
        decreases ss@.len() - i,
    {
        if i > 0 {
            let mut k: usize = 0;
            while k < sep.len()
                invariant
                    k <= sep@.len(),
                    i <= ss@.len(),
                    r@ == spec_join(ss.deep_view().take(i as int), sep@) + sep@.take(k as int),
                decreases sep@.len() - k,
            {
                r.push(sep[k]);
                k += 1;
                proof {
                    assert(r@ =~= spec_join(ss.deep_view().take(i as int), sep@) + sep@.take(
                        k as int,
                    ));
                }
            }
            proof {
                assert(sep@.take(sep@.len() as int) =~= sep@);
            }
        }
        let mut k: usize = 0;
        let ghost base = r@;
        proof {
            assert(ss@[i as int]@ =~= ss.deep_view()[i as int]);
        }
        while k < ss[i].len()
            invariant
                k <= ss.deep_view()[i as int].len(),
                i < ss@.len(),
                ss@[i as int]@ == ss.deep_view()[i as int],
                r@ == base + ss.deep_view()[i as int].take(k as int),
            decreases ss.deep_view()[i as int].len() - k,
        {
            r.push(ss[i][k]);
            k += 1;
            proof {
                assert(r@ =~= base + ss.deep_view()[i as int].take(k as int));
            }
        }
        i += 1;
        proof {
            let dv = ss.deep_view();
            assert(dv[i - 1].take(dv[i - 1].len() as int) =~= dv[i - 1]);
            assert(dv.take(i as int).drop_last() =~= dv.take(i - 1));
            assert(dv.take(i as int).last() == dv[i - 1]);
            if i == 1 {
                assert(Seq::<char>::empty() + dv[0] =~= dv[0]);
                assert(r@ =~= spec_join(dv.take(i as int), sep@));
            } else {
                assert(r@ =~= spec_join(dv.take(i as int), sep@));
            }
        }
    }
    proof {
        assert(ss.deep_view().take(ss@.len() as int) =~= ss.deep_view());
    }
    r
}

} // verus!
