//! The structured representation of a unified diff: an ordered
//! collection of file-diffs, each an ordered collection of hunks, each
//! an ordered collection of tagged lines.  Parsing the diff text is
//! delegated to an outside crate behind one trusted wrapper; a verified
//! pre-check keeps texts the parser could not count through away from
//! it, and everything read out of the parsed structure afterwards is
//! verified.

use vstd::prelude::*;

use crate::text::{chars_to_string, join, lemma_token_end, lemma_token_end_eq, lines_of, spec_join,
    spec_lines, to_chars, token_end};

verus! {

/// The tag of one diff line.
#[derive(Clone, Copy, PartialEq, Eq, Structural, Debug)]
pub enum LineKind {
    /// The line was added.
    Added,
    /// The line was removed.
    Removed,
    /// The line is unchanged context.
    Context,
    /// The line is empty filler.
    Empty,
}

/// The tag as the single character the diff format uses for it.
pub open spec fn spec_kind_char(k: LineKind) -> char {
    match k {
        LineKind::Added => '+',
        LineKind::Removed => '-',
        LineKind::Context => ' ',
        LineKind::Empty => '\n',
    }
}

/// One line of a hunk: its tag and its content.
pub struct DiffLine {
    /// Whether the line was added, removed, or is context.
    pub kind: LineKind,
    /// The line's content, without the tag character.
    pub value: String,
}

impl View for DiffLine {
    type V = (char, Seq<char>);

    open spec fn view(&self) -> (char, Seq<char>) {
        (spec_kind_char(self.kind), self.value@)
    }
}

impl DeepView for DiffLine {
    type V = (char, Seq<char>);

    open spec fn deep_view(&self) -> (char, Seq<char>) {
        self.view()
    }
}

/// The tag character that the line type text `t` stands for.
pub open spec fn spec_kind_of(t: Seq<char>) -> char {
    if t == seq!['+'] {
        '+'
    } else if t == seq!['-'] {
        '-'
    } else if t == seq![' '] {
        ' '
    } else {
        '\n'
    }
}

/// Builds one diff line from its line type text and its content.
fn diff_line_from(t: &str, v: &str) -> (r: DiffLine)
    ensures
        r@ == (spec_kind_of(t@), v@),
{
    let tc = to_chars(t);
    let kind = if tc.len() == 1 {
        let c = tc[0];
        proof {
            assert(c == t@[0]);
            if c == '+' {
                assert(t@ =~= seq!['+']);
            } else if c == '-' {
                assert(t@ =~= seq!['-']);
            } else if c == ' ' {
                assert(t@ =~= seq![' ']);
            } else {
                assert(t@ != seq!['+'] && t@ != seq!['-'] && t@ != seq![' ']);
            }
        }
        if c == '+' {
            LineKind::Added
        } else if c == '-' {
            LineKind::Removed
        } else if c == ' ' {
            LineKind::Context
        } else {
            LineKind::Empty
        }
    } else {
        proof {
            assert(t@ != seq!['+'] && t@ != seq!['-'] && t@ != seq![' ']);
        }
        LineKind::Empty
    };
    DiffLine { kind, value: v.to_owned() }
}

// ---------------------------------------------------------------------
// The parser's counting range
// ---------------------------------------------------------------------
//
// The diff parser reads each hunk-header number with an unchecked
// conversion to `usize` and counts line positions upward from it, and
// it reads the old-file name recorded by a preceding `--- ` line when
// a `+++ ` line opens a file.  Every text on which either step would
// fail is recognised here and rejected before the parser sees it.

/// A decimal digit.
pub open spec fn spec_is_digit(c: char) -> bool {
    let u = c as u32;
    48 <= u <= 57
}

/// The separator class that ends a decimal digit run: everything but a
/// digit.
pub open spec fn spec_non_digit() -> spec_fn(char) -> bool {
    |c: char| !spec_is_digit(c)
}

/// The numeric value of a run of decimal digits.
pub open spec fn spec_digits_val(s: Seq<char>) -> int
    decreases s.len(),
{
    if s.len() == 0 {
        0
    } else {
        spec_digits_val(s.drop_last()) * 10 + (s.last() as u32 - 48)
    }
}

/// The closing ` @@` of a hunk header at position `q`, carrying the
/// four numbers through.
pub open spec fn spec_hunk_close(
    l: Seq<char>,
    ss: int,
    sl: int,
    ts: int,
    tl: int,
    q: int,
) -> Option<(int, int, int, int)> {
    if q + 3 <= l.len() && l[q] == ' ' && l[q + 1] == '@' && l[q + 2] == '@' {
        Some((ss, sl, ts, tl))
    } else {
        None
    }
}

/// The target half of a hunk header from position `p` on: ` +N`, an
/// optional `,M`, then the closing ` @@`.
pub open spec fn spec_hunk_target(l: Seq<char>, ss: int, sl: int, p: int) -> Option<
    (int, int, int, int),
> {
    if !(p + 2 < l.len() && l[p] == ' ' && l[p + 1] == '+' && spec_is_digit(l[p + 2])) {
        None
    } else {
        let b = token_end(l, spec_non_digit(), p + 2);
        let ts = spec_digits_val(l.subrange(p + 2, b));
        if b < l.len() && l[b] == ',' {
            if b + 1 < l.len() && spec_is_digit(l[b + 1]) {
                let b2 = token_end(l, spec_non_digit(), b + 1);
                spec_hunk_close(l, ss, sl, ts, spec_digits_val(l.subrange(b + 1, b2)), b2)
            } else {
                None
            }
        } else {
            spec_hunk_close(l, ss, sl, ts, 1, b)
        }
    }
}

/// The four numbers of a hunk-header line `@@ -N[,M] +N[,M] @@`, the
/// omitted lengths defaulting to one, or nothing where the line is not
/// hunk-header-shaped.
pub open spec fn spec_hunk_numbers(l: Seq<char>) -> Option<(int, int, int, int)> {
    if !(l.len() >= 5 && l[0] == '@' && l[1] == '@' && l[2] == ' ' && l[3] == '-'
        && spec_is_digit(l[4])) {
        None
    } else {
        let b = token_end(l, spec_non_digit(), 4);
        let ss = spec_digits_val(l.subrange(4, b));
        if b < l.len() && l[b] == ',' {
            if b + 1 < l.len() && spec_is_digit(l[b + 1]) {
                let b2 = token_end(l, spec_non_digit(), b + 1);
                spec_hunk_target(l, ss, spec_digits_val(l.subrange(b + 1, b2)), b2)
            } else {
                None
            }
        } else {
            spec_hunk_target(l, ss, 1, b)
        }
    }
}

/// The hunk-header numbers of `l`, if it carries any, leave room in
/// `usize` for the parser's position counters over a text of `n`
/// characters: each start plus its length plus one step per line of
/// the text stays representable.
pub open spec fn spec_hunk_line_safe(l: Seq<char>, n: int) -> bool {
    match spec_hunk_numbers(l) {
        None => true,
        Some((ss, sl, ts, tl)) => ss + sl + n <= usize::MAX && ts + tl + n <= usize::MAX,
    }
}

/// A line that names the old file of a diff: `--- ` and then a name.
pub open spec fn spec_is_source_line(l: Seq<char>) -> bool {
    l.len() >= 5 && l[0] == '-' && l[1] == '-' && l[2] == '-' && l[3] == ' ' && l[4] != '\t'
}

/// A line the parser can read as naming the new file of a diff:
/// `+++ ` and then a name.  A bare `+++ ` counts too: the line view
/// strips one trailing carriage return, which can itself stand as the
/// name.
pub open spec fn spec_is_target_line(l: Seq<char>) -> bool {
    l.len() >= 4 && l[0] == '+' && l[1] == '+' && l[2] == '+' && l[3] == ' ' && (l.len() == 4
        || l[4] != '\t')
}

/// The unified-diff parser can read `s` without failing: every
/// hunk-header line leaves room for the position counters, and a
/// new-file line never comes before the old-file line whose name the
/// parser reads back when the new-file line opens a file.
pub open spec fn spec_patch_text_safe(s: Seq<char>) -> bool {
    let ls = spec_lines(s);
    &&& forall|i: int| 0 <= i < ls.len() ==> spec_hunk_line_safe(#[trigger] ls[i], s.len() as int)
    &&& forall|i: int|
        0 <= i < ls.len() && spec_is_target_line(#[trigger] ls[i]) ==> exists|j: int|
            0 <= j < i && spec_is_source_line(#[trigger] ls[j])
}

/// Decides whether `c` is a decimal digit.
fn is_digit_char(c: char) -> (r: bool)
    ensures
        r == spec_is_digit(c),
{
    let u = c as u32;
    48 <= u && u <= 57
}

/// The end of the digit run of `l` that starts at `i`.
fn digit_run_end(l: &Vec<char>, i: usize) -> (r: usize)
    requires
        i <= l@.len(),
    ensures
        r == token_end(l@, spec_non_digit(), i as int),
        i <= r <= l@.len(),
        forall|k: int| i <= k < r ==> spec_is_digit(l@[k]),
{
    let mut j: usize = i;
    while j < l.len() && is_digit_char(l[j])
        invariant
            i <= j <= l@.len(),
            forall|k: int| i <= k < j ==> spec_is_digit(l@[k]),
        decreases l@.len() - j,
    {
        j += 1;
    }
    proof {
        assert forall|k: int| i <= k < j implies !(spec_non_digit()(l@[k])) by {
            assert(spec_is_digit(l@[k]));
        }
        lemma_token_end_eq(l@, spec_non_digit(), i as int, j as int);
    }
    j
}

/// The value of a run of digits is not negative.
proof fn lemma_digits_val_nonneg(s: Seq<char>)
    requires
        forall|m: int| 0 <= m < s.len() ==> spec_is_digit(#[trigger] s[m]),
    ensures
        spec_digits_val(s) >= 0,
    decreases s.len(),
{
    if s.len() > 0 {
        lemma_digits_val_nonneg(s.drop_last());
    }
}

/// The value of a digit run is at least the value of each of its
/// prefixes.
proof fn lemma_digits_val_prefix(s: Seq<char>, k: int)
    requires
        0 <= k <= s.len(),
        forall|m: int| 0 <= m < s.len() ==> spec_is_digit(#[trigger] s[m]),
    ensures
        spec_digits_val(s.take(k)) <= spec_digits_val(s),
    decreases s.len() - k,
{
    if k < s.len() {
        assert(s.take(k + 1).drop_last() =~= s.take(k));
        assert(s.take(k + 1).last() == s[k]);
        lemma_digits_val_nonneg(s.take(k));
        lemma_digits_val_prefix(s, k + 1);
    } else {
        assert(s.take(k) =~= s);
    }
}

/// Reads the digit run `l[a..b]` as a number, or nothing where its
/// value exceeds `usize::MAX`.
fn digits_value(l: &Vec<char>, a: usize, b: usize) -> (r: Option<usize>)
    requires
        a <= b <= l@.len(),
        forall|k: int| a <= k < b ==> spec_is_digit(l@[k]),
    ensures
        r matches Some(x) ==> x == spec_digits_val(l@.subrange(a as int, b as int)),
        r is None ==> spec_digits_val(l@.subrange(a as int, b as int)) > usize::MAX,
{
    let ghost run = l@.subrange(a as int, b as int);
    proof {
        assert forall|m: int| 0 <= m < run.len() implies spec_is_digit(#[trigger] run[m]) by {
            assert(run[m] == l@[a + m]);
        }
    }
    let mut val: usize = 0;
    let mut k: usize = a;
    while k < b
        invariant
            a <= k <= b <= l@.len(),
            run == l@.subrange(a as int, b as int),
            forall|m: int| 0 <= m < run.len() ==> spec_is_digit(#[trigger] run[m]),
            val == spec_digits_val(run.take(k - a)),
        decreases b - k,
    {
        proof {
            assert(run[k - a] == l@[k as int]);
            assert(run.take(k + 1 - a).drop_last() =~= run.take(k - a));
            assert(run.take(k + 1 - a).last() == run[k - a]);
        }
        let u = l[k] as u32;
        let d = (u - 48) as usize;
        let ghost next = spec_digits_val(run.take(k + 1 - a));
        proof {
            assert(next == val * 10 + d);
        }
        let limit = usize::MAX / 10;
        proof {
            assert(usize::MAX - usize::MAX % 10 == 10 * (usize::MAX / 10)) by {
                vstd::arithmetic::div_mod::lemma_fundamental_div_mod(usize::MAX as int, 10);
            }
            assert(0 <= usize::MAX % 10 < 10) by {
                vstd::arithmetic::div_mod::lemma_mod_bound(usize::MAX as int, 10);
            }
        }
        if val > limit {
            proof {
                assert(val >= limit + 1);
                assert(val * 10 >= (limit + 1) * 10);
                assert(next > usize::MAX);
                lemma_digits_val_prefix(run, k + 1 - a);
                assert(run.take(run.len() as int) =~= run);
            }
            return None;
        }
        let v10 = val * 10;
        proof {
            assert(v10 <= limit * 10);
        }
        if d > usize::MAX - v10 {
            proof {
                assert(next > usize::MAX);
                lemma_digits_val_prefix(run, k + 1 - a);
                assert(run.take(run.len() as int) =~= run);
            }
            return None;
        }
        val = v10 + d;
        k += 1;
    }
    proof {
        assert(run.take(b - a) =~= run);
    }
    Some(val)
}

/// Decides whether the hunk-header numbers of `l`, if it carries any,
/// leave room in `usize` over a text of `n` characters.
fn hunk_line_safe(l: &Vec<char>, n: usize) -> (r: bool)
    ensures
        r == spec_hunk_line_safe(l@, n as int),
{
    let len = l.len();
    if !(len >= 5 && l[0] == '@' && l[1] == '@' && l[2] == ' ' && l[3] == '-'
        && is_digit_char(l[4])) {
        return true;
    }
    let b1 = digit_run_end(l, 4);
    let ss = digits_value(l, 4, b1);
    let ghost ssv = spec_digits_val(l@.subrange(4, b1 as int));
    let mut q: usize = b1;
    let mut sl: Option<usize> = Some(1);
    let ghost mut slv: int = 1int;
    if b1 < len && l[b1] == ',' {
        if b1 + 1 < len && is_digit_char(l[b1 + 1]) {
            let b2 = digit_run_end(l, b1 + 1);
            sl = digits_value(l, b1 + 1, b2);
            proof {
                slv = spec_digits_val(l@.subrange(b1 + 1, b2 as int));
            }
            q = b2;
        } else {
            proof {
                assert(spec_hunk_numbers(l@) is None);
            }
            return true;
        }
    }
    if !(q < len && len - q > 2 && l[q] == ' ' && l[q + 1] == '+' && is_digit_char(l[q + 2])) {
        proof {
            assert(spec_hunk_numbers(l@) is None);
        }
        return true;
    }
    let b3 = digit_run_end(l, q + 2);
    let ts = digits_value(l, q + 2, b3);
    let ghost tsv = spec_digits_val(l@.subrange(q + 2, b3 as int));
    let mut q2: usize = b3;
    let mut tl: Option<usize> = Some(1);
    let ghost mut tlv: int = 1int;
    if b3 < len && l[b3] == ',' {
        if b3 + 1 < len && is_digit_char(l[b3 + 1]) {
            let b4 = digit_run_end(l, b3 + 1);
            tl = digits_value(l, b3 + 1, b4);
            proof {
                tlv = spec_digits_val(l@.subrange(b3 + 1, b4 as int));
            }
            q2 = b4;
        } else {
            proof {
                assert(spec_hunk_numbers(l@) is None);
            }
            return true;
        }
    }
    if !(q2 < len && len - q2 >= 3 && l[q2] == ' ' && l[q2 + 1] == '@' && l[q2 + 2] == '@') {
        proof {
            assert(spec_hunk_numbers(l@) is None);
        }
        return true;
    }
    proof {
        assert(spec_hunk_numbers(l@) == Some((ssv, slv, tsv, tlv)));
        assert forall|m: int| 0 <= m < l@.subrange(4, b1 as int).len()
            implies spec_is_digit(#[trigger] l@.subrange(4, b1 as int)[m]) by {
            assert(l@.subrange(4, b1 as int)[m] == l@[4 + m]);
        }
        lemma_digits_val_nonneg(l@.subrange(4, b1 as int));
        assert forall|m: int| 0 <= m < l@.subrange(q + 2, b3 as int).len()
            implies spec_is_digit(#[trigger] l@.subrange(q + 2, b3 as int)[m]) by {
            assert(l@.subrange(q + 2, b3 as int)[m] == l@[q + 2 + m]);
        }
        lemma_digits_val_nonneg(l@.subrange(q + 2, b3 as int));
        assert(ssv >= 0 && slv >= 0 && tsv >= 0 && tlv >= 0);
    }
    let ssu = match ss {
        Some(x) => x,
        None => {
            return false;
        },
    };
    let slu = match sl {
        Some(x) => x,
        None => {
            return false;
        },
    };
    let tsu = match ts {
        Some(x) => x,
        None => {
            return false;
        },
    };
    let tlu = match tl {
        Some(x) => x,
        None => {
            return false;
        },
    };
    if slu > usize::MAX - n {
        return false;
    }
    if ssu > usize::MAX - n - slu {
        return false;
    }
    if tlu > usize::MAX - n {
        return false;
    }
    if tsu > usize::MAX - n - tlu {
        return false;
    }
    true
}

/// Decides whether the line names the old file of a diff.
fn is_source_line(l: &Vec<char>) -> (r: bool)
    ensures
        r == spec_is_source_line(l@),
{
    l.len() >= 5 && l[0] == '-' && l[1] == '-' && l[2] == '-' && l[3] == ' ' && l[4] != '\t'
}

/// Decides whether the line can name the new file of a diff.
fn is_target_line(l: &Vec<char>) -> (r: bool)
    ensures
        r == spec_is_target_line(l@),
{
    l.len() >= 4 && l[0] == '+' && l[1] == '+' && l[2] == '+' && l[3] == ' ' && (l.len() == 4
        || l[4] != '\t')
}

/// Decides whether the unified-diff parser can read the text.
fn patch_text_safe(v: &Vec<char>) -> (r: bool)
    ensures
        r == spec_patch_text_safe(v@),
{
    let lines = lines_of(v);
    let ghost lg = lines.deep_view();
    let n = v.len();
    let mut seen_source: bool = false;
    let mut i: usize = 0;
    while i < lines.len()
        invariant
            i <= lines@.len(),
            lg == spec_lines(v@),
            lines.deep_view() == lg,
            n == v@.len(),
            seen_source == exists|j: int| 0 <= j < i && spec_is_source_line(#[trigger] lg[j]),
            forall|m: int| 0 <= m < i ==> spec_hunk_line_safe(#[trigger] lg[m], n as int),
            forall|m: int|
                0 <= m < i && spec_is_target_line(#[trigger] lg[m]) ==> exists|j: int|
                    0 <= j < m && spec_is_source_line(lg[j]),
        decreases lines@.len() - i,
    {
        proof {
            assert(lines@[i as int]@ == lg[i as int]);
        }
        let line = &lines[i];
        if is_target_line(line) && !seen_source {
            proof {
                assert(spec_is_target_line(lg[i as int]));
                assert(!spec_patch_text_safe(v@));
            }
            return false;
        }
        if !hunk_line_safe(line, n) {
            proof {
                assert(!spec_hunk_line_safe(lg[i as int], n as int));
                assert(!spec_patch_text_safe(v@));
            }
            return false;
        }
        if is_source_line(line) {
            seen_source = true;
        }
        let ghost old_i = i as int;
        i += 1;
        proof {
            assert(seen_source == exists|j: int|
                0 <= j < i && spec_is_source_line(#[trigger] lg[j])) by {
                if seen_source {
                    if spec_is_source_line(lg[old_i]) {
                        assert(0 <= old_i < i && spec_is_source_line(lg[old_i]));
                    }
                } else {
                    assert forall|j: int| 0 <= j < i implies !spec_is_source_line(lg[j]) by {
                        if j < old_i {
                            assert(!(exists|m: int|
                                0 <= m < old_i && spec_is_source_line(#[trigger] lg[m])));
                        }
                    }
                }
            }
        }
    }
    proof {
        assert(spec_patch_text_safe(v@));
    }
    true
}

/// The files, hunks and tagged lines that the unified-diff parser
/// reads out of `s`, or nothing where it rejects `s`.
pub uninterp spec fn patch_lines_of(s: Seq<char>) -> Option<Seq<Seq<Seq<(char, Seq<char>)>>>>;

/// Parses unified-diff text into files, hunks and tagged lines.
///
/// Relies on `unidiff::PatchSet::parse` to decode the text, and on the
/// `files`, `hunks` and `lines` accessors together with the public
/// `line_type` and `value` fields of `unidiff::Line`; the result
/// depends on the text alone.  The parser converts each hunk-header
/// number with an unchecked `unwrap`, counts line positions upward
/// from those numbers, and reads the old-file name recorded by a
/// preceding `--- ` line when a `+++ ` line opens a file, so the
/// precondition admits only texts on which none of that can fail.
#[verifier::external_body]
fn parse_unidiff(s: &str) -> (r: Option<Vec<Vec<Vec<DiffLine>>>>)
    requires
        spec_patch_text_safe(s@),
    ensures
        r is Some <==> patch_lines_of(s@) is Some,
        r matches Some(fs) ==> patch_lines_of(s@) == Some(fs.deep_view()),
{
    let mut ps = unidiff::PatchSet::new();
    if ps.parse(s).is_err() {
        return None;
    }
    Some(
        ps.files().iter().map(
            |f| f.hunks().iter().map(
                |h| h.lines().iter().map(|l| diff_line_from(&l.line_type, &l.value)).collect(),
            ).collect(),
        ).collect(),
    )
}

/// A parsed unified diff: files, each hunks, each tagged lines, kept
/// beside the raw text it was parsed from.  Produced once per record
/// at parse time and never mutated afterwards.
pub struct PatchSet {
    /// The raw unified-diff text.
    pub raw: String,
    /// The parsed files, each a list of hunks, each a list of lines.
    pub files: Vec<Vec<Vec<DiffLine>>>,
}

/// The line values of one hunk whose tag is `k`, in order.
pub open spec fn spec_hunk_values(h: Seq<(char, Seq<char>)>, k: char) -> Seq<Seq<char>>
    decreases h.len(),
{
    if h.len() == 0 {
        Seq::empty()
    } else {
        spec_hunk_values(h.drop_last(), k) + if h.last().0 == k {
            seq![h.last().1]
        } else {
            Seq::empty()
        }
    }
}

/// The line values of one file whose tag is `k`, in order.
pub open spec fn spec_file_values(f: Seq<Seq<(char, Seq<char>)>>, k: char) -> Seq<Seq<char>>
    decreases f.len(),
{
    if f.len() == 0 {
        Seq::empty()
    } else {
        spec_file_values(f.drop_last(), k) + spec_hunk_values(f.last(), k)
    }
}

/// The line values of a whole patch whose tag is `k`, in order.
pub open spec fn spec_patch_values(
    fs: Seq<Seq<Seq<(char, Seq<char>)>>>,
    k: char,
) -> Seq<Seq<char>>
    decreases fs.len(),
{
    if fs.len() == 0 {
        Seq::empty()
    } else {
        spec_patch_values(fs.drop_last(), k) + spec_file_values(fs.last(), k)
    }
}

impl PatchSet {
    /// The structured content: files, hunks, tagged lines.
    pub open spec fn model(&self) -> Seq<Seq<Seq<(char, Seq<char>)>>> {
        self.files.deep_view()
    }

    /// An empty patch.
    pub fn new() -> (r: PatchSet)
        ensures
            r.raw@ == Seq::<char>::empty(),
            r.model() == Seq::<Seq<Seq<(char, Seq<char>)>>>::empty(),
    {
        let r = PatchSet { raw: String::new(), files: Vec::new() };
        proof {
            assert(r.files.deep_view() =~= Seq::<Seq<Seq<(char, Seq<char>)>>>::empty());
        }
        r
    }

    /// Parses unified-diff text; the result is `Some` exactly where
    /// the text lies within the parser's counting range and the diff
    /// parser accepts it, and then models what the parser read.
    pub fn parse(s: &str) -> (r: Option<PatchSet>)
        ensures
            r is Some <==> spec_patch_text_safe(s@) && patch_lines_of(s@) is Some,
            r matches Some(ps) ==> ps.raw@ == s@ && patch_lines_of(s@) == Some(ps.model()),
    {
        let cs = to_chars(s);
        if !patch_text_safe(&cs) {
            return None;
        }
        match parse_unidiff(s) {
            Some(files) => Some(PatchSet { raw: s.to_owned(), files }),
            None => None,
        }
    }

    /// The content of every line tagged `k`, flattened in order.
    pub fn values_of_kind(&self, kind: LineKind) -> (r: Vec<String>)
        ensures
            r.deep_view() == spec_patch_values(self.model(), spec_kind_char(kind)),
    {
        let ghost k = spec_kind_char(kind);
        let mut r: Vec<String> = Vec::new();
        let mut i: usize = 0;
        while i < self.files.len()
            invariant
                i <= self.files@.len(),
                k == spec_kind_char(kind),
                r.deep_view() =~~= spec_patch_values(self.model().take(i as int), k),
            decreases self.files@.len() - i,
        {
            proof {
                let m = self.model();
                assert(m.take(i + 1).drop_last() =~= m.take(i as int));
                assert(m.take(i + 1).last() =~~= m[i as int]);
            }
            let file = &self.files[i];
            let mut j: usize = 0;
            while j < file.len()
                invariant
                    j <= file@.len(),
                    i < self.files@.len(),
                    k == spec_kind_char(kind),
                    file == &self.files[i as int],
                    file.deep_view() =~~= self.model()[i as int],
                    r.deep_view() =~~= spec_patch_values(self.model().take(i as int), k)
                        + spec_file_values(self.model()[i as int].take(j as int), k),
                decreases file@.len() - j,
            {
                proof {
                    let fm = self.model()[i as int];
                    assert(fm.take(j + 1).drop_last() =~= fm.take(j as int));
                    assert(fm.take(j + 1).last() =~~= fm[j as int]);
                }
                let hunk = &file[j];
                let mut l: usize = 0;
                while l < hunk.len()
                    invariant
                        l <= hunk@.len(),
                        i < self.files@.len(),
                        j < file@.len(),
                        k == spec_kind_char(kind),
                        file == &self.files[i as int],
                        hunk == &file[j as int],
                        file.deep_view() =~~= self.model()[i as int],
                        hunk.deep_view() =~~= self.model()[i as int][j as int],
                        r.deep_view() =~~= spec_patch_values(self.model().take(i as int), k)
                            + spec_file_values(self.model()[i as int].take(j as int), k)
                            + spec_hunk_values(
                            self.model()[i as int][j as int].take(l as int),
                            k,
                        ),
                    decreases hunk@.len() - l,
                {
                    proof {
                        let hm = self.model()[i as int][j as int];
                        assert(hm.take(l + 1).drop_last() =~= hm.take(l as int));
                        assert(hm.take(l + 1).last() == hm[l as int]);
                        assert(hunk@[l as int]@ == hm[l as int]);
                    }
                    let line = &hunk[l];
                    let matches_kind = match (line.kind, kind) {
                        (LineKind::Added, LineKind::Added) => true,
                        (LineKind::Removed, LineKind::Removed) => true,
                        (LineKind::Context, LineKind::Context) => true,
                        (LineKind::Empty, LineKind::Empty) => true,
                        _ => false,
                    };
                    if matches_kind {
                        let ghost old_dv = r.deep_view();
                        r.push(line.value.clone());
                        proof {
                            assert(r.deep_view() =~~= old_dv.push(line.value@));
                        }
                    }
                    l += 1;
                }
                proof {
                    let hm = self.model()[i as int][j as int];
                    assert(hm.take(hm.len() as int) =~= hm);
                }
                j += 1;
            }
            proof {
                let fm = self.model()[i as int];
                assert(fm.take(fm.len() as int) =~= fm);
            }
            i += 1;
        }
        proof {
            assert(self.model().take(self.files@.len() as int) =~= self.model());
        }
        r
    }

    /// The added-line text of the patch: added line values joined with
    /// newlines.
    pub fn added_text(&self) -> (r: String)
        ensures
            r@ == spec_join(spec_patch_values(self.model(), '+'), seq!['\n']),
    {
        self.joined_values(LineKind::Added)
    }

    /// The removed-line text of the patch: removed line values joined
    /// with newlines.
    pub fn removed_text(&self) -> (r: String)
        ensures
            r@ == spec_join(spec_patch_values(self.model(), '-'), seq!['\n']),
    {
        self.joined_values(LineKind::Removed)
    }

    /// Joins the values of one tag with newlines.
    fn joined_values(&self, kind: LineKind) -> (r: String)
        ensures
            r@ == spec_join(spec_patch_values(self.model(), spec_kind_char(kind)), seq!['\n']),
    {
        let vals = self.values_of_kind(kind);
        let mut chars: Vec<Vec<char>> = Vec::new();
        let mut i: usize = 0;
        while i < vals.len()
            invariant
                i <= vals@.len(),
                chars.deep_view() =~~= vals.deep_view().take(i as int),
            decreases vals@.len() - i,
        {
            let ghost old_dv = chars.deep_view();
            chars.push(to_chars(vals[i].as_str()));
            i += 1;
            proof {
                assert(chars.deep_view() =~~= old_dv.push(vals.deep_view()[i - 1]));
                assert(chars.deep_view() =~~= vals.deep_view().take(i as int));
            }
        }
        proof {
            assert(vals.deep_view().take(vals@.len() as int) =~= vals.deep_view());
            assert(chars.deep_view() =~~= vals.deep_view());
        }
        let nl: Vec<char> = vec!['\n'];
        proof {
            assert(nl@ =~= seq!['\n']);
        }
        let joined = join(&chars, &nl);
        chars_to_string(&joined)
    }

    /// A structural copy of the patch.
    pub fn duplicate(&self) -> (r: PatchSet)
        ensures
            r.raw@ == self.raw@,
            r.model() == self.model(),
    {
        let raw = self.raw.clone();
        let mut files: Vec<Vec<Vec<DiffLine>>> = Vec::new();
        let mut i: usize = 0;
        while i < self.files.len()
            invariant
                i <= self.files@.len(),
                files.deep_view() =~~= self.model().take(i as int),
            decreases self.files@.len() - i,
        {
            let file = &self.files[i];
            let mut nf: Vec<Vec<DiffLine>> = Vec::new();
            let mut j: usize = 0;
            while j < file.len()
                invariant
                    j <= file@.len(),
                    i < self.files@.len(),
                    file == &self.files[i as int],
                    nf.deep_view() =~~= self.model()[i as int].take(j as int),
                decreases file@.len() - j,
            {
                let hunk = &file[j];
                let mut nh: Vec<DiffLine> = Vec::new();
                let mut l: usize = 0;
                while l < hunk.len()
                    invariant
                        l <= hunk@.len(),
                        i < self.files@.len(),
                        j < file@.len(),
                        file == &self.files[i as int],
                        hunk == &file[j as int],
                        nh.deep_view() =~~= self.model()[i as int][j as int].take(l as int),
                    decreases hunk@.len() - l,
                {
                    let line = &hunk[l];
                    let ghost old_dv = nh.deep_view();
                    nh.push(DiffLine { kind: line.kind, value: line.value.clone() });
                    l += 1;
                    proof {
                        assert(hunk@[l - 1]@ == self.model()[i as int][j as int][l - 1]);
                        assert(nh.deep_view() =~~= old_dv.push(
                            self.model()[i as int][j as int][l - 1],
                        ));
                        assert(nh.deep_view() =~~= self.model()[i as int][j as int].take(
                            l as int,
                        ));
                    }
                }
                proof {
                    let hm = self.model()[i as int][j as int];
                    assert(hm.take(hm.len() as int) =~= hm);
                    assert(nh.deep_view() =~~= hm);
                }
                let ghost old_dv = nf.deep_view();
                nf.push(nh);
                j += 1;
                proof {
                    let fm = self.model()[i as int];
                    assert(fm.take(j as int).drop_last() =~= fm.take(j - 1));
                    assert(fm.take(j as int).last() == fm[j - 1]);
                    assert(nf.deep_view() =~~= old_dv.push(fm[j - 1]));
                    assert(nf.deep_view() =~~= self.model()[i as int].take(j as int));
                }
            }
            proof {
                let fm = self.model()[i as int];
                assert(fm.take(fm.len() as int) =~= fm);
                assert(nf.deep_view() =~~= fm);
            }
            let ghost old_dv = files.deep_view();
            files.push(nf);
            i += 1;
            proof {
                assert(files.deep_view() =~~= self.model().take(i as int));
            }
        }
        proof {
            assert(self.model().take(self.files@.len() as int) =~= self.model());
        }
        let r = PatchSet { raw, files };
        proof {
            assert(r.model() =~~= self.model());
        }
        r
    }
}

} // verus!
