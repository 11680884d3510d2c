//! Version-control records: authors, commits, the multiplexed
//! log-stream parser, and the filter evaluator.
//!
//! The log stream interleaves per-record metadata fields joined by a
//! private three-character delimiter with each record's unified-diff
//! text; records are separated by a NUL byte.  The parser separates
//! metadata from patch content line by line, keyed on the literal
//! `diff --git` marker, so that patch content which merely resembles
//! metadata never leaks into the metadata text.

use vstd::prelude::*;
use vstd::std_specs::cmp::PartialEqSpec;
use vstd::string::StringExecFns;

use crate::dates::{rfc2822_epoch_of, rfc2822_text_of, Timestamp, MAX_EPOCH_SECS, MIN_EPOCH_SECS};
use crate::fmt::{colorize_string, indent_string, spec_color_code, spec_color_reset, spec_indent,
    Color};
use crate::patch::{patch_lines_of, spec_patch_text_safe, spec_patch_values, PatchSet};
use crate::rankers::Render;
use crate::text::{chars_to_string, extend_chars, join, lines_of, spec_join,
    spec_lines, spec_split_delim, spec_starts_with, spec_trim, split_delim, starts_with, to_chars,
    trim};

verus! {

/// The view of an optional string.
pub open spec fn spec_opt_text(o: Option<String>) -> Option<Seq<char>> {
    match o {
        Some(s) => Some(s@),
        None => None,
    }
}

/// The author of a record.  Equality is defined by name alone: two
/// authors are the same exactly when their names match.  This is a
/// deliberate simplification that makes membership and filter matching
/// possible without canonical author identities; it can conflate two
/// people who share a display name.
pub struct Author {
    /// The display name.
    pub name: Option<String>,
    /// A login name, where one is known.
    pub username: Option<String>,
    /// An email address, where one is known.
    pub email: Option<String>,
}

impl Author {
    /// The name as a mathematical value.
    pub open spec fn name_view(&self) -> Option<Seq<char>> {
        spec_opt_text(self.name)
    }

    /// The email as a mathematical value.
    pub open spec fn email_view(&self) -> Option<Seq<char>> {
        spec_opt_text(self.email)
    }

    /// The login name as a mathematical value.
    pub open spec fn username_view(&self) -> Option<Seq<char>> {
        spec_opt_text(self.username)
    }

    /// A structural copy.
    pub fn duplicate(&self) -> (r: Author)
        ensures
            r.name_view() == self.name_view(),
            r.email_view() == self.email_view(),
            r.username_view() == self.username_view(),
    {
        Author {
            name: match &self.name {
                Some(s) => Some(s.clone()),
                None => None,
            },
            username: match &self.username {
                Some(s) => Some(s.clone()),
                None => None,
            },
            email: match &self.email {
                Some(s) => Some(s.clone()),
                None => None,
            },
        }
    }
}

impl PartialEq for Author {
    fn eq(&self, other: &Author) -> (r: bool) {
        match (&self.name, &other.name) {
            (Some(a), Some(b)) => a.eq(b),
            (None, None) => true,
            _ => false,
        }
    }
}

impl vstd::std_specs::cmp::PartialEqSpecImpl for Author {
    open spec fn obeys_eq_spec() -> bool {
        true
    }

    open spec fn eq_spec(&self, other: &Author) -> bool {
        self.name_view() == other.name_view()
    }
}

impl Eq for Author {}

/// Author equality goes by name alone: it never reads the email or
/// the login name, and two authors are equal exactly when their names
/// agree.
pub proof fn lemma_author_eq_by_name(a: Author, b: Author)
    ensures
        a.eq_spec(&b) == (a.name_view() == b.name_view()),
{
}

/// There is an author with this name among `s`.
pub open spec fn spec_has_author_name(s: Seq<Author>, n: Option<Seq<char>>) -> bool {
    exists|i: int| 0 <= i < s.len() && (#[trigger] s[i]).name_view() == n
}

/// `s` with every later repetition of a name removed: each name keeps
/// its first bearer.  Under the name-only equality of authors this is
/// the set of distinct authors in first-seen order.
pub open spec fn spec_dedup_authors(s: Seq<Author>) -> Seq<Author>
    decreases s.len(),
{
    if s.len() == 0 {
        Seq::empty()
    } else {
        let rest = spec_dedup_authors(s.drop_last());
        if spec_has_author_name(rest, s.last().name_view()) {
            rest
        } else {
            rest.push(s.last())
        }
    }
}

/// Decides whether `out` already holds an author with this name.
fn has_author_name(out: &Vec<Author>, name: &Option<String>) -> (r: bool)
    ensures
        r == spec_has_author_name(out@, spec_opt_text(*name)),
{
    let mut i: usize = 0;
    while i < out.len()
        invariant
            i <= out@.len(),
            forall|m: int| 0 <= m < i ==> (#[trigger] out@[m]).name_view() != spec_opt_text(*name),
        decreases out@.len() - i,
    {
        let same = match (&out[i].name, name) {
            (Some(a), Some(b)) => a.eq(b),
            (None, None) => true,
            _ => false,
        };
        if same {
            return true;
        }
        i += 1;
    }
    false
}

/// Deduplicates a listing of authors by name, preserving first-seen
/// order: each name keeps its first bearer, so a prompt built over the
/// result names every known author exactly once, and membership by
/// name is unchanged.
pub fn dedupe_authors(authors: Vec<Author>) -> (r: Vec<Author>)
    ensures
        r@ == spec_dedup_authors(authors@),
{
    let ghost inputg = authors@;
    let mut rest = authors;
    let total = rest.len();
    let mut out: Vec<Author> = Vec::new();
    let mut i: usize = 0;
    while rest.len() > 0
        invariant
            inputg.len() == total,
            i + rest@.len() == inputg.len(),
            rest@ == inputg.skip(i as int),
            out@ == spec_dedup_authors(inputg.take(i as int)),
        decreases rest@.len(),
    {
        proof {
            assert(inputg.take(i + 1).drop_last() =~= inputg.take(i as int));
            assert(inputg.take(i + 1).last() == inputg[i as int]);
            assert(inputg.skip(i as int)[0] == inputg[i as int]);
            assert(inputg.skip(i as int).remove(0) =~= inputg.skip(i + 1));
        }
        let a = rest.remove(0);
        if !has_author_name(&out, &a.name) {
            out.push(a);
        }
        i += 1;
    }
    proof {
        assert(inputg.take(inputg.len() as int) =~= inputg);
    }
    out
}

/// How a record renders itself to text for tokenization and display;
/// the mode never changes the record's identity.
#[derive(Clone, Copy, PartialEq, Eq, Structural, Debug)]
pub enum CommitDisplayMode {
    /// The title alone.
    Title,
    /// The body alone.
    Body,
    /// Title, a blank line, then the body.
    TitleAndBody,
    /// The added lines of the patch.
    PatchSetAdd,
    /// The removed lines of the patch.
    PatchSetRemove,
    /// The whole raw patch text.
    PatchSetAll,
}

/// One parsed record of the history stream.
pub struct Commit {
    /// The author.
    pub author: Author,
    /// The author date, in the canonical timezone.
    pub date: Timestamp,
    /// The first line of the message.
    pub title: String,
    /// The rest of the message.
    pub body: String,
    /// The stable unique identifier of the record.
    pub sha: String,
    /// The record's patch.
    pub patch_set: PatchSet,
    /// The rendering used for tokenization and display.
    pub display_mode: CommitDisplayMode,
}

impl Render for Commit {
    open spec fn wf(&self) -> bool {
        self.date.wf()
    }

    open spec fn text(&self) -> Seq<char> {
        match self.display_mode {
            CommitDisplayMode::Title => self.title@,
            CommitDisplayMode::Body => self.body@,
            CommitDisplayMode::TitleAndBody => self.title@ + seq!['\n', '\n'] + self.body@,
            CommitDisplayMode::PatchSetAdd => spec_join(
                spec_patch_values(self.patch_set.model(), '+'),
                seq!['\n'],
            ),
            CommitDisplayMode::PatchSetRemove => spec_join(
                spec_patch_values(self.patch_set.model(), '-'),
                seq!['\n'],
            ),
            CommitDisplayMode::PatchSetAll => self.patch_set.raw@,
        }
    }

    fn render(&self) -> (r: String) {
        match self.display_mode {
            CommitDisplayMode::Title => self.title.clone(),
            CommitDisplayMode::Body => self.body.clone(),
            CommitDisplayMode::TitleAndBody => {
                let mut s = self.title.clone();
                s.append("\n\n");
                s.append(self.body.as_str());
                proof {
                    reveal_strlit("\n\n");
                    assert(s@ =~= self.text());
                }
                s
            },
            CommitDisplayMode::PatchSetAdd => self.patch_set.added_text(),
            CommitDisplayMode::PatchSetRemove => self.patch_set.removed_text(),
            CommitDisplayMode::PatchSetAll => self.patch_set.raw.clone(),
        }
    }
}

impl Commit {
    /// The same record under another rendering mode; identity and
    /// content stay untouched.
    pub fn with_display_mode(&self, mode: CommitDisplayMode) -> (r: Commit)
        ensures
            r.display_mode == mode,
            r.author.name_view() == self.author.name_view(),
            r.author.email_view() == self.author.email_view(),
            r.author.username_view() == self.author.username_view(),
            r.date == self.date,
            r.title@ == self.title@,
            r.body@ == self.body@,
            r.sha@ == self.sha@,
            r.patch_set.raw@ == self.patch_set.raw@,
            r.patch_set.model() == self.patch_set.model(),
    {
        Commit {
            author: self.author.duplicate(),
            date: self.date,
            title: self.title.clone(),
            body: self.body.clone(),
            sha: self.sha.clone(),
            patch_set: self.patch_set.duplicate(),
            display_mode: mode,
        }
    }

    /// The record formatted the way the history tool prints a log
    /// entry: a coloured identifier line, the author, the date in
    /// RFC 2822 form, and the indented message.
    pub fn mock_git_log_fmt(&self) -> (r: String)
        requires
            self.wf(),
        ensures
            r@ == spec_mock_git_log_fmt(self),
    {
        let ghost header = spec_color_code(Color::Yellow) + seq![
            'c',
            'o',
            'm',
            'm',
            'i',
            't',
            ' ',
        ] + self.sha@ + spec_color_reset();
        let mut first = String::from_str("commit ");
        first.append(self.sha.as_str());
        proof {
            reveal_strlit("commit ");
            assert(first@ =~= seq!['c', 'o', 'm', 'm', 'i', 't', ' '] + self.sha@);
        }
        let colored = colorize_string(first.as_str(), Color::Yellow);
        let mut s = colored;
        proof {
            assert(s@ =~= header);
        }
        s.append("\nAuthor: ");
        match &self.author.name {
            Some(n) => s.append(n.as_str()),
            None => (),
        }
        let ghost with_name = header + seq!['\n', 'A', 'u', 't', 'h', 'o', 'r', ':', ' ']
            + (match &self.author.name {
            Some(n) => n@,
            None => Seq::<char>::empty(),
        });
        proof {
            reveal_strlit("\nAuthor: ");
            assert(s@ =~= with_name);
        }
        match &self.author.email {
            Some(e) => {
                s.append(" <");
                s.append(e.as_str());
                s.append(">");
            },
            None => (),
        }
        let ghost with_email = with_name + (match &self.author.email {
            Some(e) => seq![' ', '<'] + e@ + seq!['>'],
            None => Seq::<char>::empty(),
        });
        proof {
            reveal_strlit(" <");
            reveal_strlit(">");
            assert(s@ =~= with_email);
        }
        s.append("\nDate: ");
        let d = self.date.to_rfc2822();
        s.append(d.as_str());
        s.append("\n\n");
        let ghost with_date = with_email + seq!['\n', 'D', 'a', 't', 'e', ':', ' ']
            + rfc2822_text_of(self.date.secs as int) + seq!['\n', '\n'];
        proof {
            reveal_strlit("\nDate: ");
            reveal_strlit("\n\n");
            assert(s@ =~= with_date);
        }
        let t = indent_string(self.title.as_str(), 4);
        s.append(t.as_str());
        if self.body.as_str().unicode_len() != 0 {
            let mut btext = String::from_str("\n\n");
            btext.append(self.body.as_str());
            proof {
                reveal_strlit("\n\n");
                assert(btext@ =~= seq!['\n', '\n'] + self.body@);
            }
            let b = indent_string(btext.as_str(), 4);
            s.append(b.as_str());
        }
        proof {
            assert(s@ =~= spec_mock_git_log_fmt(self));
        }
        s
    }
}

/// The text of `mock_git_log_fmt`: the coloured identifier line, the
/// author line, the RFC 2822 date line, and the indented message.
pub open spec fn spec_mock_git_log_fmt(c: &Commit) -> Seq<char> {
    let header = spec_color_code(Color::Yellow) + seq!['c', 'o', 'm', 'm', 'i', 't', ' ']
        + c.sha@ + spec_color_reset();
    let name = match c.author.name {
        Some(n) => n@,
        None => Seq::empty(),
    };
    let email = match c.author.email {
        Some(e) => seq![' ', '<'] + e@ + seq!['>'],
        None => Seq::empty(),
    };
    let msg = spec_indent(c.title@, 4) + if c.body@.len() != 0 {
        spec_indent(seq!['\n', '\n'] + c.body@, 4)
    } else {
        Seq::empty()
    };
    header + seq!['\n', 'A', 'u', 't', 'h', 'o', 'r', ':', ' '] + name + email + seq![
        '\n',
        'D',
        'a',
        't',
        'e',
        ':',
        ' ',
    ] + rfc2822_text_of(c.date.secs as int) + seq!['\n', '\n'] + msg
}

/// What survives before ranking: an optional author-equality filter
/// and an optional inclusive date range; `git_log_get_all` releases
/// the time bound of the upstream fetch on large repositories.
pub struct FilterConfig {
    /// Keep only records by this author (name equality), when present.
    pub author: Option<Author>,
    /// Keep only records within this inclusive range, when present;
    /// each bound is itself optional.
    pub date_range: Option<(Option<Timestamp>, Option<Timestamp>)>,
    /// Fetch the whole history even on a large repository.
    pub git_log_get_all: bool,
}

/// The filter evaluator: a record survives exactly when there is no
/// configuration, or its author matches the author filter (by name)
/// and its date lies within the inclusive date range.
pub open spec fn spec_passes_filter(
    cfg: Option<FilterConfig>,
    name: Option<Seq<char>>,
    date: int,
) -> bool {
    match cfg {
        None => true,
        Some(c) => {
            let author_ok = match c.author {
                None => true,
                Some(fa) => spec_opt_text(fa.name) == name,
            };
            let date_ok = match c.date_range {
                None => true,
                Some((since, until)) => {
                    let since_ok = match since {
                        None => true,
                        Some(s) => date >= s.secs,
                    };
                    let until_ok = match until {
                        None => true,
                        Some(e) => date <= e.secs,
                    };
                    since_ok && until_ok
                },
            };
            author_ok && date_ok
        },
    }
}

/// Decides whether a record with this author and date survives the
/// filter.
pub fn passes_filter(cfg: &Option<FilterConfig>, author: &Author, date: Timestamp) -> (r: bool)
    ensures
        r == spec_passes_filter(*cfg, author.name_view(), date.secs as int),
{
    match cfg {
        None => true,
        Some(c) => {
            let author_ok = match &c.author {
                None => true,
                Some(fa) => match (&fa.name, &author.name) {
                    (Some(a), Some(b)) => a.eq(b),
                    (None, None) => true,
                    _ => false,
                },
            };
            let date_ok = match &c.date_range {
                None => true,
                Some((since, until)) => {
                    let since_ok = match since {
                        None => true,
                        Some(s) => date.secs >= s.secs,
                    };
                    let until_ok = match until {
                        None => true,
                        Some(e) => date.secs <= e.secs,
                    };
                    since_ok && until_ok
                },
            };
            author_ok && date_ok
        },
    }
}

/// The marker that opens a file-diff in the log stream.
pub open spec fn spec_diff_marker() -> Seq<char> {
    seq!['d', 'i', 'f', 'f', ' ', '-', '-', 'g', 'i', 't']
}

/// The private metadata field delimiter.
pub open spec fn spec_meta_delim() -> Seq<char> {
    seq!['|', '|', '|']
}

/// The state of the log-stream scan after the given lines: the
/// flushed patch fragments, the fragment being accumulated, the
/// inside-a-diff flag, and the metadata text.
pub open spec fn spec_log_state(lines: Seq<Seq<char>>) -> (Seq<Seq<char>>, Seq<char>, bool, Seq<
    char,
>)
    decreases lines.len(),
{
    if lines.len() == 0 {
        (Seq::empty(), Seq::empty(), false, Seq::empty())
    } else {
        let st = spec_log_state(lines.drop_last());
        let line = lines.last();
        let starts = spec_starts_with(line, spec_diff_marker());
        let flush = starts && st.2 && st.1.len() > 0;
        let frags = if flush {
            st.0.push(st.1)
        } else {
            st.0
        };
        let cur = if flush {
            Seq::<char>::empty()
        } else {
            st.1
        };
        let inside = starts || st.2;
        if inside {
            (frags, cur + line + seq!['\n'], inside, st.3)
        } else {
            (frags, cur, inside, st.3 + line + seq!['\n'])
        }
    }
}

/// What the log-stream parser returns for one record's raw text: the
/// patch fragments (one per file-diff, each opened by the marker) and
/// the metadata text (every line seen outside a diff).
pub open spec fn spec_split_log(s: Seq<char>) -> (Seq<Seq<char>>, Seq<char>) {
    let st = spec_log_state(spec_lines(s));
    (
        if st.2 && st.1.len() > 0 {
            st.0.push(st.1)
        } else {
            st.0
        },
        st.3,
    )
}

/// The number of lines that open with the diff marker.
pub open spec fn spec_marker_count(lines: Seq<Seq<char>>) -> int
    decreases lines.len(),
{
    if lines.len() == 0 {
        0
    } else {
        spec_marker_count(lines.drop_last()) + if spec_starts_with(
            lines.last(),
            spec_diff_marker(),
        ) {
            1int
        } else {
            0int
        }
    }
}

/// The index of the first line that opens with the diff marker, or the
/// number of lines where none does.
pub open spec fn spec_first_marker(lines: Seq<Seq<char>>) -> int
    decreases lines.len(),
{
    if lines.len() == 0 {
        0
    } else if spec_marker_count(lines.drop_last()) > 0 {
        spec_first_marker(lines.drop_last())
    } else if spec_starts_with(lines.last(), spec_diff_marker()) {
        lines.len() - 1
    } else {
        lines.len() as int
    }
}

/// The lines joined back into one text, each closed with a newline.
pub open spec fn spec_concat_lines(lines: Seq<Seq<char>>) -> Seq<char>
    decreases lines.len(),
{
    if lines.len() == 0 {
        Seq::empty()
    } else {
        spec_concat_lines(lines.drop_last()) + lines.last() + seq!['\n']
    }
}

/// The shape of the scan state: once a marker line has been seen the
/// scan stays inside a diff, the flushed fragments and the pending one
/// each open with a marker line, one fragment stands per marker line,
/// and the metadata text holds exactly the lines before the first
/// marker.
proof fn lemma_log_state_shape(lines: Seq<Seq<char>>)
    ensures
        ({
            let st = spec_log_state(lines);
            let c = spec_marker_count(lines);
            &&& c >= 0
            &&& 0 <= spec_first_marker(lines) <= lines.len()
            &&& st.2 == (c > 0)
            &&& (c == 0 ==> st.0.len() == 0 && st.1.len() == 0)
            &&& (c > 0 ==> st.0.len() == c - 1 && spec_starts_with(st.1, spec_diff_marker()))
            &&& forall|i: int|
                0 <= i < st.0.len() ==> spec_starts_with(#[trigger] st.0[i], spec_diff_marker())
            &&& st.3 == spec_concat_lines(lines.take(spec_first_marker(lines)))
        }),
    decreases lines.len(),
{
    if lines.len() == 0 {
        assert(lines.take(0) =~= lines);
    } else {
        let prev = lines.drop_last();
        lemma_log_state_shape(prev);
        let st0 = spec_log_state(prev);
        let line = lines.last();
        let starts = spec_starts_with(line, spec_diff_marker());
        let c0 = spec_marker_count(prev);
        let fm = spec_first_marker(lines);
        if c0 > 0 {
            assert(fm == spec_first_marker(prev));
            assert(lines.take(fm) =~= prev.take(fm));
            if starts {
                // the pending fragment is flushed and a fresh one opens
                assert(st0.1.len() >= spec_diff_marker().len());
                assert((Seq::<char>::empty() + line + seq!['\n']).subrange(
                    0,
                    spec_diff_marker().len() as int,
                ) =~= line.subrange(0, spec_diff_marker().len() as int));
            } else {
                // the line joins the pending fragment; its opening stays
                assert((st0.1 + line + seq!['\n']).subrange(
                    0,
                    spec_diff_marker().len() as int,
                ) =~= st0.1.subrange(0, spec_diff_marker().len() as int));
            }
        } else {
            assert(spec_first_marker(prev) == prev.len());
            assert(prev.take(prev.len() as int) =~= prev);
            if starts {
                // the first marker line: metadata freezes, a fragment opens
                assert(fm == lines.len() - 1);
                assert(lines.take(fm) =~= prev);
                assert((st0.1 + line + seq!['\n']).subrange(
                    0,
                    spec_diff_marker().len() as int,
                ) =~= line.subrange(0, spec_diff_marker().len() as int));
            } else {
                // still outside any diff: the line joins the metadata
                assert(fm == lines.len() as int);
                assert(lines.take(fm) =~= lines);
                assert(spec_concat_lines(lines) == spec_concat_lines(prev) + line + seq!['\n']);
            }
        }
    }
}

/// Every patch fragment of the log-stream split opens with the diff
/// marker; there is exactly one fragment per line that opens with the
/// marker; and the metadata text is exactly the lines that precede the
/// first marker line, each closed with a newline — so no line of any
/// patch, however it reads, reaches the metadata text.
pub proof fn lemma_split_log_fragments(s: Seq<char>)
    ensures
        spec_split_log(s).0.len() == spec_marker_count(spec_lines(s)),
        forall|i: int|
            0 <= i < spec_split_log(s).0.len() ==> spec_starts_with(
                #[trigger] spec_split_log(s).0[i],
                spec_diff_marker(),
            ),
        spec_split_log(s).1 == spec_concat_lines(
            spec_lines(s).take(spec_first_marker(spec_lines(s))),
        ),
{
    let ls = spec_lines(s);
    lemma_log_state_shape(ls);
    let st = spec_log_state(ls);
    let c = spec_marker_count(ls);
    if c > 0 {
        assert(st.1.len() >= spec_diff_marker().len());
        assert(spec_split_log(s).0 == st.0.push(st.1));
        assert forall|i: int| 0 <= i < spec_split_log(s).0.len() implies spec_starts_with(
            #[trigger] spec_split_log(s).0[i],
            spec_diff_marker(),
        ) by {
            if i < st.0.len() {
                assert(st.0.push(st.1)[i] == st.0[i]);
            } else {
                assert(st.0.push(st.1)[i] == st.1);
            }
        }
    }
}

/// Splits one record's raw log text into patch fragments and metadata
/// text, on character vectors.
fn split_log_chars(v: &Vec<char>) -> (r: (Vec<Vec<char>>, Vec<char>))
    ensures
        r.0.deep_view() == spec_split_log(v@).0,
        r.1@ == spec_split_log(v@).1,
{
    let lines = lines_of(v);
    let marker: Vec<char> = vec!['d', 'i', 'f', 'f', ' ', '-', '-', 'g', 'i', 't'];
    proof {
        assert(marker@ =~= spec_diff_marker());
    }
    let mut frags: Vec<Vec<char>> = Vec::new();
    let mut cur: Vec<char> = Vec::new();
    let mut inside: bool = false;
    let mut meta: Vec<char> = Vec::new();
    let mut i: usize = 0;
    while i < lines.len()
        invariant
            i <= lines@.len(),
            marker@ == spec_diff_marker(),
            lines.deep_view() == spec_lines(v@),
            (frags.deep_view(), cur@, inside, meta@) == spec_log_state(
                lines.deep_view().take(i as int),
            ),
        decreases lines@.len() - i,
    {
        proof {
            let dv = lines.deep_view();
            assert(dv.take(i + 1).drop_last() =~= dv.take(i as int));
            assert(dv.take(i + 1).last() == dv[i as int]);
            assert(lines@[i as int]@ == dv[i as int]);
        }
        let line = &lines[i];
        let starts = starts_with(line, &marker);
        if starts {
            if inside && cur.len() > 0 {
                let ghost old_frags = frags.deep_view();
                let flushed = cur;
                frags.push(flushed);
                cur = Vec::new();
                proof {
                    assert(frags.deep_view() =~~= old_frags.push(
                        spec_log_state(lines.deep_view().take(i as int)).1,
                    ));
                }
            }
            inside = true;
        }
        if inside {
            extend_chars(&mut cur, line);
            cur.push('\n');
        } else {
            extend_chars(&mut meta, line);
            meta.push('\n');
        }
        i += 1;
        proof {
            assert((frags.deep_view(), cur@, inside, meta@) =~~= spec_log_state(
                lines.deep_view().take(i as int),
            ));
        }
    }
    proof {
        assert(lines.deep_view().take(lines@.len() as int) =~= lines.deep_view());
    }
    if inside && cur.len() > 0 {
        let ghost old_frags = frags.deep_view();
        frags.push(cur);
        proof {
            assert(frags.deep_view() =~~= old_frags.push(spec_log_state(spec_lines(v@)).1));
            assert(frags.deep_view() == spec_split_log(v@).0);
        }
        (frags, meta)
    } else {
        proof {
            assert(frags.deep_view() == spec_split_log(v@).0);
        }
        (frags, meta)
    }
}

/// Splits one record's raw log text into its unified-diff fragments
/// (one per file-diff) and the remaining metadata text.  A line that
/// opens with the diff marker starts a new fragment; lines inside a
/// diff accumulate into the current fragment, lines outside into the
/// metadata text.
pub fn split_raw_git_log_output(s: &str) -> (r: (Vec<String>, String))
    ensures
        r.0.deep_view() == spec_split_log(s@).0,
        r.1@ == spec_split_log(s@).1,
{
    let cs = to_chars(s);
    let (frags, meta) = split_log_chars(&cs);
    let frag_strings = crate::text::vecs_to_strings(&frags);
    let meta_string = chars_to_string(&meta);
    (frag_strings, meta_string)
}

/// The history client.  Running the history tool is the caller's
/// part; the parsing of everything the tool prints lives here.
pub struct Client;

impl Client {
    /// A fresh client.
    pub fn new() -> Client {
        Client
    }
}

/// What one line of the author listing yields: the trimmed name and
/// the optional email, or nothing where the line does not hold
/// exactly two fields.
pub open spec fn spec_author_line(line: Seq<char>) -> Option<(Seq<char>, Option<Seq<char>>)> {
    let fields = spec_split_delim(line, spec_meta_delim());
    if fields.len() != 2 {
        None
    } else {
        Some(
            (
                spec_trim(fields[0]),
                if fields[1].len() == 0 {
                    None
                } else {
                    Some(fields[1])
                },
            ),
        )
    }
}

/// The authors named by the listing's lines, in order, lines with the
/// wrong field count dropped.
pub open spec fn spec_parse_authors(lines: Seq<Seq<char>>) -> Seq<(Seq<char>, Option<Seq<char>>)>
    decreases lines.len(),
{
    if lines.len() == 0 {
        Seq::empty()
    } else {
        let rest = spec_parse_authors(lines.drop_last());
        match spec_author_line(lines.last()) {
            Some(a) => rest.push(a),
            None => rest,
        }
    }
}

/// Parses the author listing that the history tool prints: one line
/// per record, name and email joined by the private delimiter.
pub fn parse_authors(raw: &str) -> (r: Vec<Author>)
    ensures
        r@.len() == spec_parse_authors(spec_lines(raw@)).len(),
        forall|i: int|
            0 <= i < r@.len() ==> {
                &&& (#[trigger] r@[i]).name_view() == Some(
                    spec_parse_authors(spec_lines(raw@))[i].0,
                )
                &&& r@[i].email_view() == spec_parse_authors(spec_lines(raw@))[i].1
                &&& r@[i].username_view() is None
            },
{
    let cs = to_chars(raw);
    let lines = lines_of(&cs);
    let ghost linesg = lines.deep_view();
    let delim: Vec<char> = vec!['|', '|', '|'];
    proof {
        assert(delim@ =~= spec_meta_delim());
    }
    let mut r: Vec<Author> = Vec::new();
    let mut i: usize = 0;
    while i < lines.len()
        invariant
            i <= lines@.len(),
            lines.deep_view() == linesg,
            linesg == spec_lines(cs@),
            cs@ == raw@,
            delim@ == spec_meta_delim(),
            r@.len() == spec_parse_authors(linesg.take(i as int)).len(),
            forall|m: int|
                0 <= m < r@.len() ==> {
                    &&& (#[trigger] r@[m]).name_view() == Some(
                        spec_parse_authors(linesg.take(i as int))[m].0,
                    )
                    &&& r@[m].email_view() == spec_parse_authors(linesg.take(i as int))[m].1
                    &&& r@[m].username_view() is None
                },
        decreases lines@.len() - i,
    {
        proof {
            assert(linesg.take(i + 1).drop_last() =~= linesg.take(i as int));
            assert(linesg.take(i + 1).last() == linesg[i as int]);
            assert(lines@[i as int]@ == linesg[i as int]);
        }
        let fields = split_delim(&lines[i], &delim);
        if fields.len() == 2 {
            proof {
                assert(fields@[0]@ == fields.deep_view()[0]);
                assert(fields@[1]@ == fields.deep_view()[1]);
            }
            let name = chars_to_string(&trim(&fields[0]));
            let email = if fields[1].len() == 0 {
                None
            } else {
                Some(chars_to_string(&fields[1]))
            };
            r.push(Author { name: Some(name), username: None, email });
        }
        i += 1;
        proof {
            let cur = spec_parse_authors(linesg.take(i as int));
            let prev = spec_parse_authors(linesg.take(i - 1));
            assert forall|m: int| 0 <= m < prev.len() implies prev[m] == cur[m] by {
                if spec_author_line(linesg[i - 1]) is Some {
                    assert(cur == prev.push(spec_author_line(linesg[i - 1]).unwrap()));
                }
            }
        }
    }
    proof {
        assert(linesg.take(lines@.len() as int) =~= linesg);
    }
    r
}

/// The mathematical content of one parsed record.
pub struct CommitModel {
    /// The author name field, untrimmed.
    pub name: Seq<char>,
    /// The author email field, or nothing where it was empty.
    pub email: Option<Seq<char>>,
    /// The author date, in epoch seconds.
    pub date: int,
    /// The trimmed title field.
    pub title: Seq<char>,
    /// The trimmed body field.
    pub body: Seq<char>,
    /// The trimmed identifier field.
    pub sha: Seq<char>,
    /// The parsed patch content.
    pub patch: Seq<Seq<Seq<(char, Seq<char>)>>>,
    /// The newline-joined patch text.
    pub patch_raw: Seq<char>,
}

impl Commit {
    /// The record's mathematical content.
    pub open spec fn model(&self) -> CommitModel {
        CommitModel {
            name: match self.author.name {
                Some(n) => n@,
                None => Seq::empty(),
            },
            email: self.author.email_view(),
            date: self.date.secs as int,
            title: self.title@,
            body: self.body@,
            sha: self.sha@,
            patch: self.patch_set.model(),
            patch_raw: self.patch_set.raw@,
        }
    }
}

/// What one record's raw text yields: nothing (a malformed record is
/// dropped silently), a date error (fatal for the whole fetch), or a
/// parsed record.
pub enum BlobOutcome {
    /// The record is dropped: no patch, no metadata, a patch outside
    /// the diff parser's counting range or one it rejects, or the
    /// wrong field count.
    Skip,
    /// The date field was unreadable: the whole fetch fails.
    DateErr,
    /// A parsed record.
    Keep(CommitModel),
}

/// Decodes one record's raw text.
pub open spec fn spec_blob_outcome(blob: Seq<char>) -> BlobOutcome {
    let parts = spec_split_log(blob);
    if parts.0.len() == 0 || parts.1.len() == 0 {
        BlobOutcome::Skip
    } else {
        let joined = spec_join(parts.0, seq!['\n']);
        if !spec_patch_text_safe(joined) {
            BlobOutcome::Skip
        } else {
            match patch_lines_of(joined) {
                None => BlobOutcome::Skip,
                Some(patch) => {
                    let fields = spec_split_delim(parts.1, spec_meta_delim());
                    if fields.len() != 6 {
                        BlobOutcome::Skip
                    } else {
                        match rfc2822_epoch_of(spec_trim(fields[2])) {
                            None => BlobOutcome::DateErr,
                            Some(t) => {
                                if !(MIN_EPOCH_SECS <= t <= MAX_EPOCH_SECS) {
                                    BlobOutcome::DateErr
                                } else {
                                    BlobOutcome::Keep(
                                        CommitModel {
                                            name: fields[0],
                                            email: if fields[1].len() == 0 {
                                                None
                                            } else {
                                                Some(fields[1])
                                            },
                                            date: t,
                                            title: spec_trim(fields[3]),
                                            body: spec_trim(fields[4]),
                                            sha: spec_trim(fields[5]),
                                            patch,
                                            patch_raw: joined,
                                        },
                                    )
                                }
                            },
                        }
                    }
                },
            }
        }
    }
}

/// Decodes a whole stream of records, applying the filter at parse
/// time; `None` stands for the fatal date error.
pub open spec fn spec_parse_blobs(blobs: Seq<Seq<char>>, cfg: Option<FilterConfig>) -> Option<
    Seq<CommitModel>,
>
    decreases blobs.len(),
{
    if blobs.len() == 0 {
        Some(Seq::empty())
    } else {
        match spec_parse_blobs(blobs.drop_last(), cfg) {
            None => None,
            Some(rest) => match spec_blob_outcome(blobs.last()) {
                BlobOutcome::DateErr => None,
                BlobOutcome::Skip => Some(rest),
                BlobOutcome::Keep(cm) => if spec_passes_filter(cfg, Some(cm.name), cm.date) {
                    Some(rest.push(cm))
                } else {
                    Some(rest)
                },
            },
        }
    }
}

proof fn lemma_parse_blobs_err(blobs: Seq<Seq<char>>, cfg: Option<FilterConfig>, j: int)
    requires
        0 <= j <= blobs.len(),
        spec_parse_blobs(blobs.take(j), cfg) is None,
    ensures
        spec_parse_blobs(blobs, cfg) is None,
    decreases blobs.len() - j,
{
    if j < blobs.len() {
        assert(blobs.take(j + 1).drop_last() =~= blobs.take(j));
        lemma_parse_blobs_err(blobs, cfg, j + 1);
    } else {
        assert(blobs.take(j) =~= blobs);
    }
}

/// The failure of a history parse: the date field of a record could
/// not be read, which is fatal for the whole fetch.
#[derive(Debug)]
pub enum GitLogError {
    /// A record's date field was unreadable.
    BadDate,
}

impl GitLogError {
    /// A short diagnostic text.
    pub fn message(&self) -> (r: String)
        ensures
            r@ == "unreadable date field in history output"@,
    {
        "unreadable date field in history output".to_owned()
    }
}

/// Parses the whole raw history stream: splits it into records on NUL
/// bytes, decodes each record, applies the filter at parse time, and
/// reverses the collection once, so the result runs oldest first.
pub fn parse_commits(raw: &str, config: &Option<FilterConfig>) -> (r: Result<
    Vec<Commit>,
    GitLogError,
>)
    ensures
        r is Err <==> spec_parse_blobs(spec_split_delim(raw@, seq!['\u{0}']), *config) is None,
        r matches Ok(cs) ==> {
            &&& Some(cs@.map_values(|c: Commit| c.model()).reverse()) == spec_parse_blobs(
                spec_split_delim(raw@, seq!['\u{0}']),
                *config,
            )
            &&& forall|i: int|
                0 <= i < cs@.len() ==> (#[trigger] cs@[i]).wf() && cs@[i].display_mode
                    == CommitDisplayMode::TitleAndBody && cs@[i].author.name is Some
        },
{
    let cs = to_chars(raw);
    let nul: Vec<char> = vec!['\u{0}'];
    proof {
        assert(nul@ =~= seq!['\u{0}']);
    }
    let blobs = split_delim(&cs, &nul);
    let ghost blobsg = blobs.deep_view();
    let mut out: Vec<Commit> = Vec::new();
    let mut i: usize = 0;
    while i < blobs.len()
        invariant
            i <= blobs@.len(),
            blobs.deep_view() == blobsg,
            blobsg == spec_split_delim(cs@, seq!['\u{0}']),
            cs@ == raw@,
            Some(out@.map_values(|c: Commit| c.model())) == spec_parse_blobs(
                blobsg.take(i as int),
                *config,
            ),
            forall|m: int|
                0 <= m < out@.len() ==> (#[trigger] out@[m]).wf() && out@[m].display_mode
                    == CommitDisplayMode::TitleAndBody && out@[m].author.name is Some,
        decreases blobs@.len() - i,
    {
        proof {
            assert(blobsg.take(i + 1).drop_last() =~= blobsg.take(i as int));
            assert(blobsg.take(i + 1).last() == blobsg[i as int]);
            assert(blobs@[i as int]@ == blobsg[i as int]);
        }
        let blob = &blobs[i];
        let (frags, meta) = split_log_chars(blob);
        if frags.len() == 0 || meta.len() == 0 {
            i += 1;
            continue;
        }
        let nl: Vec<char> = vec!['\n'];
        proof {
            assert(nl@ =~= seq!['\n']);
        }
        let joined = join(&frags, &nl);
        let joined_str = chars_to_string(&joined);
        let patch_set = match PatchSet::parse(joined_str.as_str()) {
            Some(ps) => ps,
            None => {
                i += 1;
                continue;
            },
        };
        let delim: Vec<char> = vec!['|', '|', '|'];
        proof {
            assert(delim@ =~= spec_meta_delim());
        }
        let fields = split_delim(&meta, &delim);
        if fields.len() != 6 {
            i += 1;
            continue;
        }
        proof {
            assert(fields@[2]@ == fields.deep_view()[2]);
            assert(fields@[0]@ == fields.deep_view()[0]);
            assert(fields@[1]@ == fields.deep_view()[1]);
            assert(fields@[3]@ == fields.deep_view()[3]);
            assert(fields@[4]@ == fields.deep_view()[4]);
            assert(fields@[5]@ == fields.deep_view()[5]);
        }
        let date_text = chars_to_string(&trim(&fields[2]));
        let date = match Timestamp::parse_rfc2822(date_text.as_str()) {
            Some(d) => d,
            None => {
                proof {
                    assert(spec_parse_blobs(blobsg.take(i + 1), *config) is None);
                    lemma_parse_blobs_err(blobsg, *config, i + 1);
                }
                return Err(GitLogError::BadDate);
            },
        };
        let name = chars_to_string(&fields[0]);
        let email = if fields[1].len() == 0 {
            None
        } else {
            Some(chars_to_string(&fields[1]))
        };
        let author = Author { name: Some(name), username: None, email };
        if !passes_filter(config, &author, date) {
            i += 1;
            continue;
        }
        let title = chars_to_string(&trim(&fields[3]));
        let body = chars_to_string(&trim(&fields[4]));
        let sha = chars_to_string(&trim(&fields[5]));
        let commit = Commit {
            author,
            date,
            title,
            body,
            sha,
            patch_set,
            display_mode: CommitDisplayMode::TitleAndBody,
        };
        let ghost old_models = out@.map_values(|c: Commit| c.model());
        out.push(commit);
        i += 1;
        proof {
            assert(out@.map_values(|c: Commit| c.model()) =~= old_models.push(
                out@.last().model(),
            ));
            assert(spec_blob_outcome(blobsg[i - 1]) == BlobOutcome::Keep(out@.last().model()));
            assert(Some(out@.map_values(|c: Commit| c.model())) == spec_parse_blobs(
                blobsg.take(i as int),
                *config,
            ));
        }
    }
    proof {
        assert(blobsg.take(blobs@.len() as int) =~= blobsg);
    }
    // the upstream tool emits newest first; the caller receives oldest
    // first
    let ghost outg = out@;
    let mut rev: Vec<Commit> = Vec::new();
    loop
        invariant_except_break
            out@ == outg.take(out@.len() as int),
            rev@.len() + out@.len() == outg.len(),
            forall|m: int| 0 <= m < rev@.len() ==> #[trigger] rev@[m] == outg[outg.len() - 1 - m],
        ensures
            rev@.len() == outg.len(),
            forall|m: int| 0 <= m < rev@.len() ==> #[trigger] rev@[m] == outg[outg.len() - 1 - m],
        decreases out@.len(),
    {
        proof {
            assert(out@ =~= outg.take(out@.len() as int));
        }
        match out.pop() {
            Some(c) => {
                proof {
                    assert(c == outg[out@.len() as int]);
                    assert(out@ =~= outg.take(out@.len() as int));
                }
                rev.push(c);
            },
            None => {
                break;
            },
        }
    }
    proof {
        let models = outg.map_values(|c: Commit| c.model());
        let rmodels = rev@.map_values(|c: Commit| c.model());
        assert(rmodels.reverse() =~= models) by {
            assert forall|m: int| 0 <= m < models.len() implies rmodels.reverse()[m]
                == models[m] by {
                assert(rev@[outg.len() - 1 - m] == outg[m]);
            }
        }
        assert forall|m: int|
            0 <= m < rev@.len() implies (#[trigger] rev@[m]).wf() && rev@[m].display_mode
            == CommitDisplayMode::TitleAndBody && rev@[m].author.name is Some by {
            assert(rev@[m] == outg[outg.len() - 1 - m]);
        }
    }
    Ok(rev)
}

} // verus!
