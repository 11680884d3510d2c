//! Issue-tracker items: the issue shape and the decoding of the JSON
//! that the issue tool prints.  Running the tool is the caller's part;
//! only the JSON decoding is delegated to an outside crate, behind one
//! trusted wrapper.

use vstd::prelude::*;
use vstd::string::StringExecFns;

use crate::dates::{rfc3339_epoch_of, spec_timestamp_text, spec_dec, Timestamp, MAX_EPOCH_SECS,
    MIN_EPOCH_SECS};
use crate::git::Author;
use crate::rankers::Render;
use crate::text::chars_to_string;

verus! {

/// One issue-tracker item.
pub struct Issue {
    /// The issue title.
    pub title: String,
    /// The issue body.
    pub body: String,
    /// The author, named by login.
    pub author: Author,
    /// When the issue was opened.
    pub created_at: Timestamp,
    /// The issue number.
    pub number: u64,
}

impl Render for Issue {
    open spec fn wf(&self) -> bool {
        self.created_at.wf() && self.author.name is Some
    }

    open spec fn text(&self) -> Seq<char> {
        self.title@ + seq!['\n'] + self.body@ + seq!['\n'] + (match self.author.name {
            Some(n) => n@,
            None => Seq::empty(),
        }) + seq!['\n'] + spec_timestamp_text(self.created_at.secs as int) + seq!['\n']
            + spec_dec(self.number as int) + seq!['\n']
    }

    fn render(&self) -> (r: String) {
        let mut s = self.title.clone();
        s.append("\n");
        s.append(self.body.as_str());
        s.append("\n");
        match &self.author.name {
            Some(n) => s.append(n.as_str()),
            None => (),
        }
        s.append("\n");
        let d = self.created_at.display();
        s.append(d.as_str());
        s.append("\n");
        let num = crate::dates::dec_chars(self.number);
        let numtext = chars_to_string(&num);
        s.append(numtext.as_str());
        s.append("\n");
        proof {
            reveal_strlit("\n");
            assert(s@ =~= self.text());
        }
        s
    }
}

/// The fields of one issue as the issue tool prints them: login,
/// number, creation time text, title, body.
pub struct RawIssue {
    /// The author's login.
    pub author_login: String,
    /// The issue number.
    pub number: u64,
    /// The creation time, as the tool prints it.
    pub created_at: String,
    /// The issue title.
    pub title: String,
    /// The issue body.
    pub body: String,
}

impl View for RawIssue {
    type V = (Seq<char>, u64, Seq<char>, Seq<char>, Seq<char>);

    open spec fn view(&self) -> (Seq<char>, u64, Seq<char>, Seq<char>, Seq<char>) {
        (self.author_login@, self.number, self.created_at@, self.title@, self.body@)
    }
}

impl DeepView for RawIssue {
    type V = (Seq<char>, u64, Seq<char>, Seq<char>, Seq<char>);

    open spec fn deep_view(&self) -> (Seq<char>, u64, Seq<char>, Seq<char>, Seq<char>) {
        self.view()
    }
}

/// The issue list that the JSON decoder reads out of `s`: for each
/// issue its login, number, creation text, title and body, or nothing
/// where the text is not a well-formed issue list.
pub uninterp spec fn issues_of(s: Seq<char>) -> Option<
    Seq<(Seq<char>, u64, Seq<char>, Seq<char>, Seq<char>)>,
>;

/// Decodes the issue tool's JSON output.
///
/// Relies on `serde_json::from_str` to parse the text and on
/// `serde_json::Value::get`, `as_str`, `as_u64` and `is_null` to read
/// the `author.login`, `number`, `createdAt`, `title` and `body`
/// fields; the result depends on the text alone.
#[verifier::external_body]
fn parse_issue_list(s: &str) -> (r: Option<Vec<RawIssue>>)
    ensures
        r is Some <==> issues_of(s@) is Some,
        r matches Some(v) ==> issues_of(s@) == Some(v.deep_view()),
{
    let vs: Vec<serde_json::Value> = match serde_json::from_str(s) {
        Ok(v) => v,
        Err(_) => return None,
    };
    let mut out = Vec::new();
    for v in vs.iter() {
        out.push(RawIssue {
            author_login: v.get("author")?.get("login")?.as_str()?.to_string(),
            number: v.get("number")?.as_u64()?,
            created_at: v.get("createdAt")?.as_str()?.to_string(),
            title: v.get("title")?.as_str()?.to_string(),
            body: v.get("body")?.as_str()?.to_string(),
        });
    }
    Some(out)
}

/// The issue-tracker client.  Running the issue tool is the caller's
/// part; the decoding of what it prints lives here.
pub struct Client;

impl Client {
    /// A fresh client.
    pub fn new() -> Client {
        Client
    }
}

/// Every creation time of the list parses into the supported range.
pub open spec fn spec_all_issue_dates_ok(
    raws: Seq<(Seq<char>, u64, Seq<char>, Seq<char>, Seq<char>)>,
) -> bool {
    forall|i: int| 0 <= i < raws.len() ==> spec_issue_date_ok(#[trigger] raws[i])
}

/// One raw issue's creation time parses into the supported range.
pub open spec fn spec_issue_date_ok(raw: (Seq<char>, u64, Seq<char>, Seq<char>, Seq<char>)) -> bool {
    match rfc3339_epoch_of(raw.2) {
        Some(t) => MIN_EPOCH_SECS <= t <= MAX_EPOCH_SECS,
        None => false,
    }
}

/// An issue equals what one raw entry describes.
pub open spec fn spec_issue_matches(
    issue: Issue,
    raw: (Seq<char>, u64, Seq<char>, Seq<char>, Seq<char>),
) -> bool {
    &&& issue.author.name_view() == Some(raw.0)
    &&& issue.author.email_view() == None::<Seq<char>>
    &&& issue.author.username_view() == None::<Seq<char>>
    &&& issue.number == raw.1
    &&& Some(issue.created_at.secs as int) == rfc3339_epoch_of(raw.2)
    &&& issue.title@ == raw.3
    &&& issue.body@ == raw.4
    &&& issue.wf()
}

/// Decodes the issue tool's JSON output into issues.  The result is
/// `Some` exactly where the text is a well-formed issue list whose
/// creation times all parse into the supported range; each issue then
/// carries its login as the author name, its number, its creation
/// time, its title and its body.
pub fn issues_from_json(s: &str) -> (r: Option<Vec<Issue>>)
    ensures
        issues_of(s@) is None ==> r is None,
        r matches Some(items) ==> {
            &&& issues_of(s@) matches Some(raws)
            &&& items@.len() == raws.len()
            &&& forall|i: int|
                0 <= i < raws.len() ==> spec_issue_matches(#[trigger] items@[i], raws[i])
        },
        r is None <==> (issues_of(s@) is None || (issues_of(s@) matches Some(raws)
            && !spec_all_issue_dates_ok(raws))),
{
    let raws = match parse_issue_list(s) {
        Some(v) => v,
        None => {
            return None;
        },
    };
    let ghost rawsg = raws.deep_view();
    let mut items: Vec<Issue> = Vec::new();
    let mut i: usize = 0;
    while i < raws.len()
        invariant
            i <= raws@.len(),
            raws.deep_view() == rawsg,
            issues_of(s@) == Some(rawsg),
            items@.len() == i,
            forall|m: int| 0 <= m < i ==> spec_issue_matches(#[trigger] items@[m], rawsg[m]),
            forall|m: int| 0 <= m < i ==> spec_issue_date_ok(#[trigger] rawsg[m]),
        decreases raws@.len() - i,
    {
        proof {
            assert(raws@[i as int]@ == rawsg[i as int]);
        }
        let raw = &raws[i];
        let created_at = match Timestamp::parse_rfc3339(raw.created_at.as_str()) {
            Some(t) => t,
            None => {
                proof {
                    assert(raw.created_at@ == rawsg[i as int].2);
                    assert(!spec_all_issue_dates_ok(rawsg)) by {
                        assert(!spec_issue_date_ok(rawsg[i as int]));
                    }
                }
                return None;
            },
        };
        items.push(
            Issue {
                title: raw.title.clone(),
                body: raw.body.clone(),
                author: Author {
                    name: Some(raw.author_login.clone()),
                    username: None,
                    email: None,
                },
                created_at,
                number: raw.number,
            },
        );
        i += 1;
    }
    proof {
        assert(spec_all_issue_dates_ok(rawsg));
    }
    Some(items)
}

} // verus!
