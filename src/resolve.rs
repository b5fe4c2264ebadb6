use vstd::prelude::*;
use vstd::string::*;

verus! {

/// Path of the version document below an endpoint.
pub const VERSION_PATH: &'static str = "/version";

/// Which of the two configured endpoints.
#[derive(PartialEq, Eq, Debug, Clone, Copy)]
pub enum Endpoint {
    Primary,
    Fallback,
}

/// The two endpoints that a version is asked from, primary first.
#[derive(Debug)]
pub struct VersionResolver {
    pub primary: String,
    pub fallback: String,
}

/// The endpoint that answered, with the version it gave. Every later request
/// of the session goes to this endpoint.
#[derive(Debug)]
pub struct ResolvedEndpoint {
    pub base: String,
    pub version: String,
}

/// What to do after a step of version resolution.
#[derive(Debug)]
pub enum ResolveStep {
    /// Ask this endpoint for the version.
    Fetch(Endpoint),
    /// Done.
    Resolved(ResolvedEndpoint),
    /// Both endpoints failed: report, pause and stop.
    GiveUp,
}

pub enum StepView {
    Fetch(Endpoint),
    Resolved { base: Seq<char>, version: Seq<char> },
    GiveUp,
}

impl View for ResolveStep {
    type V = StepView;

    open spec fn view(&self) -> StepView {
        match self {
            ResolveStep::Fetch(e) => StepView::Fetch(*e),
            ResolveStep::Resolved(r) => StepView::Resolved { base: r.base@, version: r.version@ },
            ResolveStep::GiveUp => StepView::GiveUp,
        }
    }
}

pub open spec fn is_blank(c: char) -> bool {
    c == ' ' || c == '\t' || c == '\n' || c == '\r'
}

pub open spec fn is_alphanumeric(c: char) -> bool {
    ('a' <= c && c <= 'z') || ('A' <= c && c <= 'Z') || ('0' <= c && c <= '9')
}

pub open spec fn is_version_char(c: char) -> bool {
    is_alphanumeric(c) || c == '-' || c == '_' || c == '.'
}

/// `s` without trailing blanks.
pub open spec fn trim_end(s: Seq<char>) -> Seq<char>
    decreases s.len(),
{
    if s.len() > 0 && is_blank(s.last()) {
        trim_end(s.drop_last())
    } else {
        s
    }
}

/// A version identifier: letters, digits, `-`, `_` and `.`, starting with a
/// letter or digit, so that it names a directory of its own.
pub open spec fn valid_version(v: Seq<char>) -> bool {
    v.len() > 0 && is_alphanumeric(v[0]) && forall|i: int| 0 <= i < v.len() ==> is_version_char(#[trigger] v[i])
}

/// The version that a response body gives, or `None` when the body is malformed.
pub open spec fn version_in_body(body: Seq<char>) -> Option<Seq<char>> {
    if valid_version(trim_end(body)) {
        Some(trim_end(body))
    } else {
        None
    }
}

proof fn lemma_trim_end_at(s: Seq<char>, hi: int)
    requires
        0 <= hi <= s.len(),
        forall|j: int| hi <= j < s.len() ==> is_blank(s[j]),
        hi == 0 || !is_blank(s[hi - 1]),
    ensures
        trim_end(s) == s.take(hi),
    decreases s.len() - hi,
{
    if hi < s.len() {
        assert(s.drop_last().take(hi) =~= s.take(hi));
        lemma_trim_end_at(s.drop_last(), hi);
    } else {
        assert(s.take(hi) =~= s);
    }
}

/// The version in a response body, or `None` when the body is malformed.
pub fn parse_version_body(body: &str) -> (r: Option<String>)
    ensures
        match r {
            Some(v) => version_in_body(body@) == Some(v@),
            None => version_in_body(body@) is None,
        },
{
    let n = body.unicode_len();
    let mut hi: usize = n;
    while hi > 0 && is_blank_char(body.get_char(hi - 1))
        invariant
            n == body@.len(),
            hi <= n,
            forall|j: int| hi <= j < n ==> is_blank(body@[j]),
        decreases hi,
    {
        hi = hi - 1;
    }
    proof {
        lemma_trim_end_at(body@, hi as int);
    }
    if hi == 0 || !is_alphanumeric_char(body.get_char(0)) {
        return None;
    }
    let mut i: usize = 0;
    while i < hi
        invariant
            n == body@.len(),
            hi <= n,
            forall|j: int| 0 <= j < i ==> is_version_char(body@[j]),
            trim_end(body@) == body@.take(hi as int),
        decreases hi - i,
    {
        let c = body.get_char(i);
        if !(is_alphanumeric_char(c) || c == '-' || c == '_' || c == '.') {
            assert(body@.take(hi as int)[i as int] == c);
            return None;
        }
        i = i + 1;
    }
    assert forall|j: int| 0 <= j < hi implies is_version_char(#[trigger] body@.take(hi as int)[j]) by {
        assert(body@.take(hi as int)[j] == body@[j]);
    }
    Some(String::from_str(body.substring_char(0, hi)))
}

fn is_blank_char(c: char) -> (r: bool)
    ensures
        r == is_blank(c),
{
    c == ' ' || c == '\t' || c == '\n' || c == '\r'
}

fn is_alphanumeric_char(c: char) -> (r: bool)
    ensures
        r == is_alphanumeric(c),
{
    ('a' <= c && c <= 'z') || ('A' <= c && c <= 'Z') || ('0' <= c && c <= '9')
}

/// The step after the endpoint `asked` answered with `body` (`None` when
/// the request failed): done on a well-formed version; otherwise the
/// fallback is asked after the primary, and resolution gives up after the
/// fallback.
pub open spec fn step_after(
    primary: Seq<char>,
    fallback: Seq<char>,
    asked: Endpoint,
    body: Option<Seq<char>>,
) -> StepView {
    let version = match body {
        Some(b) => version_in_body(b),
        None => None,
    };
    match version {
        Some(v) => StepView::Resolved {
            base: if asked == Endpoint::Primary {
                primary
            } else {
                fallback
            },
            version: v,
        },
        None => if asked == Endpoint::Primary {
            StepView::Fetch(Endpoint::Fallback)
        } else {
            StepView::GiveUp
        },
    }
}

impl VersionResolver {
    /// Resolution starts by asking the primary endpoint.
    pub fn first_step(&self) -> (r: ResolveStep)
        ensures
            r@ == StepView::Fetch(Endpoint::Primary),
    {
        ResolveStep::Fetch(Endpoint::Primary)
    }

    /// The base address of an endpoint.
    pub fn base(&self, which: Endpoint) -> (r: &String)
        ensures
            r@ == if which == Endpoint::Primary {
                self.primary@
            } else {
                self.fallback@
            },
    {
        match which {
            Endpoint::Primary => &self.primary,
            Endpoint::Fallback => &self.fallback,
        }
    }

    /// Where an endpoint publishes the current version.
    pub fn version_url(&self, which: Endpoint) -> (r: String)
        ensures
            r@ == (if which == Endpoint::Primary {
                self.primary@
            } else {
                self.fallback@
            }) + VERSION_PATH@,
    {
        self.base(which).clone().concat(VERSION_PATH)
    }

    /// The step after endpoint `asked` answered with `body`, `None` meaning
    /// that the request failed.
    pub fn on_response(&self, asked: Endpoint, body: Option<&str>) -> (r: ResolveStep)
        ensures
            r@ == step_after(
                self.primary@,
                self.fallback@,
                asked,
                match body {
                    Some(b) => Some(b@),
                    None => None,
                },
            ),
    {
        let version = match body {
            Some(b) => parse_version_body(b),
            None => None,
        };
        match version {
            Some(v) => ResolveStep::Resolved(ResolvedEndpoint { base: self.base(asked).clone(), version: v }),
            None => match asked {
                Endpoint::Primary => ResolveStep::Fetch(Endpoint::Fallback),
                Endpoint::Fallback => ResolveStep::GiveUp,
            },
        }
    }
}

/// Failover: when the primary endpoint fails, by error or by a malformed
/// body, the fallback is asked next; a well-formed answer of the fallback
/// resolves to its version with the fallback as the endpoint of the session,
/// and a failure of both ends resolution without a further request.
pub proof fn lemma_failover(
    primary: Seq<char>,
    fallback: Seq<char>,
    primary_body: Option<Seq<char>>,
    fallback_body: Option<Seq<char>>,
)
    requires
        match primary_body {
            Some(b) => version_in_body(b) is None,
            None => true,
        },
    ensures
        step_after(primary, fallback, Endpoint::Primary, primary_body) == StepView::Fetch(
            Endpoint::Fallback,
        ),
        match fallback_body {
            Some(b) => match version_in_body(b) {
                Some(v) => step_after(primary, fallback, Endpoint::Fallback, fallback_body)
                    == StepView::Resolved { base: fallback, version: v },
                None => step_after(primary, fallback, Endpoint::Fallback, fallback_body)
                    == StepView::GiveUp,
            },
            None => step_after(primary, fallback, Endpoint::Fallback, fallback_body)
                == StepView::GiveUp,
        },
{
}

impl ResolvedEndpoint {
    /// Prefix of every asset address of this version: `{base}/{version}-`.
    pub fn asset_url_prefix(&self) -> (r: String)
        ensures
            r@ == self.base@ + seq!['/'] + self.version@ + seq!['-'],
    {
        let r = self.base.clone().concat("/").concat(self.version.as_str()).concat("-");
        proof {
            reveal_strlit("/");
            reveal_strlit("-");
            assert(r@ =~= self.base@ + seq!['/'] + self.version@ + seq!['-']);
        }
        r
    }

    /// Address of one asset of this version: `{base}/{version}-{name}`.
    pub fn asset_url(&self, name: &str) -> (r: String)
        ensures
            r@ == self.base@ + seq!['/'] + self.version@ + seq!['-'] + name@,
    {
        self.asset_url_prefix().concat(name)
    }
}

} // verus!
