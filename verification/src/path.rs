//! The static webhook path grammar: absolute paths, global prefixes and
//! relative registration paths made of URL-unreserved ASCII segments.
use vstd::prelude::*;
use vstd::string::*;

use crate::text::{contains_str, string_views, split_on, debug_char, debug_str, has_prefix, owned, debug_char_text, debug_text, is_plain_text, str_eq};

verus! {

/// A character that may appear in a path segment: an ASCII letter or digit,
/// `-`, `.`, `_` or `~`.
pub open spec fn is_url_unreserved(c: char) -> bool {
    ('a' <= c && c <= 'z') || ('A' <= c && c <= 'Z') || ('0' <= c && c <= '9') || c == '-' || c
        == '.' || c == '_' || c == '~'
}

/// The pieces of `s` between `/` characters, as `str::split('/')` yields them.
pub open spec fn split_slash(s: Seq<char>) -> Seq<Seq<char>> {
    split_on(s, '/')
}

/// Why a single path segment is rejected.
#[derive(Clone, Copy, Debug, PartialEq, Eq)]
pub enum SegmentProblem {
    /// The segment is empty (two adjacent slashes).
    Empty,
    /// The segment is `.` or `..`.
    DotSegment,
    /// The segment holds this character, which is not URL-unreserved ASCII.
    Character(char),
}

/// Why a whole path is rejected.
#[derive(Clone, Copy, Debug, PartialEq, Eq)]
pub enum PathProblem {
    /// An absolute path or prefix does not start with `/`.
    MissingLeadingSlash,
    /// A relative path starts with `/`.
    LeadingSlash,
    /// The path ends with `/` (other than the root path `/`).
    TrailingSlash,
    /// A relative path is empty.
    NoSegment,
    /// One of the segments is rejected.
    Segment(SegmentProblem),
}

/// The first character of `seg` that is not URL-unreserved, if any.
pub open spec fn first_bad_char(seg: Seq<char>) -> Option<char>
    decreases seg.len(),
{
    if seg.len() == 0 {
        None
    } else if !is_url_unreserved(seg[0]) {
        Some(seg[0])
    } else {
        first_bad_char(seg.drop_first())
    }
}

/// What is wrong with one segment, if anything.
pub open spec fn segment_problem(seg: Seq<char>) -> Option<SegmentProblem> {
    if seg.len() == 0 {
        Some(SegmentProblem::Empty)
    } else if seg == seq!['.'] || seg == seq!['.', '.'] {
        Some(SegmentProblem::DotSegment)
    } else {
        match first_bad_char(seg) {
            Some(c) => Some(SegmentProblem::Character(c)),
            None => None,
        }
    }
}

/// The problem of the first rejected segment in `segs`.
pub open spec fn first_segment_problem(segs: Seq<Seq<char>>) -> Option<SegmentProblem>
    decreases segs.len(),
{
    if segs.len() == 0 {
        None
    } else {
        match segment_problem(segs[0]) {
            Some(p) => Some(p),
            None => first_segment_problem(segs.drop_first()),
        }
    }
}

/// The problem of the first rejected segment of a `/`-separated text.
pub open spec fn segments_problem(s: Seq<char>) -> Option<PathProblem> {
    match first_segment_problem(split_slash(s)) {
        Some(p) => Some(PathProblem::Segment(p)),
        None => None,
    }
}

/// Why `p` is not an absolute webhook path (or prefix), if it is not one.
pub open spec fn absolute_path_problem(p: Seq<char>) -> Option<PathProblem> {
    if p.len() == 0 || p[0] != '/' {
        Some(PathProblem::MissingLeadingSlash)
    } else if p.len() == 1 {
        None
    } else if p.last() == '/' {
        Some(PathProblem::TrailingSlash)
    } else {
        segments_problem(p.drop_first())
    }
}

/// Why `p` is not a relative webhook path, if it is not one.
pub open spec fn relative_path_problem(p: Seq<char>) -> Option<PathProblem> {
    if p.len() == 0 {
        Some(PathProblem::NoSegment)
    } else if p[0] == '/' {
        Some(PathProblem::LeadingSlash)
    } else if p.last() == '/' {
        Some(PathProblem::TrailingSlash)
    } else {
        segments_problem(p)
    }
}

/// `/`, or `/` followed by `/`-separated valid segments.
pub open spec fn is_valid_absolute_path(p: Seq<char>) -> bool {
    absolute_path_problem(p) is None
}

/// One or more `/`-separated valid segments.
pub open spec fn is_valid_relative_path(p: Seq<char>) -> bool {
    relative_path_problem(p) is None
}

/// The prefix and the relative path joined by exactly one `/`.
pub open spec fn joined_path(prefix: Seq<char>, relative: Seq<char>) -> Seq<char> {
    if prefix == seq!['/'] {
        seq!['/'] + relative
    } else {
        prefix + seq!['/'] + relative
    }
}

/// The explanation that follows the rejected path in an error message.
pub open spec fn problem_detail(problem: PathProblem) -> Seq<char> {
    match problem {
        PathProblem::MissingLeadingSlash => "it must start with '/'"@,
        PathProblem::LeadingSlash => "leading slashes are not allowed"@,
        PathProblem::TrailingSlash => "trailing slashes are not allowed"@,
        PathProblem::NoSegment => "it must contain at least one segment"@,
        PathProblem::Segment(SegmentProblem::Empty) => "empty path segments are not allowed"@,
        PathProblem::Segment(SegmentProblem::DotSegment) => "'.' and '..' segments are not allowed"@,
        PathProblem::Segment(SegmentProblem::Character(c)) => "character "@ + debug_char_text(c)
            + " is not allowed; segments may contain only ASCII letters, digits, '-', '.', '_', and '~'"@,
    }
}

/// The full message of a rejected path: it names the kind of path and quotes
/// the rejected text.
pub open spec fn path_error_message(subject: Seq<char>, path: Seq<char>, problem: PathProblem) -> Seq<
    char,
> {
    "invalid "@ + subject + " "@ + debug_text(path) + ": "@ + problem_detail(problem)
}

/// The message that reports a path registered twice.
pub open spec fn duplicate_path_message(path: Seq<char>) -> Seq<char> {
    "duplicate webhook path "@ + debug_text(path)
}

/// An invalid webhook URL path.
#[derive(Clone, Debug, PartialEq, Eq)]
pub struct WebhookPathError {
    message: String,
}

impl View for WebhookPathError {
    type V = Seq<char>;

    /// The error's message.
    closed spec fn view(&self) -> Seq<char> {
        self.message@
    }
}

impl WebhookPathError {
    /// Creates an error carrying `message`.
    pub fn new(message: String) -> (res: Self)
        ensures
            res@ == message@,
    {
        WebhookPathError { message }
    }

    /// Reports a path that is already registered.
    pub fn duplicate(path: &str) -> (res: Self)
        ensures
            res@ == duplicate_path_message(path@),
    {
        let mut message = String::from_str("duplicate webhook path ");
        let quoted = debug_str(path);
        message.append(quoted.as_str());
        WebhookPathError { message }
    }

    /// The error's message.
    pub fn message(&self) -> (res: &str)
        ensures
            res@ == self@,
    {
        self.message.as_str()
    }

    /// The error's message as an owned string.
    pub fn to_string(&self) -> (res: String)
        ensures
            res@ == self@,
    {
        self.message.clone()
    }
}

/// Reports whether `c` is an ASCII letter or digit, `-`, `.`, `_` or `~`.
pub fn is_url_unreserved_ascii(c: char) -> (res: bool)
    ensures
        res == is_url_unreserved(c),
{
    ('a' <= c && c <= 'z') || ('A' <= c && c <= 'Z') || ('0' <= c && c <= '9') || c == '-' || c
        == '.' || c == '_' || c == '~'
}

proof fn lemma_split_nonempty(s: Seq<char>)
    ensures
        split_slash(s).len() >= 1,
    decreases s.len(),
{
    if s.len() > 0 {
        lemma_split_nonempty(s.drop_last());
    }
}

/// Splitting at one `/` splits the pieces there.
proof fn lemma_split_join(a: Seq<char>, b: Seq<char>)
    ensures
        split_slash(a + seq!['/'] + b) == split_slash(a) + split_slash(b),
    decreases b.len(),
{
    lemma_split_nonempty(a);
    let s = a + seq!['/'] + b;
    if b.len() == 0 {
        assert(s.drop_last() =~= a);
        assert(split_slash(b) =~= seq![Seq::<char>::empty()]);
        assert(split_slash(s) =~= split_slash(a) + split_slash(b));
    } else {
        let b0 = b.drop_last();
        lemma_split_join(a, b0);
        lemma_split_nonempty(b0);
        assert(s.drop_last() =~= a + seq!['/'] + b0);
        assert(split_slash(s) =~= split_slash(a) + split_slash(b));
    }
}

proof fn lemma_first_problem_concat(a: Seq<Seq<char>>, b: Seq<Seq<char>>)
    ensures
        first_segment_problem(a + b) == (match first_segment_problem(a) {
            Some(p) => Some(p),
            None => first_segment_problem(b),
        }),
    decreases a.len(),
{
    if a.len() > 0 {
        assert((a + b).drop_first() =~= a.drop_first() + b);
        lemma_first_problem_concat(a.drop_first(), b);
    } else {
        assert(a + b =~= b);
    }
}

proof fn lemma_first_problem_single(x: Seq<char>)
    ensures
        first_segment_problem(seq![x]) == segment_problem(x),
{
    assert(seq![x].drop_first() =~= Seq::<Seq<char>>::empty());
    assert(first_segment_problem(Seq::<Seq<char>>::empty()) is None);
    assert(seq![x][0] == x);
}

/// The problem of the segment `s[start..end]`, if any.
fn segment_problem_at(s: &str, start: usize, end: usize) -> (res: Option<SegmentProblem>)
    requires
        start <= end <= s@.len(),
    ensures
        res == segment_problem(s@.subrange(start as int, end as int)),
{
    let ghost seg = s@.subrange(start as int, end as int);
    if start == end {
        return Some(SegmentProblem::Empty);
    }
    let len = end - start;
    let first = s.get_char(start);
    if len == 1 && first == '.' {
        assert(seg =~= seq!['.']);
        return Some(SegmentProblem::DotSegment);
    }
    if len == 2 && first == '.' && s.get_char(start + 1) == '.' {
        assert(seg =~= seq!['.', '.']);
        return Some(SegmentProblem::DotSegment);
    }
    assert(seg != seq!['.'] && seg != seq!['.', '.']) by {
        if len == 1 {
            assert(seg[0] == first);
        }
        if len == 2 {
            assert(seg[0] == first);
            assert(seg[1] == s@[start + 1]);
        }
    }
    let mut i: usize = start;
    while i < end
        invariant
            start <= i <= end,
            end <= s@.len(),
            seg == s@.subrange(start as int, end as int),
            first_bad_char(seg) == first_bad_char(s@.subrange(i as int, end as int)),
        decreases end - i,
    {
        let c = s.get_char(i);
        let ghost rest = s@.subrange(i as int, end as int);
        assert(rest[0] == c);
        if !is_url_unreserved_ascii(c) {
            return Some(SegmentProblem::Character(c));
        }
        assert(rest.drop_first() =~= s@.subrange(i + 1, end as int));
        i = i + 1;
    }
    assert(s@.subrange(i as int, end as int) =~= Seq::<char>::empty());
    None
}

/// The problem of the first rejected segment of `s`, split at each `/`.
fn find_segment_problem(s: &str) -> (res: Option<SegmentProblem>)
    ensures
        res == first_segment_problem(split_slash(s@)),
{
    let n = s.unicode_len();
    let mut start: usize = 0;
    let mut i: usize = 0;
    let ghost mut done: Seq<Seq<char>> = Seq::empty();
    assert(s@.subrange(0, 0) =~= Seq::<char>::empty());
    assert(split_slash(Seq::<char>::empty()) =~= done.push(s@.subrange(0, 0)));
    while i < n
        invariant
            n == s@.len(),
            start <= i <= n,
            split_slash(s@.subrange(0, i as int)) == done.push(s@.subrange(start as int, i as int)),
            first_segment_problem(done) is None,
        decreases n - i,
    {
        let c = s.get_char(i);
        let ghost prefix = s@.subrange(0, i + 1);
        assert(prefix.drop_last() =~= s@.subrange(0, i as int));
        assert(prefix.last() == c);
        if c == '/' {
            let problem = segment_problem_at(s, start, i);
            let ghost seg = s@.subrange(start as int, i as int);
            proof {
                lemma_first_problem_concat(done, seq![seg]);
                lemma_first_problem_single(seg);
                assert(done.push(seg) =~= done + seq![seg]);
            }
            if problem.is_some() {
                proof {
                    let tail = s@.subrange(i + 1, n as int);
                    assert(s@ =~= s@.subrange(0, i as int) + seq!['/'] + tail);
                    lemma_split_join(s@.subrange(0, i as int), tail);
                    lemma_first_problem_concat(done.push(seg), split_slash(tail));
                }
                return problem;
            }
            proof {
                done = done.push(seg);
                assert(s@.subrange(i + 1, i + 1) =~= Seq::<char>::empty());
            }
            start = i + 1;
        } else {
            assert(s@.subrange(start as int, i as int).push(c) =~= s@.subrange(
                start as int,
                i + 1,
            ));
        }
        i = i + 1;
    }
    let problem = segment_problem_at(s, start, n);
    proof {
        let seg = s@.subrange(start as int, n as int);
        assert(s@.subrange(0, n as int) =~= s@);
        lemma_first_problem_concat(done, seq![seg]);
        lemma_first_problem_single(seg);
        assert(done.push(seg) =~= done + seq![seg]);
    }
    problem
}

/// The explanation that follows the rejected path in an error message.
fn problem_detail_text(problem: PathProblem) -> (res: String)
    ensures
        res@ == problem_detail(problem),
{
    match problem {
        PathProblem::MissingLeadingSlash => String::from_str("it must start with '/'"),
        PathProblem::LeadingSlash => String::from_str("leading slashes are not allowed"),
        PathProblem::TrailingSlash => String::from_str("trailing slashes are not allowed"),
        PathProblem::NoSegment => String::from_str("it must contain at least one segment"),
        PathProblem::Segment(SegmentProblem::Empty) => String::from_str(
            "empty path segments are not allowed",
        ),
        PathProblem::Segment(SegmentProblem::DotSegment) => String::from_str(
            "'.' and '..' segments are not allowed",
        ),
        PathProblem::Segment(SegmentProblem::Character(c)) => {
            let mut text = String::from_str("character ");
            let quoted = debug_char(c);
            text.append(quoted.as_str());
            text.append(
                " is not allowed; segments may contain only ASCII letters, digits, '-', '.', '_', and '~'",
            );
            text
        },
    }
}

/// Joining a valid prefix and a valid relative path always yields a valid
/// absolute webhook path.
pub proof fn lemma_joined_path_is_absolute(prefix: Seq<char>, relative: Seq<char>)
    requires
        is_valid_absolute_path(prefix),
        is_valid_relative_path(relative),
    ensures
        is_valid_absolute_path(joined_path(prefix, relative)),
{
    let p = joined_path(prefix, relative);
    if prefix == seq!['/'] {
        assert(p.drop_first() =~= relative);
        assert(p[0] == '/');
        assert(p.last() == relative.last());
    } else {
        if prefix.len() == 1 {
            assert(prefix =~= seq!['/']);
        }
        assert(p[0] == prefix[0]);
        assert(p.last() == relative.last());
        let tail = prefix.drop_first();
        assert(p.drop_first() =~= tail + seq!['/'] + relative);
        lemma_split_join(tail, relative);
        lemma_first_problem_concat(split_slash(tail), split_slash(relative));
    }
}

/// Builds the error reporting `problem` in `path`.
fn path_error(subject: &str, path: &str, problem: PathProblem) -> (res: WebhookPathError)
    ensures
        res@ == path_error_message(subject@, path@, problem),
{
    let mut message = String::from_str("invalid ");
    message.append(subject);
    message.append(" ");
    let quoted = debug_str(path);
    message.append(quoted.as_str());
    message.append(": ");
    let detail = problem_detail_text(problem);
    message.append(detail.as_str());
    WebhookPathError { message }
}

/// Finds why `path` is not an absolute path, if it is not one.
fn absolute_problem(path: &str) -> (res: Option<PathProblem>)
    ensures
        res == absolute_path_problem(path@),
{
    let n = path.unicode_len();
    if n == 0 || path.get_char(0) != '/' {
        return Some(PathProblem::MissingLeadingSlash);
    }
    if n == 1 {
        return None;
    }
    if path.get_char(n - 1) == '/' {
        return Some(PathProblem::TrailingSlash);
    }
    let rest = path.substring_char(1, n);
    assert(rest@ =~= path@.drop_first());
    match find_segment_problem(rest) {
        Some(p) => Some(PathProblem::Segment(p)),
        None => None,
    }
}

/// Finds why `path` is not a relative path, if it is not one.
fn relative_problem(path: &str) -> (res: Option<PathProblem>)
    ensures
        res == relative_path_problem(path@),
{
    let n = path.unicode_len();
    if n == 0 {
        return Some(PathProblem::NoSegment);
    }
    if path.get_char(0) == '/' {
        return Some(PathProblem::LeadingSlash);
    }
    if path.get_char(n - 1) == '/' {
        return Some(PathProblem::TrailingSlash);
    }
    match find_segment_problem(path) {
        Some(p) => Some(PathProblem::Segment(p)),
        None => None,
    }
}

fn validate_absolute(path: &str, subject: &str) -> (res: Result<(), WebhookPathError>)
    ensures
        res is Ok <==> is_valid_absolute_path(path@),
        res matches Err(e) ==> e@ == path_error_message(
            subject@,
            path@,
            absolute_path_problem(path@)->0,
        ),
{
    match absolute_problem(path) {
        Some(problem) => Err(path_error(subject, path, problem)),
        None => Ok(()),
    }
}

/// Validates an absolute, exact webhook path: `/` or an absolute path made of
/// static URL-unreserved ASCII segments.
pub fn validate_absolute_webhook_path(path: &str) -> (res: Result<(), WebhookPathError>)
    ensures
        res is Ok <==> is_valid_absolute_path(path@),
        res matches Err(e) ==> e@ == path_error_message(
            "absolute webhook path"@,
            path@,
            absolute_path_problem(path@)->0,
        ),
{
    validate_absolute(path, "absolute webhook path")
}

/// Validates a global webhook prefix, which follows the absolute path grammar.
pub fn validate_webhook_prefix(prefix: &str) -> (res: Result<(), WebhookPathError>)
    ensures
        res is Ok <==> is_valid_absolute_path(prefix@),
        res matches Err(e) ==> e@ == path_error_message(
            "webhook prefix"@,
            prefix@,
            absolute_path_problem(prefix@)->0,
        ),
{
    validate_absolute(prefix, "webhook prefix")
}

/// Validates a relative webhook registration path: non-empty, without a
/// leading or trailing slash, made of static URL-unreserved ASCII segments.
pub fn validate_relative_webhook_path(path: &str) -> (res: Result<(), WebhookPathError>)
    ensures
        res is Ok <==> is_valid_relative_path(path@),
        res matches Err(e) ==> e@ == path_error_message(
            "relative webhook path"@,
            path@,
            relative_path_problem(path@)->0,
        ),
{
    match relative_problem(path) {
        Some(problem) => Err(path_error("relative webhook path", path, problem)),
        None => Ok(()),
    }
}

/// Validates and joins a global prefix and a relative registration path.
pub fn resolve_webhook_path(prefix: &str, relative_path: &str) -> (res: Result<
    String,
    WebhookPathError,
>)
    ensures
        res is Ok <==> is_valid_absolute_path(prefix@) && is_valid_relative_path(relative_path@),
        res matches Ok(joined) ==> joined@ == joined_path(prefix@, relative_path@),
        res matches Err(e) ==> if !is_valid_absolute_path(prefix@) {
            e@ == path_error_message("webhook prefix"@, prefix@, absolute_path_problem(prefix@)->0)
        } else {
            e@ == path_error_message(
                "relative webhook path"@,
                relative_path@,
                relative_path_problem(relative_path@)->0,
            )
        },
{
    match validate_webhook_prefix(prefix) {
        Ok(()) => {},
        Err(e) => return Err(e),
    }
    match validate_relative_webhook_path(relative_path) {
        Ok(()) => {},
        Err(e) => return Err(e),
    }
    if str_eq(prefix, "/") {
        proof {
            reveal_strlit("/");
        }
        assert(prefix@ =~= seq!['/']);
        let mut joined = String::from_str("/");
        joined.append(relative_path);
        Ok(joined)
    } else {
        proof {
            reveal_strlit("/");
        }
        assert("/"@ =~= seq!['/']);
        let mut joined = owned(prefix);
        joined.append("/");
        joined.append(relative_path);
        Ok(joined)
    }
}

/// The exact webhook paths registered so far, each once, in registration
/// order. Registering a path twice is an error rather than a second route.
pub struct WebhookPathSet {
    paths: Vec<String>,
}

impl View for WebhookPathSet {
    type V = Seq<Seq<char>>;

    closed spec fn view(&self) -> Seq<Seq<char>> {
        string_views(self.paths@)
    }
}

impl WebhookPathSet {
    /// Each path is held once.
    #[verifier::type_invariant]
    closed spec fn distinct(self) -> bool {
        string_views(self.paths@).no_duplicates()
    }

    /// Creates an empty set.
    pub fn new() -> (res: Self)
        ensures
            res@.len() == 0,
    {
        let res = WebhookPathSet { paths: Vec::new() };
        assert(string_views(res.paths@) =~= Seq::<Seq<char>>::empty());
        res
    }

    /// Reports whether `path` is registered.
    pub fn contains(&self, path: &str) -> (res: bool)
        ensures
            res == self@.contains(path@),
    {
        contains_str(&self.paths, path)
    }

    /// Records a path that is valid and not yet registered.
    fn insert_new(&mut self, path: &str) -> (res: Result<(), WebhookPathError>)
        ensures
            old(self)@.contains(path@) ==> (res matches Err(e) && e@ == duplicate_path_message(path@)
                && final(self)@ == old(self)@),
            !old(self)@.contains(path@) ==> (res is Ok && final(self)@ == old(self)@.push(path@)),
            final(self)@.no_duplicates(),
    {
        proof {
            use_type_invariant(&*self);
        }
        if contains_str(&self.paths, path) {
            proof {
                use_type_invariant(&*self);
            }
            return Err(WebhookPathError::duplicate(path));
        }
        let ghost before = string_views(self.paths@);
        proof {
            assert forall|i: int, j: int|
                0 <= i < before.push(path@).len() && 0 <= j < before.push(path@).len() && i != j
                implies before.push(path@)[i] != before.push(path@)[j] by {
                if i == before.len() as int {
                    assert(before.push(path@)[j] == before[j]);
                } else if j == before.len() as int {
                    assert(before.push(path@)[i] == before[i]);
                }
            }
        }
        let mut paths: Vec<String> = Vec::new();
        std::mem::swap(&mut paths, &mut self.paths);
        paths.push(String::from_str(path));
        assert(string_views(paths@) =~= before.push(path@));
        self.paths = paths;
        proof {
            use_type_invariant(&*self);
        }
        Ok(())
    }

    /// Registers an exact absolute path.
    pub fn register_at(&mut self, path: &str) -> (res: Result<(), WebhookPathError>)
        ensures
            !is_valid_absolute_path(path@) ==> (res matches Err(e) && e@ == path_error_message(
                "absolute webhook path"@,
                path@,
                absolute_path_problem(path@)->0,
            ) && final(self)@ == old(self)@),
            is_valid_absolute_path(path@) && old(self)@.contains(path@) ==> (res matches Err(e)
                && e@ == duplicate_path_message(path@) && final(self)@ == old(self)@),
            is_valid_absolute_path(path@) && !old(self)@.contains(path@) ==> (res is Ok && final(self)@
                == old(self)@.push(path@)),
            final(self)@.no_duplicates(),
    {
        proof {
            use_type_invariant(&*self);
        }
        match validate_absolute_webhook_path(path) {
            Err(e) => Err(e),
            Ok(()) => self.insert_new(path),
        }
    }

    /// Registers the path that joins `prefix` and `relative_path`, and returns it.
    pub fn register_relative(&mut self, prefix: &str, relative_path: &str) -> (res: Result<
        String,
        WebhookPathError,
    >)
        ensures
            !is_valid_absolute_path(prefix@) ==> (res matches Err(e) && e@ == path_error_message(
                "webhook prefix"@,
                prefix@,
                absolute_path_problem(prefix@)->0,
            ) && final(self)@ == old(self)@),
            is_valid_absolute_path(prefix@) && !is_valid_relative_path(relative_path@) ==> (
            res matches Err(e) && e@ == path_error_message(
                "relative webhook path"@,
                relative_path@,
                relative_path_problem(relative_path@)->0,
            ) && final(self)@ == old(self)@),
            is_valid_absolute_path(prefix@) && is_valid_relative_path(relative_path@) && old(self)@.contains(joined_path(prefix@, relative_path@)) ==> (res matches Err(e) && e@
                == duplicate_path_message(joined_path(prefix@, relative_path@)) && final(self)@ == old(self)@),
            is_valid_absolute_path(prefix@) && is_valid_relative_path(relative_path@) && !old(self)@.contains(joined_path(prefix@, relative_path@)) ==> (res matches Ok(p) && p@
                == joined_path(prefix@, relative_path@) && final(self)@ == old(self)@.push(
                joined_path(prefix@, relative_path@),
            )),
            final(self)@.no_duplicates(),
    {
        proof {
            use_type_invariant(&*self);
        }
        let joined = match resolve_webhook_path(prefix, relative_path) {
            Err(e) => return Err(e),
            Ok(joined) => joined,
        };
        match self.insert_new(joined.as_str()) {
            Err(e) => Err(e),
            Ok(()) => Ok(joined),
        }
    }
}

/// A path error names the rejected path: plain text (printable ASCII without
/// `"` or `\`) appears in the message as it is, between double quotes, right
/// after the kind of path.
pub proof fn lemma_error_quotes_plain_path(subject: Seq<char>, path: Seq<char>, problem: PathProblem)
    requires
        is_plain_text(path),
    ensures
        path_error_message(subject, path, problem).subrange(
            subject.len() + 10int,
            subject.len() + 10int + path.len(),
        ) == path,
{
    reveal_strlit("invalid ");
    reveal_strlit(" ");
    let m = path_error_message(subject, path, problem);
    assert(m.subrange(subject.len() + 10int, subject.len() + 10int + path.len()) =~= path);
}

} // verus!
