//! GitHub issues by repository and number: the requests that the issue routes make of GitHub.
use vstd::prelude::*;

use crate::text::{
    owned, parse_i64, same_text, split_pieces, starts_with, to_lower, trim, trim_char,
    trim_end_text,
};
#[allow(unused_imports)]
use crate::text::{
    char_is_whitespace, contains_text, drop_front, ends_with_text, law_suffixes_are_taken_off,
    law_trimming_ignores_the_class_at_the_ends, lemma_blank, lemma_drop_front, lemma_run_len,
    lemma_run_len_is, lemma_trimmed_already, lemma_trimmed_ends, lemma_trimmed_of_both_ends,
    lemma_trimmed_stands_in, lemma_without_suffixes, lowered, occurs_at, only, pieces, read_i64,
    run_len, starts_with_text, trimmed, trimmed_of, view_of_option, views_of, whitespace,
    without_suffixes,
};

verus! {

// ---------------------------------------------------------------------------
// Types
// ---------------------------------------------------------------------------

#[derive(Debug)]
pub struct SearchGitHubIssuesQuery {
    pub repo: String,
    pub q: Option<String>,
    pub limit: Option<usize>,
}

#[derive(Debug)]
pub struct ResolveGitHubIssueUrlRequest {
    pub url: String,
}

#[derive(Debug)]
pub struct GitHubIssuePathParams {
    pub owner: String,
    pub repo: String,
    pub number: i64,
}

#[derive(Debug)]
pub struct ListGitHubIssueCommentsQuery {
    pub limit: Option<usize>,
}

#[derive(Debug)]
pub struct CreateGitHubIssueCommentRequest {
    pub body: String,
}

/// A search for issues, ready to be run.
#[derive(Debug, Clone, PartialEq, Eq)]
pub struct IssueSearch {
    pub repo_full_name: String,
    pub query: String,
    pub limit: usize,
}

/// One issue of a repository.
#[derive(Debug, Clone, PartialEq, Eq)]
pub struct IssueAddress {
    pub repo_full_name: String,
    pub number: i64,
}

/// A request for the comments of an issue, ready to be run.
#[derive(Debug, Clone, PartialEq, Eq)]
pub struct IssueCommentsRequest {
    pub repo_full_name: String,
    pub number: i64,
    pub limit: usize,
}

/// A comment on an issue, ready to be posted.
#[derive(Debug, Clone, PartialEq, Eq)]
pub struct IssueCommentPost {
    pub repo_full_name: String,
    pub number: i64,
    pub body: String,
}

/// The parts of a URL that tell an issue: its host and the segments of its path.
#[derive(Debug, Clone, PartialEq, Eq)]
pub struct UrlParts {
    pub host: Option<String>,
    pub segments: Option<Vec<String>>,
}

/// What the parts of a URL say.
pub struct UrlPartsView {
    pub host: Option<Seq<char>>,
    pub segments: Option<Seq<Seq<char>>>,
}

impl View for UrlParts {
    type V = UrlPartsView;

    open spec fn view(&self) -> UrlPartsView {
        UrlPartsView {
            host: view_of_option(self.host),
            segments: match self.segments {
                Some(segments) => Some(views_of(segments@)),
                None => None,
            },
        }
    }
}

/// What an optional URL says.
pub open spec fn view_of_parts(parts: Option<UrlParts>) -> Option<UrlPartsView> {
    match parts {
        Some(parts) => Some(parts@),
        None => None,
    }
}

/// What a result of text says.
pub open spec fn view_of_result(r: Result<String, String>) -> Result<Seq<char>, Seq<char>> {
    match r {
        Ok(text) => Ok(text@),
        Err(message) => Err(message@),
    }
}

// ---------------------------------------------------------------------------
// Repository names
// ---------------------------------------------------------------------------

/// A repository name without what people put around it: white space, slashes, `.git`.
pub open spec fn repo_core(repo: Seq<char>) -> Seq<char> {
    without_suffixes(trimmed_of(trimmed(repo), only('/')), ".git"@)
}

/// The `owner/repo` form of a repository name, where it has one.
pub open spec fn repo_full_name(repo: Seq<char>) -> Result<Seq<char>, Seq<char>> {
    let parts = pieces(repo_core(repo), '/');
    if parts.len() == 2 && parts[0].len() > 0 && parts[1].len() > 0 {
        Ok(parts[0] + "/"@ + parts[1])
    } else {
        Err("Repository must be in owner/repo format"@)
    }
}

/// The `owner/repo` form of a repository name.
pub fn normalize_repo_full_name(repo: &str) -> (r: Result<String, String>)
    ensures
        view_of_result(r) == repo_full_name(repo@),
{
    let bare = trim(repo);
    let inner = trim_char(bare.as_str(), '/');
    let core = trim_end_text(inner.as_str(), ".git");
    let parts = split_pieces(core.as_str(), '/');
    proof {
        let views = pieces(core@, '/');
        assert(views == views_of(parts@));
        assert(views.len() == parts@.len());
        if parts@.len() == 2 {
            assert(views[0] == parts@[0]@);
            assert(views[1] == parts@[1]@);
        }
    }
    if parts.len() != 2 || parts[0].as_str().is_empty() || parts[1].as_str().is_empty() {
        return Err(owned("Repository must be in owner/repo format"));
    }
    let mut name = parts[0].clone();
    name.append("/");
    name.append(parts[1].as_str());
    Ok(name)
}

/// The repository that an owner and a name tell.
pub open spec fn repo_of_pair(owner: Seq<char>, name: Seq<char>) -> Result<Seq<char>, Seq<char>> {
    repo_full_name(owner + "/"@ + name)
}

/// The repository that an owner and a name tell.
fn normalize_pair(owner: &str, name: &str) -> (r: Result<String, String>)
    ensures
        view_of_result(r) == repo_of_pair(owner@, name@),
{
    let mut repo = owned(owner);
    repo.append("/");
    repo.append(name);
    normalize_repo_full_name(repo.as_str())
}

// ---------------------------------------------------------------------------
// Issue URLs
// ---------------------------------------------------------------------------

/// The parts of `url`, where it is an absolute URL.
pub uninterp spec fn url_parts(url: Seq<char>) -> Option<UrlPartsView>;

/// `url::Url::parse` takes a URL apart: its host by `host_str`, and the segments of its path by
/// `path_segments`. Which parts there are, or that the text is no absolute URL, depends on the
/// text alone.
#[verifier::external_body]
fn parse_url(url: &str) -> (r: Option<UrlParts>)
    ensures
        view_of_parts(r) == url_parts(url@),
{
    let parsed = url::Url::parse(url).ok()?;
    let host = parsed.host_str().map(str::to_string);
    let segments = parsed.path_segments().map(|parts| parts.map(str::to_string).collect());
    Some(UrlParts { host, segments })
}

/// The issue that the parts of a URL tell.
pub open spec fn issue_of_parts(parts: Option<UrlPartsView>) -> Result<
    (Seq<char>, i64),
    Seq<char>,
> {
    match parts {
        None => Err("Invalid GitHub issue URL"@),
        Some(parts) => {
            let segments = match parts.segments {
                Some(segments) => segments,
                None => Seq::empty(),
            };
            if parts.host != Some("github.com"@) && parts.host != Some("www.github.com"@) {
                Err("Only github.com issue URLs are supported"@)
            } else if segments.len() < 4 || segments[2] != "issues"@ {
                Err("URL must point to a GitHub issue"@)
            } else {
                match repo_of_pair(segments[0], segments[1]) {
                    Err(message) => Err(message),
                    Ok(repo) => match read_i64(segments[3]) {
                        None => Err("GitHub issue URL must include a numeric issue number"@),
                        Some(number) => if number <= 0 {
                            Err("GitHub issue number must be positive"@)
                        } else {
                            Ok((repo, number))
                        },
                    },
                }
            }
        },
    }
}

/// What an issue found in a URL says.
pub open spec fn view_of_issue(r: Result<(String, i64), String>) -> Result<
    (Seq<char>, i64),
    Seq<char>,
> {
    match r {
        Ok((repo, number)) => Ok((repo@, number)),
        Err(message) => Err(message@),
    }
}

/// The repository and the number of the issue that the parts of a URL tell.
pub fn issue_from_url_parts(parts: &Option<UrlParts>) -> (r: Result<(String, i64), String>)
    ensures
        view_of_issue(r) == issue_of_parts(view_of_parts(*parts)),
{
    let parts = match parts {
        Some(parts) => parts,
        None => {
            return Err(owned("Invalid GitHub issue URL"));
        },
    };
    let known_host = match &parts.host {
        Some(host) => same_text(host.as_str(), "github.com") || same_text(
            host.as_str(),
            "www.github.com",
        ),
        None => false,
    };
    if !known_host {
        return Err(owned("Only github.com issue URLs are supported"));
    }
    let segments = match &parts.segments {
        Some(segments) => segments,
        None => {
            return Err(owned("URL must point to a GitHub issue"));
        },
    };
    let ghost views = parts@.segments->0;
    assert(views.len() == segments@.len());
    assert(forall|i: int| 0 <= i < segments@.len() ==> views[i] == (#[trigger] segments@[i])@);
    if segments.len() < 4 || !same_text(segments[2].as_str(), "issues") {
        return Err(owned("URL must point to a GitHub issue"));
    }
    let repo = match normalize_pair(segments[0].as_str(), segments[1].as_str()) {
        Ok(repo) => repo,
        Err(message) => {
            return Err(message);
        },
    };
    match parse_i64(segments[3].as_str()) {
        Some(number) => if number <= 0 {
            Err(owned("GitHub issue number must be positive"))
        } else {
            Ok((repo, number))
        },
        None => Err(owned("GitHub issue URL must include a numeric issue number")),
    }
}

/// The repository and the number of the issue at `url`.
pub fn parse_issue_url(url: &str) -> (r: Result<(String, i64), String>)
    ensures
        view_of_issue(r) == issue_of_parts(url_parts(url@)),
{
    let parts = parse_url(url);
    issue_from_url_parts(&parts)
}

// ---------------------------------------------------------------------------
// Comments
// ---------------------------------------------------------------------------

/// A comment in the form in which the board posts it.
pub open spec fn update_comment(body: Seq<char>) -> Result<Seq<char>, Seq<char>> {
    let text = trimmed(body);
    if text.len() == 0 {
        Err("Comment body must not be empty"@)
    } else if starts_with_text(lowered(text), "kanban update:"@) {
        Ok(text)
    } else {
        Ok("Kanban update: "@ + text)
    }
}

/// A comment in the form in which the board posts it: marked as an update, whatever the case of
/// the mark, and without white space around it.
pub fn format_kanban_update_comment(body: &str) -> (r: Result<String, String>)
    ensures
        view_of_result(r) == update_comment(body@),
{
    let text = trim(body);
    if text.as_str().is_empty() {
        return Err(owned("Comment body must not be empty"));
    }
    let lower = to_lower(text.as_str());
    if starts_with(lower.as_str(), "kanban update:") {
        Ok(text)
    } else {
        let mut marked = owned("Kanban update: ");
        marked.append(text.as_str());
        Ok(marked)
    }
}

// ---------------------------------------------------------------------------
// Requests
// ---------------------------------------------------------------------------

/// The limit asked for, or `default`, held between one and `most`.
pub open spec fn limit_within(limit: Option<usize>, default: usize, most: usize) -> usize {
    let asked = match limit {
        Some(limit) => limit,
        None => default,
    };
    if asked < 1 {
        1
    } else if asked > most {
        most
    } else {
        asked
    }
}

/// The limit asked for, or `default`, held between one and `most`.
fn bounded_limit(limit: Option<usize>, default: usize, most: usize) -> (r: usize)
    ensures
        r == limit_within(limit, default, most),
{
    let asked: usize = match limit {
        Some(limit) => limit,
        None => default,
    };
    if asked < 1 {
        1
    } else if asked > most {
        most
    } else {
        asked
    }
}

/// The search that a query asks for: twenty issues, or as many as it says up to fifty.
pub fn issue_search(query: &SearchGitHubIssuesQuery) -> (r: Result<IssueSearch, String>)
    ensures
        match r {
            Ok(search) => {
                &&& repo_full_name(query.repo@) == Ok::<Seq<char>, Seq<char>>(
                    search.repo_full_name@,
                )
                &&& search.query@ == (match query.q {
                    Some(text) => text@,
                    None => Seq::empty(),
                })
                &&& search.limit == limit_within(query.limit, 20, 50)
            },
            Err(message) => repo_full_name(query.repo@) == Err::<Seq<char>, Seq<char>>(message@),
        },
{
    match normalize_repo_full_name(query.repo.as_str()) {
        Ok(repo_full_name) => Ok(
            IssueSearch {
                repo_full_name,
                query: match &query.q {
                    Some(text) => text.clone(),
                    None => String::new(),
                },
                limit: bounded_limit(query.limit, 20, 50),
            },
        ),
        Err(message) => Err(message),
    }
}

/// The issue that the parameters of a path tell.
pub fn issue_address(params: &GitHubIssuePathParams) -> (r: Result<IssueAddress, String>)
    ensures
        match r {
            Ok(address) => repo_of_pair(params.owner@, params.repo@) == Ok::<Seq<char>, Seq<char>>(
                address.repo_full_name@,
            ) && address.number == params.number,
            Err(message) => repo_of_pair(params.owner@, params.repo@) == Err::<
                Seq<char>,
                Seq<char>,
            >(message@),
        },
{
    match normalize_pair(params.owner.as_str(), params.repo.as_str()) {
        Ok(repo_full_name) => Ok(IssueAddress { repo_full_name, number: params.number }),
        Err(message) => Err(message),
    }
}

/// The comments that a query asks for: ten, or as many as it says up to twenty-five.
pub fn issue_comments_request(
    params: &GitHubIssuePathParams,
    query: &ListGitHubIssueCommentsQuery,
) -> (r: Result<IssueCommentsRequest, String>)
    ensures
        match r {
            Ok(request) => repo_of_pair(params.owner@, params.repo@) == Ok::<Seq<char>, Seq<char>>(
                request.repo_full_name@,
            ) && request.number == params.number && request.limit == limit_within(
                query.limit,
                10,
                25,
            ),
            Err(message) => repo_of_pair(params.owner@, params.repo@) == Err::<
                Seq<char>,
                Seq<char>,
            >(message@),
        },
{
    match issue_address(params) {
        Ok(address) => Ok(
            IssueCommentsRequest {
                repo_full_name: address.repo_full_name,
                number: address.number,
                limit: bounded_limit(query.limit, 10, 25),
            },
        ),
        Err(message) => Err(message),
    }
}

/// The comment that a payload asks to post. A repository that has no `owner/repo` form is
/// reported before an empty body.
pub fn issue_comment_post(
    params: &GitHubIssuePathParams,
    payload: &CreateGitHubIssueCommentRequest,
) -> (r: Result<IssueCommentPost, String>)
    ensures
        match r {
            Ok(post) => repo_of_pair(params.owner@, params.repo@) == Ok::<Seq<char>, Seq<char>>(
                post.repo_full_name@,
            ) && post.number == params.number && update_comment(payload.body@) == Ok::<
                Seq<char>,
                Seq<char>,
            >(post.body@),
            Err(message) => match repo_of_pair(params.owner@, params.repo@) {
                Err(text) => message@ == text,
                Ok(_) => update_comment(payload.body@) == Err::<Seq<char>, Seq<char>>(message@),
            },
        },
{
    match issue_address(params) {
        Ok(address) => match format_kanban_update_comment(payload.body.as_str()) {
            Ok(body) => Ok(
                IssueCommentPost {
                    repo_full_name: address.repo_full_name,
                    number: address.number,
                    body,
                },
            ),
            Err(message) => Err(message),
        },
        Err(message) => Err(message),
    }
}

// ---------------------------------------------------------------------------
// Laws
// ---------------------------------------------------------------------------

/// Every comment that the board posts is marked as an update.
pub proof fn law_update_comment_is_marked(body: Seq<char>)
    ensures
        update_comment(body) matches Ok(text) ==> starts_with_text(
            lowered(text),
            "kanban update:"@,
        ),
{
    let text = trimmed(body);
    if text.len() > 0 && !starts_with_text(lowered(text), "kanban update:"@) {
        reveal_strlit("kanban update:");
        reveal_strlit("Kanban update: ");
        let marked = "Kanban update: "@ + text;
        assert(lowered(marked).subrange(0, 14) =~= "kanban update:"@);
    }
}

/// A comment in its posted form is posted as it is: marking it again changes nothing.
pub proof fn law_update_comment_idempotent(body: Seq<char>)
    ensures
        update_comment(body) matches Ok(text) ==> update_comment(text) == update_comment(body),
{
    let inner = trimmed(body);
    if inner.len() > 0 {
        let text = update_comment(body)->Ok_0;
        law_update_comment_is_marked(body);
        lemma_trimmed_ends(body, whitespace());
        if !starts_with_text(lowered(inner), "kanban update:"@) {
            reveal_strlit("Kanban update: ");
            assert(text[0] == 'K');
            assert(text.last() == inner.last());
        }
        lemma_trimmed_already(text, whitespace());
    }
}

/// A name in `owner/repo` form has two pieces.
proof fn lemma_two_pieces(owner: Seq<char>, name: Seq<char>)
    requires
        forall|i: int| 0 <= i < owner.len() ==> owner[i] != '/',
        forall|i: int| 0 <= i < name.len() ==> name[i] != '/',
    ensures
        pieces(owner + "/"@ + name, '/') == seq![owner, name],
{
    reveal_strlit("/");
    reveal_with_fuel(pieces, 2);
    let whole = owner + "/"@ + name;
    assert forall|i: int| 0 <= i < owner.len() implies !only('/')(#[trigger] whole[i]) by {
        assert(whole[i] == owner[i]);
    }
    lemma_run_len_is(whole, only('/'), owner.len() as int);
    assert(whole.take(owner.len() as int) =~= owner);
    let rest = whole.skip(owner.len() as int + 1);
    assert(rest =~= name);
    assert forall|i: int| 0 <= i < name.len() implies !only('/')(#[trigger] name[i]) by {}
    lemma_run_len_is(name, only('/'), name.len() as int);
    assert(pieces(name, '/') =~= seq![name]);
    assert(pieces(whole, '/') =~= seq![owner, name]);
}

/// A name that already is in `owner/repo` form, with nothing around it, is left as it is.
pub proof fn law_repo_full_name_unchanged(owner: Seq<char>, name: Seq<char>)
    requires
        owner.len() > 0,
        name.len() > 0,
        forall|i: int| 0 <= i < owner.len() ==> owner[i] != '/',
        forall|i: int| 0 <= i < name.len() ==> name[i] != '/',
        !char_is_whitespace(owner[0]),
        !char_is_whitespace(name.last()),
        !ends_with_text(owner + "/"@ + name, ".git"@),
    ensures
        repo_of_pair(owner, name) == Ok::<Seq<char>, Seq<char>>(owner + "/"@ + name),
{
    reveal_strlit("/");
    let whole = owner + "/"@ + name;
    assert(whole[0] == owner[0]);
    assert(whole.last() == name.last());
    lemma_trimmed_already(whole, whitespace());
    lemma_trimmed_already(whole, only('/'));
    lemma_two_pieces(owner, name);
}

/// A text has at least one piece, and no piece holds the separator.
proof fn lemma_pieces(s: Seq<char>, separator: char)
    ensures
        pieces(s, separator).len() >= 1,
        forall|k: int, i: int|
            0 <= k < pieces(s, separator).len() && 0 <= i < pieces(s, separator)[k].len()
                ==> #[trigger] pieces(s, separator)[k][i] != separator,
    decreases s.len(),
{
    lemma_run_len(s, only(separator));
    let n = run_len(s, only(separator)) as int;
    if n < s.len() {
        let rest = s.skip(n + 1);
        lemma_pieces(rest, separator);
        let all = pieces(s, separator);
        assert forall|k: int, i: int|
            0 <= k < all.len() && 0 <= i < all[k].len() implies #[trigger] all[k][i]
            != separator by {
            if k == 0 {
                assert(all[0][i] == s[i]);
                assert(!only(separator)(s[i]));
            } else {
                assert(all[k] == pieces(rest, separator)[k - 1]);
            }
        }
    } else {
        assert forall|i: int| 0 <= i < s.len() implies s[i] != separator by {
            assert(!only(separator)(s[i]));
        }
    }
}

/// A normalized name is an owner and a repository with one slash between: neither is empty and
/// neither holds a slash.
pub proof fn law_repo_full_name_shape(repo: Seq<char>)
    ensures
        repo_full_name(repo) matches Ok(full) ==> exists|owner: Seq<char>, name: Seq<char>|
            {
                &&& full == #[trigger] (owner + "/"@ + name)
                &&& owner.len() > 0 && name.len() > 0
                &&& forall|i: int| 0 <= i < owner.len() ==> owner[i] != '/'
                &&& forall|i: int| 0 <= i < name.len() ==> name[i] != '/'
            },
{
    let parts = pieces(repo_core(repo), '/');
    lemma_pieces(repo_core(repo), '/');
    if repo_full_name(repo) is Ok {
        let owner = parts[0];
        let name = parts[1];
        assert forall|i: int| 0 <= i < owner.len() implies owner[i] != '/' by {
            assert(parts[0][i] != '/');
        }
        assert forall|i: int| 0 <= i < name.len() implies name[i] != '/' by {
            assert(parts[1][i] != '/');
        }
        assert(repo_full_name(repo)->Ok_0 == owner + "/"@ + name);
    }
}

/// A text with two pieces is made of them, with the separator between.
proof fn lemma_whole_of_two_pieces(s: Seq<char>)
    requires
        pieces(s, '/').len() == 2,
    ensures
        s == pieces(s, '/')[0] + "/"@ + pieces(s, '/')[1],
{
    reveal_strlit("/");
    lemma_run_len(s, only('/'));
    let n = run_len(s, only('/')) as int;
    let rest = s.skip(n + 1);
    lemma_run_len(rest, only('/'));
    let m = run_len(rest, only('/')) as int;
    assert(pieces(s, '/')[1] == pieces(rest, '/')[0]);
    if m < rest.len() {
        lemma_pieces(rest.skip(m + 1), '/');
    }
    assert(s =~= s.take(n) + "/"@ + rest);
}

/// A normalized name is what is left of the name without what was around it.
proof fn lemma_full_name_is_core(repo: Seq<char>)
    requires
        repo_full_name(repo) is Ok,
    ensures
        repo_full_name(repo) == Ok::<Seq<char>, Seq<char>>(repo_core(repo)),
        repo_core(repo).len() > 0,
        repo_core(repo)[0] != '/',
        repo_core(repo).last() != '/',
{
    let core = repo_core(repo);
    let parts = pieces(core, '/');
    lemma_whole_of_two_pieces(core);
    lemma_pieces(core, '/');
    assert(core[0] == parts[0][0]);
    assert(core.last() == parts[1][parts[1].len() - 1]);
}

/// What stands in a part of a text stands in the text.
proof fn lemma_stands_in_part(s: Seq<char>, part: Seq<char>, inner: Seq<char>)
    requires
        contains_text(s, part),
        contains_text(part, inner),
    ensures
        contains_text(s, inner),
{
    let at = choose|at: int| occurs_at(s, part, at);
    let from = choose|from: int| occurs_at(part, inner, from);
    assert(s.subrange(at + from, at + from + inner.len()) =~= s.subrange(
        at,
        at + part.len(),
    ).subrange(from, from + inner.len()));
    assert(occurs_at(s, inner, at + from));
}

/// What is left of a name stands in it.
proof fn lemma_core_stands_in(repo: Seq<char>)
    ensures
        contains_text(repo, repo_core(repo)),
{
    reveal_strlit(".git");
    let bare = trimmed(repo);
    let inner = trimmed_of(bare, only('/'));
    lemma_trimmed_stands_in(repo, whitespace());
    lemma_trimmed_stands_in(bare, only('/'));
    lemma_without_suffixes(inner, ".git"@);
    lemma_stands_in_part(repo, bare, inner);
    lemma_stands_in_part(repo, inner, repo_core(repo));
}

/// A normalized name does not end with `.git`, and it comes out again from what people put around
/// it: white space, slashes and `.git`. Where it neither begins nor ends with white space, it
/// normalizes to itself.
pub proof fn law_normalized_name_comes_out_again(repo: Seq<char>)
    ensures
        repo_full_name(repo) matches Ok(full) ==> {
            &&& !ends_with_text(full, ".git"@)
            &&& repo_full_name(" /"@ + full + ".git/ "@) == Ok::<Seq<char>, Seq<char>>(full)
            &&& !char_is_whitespace(full[0]) && !char_is_whitespace(full.last())
                ==> repo_full_name(full) == Ok::<Seq<char>, Seq<char>>(full)
        },
{
    if repo_full_name(repo) is Ok {
        reveal_strlit(" /");
        reveal_strlit(".git");
        reveal_strlit(".git/ ");
        let full = repo_core(repo);
        let suffix = ".git"@;
        lemma_full_name_is_core(repo);
        lemma_without_suffixes(trimmed_of(trimmed(repo), only('/')), suffix);
        let named = full + suffix;
        let slashed = seq!['/'] + named + seq!['/'];
        let dressed = " /"@ + full + ".git/ "@;
        assert(dressed =~= seq![' '] + slashed + seq![' ']);
        lemma_trimmed_of_both_ends(' ', slashed, ' ', whitespace());
        lemma_trimmed_of_both_ends('/', named, '/', only('/'));
        assert(named.subrange(named.len() - suffix.len(), named.len() as int) =~= suffix);
        assert(named.take(named.len() - suffix.len()) =~= full);
        assert(ends_with_text(named, suffix));
        assert(without_suffixes(full, suffix) == full);
        assert(repo_core(dressed) == full);
        if !char_is_whitespace(full[0]) && !char_is_whitespace(full.last()) {
            lemma_trimmed_already(full, whitespace());
            lemma_trimmed_already(full, only('/'));
            assert(repo_core(full) == full);
        }
    }
}

/// The normalized name of a repository that is named without white space normalizes to itself,
/// bare or with white space, slashes and `.git` around it.
pub proof fn law_normalized_name_is_stable(repo: Seq<char>, full: Seq<char>)
    requires
        forall|i: int| 0 <= i < repo.len() ==> !char_is_whitespace(#[trigger] repo[i]),
        repo_full_name(repo) == Ok::<Seq<char>, Seq<char>>(full),
    ensures
        !ends_with_text(full, ".git"@),
        repo_full_name(full) == Ok::<Seq<char>, Seq<char>>(full),
        repo_full_name(" /"@ + full + ".git/ "@) == Ok::<Seq<char>, Seq<char>>(full),
{
    law_normalized_name_comes_out_again(repo);
    lemma_full_name_is_core(repo);
    lemma_core_stands_in(repo);
    let at = choose|at: int| occurs_at(repo, full, at);
    assert(full[0] == repo.subrange(at, at + full.len())[0] == repo[at]);
    assert(full.last() == repo.subrange(at, at + full.len()).last() == repo[at + full.len() - 1]);
}

/// An issue found in a URL has a positive number.
pub proof fn law_issue_number_is_positive(parts: Option<UrlPartsView>)
    ensures
        issue_of_parts(parts) matches Ok(issue) ==> issue.1 > 0,
{
}

/// An issue is read from a URL exactly where its host is GitHub, its path has at least four
/// segments with `issues` as the third, the first two tell a repository and the fourth is a
/// positive number.
pub proof fn law_issue_urls_are_read_by_their_parts(
    parts: UrlPartsView,
    segments: Seq<Seq<char>>,
    repo: Seq<char>,
    number: i64,
)
    requires
        parts.segments == Some(segments),
    ensures
        issue_of_parts(Some(parts)) == Ok::<(Seq<char>, i64), Seq<char>>((repo, number)) <==> {
            &&& parts.host == Some("github.com"@) || parts.host == Some("www.github.com"@)
            &&& segments.len() >= 4
            &&& segments[2] == "issues"@
            &&& repo_full_name(segments[0] + "/"@ + segments[1]) == Ok::<Seq<char>, Seq<char>>(repo)
            &&& read_i64(segments[3]) == Some(number)
            &&& number > 0
        },
{
}

/// Why a URL tells no issue: it is none, its host is not GitHub, its path is not that of an issue,
/// it names no repository, or its number is none or not positive, and in this order.
pub proof fn law_refused_urls_are_told_why(parts: Option<UrlPartsView>)
    ensures
        parts is None ==> issue_of_parts(parts) == Err::<(Seq<char>, i64), Seq<char>>(
            "Invalid GitHub issue URL"@,
        ),
        parts matches Some(known) ==> {
            let on_github = known.host == Some("github.com"@) || known.host == Some(
                "www.github.com"@,
            );
            let is_issue = known.segments matches Some(segments) && segments.len() >= 4
                && segments[2] == "issues"@;
            let segments = known.segments->0;
            let repo = repo_full_name(segments[0] + "/"@ + segments[1]);
            &&& !on_github ==> issue_of_parts(parts) == Err::<(Seq<char>, i64), Seq<char>>(
                "Only github.com issue URLs are supported"@,
            )
            &&& on_github && !is_issue ==> issue_of_parts(parts) == Err::<
                (Seq<char>, i64),
                Seq<char>,
            >("URL must point to a GitHub issue"@)
            &&& on_github && is_issue && repo is Err ==> issue_of_parts(parts) == Err::<
                (Seq<char>, i64),
                Seq<char>,
            >("Repository must be in owner/repo format"@)
            &&& on_github && is_issue && repo is Ok && read_i64(segments[3]) is None
                ==> issue_of_parts(parts) == Err::<(Seq<char>, i64), Seq<char>>(
                "GitHub issue URL must include a numeric issue number"@,
            )
            &&& on_github && is_issue && repo is Ok && (read_i64(segments[3]) matches Some(number)
                && number <= 0) ==> issue_of_parts(parts) == Err::<(Seq<char>, i64), Seq<char>>(
                "GitHub issue number must be positive"@,
            )
        },
{
}

/// A comment is posted wherever it says anything: as it is, without the white space around it,
/// where it is marked as an update in any case, and with the mark in front of it elsewhere.
pub proof fn law_comments_are_posted_with_one_mark(body: Seq<char>)
    ensures
        update_comment(body) is Err <==> forall|i: int|
            0 <= i < body.len() ==> char_is_whitespace(#[trigger] body[i]),
        update_comment(body) matches Err(message) ==> message == "Comment body must not be empty"@,
        update_comment(body) matches Ok(text) ==> text == if starts_with_text(
            lowered(trimmed(body)),
            "kanban update:"@,
        ) {
            trimmed(body)
        } else {
            "Kanban update: "@ + trimmed(body)
        },
{
    lemma_blank(body);
}

/// A limit is the one asked for where that is from one up to the most, the nearest of the two
/// where it is not, and the usual one where none is asked for.
pub proof fn law_limits_are_kept(limit: Option<usize>, default: usize, most: usize)
    requires
        1 <= default <= most,
    ensures
        1 <= limit_within(limit, default, most) <= most,
        limit is None ==> limit_within(limit, default, most) == default,
        limit matches Some(asked) ==> {
            &&& 1 <= asked <= most ==> limit_within(limit, default, most) == asked
            &&& asked == 0 ==> limit_within(limit, default, most) == 1
            &&& asked > most ==> limit_within(limit, default, most) == most
        },
{
}

/// A name without a slash inside, and one with two, is refused.
pub proof fn law_names_need_one_slash(a: Seq<char>, b: Seq<char>, c: Seq<char>)
    requires
        a.len() > 0,
        c.len() > 0,
        a[0] != '/',
        c.last() != '/',
        !char_is_whitespace(a[0]),
        !char_is_whitespace(c.last()),
        !ends_with_text(a + "/"@ + b + "/"@ + c, ".git"@),
    ensures
        repo_full_name(a + "/"@ + b + "/"@ + c) == Err::<Seq<char>, Seq<char>>(
            "Repository must be in owner/repo format"@,
        ),
        (forall|i: int| 0 <= i < c.len() ==> c[i] != '/') ==> repo_full_name(c) is Err,
{
    reveal_strlit("/");
    let whole = a + "/"@ + b + "/"@ + c;
    assert(whole[0] == a[0]);
    assert(whole.last() == c.last());
    lemma_trimmed_already(whole, whitespace());
    lemma_trimmed_already(whole, only('/'));
    assert(repo_core(whole) == whole);
    if repo_full_name(whole) is Ok {
        lemma_pieces(whole, '/');
        lemma_whole_of_two_pieces(whole);
        let parts = pieces(whole, '/');
        let first: int = a.len() as int;
        let second: int = (a.len() + 1 + b.len()) as int;
        assert(whole[first] == '/');
        assert(whole[second] == '/');
        let middle = parts[0].len() as int;
        if first < middle {
            assert(whole[first] == parts[0][first]);
        } else if first > middle {
            assert(whole[first] == parts[1][first - middle - 1]);
        } else {
            assert(whole[second] == parts[1][second - middle - 1]);
        }
    }
    if forall|i: int| 0 <= i < c.len() ==> c[i] != '/' {
        lemma_core_stands_in(c);
        let core = repo_core(c);
        if repo_full_name(c) is Ok {
            lemma_whole_of_two_pieces(core);
            let at = choose|at: int| occurs_at(c, core, at);
            let middle = pieces(core, '/')[0].len() as int;
            assert(core[middle] == '/');
            assert(c.subrange(at, at + core.len())[middle] == c[at + middle]);
        }
    }
}

/// White space around a name, slashes around it and `.git` behind it do not matter, however many
/// there are.
pub proof fn law_what_is_around_a_name_does_not_matter(repo: Seq<char>, blank: char)
    requires
        char_is_whitespace(blank),
    ensures
        repo_full_name(seq![blank] + repo) == repo_full_name(repo),
        repo_full_name(repo.push(blank)) == repo_full_name(repo),
        repo.len() > 0 && !char_is_whitespace(repo[0]) && !char_is_whitespace(repo.last()) ==> {
            &&& repo_full_name(seq!['/'] + repo) == repo_full_name(repo)
            &&& repo_full_name(repo.push('/')) == repo_full_name(repo)
            &&& repo.last() != '/' ==> repo_full_name(repo + ".git"@) == repo_full_name(repo)
        },
{
    law_trimming_ignores_the_class_at_the_ends(repo, blank, whitespace());
    if repo.len() > 0 && !char_is_whitespace(repo[0]) && !char_is_whitespace(repo.last()) {
        law_trimming_ignores_the_class_at_the_ends(repo, '/', only('/'));
        let front = seq!['/'] + repo;
        assert(front[0] == '/' && front.last() == repo.last());
        assert(repo.push('/')[0] == repo[0]);
        lemma_trimmed_already(repo, whitespace());
        lemma_trimmed_already(front, whitespace());
        lemma_trimmed_already(repo.push('/'), whitespace());
        if repo.last() != '/' {
            reveal_strlit(".git");
            let suffix = ".git"@;
            let whole = repo + suffix;
            assert(whole[0] == repo[0] && whole.last() == 't');
            lemma_trimmed_already(whole, whitespace());
            lemma_drop_front(repo, only('/'));
            lemma_drop_front_add(repo, suffix, only('/'));
            let rest = drop_front(repo, only('/'));
            assert(rest.last() == repo.last());
            assert((rest + suffix).last() == 't');
            law_suffixes_are_taken_off(rest, suffix);
        }
    }
}

/// What is dropped in front does not depend on what stands behind, where something is left.
proof fn lemma_drop_front_add(s: Seq<char>, t: Seq<char>, class: spec_fn(char) -> bool)
    requires
        s.len() > 0,
        !class(s.last()),
    ensures
        drop_front(s, class).len() > 0,
        drop_front(s + t, class) == drop_front(s, class) + t,
    decreases s.len(),
{
    assert((s + t)[0] == s[0]);
    if class(s[0]) {
        lemma_drop_front_add(s.drop_first(), t, class);
        assert((s + t).drop_first() =~= s.drop_first() + t);
    }
}

} // verus!
