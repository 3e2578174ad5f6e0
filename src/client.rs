//! The requests that the client sends to the Gitea API, and the decisions
//! taken on its answers. Sending a request is the caller's part.
use crate::content::{opt_view, ContentEntry, ContentsResponse, EntryView};
use crate::error::ApiError;
use crate::text::{concat, str_eq};
use vstd::prelude::*;

verus! {

/// What `base64::encode` makes of some bytes.
pub uninterp spec fn base64_of(bytes: Seq<u8>) -> Seq<char>;

/// Relies on `base64::encode`: the standard, padded base64 text of the bytes.
/// It panics only where the length of that text overflows `usize`.
#[verifier::external_body]
fn encode_base64(bytes: &[u8]) -> (r: String)
    requires
        bytes@.len() <= usize::MAX / 2,
    ensures
        r@ == base64_of(bytes@),
{
    base64::encode(bytes)
}

/// The HTTP method of a request.
#[derive(Debug, Clone, Copy, PartialEq, Eq, Structural)]
pub enum Method {
    Get,
    Post,
    Put,
    Delete,
}

/// The JSON body of a request that changes a file: its author, and where they
/// apply, the new content in base64, the hash of the content it replaces and
/// a commit message.
#[derive(Debug)]
pub struct CommitBody {
    pub author: String,
    pub email: String,
    pub content: Option<String>,
    pub sha: Option<String>,
    pub message: Option<String>,
}

/// One call of the API: method, address, the value of the `Authorization`
/// header, and the body of a change.
#[derive(Debug)]
pub struct Request {
    pub method: Method,
    pub url: String,
    pub authorization: String,
    pub body: Option<CommitBody>,
}

/// The access to one repository on one Gitea server.
#[derive(Debug)]
pub struct GiteaClient {
    /// The server's base address, without a trailing slash.
    pub url: String,
    pub api_token: String,
    pub repository: String,
    pub owner: String,
}

/// The optional commit message, copied.
fn copy_message(m: &Option<String>) -> (r: Option<String>)
    ensures
        opt_view(r) == opt_view(*m),
{
    match m {
        Some(s) => Some(s.clone()),
        None => None,
    }
}

impl GiteaClient {
    /// The address of the API's root on the server.
    pub open spec fn api_url(&self) -> Seq<char> {
        self.url@ + "/api/v1"@
    }

    /// The address of the repository in the API.
    pub open spec fn repo_url(&self) -> Seq<char> {
        self.api_url() + "/repos/"@ + self.owner@ + "/"@ + self.repository@
    }

    /// The address of the file or directory at `path` in the repository.
    pub open spec fn contents_url(&self, path: Seq<char>) -> Seq<char> {
        self.repo_url() + "/contents/"@ + path
    }

    /// The address of the raw content of the file at `path`.
    pub open spec fn raw_url(&self, path: Seq<char>) -> Seq<char> {
        self.repo_url() + "/raw/"@ + path
    }

    /// The value of the `Authorization` header of every request.
    pub open spec fn authorization(&self) -> Seq<char> {
        "token "@ + self.api_token@
    }

    /// A client for the repository `owner/repository` on the server at `url`,
    /// with an API token at hand.
    pub fn new(url: &str, api_token: &str, repository: &str, owner: &str) -> (c: GiteaClient)
        ensures
            c.url@ == url@,
            c.api_token@ == api_token@,
            c.repository@ == repository@,
            c.owner@ == owner@,
    {
        GiteaClient {
            url: url.to_owned(),
            api_token: api_token.to_owned(),
            repository: repository.to_owned(),
            owner: owner.to_owned(),
        }
    }

    fn repo_address(&self) -> (r: String)
        ensures
            r@ == self.repo_url(),
    {
        let a = concat(self.url.as_str(), "/api/v1");
        let b = concat(a.as_str(), "/repos/");
        let c = concat(b.as_str(), self.owner.as_str());
        let d = concat(c.as_str(), "/");
        concat(d.as_str(), self.repository.as_str())
    }

    fn request(&self, method: Method, url: String, body: Option<CommitBody>) -> (r: Request)
        ensures
            r.method == method,
            r.url == url,
            r.authorization@ == self.authorization(),
            r.body == body,
    {
        Request { method, url, authorization: concat("token ", self.api_token.as_str()), body }
    }

    /// The request for the server's version.
    pub fn version_request(&self) -> (r: Request)
        ensures
            r.method == Method::Get,
            r.url@ == self.api_url() + "/version"@,
            r.authorization@ == self.authorization(),
            r.body is None,
    {
        let a = concat(self.url.as_str(), "/api/v1");
        self.request(Method::Get, concat(a.as_str(), "/version"), None)
    }

    /// The request for the repository's description.
    pub fn repository_request(&self) -> (r: Request)
        ensures
            r.method == Method::Get,
            r.url@ == self.repo_url(),
            r.authorization@ == self.authorization(),
            r.body is None,
    {
        self.request(Method::Get, self.repo_address(), None)
    }

    /// The request that lists the file or directory at `path`.
    pub fn contents_request(&self, path: &str) -> (r: Request)
        ensures
            r.method == Method::Get,
            r.url@ == self.contents_url(path@),
            r.authorization@ == self.authorization(),
            r.body is None,
    {
        let a = concat(self.repo_address().as_str(), "/contents/");
        self.request(Method::Get, concat(a.as_str(), path), None)
    }

    /// The request for the raw content of the file at `path`.
    pub fn raw_request(&self, path: &str) -> (r: Request)
        ensures
            r.method == Method::Get,
            r.url@ == self.raw_url(path@),
            r.authorization@ == self.authorization(),
            r.body is None,
    {
        let a = concat(self.repo_address().as_str(), "/raw/");
        self.request(Method::Get, concat(a.as_str(), path), None)
    }

    /// The request that creates the file `filename` (which starts with `/`)
    /// of the feature set `feature_name` with the given content.
    pub fn create_file(
        &self,
        feature_name: &str,
        filename: &str,
        content: &[u8],
        author: &str,
        mail: &str,
        cmt_msg: &Option<String>,
    ) -> (r: Request)
        requires
            content@.len() <= usize::MAX / 2,
        ensures
            r.method == Method::Post,
            r.url@ == self.contents_url(feature_name@ + filename@),
            r.authorization@ == self.authorization(),
            r.body matches Some(b) && b.author@ == author@ && b.email@ == mail@ && opt_view(b.content)
                == Some(base64_of(content@)) && b.sha is None && opt_view(b.message) == opt_view(
                *cmt_msg,
            ),
    {
        let a = concat(self.repo_address().as_str(), "/contents/");
        let b = concat(a.as_str(), feature_name);
        let body = CommitBody {
            author: author.to_owned(),
            email: mail.to_owned(),
            content: Some(encode_base64(content)),
            sha: None,
            message: copy_message(cmt_msg),
        };
        proof {
            assert(a@ + feature_name@ + filename@ =~= self.contents_url(feature_name@ + filename@));
        }
        self.request(Method::Post, concat(b.as_str(), filename), Some(body))
    }

    /// The request that replaces the content of the file `filename` of the
    /// feature set `feature_name`, whose present content has the hash `sha`.
    pub fn update_file(
        &self,
        feature_name: &str,
        filename: &str,
        content: &[u8],
        sha: &str,
        author: &str,
        mail: &str,
        cmt_msg: &Option<String>,
    ) -> (r: Request)
        requires
            content@.len() <= usize::MAX / 2,
        ensures
            r.method == Method::Put,
            r.url@ == self.contents_url(feature_name@ + filename@),
            r.authorization@ == self.authorization(),
            r.body matches Some(b) && b.author@ == author@ && b.email@ == mail@ && opt_view(b.content)
                == Some(base64_of(content@)) && opt_view(b.sha) == Some(sha@) && opt_view(b.message)
                == opt_view(*cmt_msg),
    {
        let a = concat(self.repo_address().as_str(), "/contents/");
        let b = concat(a.as_str(), feature_name);
        let body = CommitBody {
            author: author.to_owned(),
            email: mail.to_owned(),
            content: Some(encode_base64(content)),
            sha: Some(sha.to_owned()),
            message: copy_message(cmt_msg),
        };
        proof {
            assert(a@ + feature_name@ + filename@ =~= self.contents_url(feature_name@ + filename@));
        }
        self.request(Method::Put, concat(b.as_str(), filename), Some(body))
    }

    /// The request that deletes the file at `path`, whose content has the hash
    /// `file_sha`.
    pub fn delete_file(
        &self,
        path: &str,
        file_sha: &str,
        author: &str,
        mail: &str,
        cmt_msg: &Option<String>,
    ) -> (r: Request)
        ensures
            r.method == Method::Delete,
            r.url@ == self.contents_url(path@),
            r.authorization@ == self.authorization(),
            r.body matches Some(b) && b.author@ == author@ && b.email@ == mail@ && b.content is None
                && opt_view(b.sha) == Some(file_sha@) && opt_view(b.message) == opt_view(*cmt_msg),
    {
        let a = concat(self.repo_address().as_str(), "/contents/");
        let body = CommitBody {
            author: author.to_owned(),
            email: mail.to_owned(),
            content: None,
            sha: Some(file_sha.to_owned()),
            message: copy_message(cmt_msg),
        };
        self.request(Method::Delete, concat(a.as_str(), path), Some(body))
    }
}

/// The address at which a user of the server at `url` asks for a new API
/// token.
pub fn token_request_url(url: &str, username: &str) -> (r: String)
    ensures
        r@ == url@ + "/api/v1/users/"@ + username@ + "/tokens"@,
{
    let a = concat(url, "/api/v1/users/");
    let b = concat(a.as_str(), username);
    concat(b.as_str(), "/tokens")
}

/// The remote path of the file `filename` (which starts with `/`) of the
/// feature set `feature_name`.
pub fn feature_file_path(feature_name: &str, filename: &str) -> (r: String)
    ensures
        r@ == feature_name@ + filename@,
{
    concat(feature_name, filename)
}

/// The file that a listing for a file's path gives: its last entry.
pub fn last_file(listing: ContentsResponse, name: &str) -> (r: Result<ContentEntry, ApiError>)
    ensures
        listing@.len() == 0 ==> (r matches Err(e) && e is InvalidContentResponse),
        listing@.len() > 0 ==> (r matches Ok(f) && f@ == listing@.last()),
{
    let mut content = listing.content;
    match content.pop() {
        Some(f) => Ok(f),
        None => Err(
            ApiError::InvalidContentResponse(
                concat("No valid response for the request of file ", name),
            ),
        ),
    }
}

/// The lookup of the file at `path` found it there.
pub open spec fn file_found(found: Result<ContentEntry, ApiError>, path: Seq<char>) -> bool {
    found matches Ok(e) && e.path@ == path
}

/// Whether the lookup of the file `filename` of the feature set
/// `feature_name` found it: a file was found, at that very path.
pub fn check_file_exists(found: &Result<ContentEntry, ApiError>, feature_name: &str, filename: &str) -> (r:
    bool)
    ensures
        r == file_found(*found, feature_name@ + filename@),
{
    match found {
        Ok(e) => {
            let path = concat(feature_name, filename);
            str_eq(e.path.as_str(), path.as_str())
        },
        Err(_) => false,
    }
}

/// The request changes a file on behalf of `author` with the given content
/// and commit message.
pub open spec fn writes_content(
    q: Request,
    author: Seq<char>,
    mail: Seq<char>,
    content: Seq<u8>,
    cmt_msg: Option<Seq<char>>,
) -> bool {
    &&& q.body is Some
    &&& q.body->0.author@ == author
    &&& q.body->0.email@ == mail
    &&& opt_view(q.body->0.content) == Some(base64_of(content))
    &&& opt_view(q.body->0.message) == cmt_msg
}

impl GiteaClient {
    /// The request that writes a file of a feature set, given what the lookup
    /// of the file's path gave: an update where it found the file there, with
    /// the file's present hash, else a creation. A failed lookup counts as
    /// absence. A found file without a hash gives `InvalidContentResponse`.
    pub fn create_or_update_file(
        &self,
        feature_name: &str,
        filename: &str,
        content: &[u8],
        author: &str,
        mail: &str,
        cmt_msg: &Option<String>,
        found: &Result<ContentEntry, ApiError>,
    ) -> (r: Result<Request, ApiError>)
        requires
            content@.len() <= usize::MAX / 2,
        ensures
            !file_found(*found, feature_name@ + filename@) ==> (r matches Ok(q) && q.method
                == Method::Post && q.body->0.sha is None),
            file_found(*found, feature_name@ + filename@) && found->Ok_0.sha is Some ==> (r matches Ok(
                q,
            ) && q.method == Method::Put && opt_view(q.body->0.sha) == opt_view(found->Ok_0.sha)),
            file_found(*found, feature_name@ + filename@) && found->Ok_0.sha is None ==> (r matches Err(
                e,
            ) && e is InvalidContentResponse),
            r matches Ok(q) ==> q.url@ == self.contents_url(feature_name@ + filename@)
                && q.authorization@ == self.authorization() && writes_content(
                q,
                author@,
                mail@,
                content@,
                opt_view(*cmt_msg),
            ),
    {
        let path = concat(feature_name, filename);
        if check_file_exists(found, feature_name, filename) {
            match found {
                Ok(e) => match &e.sha {
                    Some(h) => Ok(
                        self.update_file(feature_name, filename, content, h.as_str(), author, mail, cmt_msg),
                    ),
                    None => Err(ApiError::InvalidContentResponse(concat("No hash for file ", path.as_str()))),
                },
                Err(_) => Err(ApiError::InvalidContentResponse(path)),
            }
        } else {
            Ok(self.create_file(feature_name, filename, content, author, mail, cmt_msg))
        }
    }

    /// The request that deletes a file that a listing gave. An entry without a
    /// hash gives `InvalidContentResponse`.
    pub fn delete_entry(
        &self,
        entry: &ContentEntry,
        author: &str,
        mail: &str,
        cmt_msg: &Option<String>,
    ) -> (r: Result<Request, ApiError>)
        ensures
            entry.sha is None ==> (r matches Err(e) && e is InvalidContentResponse),
            entry.sha is Some ==> (r matches Ok(q) && q.method == Method::Delete && q.url@
                == self.contents_url(entry.path@) && q.authorization@ == self.authorization()
                && q.body is Some && q.body->0.author@ == author@ && q.body->0.email@ == mail@
                && opt_view(q.body->0.sha) == opt_view(entry.sha) && opt_view(q.body->0.message)
                == opt_view(*cmt_msg)),
    {
        match &entry.sha {
            Some(h) => Ok(self.delete_file(entry.path.as_str(), h.as_str(), author, mail, cmt_msg)),
            None => Err(
                ApiError::InvalidContentResponse(concat("No hash for file ", entry.path.as_str())),
            ),
        }
    }
}

} // verus!
