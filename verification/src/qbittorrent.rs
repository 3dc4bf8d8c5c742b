//! The requests to qBittorrent.
use vstd::prelude::*;
use vstd::string::StringExecFns;

use crate::text::{chars_of, same_text, text_of};

verus! {

/// Where qBittorrent is, and how to log in.
#[derive(Debug)]
pub struct QbittorrentConfiguration {
    pub url: String,
    pub username: String,
    pub password: String,
}

/// The session with qBittorrent.
#[derive(Debug)]
pub struct QbittorrentClient {
    /// The session id; empty before the first login.
    pub sid: String,
    pub configuration: QbittorrentConfiguration,
}

/// `s` without one `/` at its end.
pub open spec fn without_last_slash(s: Seq<char>) -> Seq<char> {
    if s.len() > 0 && s.last() == '/' {
        s.drop_last()
    } else {
        s
    }
}

/// `s` without one `/` in front.
pub open spec fn without_first_slash(s: Seq<char>) -> Seq<char> {
    if s.len() > 0 && s[0] == '/' {
        s.skip(1)
    } else {
        s
    }
}

/// The address of a path below a base address.
pub open spec fn address(base: Seq<char>, path: Seq<char>) -> Seq<char> {
    without_last_slash(base) + "/"@ + without_first_slash(path)
}

/// A request within a session.
#[derive(Debug)]
pub struct SessionRequest {
    pub url: String,
    /// The Cookie header.
    pub cookie: String,
    /// The Referer header.
    pub referer: String,
}

/// A request for a new session.
#[derive(Debug)]
pub struct LoginRequest {
    pub url: String,
    /// The Content-Type header.
    pub content_type: String,
    /// The Referer header.
    pub referer: String,
    pub body: String,
}

impl QbittorrentClient {
    /// The address of the path.
    pub fn to_url(&self, path: &str) -> (url: String)
        ensures
            url@ == address(self.configuration.url@, path@),
    {
        let base = chars_of(self.configuration.url.as_str());
        let below = chars_of(path);
        let mut end: usize = base.len();
        if end > 0 && base[end - 1] == '/' {
            end -= 1;
        }
        let mut start: usize = 0;
        if below.len() > 0 && below[0] == '/' {
            start = 1;
        }
        let front = text_of(&base, 0, end);
        let back = text_of(&below, start, below.len());
        assert(front@ =~= without_last_slash(base@));
        assert(back@ =~= without_first_slash(below@));
        front.concat("/").concat(back.as_str())
    }

    /// A request to the path within the session.
    pub fn post(&self, path: &str) -> (request: SessionRequest)
        ensures
            request.url@ == address(self.configuration.url@, path@),
            request.cookie@ == "SID="@ + self.sid@,
            request.referer@ == self.configuration.url@,
    {
        SessionRequest {
            url: self.to_url(path),
            cookie: "SID=".to_string().concat(self.sid.as_str()),
            referer: self.configuration.url.clone(),
        }
    }
}

/// A request that adds torrents.
#[derive(Debug)]
pub struct AddRequest {
    pub request: SessionRequest,
    /// The name of the only field of the form.
    pub field: String,
    /// The links, one on each line.
    pub value: String,
}

impl QbittorrentClient {
    /// The request that adds the torrents of the links, of which there is one on each line.
    pub fn add_torrents(&self, urls: &str) -> (add: AddRequest)
        ensures
            add.request.url@ == address(self.configuration.url@, "api/v2/torrents/add"@),
            add.request.cookie@ == "SID="@ + self.sid@,
            add.request.referer@ == self.configuration.url@,
            add.field@ == "urls"@,
            add.value@ == urls@,
    {
        AddRequest {
            request: self.post("api/v2/torrents/add"),
            field: "urls".to_string(),
            value: urls.to_string(),
        }
    }
}

/// The request that logs in.
pub fn login_request(config: &QbittorrentConfiguration) -> (request: LoginRequest)
    ensures
        request.url@ == config.url@ + "api/v2/auth/login"@,
        request.content_type@ == "application/x-www-form-urlencoded"@,
        request.referer@ == config.url@,
        request.body@ == "username="@ + config.username@ + "&password="@ + config.password@,
{
    LoginRequest {
        url: config.url.clone().concat("api/v2/auth/login"),
        content_type: "application/x-www-form-urlencoded".to_string(),
        referer: config.url.clone(),
        body: "username=".to_string().concat(config.username.as_str()).concat("&password=").concat(
            config.password.as_str(),
        ),
    }
}

/// The cookie at position `i` is the first one with the name.
pub open spec fn is_first_named(cookies: Seq<(String, String)>, name: Seq<char>, i: int) -> bool {
    &&& 0 <= i < cookies.len()
    &&& cookies[i].0@ == name
    &&& forall|k: int| 0 <= k < i ==> (#[trigger] cookies[k]).0@ != name
}

/// The session id among the cookies (names and values) of the answer to a login: the value of the
/// first cookie with the name SID. The error says that there is none.
pub fn session_id(cookies: &Vec<(String, String)>) -> (sid: Result<String, String>)
    ensures
        match sid {
            Ok(sid) => exists|i: int|
                #[trigger] is_first_named(cookies@, "SID"@, i) && sid@ == cookies@[i].1@,
            Err(message) => {
                &&& forall|i: int| 0 <= i < cookies@.len() ==> (#[trigger] cookies@[i]).0@ != "SID"@
                &&& message@ == "No SID cookie found"@
            },
        },
{
    let mut i: usize = 0;
    while i < cookies.len()
        invariant
            i <= cookies@.len(),
            forall|k: int| 0 <= k < i ==> (#[trigger] cookies@[k]).0@ != "SID"@,
        decreases cookies@.len() - i,
    {
        if same_text(cookies[i].0.as_str(), "SID") {
            assert(is_first_named(cookies@, "SID"@, i as int));
            return Ok(cookies[i].1.clone());
        }
        i += 1;
    }
    Err("No SID cookie found".to_string())
}

impl QbittorrentClient {
    /// Takes the session id from the cookies (names and values) of the answer to a login, so that
    /// the following requests carry it. Without one the session stays as it was.
    pub fn log_in(&mut self, cookies: &Vec<(String, String)>) -> (result: Result<(), String>)
        ensures
            final(self).configuration == old(self).configuration,
            match result {
                Ok(_) => exists|i: int|
                    #[trigger] is_first_named(cookies@, "SID"@, i) && final(self).sid@
                        == cookies@[i].1@,
                Err(message) => {
                    &&& forall|i: int|
                        0 <= i < cookies@.len() ==> (#[trigger] cookies@[i]).0@ != "SID"@
                    &&& message@ == "No SID cookie found"@
                    &&& *final(self) == *old(self)
                },
            },
    {
        match session_id(cookies) {
            Ok(sid) => {
                self.sid = sid;
                Ok(())
            },
            Err(message) => Err(message),
        }
    }
}

/// What is done with the answer to a request.
#[derive(Debug, Clone, Copy, PartialEq, Eq, Structural)]
pub enum SendAction {
    /// The answer is the result.
    Return,
    /// Log in, and send the request again with the new session id.
    LogInAndRepeat,
}

/// One request, which is repeated once if the session has expired.
#[derive(Debug)]
pub struct Exchange {
    /// Whether the request was already repeated.
    pub repeated: bool,
}

impl Exchange {
    /// A request that was not sent yet.
    pub fn new() -> (exchange: Exchange)
        ensures
            !exchange.repeated,
    {
        Exchange { repeated: false }
    }

    /// What is done with an answer with the given status: the first answer leads to a login if it
    /// is 403, and every other answer is the result.
    pub fn receive(&mut self, status: u16) -> (action: SendAction)
        ensures
            action == SendAction::LogInAndRepeat <==> !old(self).repeated && status == 403,
            final(self).repeated == (old(self).repeated || action == SendAction::LogInAndRepeat),
    {
        if !self.repeated && status == 403 {
            self.repeated = true;
            SendAction::LogInAndRepeat
        } else {
            SendAction::Return
        }
    }
}

/// One slash stands between the base address and the path, whether or not the base ends with one
/// and the path begins with one.
pub proof fn law_one_slash_between(base: Seq<char>, path: Seq<char>)
    requires
        base.len() > 0 ==> base.last() != '/',
        path.len() > 0 ==> path[0] != '/',
    ensures
        address(base, path) == base + "/"@ + path,
        address(base + "/"@, path) == base + "/"@ + path,
        address(base, "/"@ + path) == base + "/"@ + path,
        address(base + "/"@, "/"@ + path) == base + "/"@ + path,
{
    reveal_strlit("/");
    let slashed = base + "/"@;
    assert(slashed.last() == '/');
    assert(slashed.drop_last() =~= base);
    let absolute = "/"@ + path;
    assert(absolute[0] == '/');
    assert(absolute.skip(1) =~= path);
}

} // verus!
