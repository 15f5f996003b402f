//! The description of a request, as the command line gives it, and the two
//! texts of the command line that are split before they are used.

use vstd::prelude::*;
use crate::cookies::Cookie;
use crate::error::ConfigError;
use crate::form::FormField;
use crate::text::{split, split_text, texts};

verus! {

/// A username with its password.
#[derive(Clone, Debug, PartialEq, Eq)]
pub struct BasicAuth {
    pub username: String,
    pub password: String,
}

impl View for BasicAuth {
    type V = (Seq<char>, Seq<char>);

    open spec fn view(&self) -> (Seq<char>, Seq<char>) {
        (self.username@, self.password@)
    }
}

impl BasicAuth {
    /// A copy of these credentials.
    pub fn duplicate(&self) -> (copy: BasicAuth)
        ensures
            copy@ == self@,
    {
        BasicAuth { username: self.username.clone(), password: self.password.clone() }
    }
}

/// What is done with a response.
#[derive(Clone, Debug, PartialEq, Eq)]
pub enum Delivery {
    /// Stream the body to the file at this path.
    Download(String),
    /// Render the response; store the body too if a path is given.
    Render { store_path: Option<String> },
}

/// The description of one request. It is made once and only read after.
#[derive(Clone, Debug, PartialEq, Eq)]
pub struct RequestConfig {
    /// The URL; in concurrent mode, the URLs separated by commas.
    pub url: String,
    /// The name of the method.
    pub method: String,
    /// The headers, as the text of a JSON object of strings.
    pub headers: Option<String>,
    /// The raw body. Form fields, if given, take its place.
    pub body: Option<String>,
    /// The fields of a multipart form, in order.
    pub form_fields: Option<Vec<FormField>>,
    /// Credentials for basic authentication.
    pub basic_auth: Option<BasicAuth>,
    /// The value of the `User-Agent` header.
    pub user_agent: Option<String>,
    /// The proxy to send through.
    pub proxy_url: Option<String>,
    /// Whether redirects are followed; the cap on hops is fixed.
    pub follow_redirects: bool,
    /// The time limit of one attempt.
    pub timeout_seconds: Option<u64>,
    /// The number of attempts; 0 means a single send.
    pub retry_count: u32,
    /// Where to store the body when rendering.
    pub store_path: Option<String>,
    /// Where to stream the body; given, the response is not rendered.
    pub download_path: Option<String>,
    /// The file that the cookies were loaded from.
    pub cookie_file_path: Option<String>,
    /// The cookies loaded from that file, in its order.
    pub cookies: Option<Vec<Cookie>>,
    /// Whether to print status, headers and retry diagnostics.
    pub verbose: bool,
    /// Whether to keep the body off the console.
    pub silent: bool,
    /// The URLs of concurrent mode.
    pub concurrent_urls: Option<Vec<String>>,
}

/// The characters of an optional string.
pub open spec fn optional_chars(text: Option<String>) -> Option<Seq<char>> {
    match text {
        Some(t) => Some(t@),
        None => None,
    }
}

impl RequestConfig {
    /// A description of a GET of `url` with nothing else set.
    pub fn new(url: &str) -> (config: RequestConfig)
        ensures
            config.url@ == url@,
            config.method@ == "GET"@,
            config.headers is None,
            config.body is None,
            config.form_fields is None,
            config.basic_auth is None,
            config.user_agent is None,
            config.proxy_url is None,
            !config.follow_redirects,
            config.timeout_seconds is None,
            config.retry_count == 0,
            config.store_path is None,
            config.download_path is None,
            config.cookie_file_path is None,
            config.cookies is None,
            !config.verbose,
            !config.silent,
            config.concurrent_urls is None,
    {
        RequestConfig {
            url: url.to_owned(),
            method: "GET".to_owned(),
            headers: None,
            body: None,
            form_fields: None,
            basic_auth: None,
            user_agent: None,
            proxy_url: None,
            follow_redirects: false,
            timeout_seconds: None,
            retry_count: 0,
            store_path: None,
            download_path: None,
            cookie_file_path: None,
            cookies: None,
            verbose: false,
            silent: false,
            concurrent_urls: None,
        }
    }

    /// What is done with a response: a download path means streaming, and
    /// the store path is then not consulted.
    pub fn delivery(&self) -> (d: Delivery)
        ensures
            match self.download_path {
                Some(path) => d matches Delivery::Download(p) && p@ == path@,
                None => d matches Delivery::Render { store_path } && optional_chars(store_path)
                    == optional_chars(self.store_path),
            },
    {
        match &self.download_path {
            Some(path) => Delivery::Download(path.clone()),
            None => Delivery::Render {
                store_path: match &self.store_path {
                    Some(p) => Some(p.clone()),
                    None => None,
                },
            },
        }
    }
}

/// The URLs of concurrent mode: the pieces of `url` between its commas.
pub fn split_urls(url: &str) -> (urls: Vec<String>)
    ensures
        texts(urls@) == split(url@, ','),
{
    split_text(url, ',')
}

/// The credentials that `text` gives: what stands before its first colon
/// and what stands between its first and its second; `None` where it has
/// no colon.
pub open spec fn credentials_of(text: Seq<char>) -> Option<(Seq<char>, Seq<char>)> {
    let pieces = split(text, ':');
    if pieces.len() >= 2 {
        Some((pieces[0], pieces[1]))
    } else {
        None
    }
}

/// Reads credentials written as `username:password`.
pub fn split_credentials(text: &str) -> (r: Result<BasicAuth, ConfigError>)
    ensures
        match credentials_of(text@) {
            Some(pair) => r matches Ok(auth) && auth@ == pair,
            None => r == Err::<BasicAuth, ConfigError>(ConfigError::MalformedCredentials),
        },
{
    let pieces = split_text(text, ':');
    if pieces.len() >= 2 {
        let auth = BasicAuth { username: pieces[0].clone(), password: pieces[1].clone() };
        proof {
            assert(texts(pieces@)[0] == pieces@[0]@);
            assert(texts(pieces@)[1] == pieces@[1]@);
        }
        Ok(auth)
    } else {
        Err(ConfigError::MalformedCredentials)
    }
}

} // verus!
