//! Composing a request: from the description of a request to the request
//! that is handed to the transport. The steps run in a fixed order, each can
//! refuse, and a refusal leaves nothing half-built behind.

use vstd::prelude::*;
use crate::config::{BasicAuth, RequestConfig};
use crate::cookies::{cookie_header, cookie_line, cookie_models, Cookie};
use crate::error::ConfigError;
use crate::form::{
    field_models, form_parts, part_models, parts_of, FormField, FormPart, FormPartModel,
};
use crate::headers::{
    all_valid, distinct_names, lemma_put, lemma_put_all, lemma_without, lookup, put, put_all,
    valid_header_name, valid_header_value, well_formed, without, HeaderSet,
};
use crate::json::{object_members, object_members_of, text_member_models, TextMember};
use crate::method::{lemma_method_named_iff_verb, method_named, parse_method, Method};

verus! {

/// The payload of a request.
#[derive(Clone, Debug, PartialEq, Eq)]
pub enum Body {
    /// No payload.
    Empty,
    /// This text, as it is.
    Raw(String),
    /// A multipart form of these parts, in order.
    Multipart(Vec<FormPart>),
}

pub enum BodyModel {
    Empty,
    Raw(Seq<char>),
    Multipart(Seq<FormPartModel>),
}

impl View for Body {
    type V = BodyModel;

    open spec fn view(&self) -> BodyModel {
        match self {
            Body::Empty => BodyModel::Empty,
            Body::Raw(text) => BodyModel::Raw(text@),
            Body::Multipart(parts) => BodyModel::Multipart(part_models(parts@)),
        }
    }
}

/// A request that is ready for the transport.
///
/// The credentials of basic authentication are carried as they are: the
/// transport encodes them into the `Authorization` header, which is why the
/// header set holds no header of that name when credentials are present.
/// The `Content-Type` of a multipart body, with its boundary, is the
/// transport's too.
#[derive(Clone, Debug, PartialEq, Eq)]
pub struct ComposedRequest {
    pub method: Method,
    pub url: String,
    pub headers: HeaderSet,
    pub body: Body,
    pub auth: Option<BasicAuth>,
}

pub struct ComposedModel {
    pub method: Method,
    pub url: Seq<char>,
    pub headers: Seq<(Seq<char>, Seq<char>)>,
    pub body: BodyModel,
    pub auth: Option<(Seq<char>, Seq<char>)>,
}

/// The model of optional credentials.
pub open spec fn auth_model(auth: Option<BasicAuth>) -> Option<(Seq<char>, Seq<char>)> {
    match auth {
        Some(a) => Some(a@),
        None => None,
    }
}

impl View for ComposedRequest {
    type V = ComposedModel;

    open spec fn view(&self) -> ComposedModel {
        ComposedModel {
            method: self.method,
            url: self.url@,
            headers: self.headers@,
            body: self.body@,
            auth: auth_model(self.auth),
        }
    }
}

/// The headers that a header document gives: name and value of every
/// member of the JSON object, in the object's order. A member whose value is
/// no string makes the document invalid; a document that is no object gives
/// no header.
pub open spec fn header_pairs_of(text: Seq<char>) -> Result<Seq<(Seq<char>, Seq<char>)>, ConfigError> {
    match object_members_of(text) {
        Err(e) => Err(e),
        Ok(None) => Ok(Seq::<(Seq<char>, Seq<char>)>::empty()),
        Ok(Some(members)) => if forall|i: int|
            0 <= i < members.len() ==> (#[trigger] members[i]).1 is Some {
            Ok(Seq::new(members.len(), |i: int| (members[i].0, members[i].1->0)))
        } else {
            Err(ConfigError::InvalidHeader)
        },
    }
}

/// The header set that a header document gives: its pairs put into the
/// empty set one after another, so that of two pairs with one name the
/// later wins. A name or value that is not valid refuses the document.
pub open spec fn headers_from(text: Seq<char>) -> Result<Seq<(Seq<char>, Seq<char>)>, ConfigError> {
    match header_pairs_of(text) {
        Err(e) => Err(e),
        Ok(pairs) => if all_valid(pairs) {
            Ok(put_all(Seq::<(Seq<char>, Seq<char>)>::empty(), pairs))
        } else {
            Err(ConfigError::InvalidHeader)
        },
    }
}

/// Step 2: the header set of the header document, or the empty set where
/// there is no document.
pub open spec fn explicit_headers(document: Option<String>) -> Result<
    Seq<(Seq<char>, Seq<char>)>,
    ConfigError,
> {
    match document {
        Some(text) => headers_from(text@),
        None => Ok(Seq::<(Seq<char>, Seq<char>)>::empty()),
    }
}

/// `list` with `name` set to `value`, refused where either is not valid.
pub open spec fn set_header(
    list: Seq<(Seq<char>, Seq<char>)>,
    name: Seq<char>,
    value: Seq<char>,
) -> Result<Seq<(Seq<char>, Seq<char>)>, ConfigError> {
    if valid_header_name(name) && valid_header_value(value) {
        Ok(put(list, name, value))
    } else {
        Err(ConfigError::InvalidHeader)
    }
}

/// Step 3: the cookies, if any were loaded, set as the `Cookie` header.
pub open spec fn with_cookies(list: Seq<(Seq<char>, Seq<char>)>, cookies: Option<Vec<Cookie>>) -> Result<
    Seq<(Seq<char>, Seq<char>)>,
    ConfigError,
> {
    match cookies {
        Some(c) => set_header(list, "Cookie"@, cookie_line(cookie_models(c@))),
        None => Ok(list),
    }
}

/// Steps 4 and 5: the form where there is one, else the raw body, else
/// nothing.
pub open spec fn body_of(body: Option<String>, form_fields: Option<Vec<FormField>>) -> BodyModel {
    match form_fields {
        Some(fields) => BodyModel::Multipart(parts_of(field_models(fields@))),
        None => match body {
            Some(text) => BodyModel::Raw(text@),
            None => BodyModel::Empty,
        },
    }
}

/// Step 6, first half: the user agent, if given, set as the `User-Agent`
/// header.
pub open spec fn with_user_agent(list: Seq<(Seq<char>, Seq<char>)>, user_agent: Option<String>) -> Result<
    Seq<(Seq<char>, Seq<char>)>,
    ConfigError,
> {
    match user_agent {
        Some(agent) => set_header(list, "User-Agent"@, agent@),
        None => Ok(list),
    }
}

/// Step 6, second half: with credentials, no `Authorization` header of the
/// description stays.
pub open spec fn with_auth(list: Seq<(Seq<char>, Seq<char>)>, auth: Option<BasicAuth>) -> Seq<
    (Seq<char>, Seq<char>),
> {
    match auth {
        Some(_) => without(list, "Authorization"@),
        None => list,
    }
}

/// The request that `config` describes, or the reason why it describes
/// none. The steps: the method; the header document; the cookies; the
/// body, or the form in its place; user agent and credentials last, so that
/// they win over the header document.
pub open spec fn composed(config: RequestConfig) -> Result<ComposedModel, ConfigError> {
    match method_named(config.method@) {
        None => Err(ConfigError::UnsupportedMethod),
        Some(method) => match explicit_headers(config.headers) {
            Err(e) => Err(e),
            Ok(explicit) => match with_cookies(explicit, config.cookies) {
                Err(e) => Err(e),
                Ok(cookied) => match with_user_agent(cookied, config.user_agent) {
                    Err(e) => Err(e),
                    Ok(named) => Ok(
                        ComposedModel {
                            method,
                            url: config.url@,
                            headers: with_auth(named, config.basic_auth),
                            body: body_of(config.body, config.form_fields),
                            auth: auth_model(config.basic_auth),
                        },
                    ),
                },
            },
        },
    }
}

/// The model of a composed request, or of the error in its place.
pub open spec fn composition_model(r: Result<ComposedRequest, ConfigError>) -> Result<
    ComposedModel,
    ConfigError,
> {
    match r {
        Ok(request) => Ok(request@),
        Err(e) => Err(e),
    }
}

/// The model of a header set, or of the error in its place.
pub open spec fn header_set_model(r: Result<HeaderSet, ConfigError>) -> Result<
    Seq<(Seq<char>, Seq<char>)>,
    ConfigError,
> {
    match r {
        Ok(set) => Ok(set@),
        Err(e) => Err(e),
    }
}

/// Whether `r` is what composing `config` gives.
pub open spec fn is_composition_of(config: RequestConfig, r: Result<ComposedRequest, ConfigError>) -> bool {
    composition_model(r) == composed(config)
}

/// Reads a header document into a header set.
pub fn parse_headers(text: &str) -> (r: Result<HeaderSet, ConfigError>)
    ensures
        header_set_model(r) == headers_from(text@),
        r matches Ok(set) ==> well_formed(set@),
{
    let mut set = HeaderSet::new();
    let members: Vec<TextMember> = match object_members(text) {
        Err(e) => {
            return Err(e);
        },
        Ok(None) => {
            assert(all_valid(Seq::<(Seq<char>, Seq<char>)>::empty()));
            return Ok(set);
        },
        Ok(Some(members)) => members,
    };
    let ghost all = text_member_models(members@);
    let ghost empty = Seq::<(Seq<char>, Seq<char>)>::empty();
    let ghost done = empty;
    let mut i: usize = 0;
    while i < members.len()
        invariant
            i <= members.len(),
            all == text_member_models(members@),
            object_members_of(text@) == Ok::<
                Option<Seq<(Seq<char>, Option<Seq<char>>)>>,
                ConfigError,
            >(Some(all)),
            done.len() == i,
            forall|j: int| 0 <= j < i ==> (#[trigger] all[j]).1 == Some(done[j].1) && all[j].0 == done[j].0,
            all_valid(done),
            set@ == put_all(empty, done),
            well_formed(set@),
        decreases members.len() - i,
    {
        let value = match &members[i].1 {
            Some(v) => v,
            None => {
                assert(all[i as int].1 is None);
                return Err(ConfigError::InvalidHeader);
            },
        };
        let ghost pair = (members@[i as int].0@, value@);
        assert(all[i as int] == (pair.0, Some(pair.1)));
        match set.put(members[i].0.as_str(), value.as_str()) {
            Ok(()) => {},
            Err(e) => {
                proof {
                    if header_pairs_of(text@) is Ok {
                        let pairs = header_pairs_of(text@)->Ok_0;
                        assert(pairs[i as int] == pair);
                        assert(!all_valid(pairs));
                    }
                }
                return Err(e);
            },
        }
        proof {
            let next = done.push(pair);
            assert(next.drop_last() =~= done);
            assert forall|j: int| 0 <= j < next.len() implies valid_header_name(
                (#[trigger] next[j]).0,
            ) && valid_header_value(next[j].1) by {
                if j < done.len() {
                    assert(valid_header_name(done[j].0) && valid_header_value(done[j].1));
                }
            }
            done = next;
        }
        i += 1;
    }
    proof {
        let pairs = header_pairs_of(text@)->Ok_0;
        assert(pairs =~= done);
    }
    Ok(set)
}

/// Composes the request that `config` describes. Nothing is sent and no
/// file is read: the cookies and the form fields are in `config` already.
pub fn compose(config: &RequestConfig) -> (r: Result<ComposedRequest, ConfigError>)
    ensures
        is_composition_of(*config, r),
        r matches Ok(request) ==> well_formed(request@.headers),
{
    let method = match parse_method(config.method.as_str()) {
        Ok(m) => m,
        Err(e) => {
            return Err(e);
        },
    };
    let mut headers = match &config.headers {
        Some(text) => match parse_headers(text.as_str()) {
            Ok(set) => set,
            Err(e) => {
                return Err(e);
            },
        },
        None => HeaderSet::new(),
    };
    match &config.cookies {
        Some(cookies) => {
            let line = cookie_header(cookies);
            match headers.put("Cookie", line.as_str()) {
                Ok(()) => {},
                Err(e) => {
                    return Err(e);
                },
            }
        },
        None => {},
    }
    let body = match &config.form_fields {
        Some(fields) => Body::Multipart(form_parts(fields)),
        None => match &config.body {
            Some(text) => Body::Raw(text.clone()),
            None => Body::Empty,
        },
    };
    match &config.user_agent {
        Some(agent) => {
            match headers.put("User-Agent", agent.as_str()) {
                Ok(()) => {},
                Err(e) => {
                    return Err(e);
                },
            }
        },
        None => {},
    }
    let auth = match &config.basic_auth {
        Some(credentials) => {
            headers.remove("Authorization");
            Some(credentials.duplicate())
        },
        None => None,
    };
    Ok(ComposedRequest { method, url: config.url.clone(), headers, body, auth })
}

/// Composing keeps the method: a request is composed only under the verb
/// of its method, and a name that is no verb of a supported method is
/// refused as unsupported, whatever else the description holds.
pub proof fn lemma_compose_keeps_method(config: RequestConfig)
    ensures
        composed(config) matches Ok(request) ==> config.method@ == request.method.verb(),
        forall|m: Method|
            config.method@ == m.verb() && composed(config) is Ok ==> composed(config)->Ok_0.method
                == m,
        (forall|m: Method| config.method@ != #[trigger] m.verb()) ==> composed(config) == Err::<
            ComposedModel,
            ConfigError,
        >(ConfigError::UnsupportedMethod),
{
    if method_named(config.method@) is Some {
        lemma_method_named_iff_verb(config.method@, method_named(config.method@)->0);
    }
    assert forall|m: Method| config.method@ == m.verb() && composed(config) is Ok implies composed(
        config,
    )->Ok_0.method == m by {
        lemma_method_named_iff_verb(config.method@, m);
    }
}

/// Where a description holds a header document and neither cookies, user
/// agent nor credentials, the header set of the composed request is what
/// the document holds: a header stands in the set exactly if it is the last
/// pair of its name in the document, case of the name kept. Where the
/// document names nothing twice, the set holds the document's pairs and no
/// others.
pub proof fn lemma_headers_are_the_document(config: RequestConfig)
    requires
        config.headers is Some,
        config.cookies is None,
        config.user_agent is None,
        config.basic_auth is None,
        composed(config) is Ok,
    ensures
        ({
            let pairs = header_pairs_of(config.headers->0@)->Ok_0;
            let set = composed(config)->Ok_0.headers;
            &&& header_pairs_of(config.headers->0@) is Ok
            &&& well_formed(set)
            &&& forall|name: Seq<char>, value: Seq<char>| #[trigger]
                set.contains((name, value)) <==> lookup(pairs, name) == Some(value)
            &&& distinct_names(pairs) ==> forall|name: Seq<char>, value: Seq<char>| #[trigger]
                set.contains((name, value)) <==> pairs.contains((name, value))
        }),
{
    let pairs = header_pairs_of(config.headers->0@)->Ok_0;
    let set = composed(config)->Ok_0.headers;
    let empty = Seq::<(Seq<char>, Seq<char>)>::empty();
    assert(distinct_names(empty));
    assert(all_valid(empty));
    lemma_put_all(empty, pairs);
    assert forall|name: Seq<char>, value: Seq<char>| #[trigger]
        set.contains((name, value)) <==> lookup(pairs, name) == Some(value) by {
        crate::headers::lemma_lookup_finds_entry(set, name, value);
        assert(lookup(set, name) == match lookup(pairs, name) {
            Some(v) => Some(v),
            None => lookup(empty, name),
        });
    }
    if distinct_names(pairs) {
        assert forall|name: Seq<char>, value: Seq<char>| #[trigger]
            set.contains((name, value)) <==> pairs.contains((name, value)) by {
            crate::headers::lemma_lookup_finds_entry(pairs, name, value);
            assert(set.contains((name, value)) <==> lookup(pairs, name) == Some(value));
        }
    }
}

/// The names under which cookies and user agent are sent are valid header
/// names.
pub proof fn lemma_fixed_names_are_valid()
    ensures
        valid_header_name("Cookie"@),
        valid_header_name("User-Agent"@),
{
    reveal_strlit("Cookie");
    reveal_strlit("User-Agent");
    let c = "Cookie"@;
    assert forall|i: int| 0 <= i < c.len() implies crate::headers::is_token_char(
        #[trigger] c[i],
    ) by {
        assert(i == 0 || i == 1 || i == 2 || i == 3 || i == 4 || i == 5);
    }
    let u = "User-Agent"@;
    assert forall|i: int| 0 <= i < u.len() implies crate::headers::is_token_char(
        #[trigger] u[i],
    ) by {
        assert(i == 0 || i == 1 || i == 2 || i == 3 || i == 4 || i == 5 || i == 6 || i == 7 || i
            == 8 || i == 9);
    }
}

/// When a request is owed: a description composes exactly if its method is
/// supported, its header document reads as a header set, and the cookie
/// line and the user agent, where given, are valid header values. Body,
/// form, URL and credentials never refuse.
pub proof fn lemma_compose_succeeds_iff(config: RequestConfig)
    ensures
        composed(config) is Ok <==> {
            &&& method_named(config.method@) is Some
            &&& explicit_headers(config.headers) is Ok
            &&& config.cookies matches Some(cookies) ==> valid_header_value(
                cookie_line(cookie_models(cookies@)),
            )
            &&& config.user_agent matches Some(agent) ==> valid_header_value(agent@)
        },
{
    lemma_fixed_names_are_valid();
}

/// Composing is a function of the description: two compositions of one
/// description agree in method, URL, headers, body and credentials, and
/// fail alike where they fail.
pub proof fn lemma_compose_deterministic(
    config: RequestConfig,
    first: Result<ComposedRequest, ConfigError>,
    second: Result<ComposedRequest, ConfigError>,
)
    requires
        is_composition_of(config, first),
        is_composition_of(config, second),
    ensures
        composition_model(first) == composition_model(second),
{
}

/// The steps that run last win. In a composed request the `Cookie` header
/// is the line of the loaded cookies, the `User-Agent` header is the user
/// agent given, and with credentials no `Authorization` header of the
/// header document is left; whatever the header document said under those
/// names. The header set is well formed.
pub proof fn lemma_last_steps_win(config: RequestConfig)
    requires
        composed(config) is Ok,
    ensures
        ({
            let set = composed(config)->Ok_0.headers;
            &&& well_formed(set)
            &&& config.cookies matches Some(cookies) ==> lookup(set, "Cookie"@) == Some(
                cookie_line(cookie_models(cookies@)),
            )
            &&& config.user_agent matches Some(agent) ==> lookup(set, "User-Agent"@) == Some(
                agent@,
            )
            &&& config.basic_auth is Some ==> lookup(set, "Authorization"@) is None
        }),
{
    reveal_strlit("Cookie");
    reveal_strlit("User-Agent");
    reveal_strlit("Authorization");
    assert("Cookie"@.len() != "User-Agent"@.len());
    assert("Cookie"@.len() != "Authorization"@.len());
    assert("User-Agent"@.len() != "Authorization"@.len());
    let empty = Seq::<(Seq<char>, Seq<char>)>::empty();
    assert(distinct_names(empty));
    assert(all_valid(empty));
    let explicit = explicit_headers(config.headers)->Ok_0;
    if config.headers is Some {
        lemma_put_all(empty, header_pairs_of(config.headers->0@)->Ok_0);
    }
    assert(well_formed(explicit));
    let cookied = with_cookies(explicit, config.cookies)->Ok_0;
    if config.cookies is Some {
        lemma_put(explicit, "Cookie"@, cookie_line(cookie_models(config.cookies->0@)));
    }
    let named = with_user_agent(cookied, config.user_agent)->Ok_0;
    if config.user_agent is Some {
        lemma_put(cookied, "User-Agent"@, config.user_agent->0@);
    }
    lemma_without(named, "Authorization"@);
}

impl Body {
    /// A copy of this body.
    pub fn duplicate(&self) -> (copy: Body)
        ensures
            copy@ == self@,
    {
        match self {
            Body::Empty => Body::Empty,
            Body::Raw(text) => Body::Raw(text.clone()),
            Body::Multipart(parts) => {
                let mut copy: Vec<FormPart> = Vec::new();
                let mut i: usize = 0;
                while i < parts.len()
                    invariant
                        i <= parts.len(),
                        copy.len() == i,
                        forall|j: int| 0 <= j < i ==> (#[trigger] copy@[j])@ == parts@[j]@,
                    decreases parts.len() - i,
                {
                    let part = match &parts[i] {
                        FormPart::Text { name, value } => FormPart::Text {
                            name: name.clone(),
                            value: value.clone(),
                        },
                        FormPart::File { name, path, filename } => FormPart::File {
                            name: name.clone(),
                            path: path.clone(),
                            filename: filename.clone(),
                        },
                    };
                    copy.push(part);
                    i += 1;
                }
                assert(part_models(copy@) =~= part_models(parts@));
                Body::Multipart(copy)
            },
        }
    }
}

impl ComposedRequest {
    /// A fresh, independent copy: the same method, URL, headers and body.
    /// Every attempt of a retried request is sent from such a copy.
    pub fn duplicate(&self) -> (copy: ComposedRequest)
        ensures
            copy@ == self@,
    {
        self.with_url(self.url.as_str())
    }

    /// A copy of this request that goes to `url` instead.
    pub fn with_url(&self, url: &str) -> (copy: ComposedRequest)
        ensures
            copy@ == (ComposedModel { url: url@, ..self@ }),
    {
        ComposedRequest {
            method: self.method,
            url: url.to_owned(),
            headers: self.headers.duplicate(),
            body: self.body.duplicate(),
            auth: match &self.auth {
                Some(a) => Some(a.duplicate()),
                None => None,
            },
        }
    }
}

} // verus!
