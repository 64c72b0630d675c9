//! The controller's address: how the user's spelling of it becomes a WebSocket endpoint, and
//! where a redirect leads.

use vstd::prelude::*;
use vstd::string::*;

use crate::text::{
    before_char, before_first, find, first_chars, first_occurrence, is_white_space, join,
    lemma_before_first, lemma_before_first_of, lemma_first_occurrence, lemma_occurs_has_first,
    lemma_trimmed_ends, occurs, occurs_at, occurs_first_at, same, skip_chars, starts_with, trim,
    trim_end_char, trimmed, without_trailing,
};

verus! {

/// The WebSocket scheme for a scheme: `http` and `https` have one, any other stands for itself.
pub open spec fn ws_scheme(scheme: Seq<char>) -> Seq<char> {
    if scheme == "http"@ {
        "ws"@
    } else if scheme == "https"@ {
        "wss"@
    } else {
        scheme
    }
}

/// The WebSocket scheme of an address; `ws` where the address names none.
pub open spec fn scheme_of(address: Seq<char>) -> Seq<char> {
    match first_occurrence(address, "://"@) {
        Some(i) => ws_scheme(address.take(i)),
        None => "ws"@,
    }
}

/// The host of an address, with its port: what stands between scheme and path.
pub open spec fn host_of(address: Seq<char>) -> Seq<char> {
    match first_occurrence(address, "://"@) {
        Some(i) => before_first(address.skip(i + 3), '/'),
        None => before_first(address, '/'),
    }
}

/// The controller that an address names, without any path; nothing for a blank address.
pub open spec fn controller_base(input: Seq<char>) -> Seq<char> {
    let address = trimmed(input);
    if address.len() == 0 {
        Seq::empty()
    } else {
        scheme_of(address) + "://"@ + host_of(address)
    }
}

/// The service endpoint of the controller that an address names.
pub open spec fn ws_url(input: Seq<char>) -> Seq<char> {
    if controller_base(input).len() == 0 {
        Seq::empty()
    } else {
        without_trailing(controller_base(input), '/') + "/api/wol/service"@
    }
}

/// Where a redirect from `current` to `location` leads.
pub open spec fn redirect_target(current: Seq<char>, location: Seq<char>) -> Seq<char> {
    let target = trimmed(location);
    if "ws://"@.is_prefix_of(target) || "wss://"@.is_prefix_of(target) {
        target
    } else if "http://"@.is_prefix_of(target) {
        "ws://"@ + target.skip(7)
    } else if "https://"@.is_prefix_of(target) {
        "wss://"@ + target.skip(8)
    } else if "/"@.is_prefix_of(target) {
        controller_base(current) + target
    } else {
        controller_base(current) + "/"@ + target
    }
}

/// The controller that an address names, without any path.
pub fn normalize_controller_base(input: &str) -> (r: String)
    ensures
        r@ == controller_base(input@),
{
    let address = trim(input);
    if address.is_empty() {
        return String::new();
    }
    proof {
        reveal_strlit("://");
    }
    match find(address, "://") {
        Some(i) => {
            let scheme = first_chars(address, i);
            let len: usize = address.unicode_len();
            let host = before_char(address.substring_char(i + 3, len), '/');
            let normalized = if same(scheme, "http") {
                "ws"
            } else if same(scheme, "https") {
                "wss"
            } else {
                scheme
            };
            let mut base = join(normalized, "://");
            base.append(host);
            base
        },
        None => {
            let mut base = join("ws", "://");
            base.append(before_char(address, '/'));
            base
        },
    }
}

/// The service endpoint of the controller that an address names.
pub fn normalize_ws_url(input: &str) -> (r: String)
    ensures
        r@ == ws_url(input@),
{
    let base = normalize_controller_base(input);
    if base.as_str().is_empty() {
        String::new()
    } else {
        join(trim_end_char(base.as_str(), '/'), "/api/wol/service")
    }
}

/// Where a redirect leads.
pub fn normalize_redirect_target(current_endpoint: &str, location: &str) -> (r: String)
    ensures
        r@ == redirect_target(current_endpoint@, location@),
{
    let target = trim(location);
    proof {
        reveal_strlit("http://");
        reveal_strlit("https://");
    }
    if starts_with(target, "ws://") || starts_with(target, "wss://") {
        return target.to_owned();
    }
    if starts_with(target, "http://") {
        return join("ws://", skip_chars(target, 7));
    }
    if starts_with(target, "https://") {
        return join("wss://", skip_chars(target, 8));
    }
    if starts_with(target, "/") {
        let base = normalize_controller_base(current_endpoint);
        return join(base.as_str(), target);
    }
    let mut base = normalize_controller_base(current_endpoint);
    base.append("/");
    base.append(target);
    base
}

/// How the first connection to an endpoint went.
pub enum ProbeOutcome {
    /// The handshake succeeded.
    Connected,
    /// The server answered with plain HTTP: the status code, the status in words, and the
    /// `Location` header, where there was one, as text or as the reason why it is no text.
    Http { code: u16, status: String, location: Option<Result<String, String>> },
    /// Any other failure, in words.
    Failed(String),
}

/// The model of [`ProbeOutcome`].
pub enum ProbeModel {
    Connected,
    Http { code: u16, status: Seq<char>, location: Option<Result<Seq<char>, Seq<char>>> },
    Failed(Seq<char>),
}

/// A result whose value and error are texts, taken by their views.
pub open spec fn text_result(r: Result<String, String>) -> Result<Seq<char>, Seq<char>> {
    match r {
        Ok(text) => Ok(text@),
        Err(error) => Err(error@),
    }
}

impl View for ProbeOutcome {
    type V = ProbeModel;

    open spec fn view(&self) -> ProbeModel {
        match self {
            ProbeOutcome::Connected => ProbeModel::Connected,
            ProbeOutcome::Http { code, status, location } => ProbeModel::Http {
                code: *code,
                status: status@,
                location: match location {
                    Some(header) => Some(text_result(*header)),
                    None => None,
                },
            },
            ProbeOutcome::Failed(error) => ProbeModel::Failed(error@),
        }
    }
}

/// Whether an HTTP status code redirects.
pub open spec fn is_redirect(code: u16) -> bool {
    code == 301 || code == 302 || code == 307 || code == 308
}

/// The endpoint to connect to after a probe, or why there is none.
#[verifier::opaque]
pub open spec fn resolved(endpoint: Seq<char>, outcome: ProbeModel) -> Result<
    Seq<char>,
    Seq<char>,
> {
    match outcome {
        ProbeModel::Connected => Ok(endpoint),
        ProbeModel::Http { code, status, location } => if !is_redirect(code) {
            Err("HTTP error: "@ + status)
        } else {
            match location {
                None => Err("HTTP error: "@ + status + "，但响应里没有 Location"@),
                Some(Err(error)) => Err("跳转地址解析失败: "@ + error),
                Some(Ok(location)) => Ok(redirect_target(endpoint, location)),
            }
        },
        ProbeModel::Failed(error) => Err(error),
    }
}

/// The endpoint to connect to after a probe, or why there is none.
pub fn resolve_websocket_endpoint(endpoint: &str, outcome: ProbeOutcome) -> (r: Result<
    String,
    String,
>)
    ensures
        text_result(r) == resolved(endpoint@, outcome@),
{
    proof {
        reveal(resolved);
    }
    match outcome {
        ProbeOutcome::Connected => Ok(endpoint.to_owned()),
        ProbeOutcome::Http { code, status, location } => {
            if !(code == 301 || code == 302 || code == 307 || code == 308) {
                return Err(join("HTTP error: ", status.as_str()));
            }
            match location {
                None => {
                    let mut error = join("HTTP error: ", status.as_str());
                    error.append("，但响应里没有 Location");
                    Err(error)
                },
                Some(Err(error)) => Err(join("跳转地址解析失败: ", error.as_str())),
                Some(Ok(location)) => Ok(normalize_redirect_target(endpoint, location.as_str())),
            }
        },
        ProbeOutcome::Failed(error) => Err(error),
    }
}

/// How the transport of a connection is secured.
#[derive(Clone, Copy, Debug, PartialEq, Eq, Structural)]
pub enum Transport {
    Plain,
    Tls { accept_invalid_certs: bool, accept_invalid_hostnames: bool },
}

/// The transport for an endpoint: TLS for `wss`, with checks off only where the configuration
/// says so.
pub open spec fn transport_for(endpoint: Seq<char>, skip_cert_verification: bool) -> Transport {
    if "wss://"@.is_prefix_of(endpoint) {
        Transport::Tls {
            accept_invalid_certs: skip_cert_verification,
            accept_invalid_hostnames: skip_cert_verification,
        }
    } else {
        Transport::Plain
    }
}

/// The transport for an endpoint.
pub fn choose_transport(endpoint: &str, skip_cert_verification: bool) -> (r: Transport)
    ensures
        r == transport_for(endpoint@, skip_cert_verification),
{
    if starts_with(endpoint, "wss://") {
        Transport::Tls {
            accept_invalid_certs: skip_cert_verification,
            accept_invalid_hostnames: skip_cert_verification,
        }
    } else {
        Transport::Plain
    }
}

/// An address without white space around it, whose scheme holds no colon, splits at its scheme.
proof fn lemma_parts(scheme: Seq<char>, host: Seq<char>, path: Seq<char>)
    requires
        !host.contains('/'),
        path.len() == 0 || path[0] == '/',
        forall|j: int|
            0 <= j < scheme.len() ==> !#[trigger] occurs_at(
                scheme + "://"@ + host + path,
                "://"@,
                j,
            ),
    ensures
        first_occurrence(scheme + "://"@ + host + path, "://"@) == Some(scheme.len() as int),
        (scheme + "://"@ + host + path).take(scheme.len() as int) == scheme,
        host_of(scheme + "://"@ + host + path) == host,
{
    let address = scheme + "://"@ + host + path;
    let at = scheme.len() as int;
    reveal_strlit("://");
    assert(address.subrange(at, at + 3) == "://"@);
    assert(occurs_first_at(address, "://"@, at));
    lemma_first_occurrence(address, "://"@, at);
    assert(address.take(at) == scheme);
    assert(address.skip(at + 3) == host + path);
    lemma_before_first_of(host, path, '/');
}

/// A scheme without a colon is all that stands in front of the first `://`.
proof fn lemma_colon_free(scheme: Seq<char>, tail: Seq<char>)
    requires
        !scheme.contains(':'),
    ensures
        forall|j: int|
            0 <= j < scheme.len() ==> !#[trigger] occurs_at(scheme + tail, "://"@, j),
{
    reveal_strlit("://");
    assert forall|j: int| 0 <= j < scheme.len() implies !#[trigger] occurs_at(
        scheme + tail,
        "://"@,
        j,
    ) by {
        if occurs_at(scheme + tail, "://"@, j) {
            assert((scheme + tail).subrange(j, j + 3)[0] == scheme[j]);
            assert(scheme.contains(scheme[j]));
        }
    }
}

/// The address forms `ws`, `wss`, `http` and `https` all name the service of their host, under
/// the WebSocket scheme that goes with them; any path, and white space around it all, is dropped.
pub proof fn law_addresses_with_a_scheme(
    input: Seq<char>,
    scheme: Seq<char>,
    host: Seq<char>,
    path: Seq<char>,
)
    requires
        trimmed(input) == scheme + "://"@ + host + path,
        scheme == "ws"@ || scheme == "wss"@ || scheme == "http"@ || scheme == "https"@,
        host.len() > 0,
        !host.contains('/'),
        path.len() == 0 || path[0] == '/',
    ensures
        ws_url(input) == ws_scheme(scheme) + "://"@ + host + "/api/wol/service"@,
{
    let address = scheme + "://"@ + host + path;
    reveal_strlit("ws");
    reveal_strlit("wss");
    reveal_strlit("http");
    reveal_strlit("https");
    reveal_strlit("://");
    assert(!scheme.contains(':'));
    lemma_colon_free(scheme, "://"@ + host + path);
    assert(scheme + ("://"@ + host + path) == address);
    lemma_parts(scheme, host, path);
    assert(host.contains(host.last()));
}

/// A bare host, with or without a port, names the service of that host over plain WebSocket; any
/// path, and white space around it all, is dropped.
pub proof fn law_bare_addresses(input: Seq<char>, host: Seq<char>, path: Seq<char>)
    requires
        trimmed(input) == host + path,
        host.len() > 0,
        !host.contains('/'),
        path.len() == 0 || path[0] == '/',
        !occurs(host + path, "://"@),
    ensures
        ws_url(input) == "ws"@ + "://"@ + host + "/api/wol/service"@,
{
    lemma_before_first_of(host, path, '/');
    assert(host.contains(host.last()));
    reveal_strlit("ws");
}

/// A path behind the controller that an address names leaves it the same controller.
proof fn lemma_base_with_path(input: Seq<char>, path: Seq<char>)
    requires
        trimmed(input).len() > 0,
        path.len() > 0,
        path[0] == '/',
        !is_white_space(path.last()),
    ensures
        controller_base(controller_base(input) + path) == controller_base(input),
        controller_base(input).len() > 0,
        host_of(trimmed(input)).len() > 0 ==> controller_base(input).last() != '/',
{
    let address = trimmed(input);
    let scheme = scheme_of(address);
    let host = host_of(address);
    let url = scheme + "://"@ + host + path;
    reveal_strlit("ws");
    reveal_strlit("wss");
    reveal_strlit("http");
    reveal_strlit("https");
    reveal_strlit("://");
    lemma_trimmed_ends(input);
    match first_occurrence(address, "://"@) {
        Some(i) => {
            let found = choose|i: int| occurs_at(address, "://"@, i);
            lemma_occurs_has_first(address, "://"@, found);
            let first = choose|k: int| #[trigger] occurs_first_at(address, "://"@, k) && k <= found;
            lemma_first_occurrence(address, "://"@, first);
            assert(occurs_first_at(address, "://"@, i));
            lemma_before_first(address.skip(i + 3), '/');
            if scheme == address.take(i) {
                assert(url.take(i + 3) == address.take(i + 3)) by {
                    assert(address.subrange(i, i + 3) == "://"@);
                    assert(address.take(i + 3) == address.take(i) + address.subrange(i, i + 3));
                }
                assert forall|j: int| 0 <= j < scheme.len() implies !#[trigger] occurs_at(
                    url,
                    "://"@,
                    j,
                ) by {
                    if occurs_at(url, "://"@, j) {
                        assert(url.subrange(j, j + 3) == url.take(i + 3).subrange(j, j + 3));
                        assert(address.subrange(j, j + 3) == address.take(i + 3).subrange(
                            j,
                            j + 3,
                        ));
                        assert(occurs_at(address, "://"@, j));
                    }
                }
            } else {
                assert(!scheme.contains(':'));
                lemma_colon_free(scheme, "://"@ + host + path);
                assert(scheme + ("://"@ + host + path) == url);
            }
            assert(url[0] == if scheme.len() > 0 {
                scheme[0]
            } else {
                ':'
            });
        },
        None => {
            lemma_before_first(address, '/');
            assert(!scheme.contains(':'));
            lemma_colon_free(scheme, "://"@ + host + path);
            assert(scheme + ("://"@ + host + path) == url);
        },
    }
    lemma_parts(scheme, host, path);
    if host.len() > 0 {
        assert(host.contains(host.last()));
    }
    assert(url == controller_base(input) + path);
    assert(trimmed(url) == url);
    assert("ws"@ != "http"@ && "ws"@ != "https"@ && "wss"@ != "http"@ && "wss"@ != "https"@) by {
        assert("ws"@.len() == 2 && "wss"@.len() == 3 && "http"@.len() == 4 && "https"@.len() == 5);
    }
    assert(ws_scheme(scheme) == scheme);
}

/// An address that names a host is settled once it is normalised: the endpoint names the same
/// controller, and its own endpoint is itself.
pub proof fn law_normalizing_an_address_settles_it(input: Seq<char>)
    requires
        host_of(trimmed(input)).len() > 0,
    ensures
        controller_base(ws_url(input)) == controller_base(input),
        ws_url(ws_url(input)) == ws_url(input),
{
    reveal_strlit("/api/wol/service");
    reveal_strlit("://");
    if trimmed(input).len() == 0 {
        assert(!occurs(trimmed(input), "://"@));
    }
    lemma_base_with_path(input, "/api/wol/service"@);
    assert(ws_url(input) == controller_base(input) + "/api/wol/service"@);
}

/// A redirect that names no scheme of its own stays with the controller, unless there is none.
pub proof fn law_relative_redirects_stay_with_the_controller(
    current: Seq<char>,
    location: Seq<char>,
)
    requires
        trimmed(current).len() > 0,
        !"ws://"@.is_prefix_of(trimmed(location)),
        !"wss://"@.is_prefix_of(trimmed(location)),
        !"http://"@.is_prefix_of(trimmed(location)),
        !"https://"@.is_prefix_of(trimmed(location)),
    ensures
        controller_base(redirect_target(current, location)) == controller_base(current),
{
    let target = trimmed(location);
    lemma_trimmed_ends(location);
    reveal_strlit("/");
    if "/"@.is_prefix_of(target) {
        lemma_base_with_path(current, target);
    } else {
        lemma_base_with_path(current, "/"@ + target);
        assert(redirect_target(current, location) == controller_base(current) + ("/"@ + target));
    }
}

/// A blank address has no endpoint, and any other has one.
pub proof fn law_blank_addresses_have_no_endpoint(input: Seq<char>)
    ensures
        ws_url(input).len() == 0 <==> trimmed(input).len() == 0,
        controller_base(input).len() == 0 <==> trimmed(input).len() == 0,
{
    reveal_strlit("://");
    reveal_strlit("/api/wol/service");
}

/// Whatever stands in front of the first `://` of an address stands for itself as a scheme, unless
/// it is `http` or `https`.
pub proof fn law_other_schemes_stand_for_themselves(
    input: Seq<char>,
    scheme: Seq<char>,
    host: Seq<char>,
    path: Seq<char>,
)
    requires
        trimmed(input) == scheme + "://"@ + host + path,
        first_occurrence(trimmed(input), "://"@) == Some(scheme.len() as int),
        scheme != "http"@,
        scheme != "https"@,
        host.len() > 0,
        !host.contains('/'),
        path.len() == 0 || path[0] == '/',
    ensures
        controller_base(input) == scheme + "://"@ + host,
        ws_url(input) == scheme + "://"@ + host + "/api/wol/service"@,
{
    let address = scheme + "://"@ + host + path;
    let at = scheme.len() as int;
    reveal_strlit("://");
    assert(address.take(at) == scheme);
    assert(address.skip(at + 3) == host + path);
    lemma_before_first_of(host, path, '/');
    assert(host.contains(host.last()));
}

/// `http` becomes `ws` and `https` becomes `wss`; the two WebSocket schemes stay.
pub proof fn law_web_schemes_have_websocket_schemes(scheme: Seq<char>)
    ensures
        ws_scheme("http"@) == "ws"@,
        ws_scheme("https"@) == "wss"@,
        ws_scheme("ws"@) == "ws"@,
        ws_scheme("wss"@) == "wss"@,
        scheme != "http"@ && scheme != "https"@ ==> ws_scheme(scheme) == scheme,
{
    reveal_strlit("ws");
    reveal_strlit("wss");
    reveal_strlit("http");
    reveal_strlit("https");
    assert("ws"@.len() == 2 && "wss"@.len() == 3 && "http"@.len() == 4 && "https"@.len() == 5);
}

/// A redirect to a place of its own leads there, under the WebSocket scheme that goes with its
/// scheme: all that follows the scheme stays.
pub proof fn law_absolute_redirects_lead_where_they_say(
    current: Seq<char>,
    location: Seq<char>,
    rest: Seq<char>,
)
    ensures
        trimmed(location) == "ws://"@ + rest ==> redirect_target(current, location) == "ws://"@
            + rest,
        trimmed(location) == "wss://"@ + rest ==> redirect_target(current, location) == "wss://"@
            + rest,
        trimmed(location) == "http://"@ + rest ==> redirect_target(current, location) == "ws://"@
            + rest,
        trimmed(location) == "https://"@ + rest ==> redirect_target(current, location) == "wss://"@
            + rest,
{
    reveal_strlit("ws://");
    reveal_strlit("wss://");
    reveal_strlit("http://");
    reveal_strlit("https://");
    let target = trimmed(location);
    if target == "ws://"@ + rest {
        assert(target.take(5) == "ws://"@);
    }
    if target == "wss://"@ + rest {
        assert(target.take(6) == "wss://"@);
    }
    if target == "http://"@ + rest {
        assert(target.take(7) == "http://"@);
        assert(target[0] == 'h');
        assert(target.skip(7) == rest);
    }
    if target == "https://"@ + rest {
        assert(target.take(8) == "https://"@);
        assert(target[0] == 'h' && target[4] == 's');
        assert(target.skip(8) == rest);
    }
}

/// A redirect that names no scheme of its own leads to its path at the controller.
pub proof fn law_relative_redirects_name_a_path(current: Seq<char>, location: Seq<char>)
    requires
        !"ws://"@.is_prefix_of(trimmed(location)),
        !"wss://"@.is_prefix_of(trimmed(location)),
        !"http://"@.is_prefix_of(trimmed(location)),
        !"https://"@.is_prefix_of(trimmed(location)),
    ensures
        ({
            let path = trimmed(location);
            redirect_target(current, location) == if path.len() > 0 && path[0] == '/' {
                controller_base(current) + path
            } else {
                controller_base(current) + seq!['/'] + path
            }
        }),
{
    reveal_strlit("/");
    assert("/"@ == seq!['/']);
    let path = trimmed(location);
    if path.len() > 0 && path[0] == '/' {
        assert("/"@ == path.subrange(0, 1));
    } else if "/"@.is_prefix_of(path) {
        assert(path.subrange(0, 1)[0] == path[0]);
    }
}

/// A probe leads somewhere exactly if it connected, or was redirected by one of the four statuses
/// that redirect and told in text where to; any other failure is told in its own words.
pub proof fn law_what_a_probe_leads_to(
    endpoint: Seq<char>,
    code: u16,
    status: Seq<char>,
    location: Option<Result<Seq<char>, Seq<char>>>,
    error: Seq<char>,
)
    ensures
        resolved(endpoint, ProbeModel::Connected) == Ok::<Seq<char>, Seq<char>>(endpoint),
        resolved(endpoint, ProbeModel::Failed(error)) == Err::<Seq<char>, Seq<char>>(error),
        ({
            let answer = resolved(endpoint, ProbeModel::Http { code, status, location });
            let redirects = code == 301 || code == 302 || code == 307 || code == 308;
            &&& answer is Ok <==> redirects && location is Some && location->Some_0 is Ok
            &&& answer is Ok ==> answer->Ok_0 == redirect_target(endpoint, location->Some_0->Ok_0)
            &&& !redirects ==> answer == Err::<Seq<char>, Seq<char>>("HTTP error: "@ + status)
            &&& redirects && location is None ==> answer == Err::<Seq<char>, Seq<char>>(
                "HTTP error: "@ + status + "，但响应里没有 Location"@,
            )
            &&& redirects && location is Some && location->Some_0 is Err ==> answer == Err::<
                Seq<char>,
                Seq<char>,
            >("跳转地址解析失败: "@ + location->Some_0->Err_0)
        }),
{
    reveal(resolved);
}

/// Exactly the endpoints that begin with `wss://` are secured, and neither certificates nor host
/// names go unchecked there unless the configuration says so.
pub proof fn law_checks_are_off_only_where_configured(endpoint: Seq<char>, skip: bool)
    ensures
        transport_for(endpoint, skip) is Plain <==> !(endpoint.len() >= 6 && endpoint.take(6)
            == "wss://"@),
        transport_for(endpoint, skip) matches Transport::Tls {
            accept_invalid_certs,
            accept_invalid_hostnames,
        } ==> accept_invalid_certs == skip && accept_invalid_hostnames == skip,
{
    reveal_strlit("wss://");
    if endpoint.len() >= 6 && endpoint.take(6) == "wss://"@ {
        assert("wss://"@.is_prefix_of(endpoint));
    }
    if "wss://"@.is_prefix_of(endpoint) {
        assert(endpoint.take(6) == "wss://"@);
    }
}

/// A result of texts and the outcome of a probe are modelled as they are.
pub proof fn law_the_model_of_a_probe_is_faithful(
    result: Result<String, String>,
    code: u16,
    status: String,
    location: Option<Result<String, String>>,
)
    ensures
        result matches Ok(text) ==> text_result(result) == Ok::<Seq<char>, Seq<char>>(text@),
        result matches Err(error) ==> text_result(result) == Err::<Seq<char>, Seq<char>>(error@),
        ProbeOutcome::Connected@ == ProbeModel::Connected,
        ProbeOutcome::Failed(status)@ == ProbeModel::Failed(status@),
        location is None ==> (ProbeOutcome::Http { code, status, location })@
            == (ProbeModel::Http { code, status: status@, location: None }),
        location matches Some(header) ==> (ProbeOutcome::Http { code, status, location })@
            == (ProbeModel::Http {
            code,
            status: status@,
            location: Some(text_result(header)),
        }),
{
}

} // verus!
