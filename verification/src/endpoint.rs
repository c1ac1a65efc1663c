//! Addresses and calls of the model server that stands behind the proxy.
use vstd::prelude::*;

verus! {

/// The time limit of an ordinary call, in seconds: what the model server itself allows
/// for reading and writing.
pub const CALL_TIMEOUT_SECS: u64 = 3600;

/// The time limit of a call that unloads a model, in seconds.
pub const UNLOAD_TIMEOUT_SECS: u64 = 30;

/// The address of `path` on the server `host`, at `port`.
pub open spec fn address(host: Seq<char>, port: u16, path: Seq<char>) -> Seq<char> {
    "http://"@ + host + ":"@ + crate::text::decimal(port as nat) + path
}

/// The address of the slots of `model`.
pub open spec fn slots_address(host: Seq<char>, port: u16, model: Seq<char>) -> Seq<char> {
    address(host, port, "/slots?model="@ + model)
}

/// A call that reads from the model server or passes a request on to it.
pub struct Call {
    pub url: String,
    pub timeout_secs: u64,
}

impl View for Call {
    type V = (Seq<char>, u64);

    open spec fn view(&self) -> (Seq<char>, u64) {
        (self.url@, self.timeout_secs)
    }
}

/// A posted call that tells the model server to unload a model. Its body is a JSON object
/// whose only member, `model`, names the model.
pub struct UnloadCall {
    pub url: String,
    pub timeout_secs: u64,
    pub content_type: String,
    pub model: String,
}

/// What an [`UnloadCall`] says.
pub struct UnloadCallView {
    pub url: Seq<char>,
    pub timeout_secs: u64,
    pub content_type: Seq<char>,
    pub model: Seq<char>,
}

impl View for UnloadCall {
    type V = UnloadCallView;

    open spec fn view(&self) -> UnloadCallView {
        UnloadCallView {
            url: self.url@,
            timeout_secs: self.timeout_secs,
            content_type: self.content_type@,
            model: self.model@,
        }
    }
}

/// The call that unloads `model` from the server `host`, at `port`.
pub open spec fn unload_call(host: Seq<char>, port: u16, model: Seq<char>) -> UnloadCallView {
    UnloadCallView {
        url: address(host, port, "/models/unload"@),
        timeout_secs: UNLOAD_TIMEOUT_SECS,
        content_type: "application/json"@,
        model,
    }
}

/// The address of `path` on the server `host`, at `port`.
pub fn address_of(host: &str, port: u16, path: &str) -> (url: String)
    ensures
        url@ == address(host@, port, path@),
{
    let mut url = "http://".to_string();
    url.append(host);
    url.append(":");
    let port_text = crate::text::decimal_of(port);
    url.append(port_text.as_str());
    url.append(path);
    url
}

/// The call that lists the models of the server.
pub fn list_models(target_host: &str, target_port: u16) -> (call: Call)
    ensures
        call@ == (address(target_host@, target_port, "/v1/models"@), CALL_TIMEOUT_SECS),
{
    Call {
        url: address_of(target_host, target_port, "/v1/models"),
        timeout_secs: CALL_TIMEOUT_SECS,
    }
}

/// The call that lists the slots of `model`.
pub fn list_slots(target_host: &str, target_port: u16, model: &str) -> (call: Call)
    ensures
        call@ == (slots_address(target_host@, target_port, model@), CALL_TIMEOUT_SECS),
{
    let mut path = "/slots?model=".to_string();
    path.append(model);
    Call {
        url: address_of(target_host, target_port, path.as_str()),
        timeout_secs: CALL_TIMEOUT_SECS,
    }
}

/// The call that passes a request for `uri` on to the server.
pub fn forward(target_host: &str, target_port: u16, uri: &str) -> (call: Call)
    ensures
        call@ == (address(target_host@, target_port, uri@), CALL_TIMEOUT_SECS),
{
    Call { url: address_of(target_host, target_port, uri), timeout_secs: CALL_TIMEOUT_SECS }
}

/// The call that unloads `model`.
pub fn unload_model(target_host: &str, target_port: u16, model: &str) -> (call: UnloadCall)
    ensures
        call@ == unload_call(target_host@, target_port, model@),
{
    UnloadCall {
        url: address_of(target_host, target_port, "/models/unload"),
        timeout_secs: UNLOAD_TIMEOUT_SECS,
        content_type: "application/json".to_string(),
        model: model.to_string(),
    }
}

/// An address is that of the web, and names the server, the port in decimal, and the path,
/// one after the other and each as it is.
pub proof fn law_parts_of_an_address(host: Seq<char>, port: u16, path: Seq<char>)
    ensures
        ({
            let url = address(host, port, path);
            let numeral = crate::text::decimal(port as nat);
            let colon = 7 + host.len() as int;
            &&& url.len() == colon + 1 + numeral.len() + path.len()
            &&& url.take(7) == seq!['h', 't', 't', 'p', ':', '/', '/']
            &&& url.subrange(7, colon) == host
            &&& url[colon] == ':'
            &&& url.subrange(colon + 1, colon + 1 + numeral.len()) == numeral
            &&& url.skip(colon + 1 + numeral.len()) == path
        }),
{
    reveal_strlit("http://");
    reveal_strlit(":");
    let url = address(host, port, path);
    let numeral = crate::text::decimal(port as nat);
    let colon = 7 + host.len() as int;
    assert(url.take(7) == seq!['h', 't', 't', 'p', ':', '/', '/']);
    assert(url.subrange(7, colon) == host);
    assert(url.subrange(colon + 1, colon + 1 + numeral.len()) == numeral);
    assert(url.skip(colon + 1 + numeral.len()) == path);
}

/// The address of the slots of a model ends with the model's name as it is, behind the
/// question for it, and is otherwise that of any path on the same server.
pub proof fn law_slots_are_asked_of_the_model(host: Seq<char>, port: u16, model: Seq<char>)
    ensures
        ({
            let url = slots_address(host, port, model);
            let question = "/slots?model="@;
            let path = url.len() - model.len() - question.len();
            &&& url.skip(path) == question + model
            &&& url == address(host, port, url.skip(path))
        }),
{
    let question = "/slots?model="@;
    law_parts_of_an_address(host, port, question + model);
}

/// An unload is ordered of the server, for exactly the model it is meant for, as JSON, and
/// waits for half a minute.
pub proof fn law_unload_names_the_model(host: Seq<char>, port: u16, model: Seq<char>)
    ensures
        unload_call(host, port, model).model == model,
        unload_call(host, port, model).url == address(host, port, "/models/unload"@),
        unload_call(host, port, model).content_type == "application/json"@,
        unload_call(host, port, model).timeout_secs == 30,
{
}

/// An ordinary call may take an hour.
pub proof fn law_ordinary_calls_may_take_an_hour()
    ensures
        CALL_TIMEOUT_SECS == 3600,
{
}

/// What a call says is what is sent.
pub proof fn law_calls_say_what_is_sent(call: Call, unload: UnloadCall)
    ensures
        call@.0 == call.url@,
        call@.1 == call.timeout_secs,
        unload@.url == unload.url@,
        unload@.timeout_secs == unload.timeout_secs,
        unload@.content_type == unload.content_type@,
        unload@.model == unload.model@,
{
}

} // verus!
