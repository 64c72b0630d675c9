//! The login message: what the agent tells the controller about itself.

use vstd::prelude::*;
use vstd::string::*;

use crate::clock::{seconds_at, unix_now};
use crate::config::{AppConfig, ConfigModel};
use crate::endpoint::{normalize_ws_url, ws_url};
use crate::envelope::{
    base64_text, des_encrypted, des_key, fits_frame, frame, frame_parts, pack_message, packed,
    padded, payload_fits, unsealed,
};

verus! {

/// `serde_json::Map`, an object of JSON, which keeps its members in the order they came.
#[verifier::external_type_specification]
#[verifier::external_body]
#[verifier::reject_recursive_types(K)]
#[verifier::reject_recursive_types(V)]
pub struct ExJsonMap<K, V>(serde_json::Map<K, V>);

/// `serde_json::Value`, a value of JSON.
#[verifier::external_type_specification]
#[verifier::external_body]
pub struct ExJsonValue(serde_json::Value);

/// The values that a login message holds.
pub enum JsonScalar {
    Bool(bool),
    Number(int),
    Text(Seq<char>),
}

/// The members of an object, in their order.
pub uninterp spec fn json_members(
    object: serde_json::Map<String, serde_json::Value>,
) -> Seq<(Seq<char>, JsonScalar)>;

/// What `serde_json` writes for an object with these members.
pub uninterp spec fn json_bytes(members: Seq<(Seq<char>, JsonScalar)>) -> Seq<u8>;

/// Whether one of the members has the given name.
pub open spec fn has_member(members: Seq<(Seq<char>, JsonScalar)>, name: Seq<char>) -> bool {
    exists|i: int| 0 <= i < members.len() && (#[trigger] members[i]).0 == name
}

/// `serde_json::Map::new`: an object without members.
#[verifier::external_body]
fn new_object() -> (object: serde_json::Map<String, serde_json::Value>)
    ensures
        json_members(object) == Seq::<(Seq<char>, JsonScalar)>::empty(),
{
    serde_json::Map::new()
}

/// `serde_json::Map::insert` of a truth value: a new name becomes the last member.
#[verifier::external_body]
fn insert_bool(
    object: &mut serde_json::Map<String, serde_json::Value>,
    name: &str,
    value: bool,
)
    requires
        !has_member(json_members(*old(object)), name@),
    ensures
        json_members(*final(object)) == json_members(*old(object)).push(
            (name@, JsonScalar::Bool(value)),
        ),
{
    object.insert(name.to_string(), serde_json::Value::from(value));
}

/// `serde_json::Map::insert` of a number: a new name becomes the last member.
#[verifier::external_body]
fn insert_number(
    object: &mut serde_json::Map<String, serde_json::Value>,
    name: &str,
    value: i64,
)
    requires
        !has_member(json_members(*old(object)), name@),
    ensures
        json_members(*final(object)) == json_members(*old(object)).push(
            (name@, JsonScalar::Number(value as int)),
        ),
{
    object.insert(name.to_string(), serde_json::Value::from(value));
}

/// `serde_json::Map::insert` of a text: a new name becomes the last member.
#[verifier::external_body]
fn insert_text(
    object: &mut serde_json::Map<String, serde_json::Value>,
    name: &str,
    value: &str,
)
    requires
        !has_member(json_members(*old(object)), name@),
    ensures
        json_members(*final(object)) == json_members(*old(object)).push(
            (name@, JsonScalar::Text(value@)),
        ),
{
    object.insert(name.to_string(), serde_json::Value::from(value));
}

/// `serde_json::to_vec`: it succeeds, since the members of an object have texts for names, and the
/// bytes are a function of the members.
#[verifier::external_body]
fn object_bytes(object: &serde_json::Map<String, serde_json::Value>) -> (r: Result<
    Vec<u8>,
    String,
>)
    ensures
        r is Ok,
        r->Ok_0@ == json_bytes(json_members(*object)),
{
    serde_json::to_vec(object).map_err(|error| error.to_string())
}

/// The members of the login message of a configuration, sent at the given second.
pub open spec fn login_members(config: ConfigModel, now: i64) -> Seq<(Seq<char>, JsonScalar)> {
    seq![
        ("Enable"@, JsonScalar::Bool(true)),
        ("ServerURL"@, JsonScalar::Text(ws_url(config.host))),
        ("InsecureSkipVerify"@, JsonScalar::Bool(config.skip_cert_verification)),
        ("Token"@, JsonScalar::Text(config.token)),
        ("Relay"@, JsonScalar::Bool(config.relay)),
        ("Key"@, JsonScalar::Text(config.device_key)),
        ("DeviceName"@, JsonScalar::Text(config.device_name)),
        ("Mac"@, JsonScalar::Text(config.mac)),
        ("BroadcastIP"@, JsonScalar::Text(config.broadcast_ip)),
        ("Port"@, JsonScalar::Number(config.wol_port as int)),
        ("Repeat"@, JsonScalar::Number(config.wol_repeat as int)),
        ("PowerOffCMD"@, JsonScalar::Text(config.power_off_cmd)),
        ("UpdateTime"@, JsonScalar::Number(config.update_time as int)),
        ("ClientTimeStamp"@, JsonScalar::Number(now as int)),
    ]
}

/// The login message of a configuration. There is none where the members take more memory than a
/// message can have.
#[verifier::opaque]
pub open spec fn login_message(config: ConfigModel, now: i64) -> Option<
    Result<Seq<char>, Seq<char>>,
> {
    let payload = json_bytes(login_members(config, now));
    if fits_frame(payload.len()) {
        Some(Ok(packed(0x30, payload, config.message_key)))
    } else {
        None
    }
}

/// A message with its text or the text of its error taken by their views.
pub open spec fn message_model(message: Option<Result<String, String>>) -> Option<
    Result<Seq<char>, Seq<char>>,
> {
    match message {
        None => None,
        Some(Ok(text)) => Some(Ok(text@)),
        Some(Err(error)) => Some(Err(error@)),
    }
}

/// A number that tells the names of the login members apart: their length and first character.
spec fn name_code(name: Seq<char>) -> int {
    1000 * name.len() + name[0] as int
}

/// The code of the name at position `i` of a login message.
spec fn login_code(i: int) -> int {
    if i == 0 {
        6069
    } else if i == 1 {
        9083
    } else if i == 2 {
        18073
    } else if i == 3 {
        5084
    } else if i == 4 {
        5082
    } else if i == 5 {
        3075
    } else if i == 6 {
        10068
    } else if i == 7 {
        3077
    } else if i == 8 {
        11066
    } else if i == 9 {
        4080
    } else if i == 10 {
        6082
    } else if i == 11 {
        11080
    } else if i == 12 {
        10085
    } else if i == 13 {
        15067
    } else {
        0
    }
}

/// No two members of a login message have one name.
proof fn lemma_login_names(config: ConfigModel, now: i64)
    ensures
        forall|i: int, j: int|
            0 <= i < j < 14 ==> (#[trigger] login_members(config, now)[i]).0 != (
            #[trigger] login_members(config, now)[j]).0,
{
    let members = login_members(config, now);
    reveal_strlit("Enable");
    reveal_strlit("ServerURL");
    reveal_strlit("InsecureSkipVerify");
    reveal_strlit("Token");
    reveal_strlit("Relay");
    reveal_strlit("Key");
    reveal_strlit("DeviceName");
    reveal_strlit("Mac");
    reveal_strlit("BroadcastIP");
    reveal_strlit("Port");
    reveal_strlit("Repeat");
    reveal_strlit("PowerOffCMD");
    reveal_strlit("UpdateTime");
    reveal_strlit("ClientTimeStamp");
    assert(name_code(members[0].0) == login_code(0));
    assert(name_code(members[1].0) == login_code(1));
    assert(name_code(members[2].0) == login_code(2));
    assert(name_code(members[3].0) == login_code(3));
    assert(name_code(members[4].0) == login_code(4));
    assert(name_code(members[5].0) == login_code(5));
    assert(name_code(members[6].0) == login_code(6));
    assert(name_code(members[7].0) == login_code(7));
    assert(name_code(members[8].0) == login_code(8));
    assert(name_code(members[9].0) == login_code(9));
    assert(name_code(members[10].0) == login_code(10));
    assert(name_code(members[11].0) == login_code(11));
    assert(name_code(members[12].0) == login_code(12));
    assert(name_code(members[13].0) == login_code(13));
    assert forall|i: int, j: int| 0 <= i < j < 14 implies (#[trigger] members[i]).0 != (
    #[trigger] members[j]).0 by {
        assert(name_code(members[i].0) == login_code(i));
        assert(name_code(members[j].0) == login_code(j));
    }
}

/// The members in front of a login member do not have its name.
proof fn lemma_name_is_new(config: ConfigModel, now: i64, k: int)
    requires
        0 <= k < 14,
    ensures
        !has_member(login_members(config, now).take(k), login_members(config, now)[k].0),
        login_members(config, now).take(k + 1) == login_members(config, now).take(k).push(
            login_members(config, now)[k],
        ),
{
    lemma_login_names(config, now);
    let members = login_members(config, now);
    assert forall|i: int| 0 <= i < k implies (#[trigger] members.take(k)[i]).0 != members[k].0 by {
        assert(members.take(k)[i] == members[i]);
    }
}

/// The encoded payload of a login message.
fn login_payload(config: &AppConfig, now: i64) -> (r: Result<Vec<u8>, String>)
    ensures
        r is Ok,
        r->Ok_0@ == json_bytes(login_members(config@, now)),
{
    let ghost members = login_members(config@, now);
    let server_url = normalize_ws_url(config.host.as_str());
    proof {
        lemma_name_is_new(config@, now, 0);
        lemma_name_is_new(config@, now, 1);
        lemma_name_is_new(config@, now, 2);
        lemma_name_is_new(config@, now, 3);
        lemma_name_is_new(config@, now, 4);
        lemma_name_is_new(config@, now, 5);
        lemma_name_is_new(config@, now, 6);
        lemma_name_is_new(config@, now, 7);
        lemma_name_is_new(config@, now, 8);
        lemma_name_is_new(config@, now, 9);
        lemma_name_is_new(config@, now, 10);
        lemma_name_is_new(config@, now, 11);
        lemma_name_is_new(config@, now, 12);
        lemma_name_is_new(config@, now, 13);
    }
    let mut object = new_object();
    assert(members.take(0) == Seq::<(Seq<char>, JsonScalar)>::empty());
    insert_bool(&mut object, "Enable", true);
    insert_text(&mut object, "ServerURL", server_url.as_str());
    insert_bool(&mut object, "InsecureSkipVerify", config.skip_cert_verification);
    insert_text(&mut object, "Token", config.token.as_str());
    insert_bool(&mut object, "Relay", config.relay);
    insert_text(&mut object, "Key", config.device_key.as_str());
    insert_text(&mut object, "DeviceName", config.device_name.as_str());
    insert_text(&mut object, "Mac", config.mac.as_str());
    insert_text(&mut object, "BroadcastIP", config.broadcast_ip.as_str());
    insert_number(&mut object, "Port", config.wol_port as i64);
    insert_number(&mut object, "Repeat", config.wol_repeat as i64);
    insert_text(&mut object, "PowerOffCMD", config.power_off_cmd.as_str());
    insert_number(&mut object, "UpdateTime", config.update_time);
    insert_number(&mut object, "ClientTimeStamp", now);
    assert(members.take(14) == members);
    object_bytes(&object)
}

/// The login message of a configuration, sent at the given second.
///
/// Whoever has the same key reads the members from it.
pub fn create_login_message_at(config: &AppConfig, now: i64) -> (r: Option<
    Result<String, String>,
>)
    ensures
        message_model(r) == login_message(config@, now),
        r is Some <==> fits_frame(json_bytes(login_members(config@, now)).len()),
        r matches Some(message) ==> {
            &&& message is Ok
            &&& unsealed(message->Ok_0@, config@.message_key) == Ok::<Seq<u8>, Seq<char>>(
                padded(frame(0x30, json_bytes(login_members(config@, now)))),
            )
            &&& frame_parts(unsealed(message->Ok_0@, config@.message_key)->Ok_0) == Ok::<
                (u8, Seq<u8>),
                Seq<char>,
            >((0x30, json_bytes(login_members(config@, now))))
        },
{
    proof {
        reveal(login_message);
    }
    match login_payload(config, now) {
        Err(error) => Some(Err(error)),
        Ok(payload) => if payload_fits(payload.len()) {
            Some(pack_message(0x30, payload.as_slice(), config.message_key.as_str()))
        } else {
            None
        },
    }
}

/// The login message of a configuration, sent now.
///
/// Whoever has the same key reads the members from it.
pub fn create_login_message(config: &AppConfig) -> (r: Option<Result<String, String>>)
    ensures
        exists|reading: std::time::SystemTime|
            {
                let payload = json_bytes(
                    login_members(config@, #[trigger] seconds_at(reading) as i64),
                );
                &&& message_model(r) == login_message(config@, seconds_at(reading) as i64)
                &&& r is Some <==> fits_frame(payload.len())
                &&& r matches Some(message) ==> {
                    &&& message is Ok
                    &&& unsealed(message->Ok_0@, config@.message_key) == Ok::<Seq<u8>, Seq<char>>(
                        padded(frame(0x30, payload)),
                    )
                    &&& frame_parts(unsealed(message->Ok_0@, config@.message_key)->Ok_0) == Ok::<
                        (u8, Seq<u8>),
                        Seq<char>,
                    >((0x30, payload))
                }
            },
{
    let now: i64 = unix_now();
    create_login_message_at(config, now)
}

/// The value of the member with the given name, if there is one.
pub open spec fn member(members: Seq<(Seq<char>, JsonScalar)>, name: Seq<char>) -> Option<
    JsonScalar,
> {
    if has_member(members, name) {
        Some(members[choose|i: int| 0 <= i < members.len() && (#[trigger] members[i]).0 == name].1)
    } else {
        None
    }
}

/// Where no two members have one name, each is the member of its name.
proof fn lemma_member(members: Seq<(Seq<char>, JsonScalar)>, k: int)
    requires
        0 <= k < members.len(),
        forall|i: int, j: int|
            0 <= i < j < members.len() ==> (#[trigger] members[i]).0 != (#[trigger] members[j]).0,
    ensures
        member(members, members[k].0) == Some(members[k].1),
{
    let name = members[k].0;
    let found = choose|i: int| 0 <= i < members.len() && (#[trigger] members[i]).0 == name;
    assert(members[k].0 == name);
    assert(0 <= found < members.len() && members[found].0 == name);
    if found < k {
        assert(members[found].0 != members[k].0);
    } else if k < found {
        assert(members[k].0 != members[found].0);
    }
}

/// A login has fourteen members. It says that the device takes part, and reports the service of
/// the controller, each setting of the configuration under its own name, and the time.
pub proof fn law_the_login_reports_each_setting(config: ConfigModel, now: i64)
    ensures
        login_members(config, now).len() == 14,
        member(login_members(config, now), "Enable"@) == Some(JsonScalar::Bool(true)),
        member(login_members(config, now), "ServerURL"@) == Some(JsonScalar::Text(ws_url(config.host))),
        member(login_members(config, now), "InsecureSkipVerify"@) == Some(JsonScalar::Bool(config.skip_cert_verification)),
        member(login_members(config, now), "Token"@) == Some(JsonScalar::Text(config.token)),
        member(login_members(config, now), "Relay"@) == Some(JsonScalar::Bool(config.relay)),
        member(login_members(config, now), "Key"@) == Some(JsonScalar::Text(config.device_key)),
        member(login_members(config, now), "DeviceName"@) == Some(JsonScalar::Text(config.device_name)),
        member(login_members(config, now), "Mac"@) == Some(JsonScalar::Text(config.mac)),
        member(login_members(config, now), "BroadcastIP"@) == Some(JsonScalar::Text(config.broadcast_ip)),
        member(login_members(config, now), "Port"@) == Some(JsonScalar::Number(config.wol_port as int)),
        member(login_members(config, now), "Repeat"@) == Some(JsonScalar::Number(config.wol_repeat as int)),
        member(login_members(config, now), "PowerOffCMD"@) == Some(JsonScalar::Text(config.power_off_cmd)),
        member(login_members(config, now), "UpdateTime"@) == Some(JsonScalar::Number(config.update_time as int)),
        member(login_members(config, now), "ClientTimeStamp"@) == Some(JsonScalar::Number(now as int)),
{
    lemma_login_names(config, now);
    lemma_member(login_members(config, now), 0);
    lemma_member(login_members(config, now), 1);
    lemma_member(login_members(config, now), 2);
    lemma_member(login_members(config, now), 3);
    lemma_member(login_members(config, now), 4);
    lemma_member(login_members(config, now), 5);
    lemma_member(login_members(config, now), 6);
    lemma_member(login_members(config, now), 7);
    lemma_member(login_members(config, now), 8);
    lemma_member(login_members(config, now), 9);
    lemma_member(login_members(config, now), 10);
    lemma_member(login_members(config, now), 11);
    lemma_member(login_members(config, now), 12);
    lemma_member(login_members(config, now), 13);
}

/// Two logins are the same only if their configurations agree in everything that is reported, and
/// the times are the same.
pub proof fn law_logins_differ_where_configurations_do(
    one: ConfigModel,
    at: i64,
    other: ConfigModel,
    later: i64,
)
    requires
        login_members(one, at) == login_members(other, later),
    ensures
        ws_url(one.host) == ws_url(other.host),
        one.skip_cert_verification == other.skip_cert_verification,
        one.token == other.token,
        one.relay == other.relay,
        one.device_key == other.device_key,
        one.device_name == other.device_name,
        one.mac == other.mac,
        one.broadcast_ip == other.broadcast_ip,
        one.wol_port == other.wol_port,
        one.wol_repeat == other.wol_repeat,
        one.power_off_cmd == other.power_off_cmd,
        one.update_time == other.update_time,
        at == later,
{
    law_the_login_reports_each_setting(one, at);
    law_the_login_reports_each_setting(other, later);
}

/// What a login does not report does not matter to it, but for the key that it is packed with.
pub proof fn law_logins_agree_where_reported_settings_do(
    one: ConfigModel,
    other: ConfigModel,
    now: i64,
)
    requires
        one.host == other.host,
        one.skip_cert_verification == other.skip_cert_verification,
        one.token == other.token,
        one.relay == other.relay,
        one.device_key == other.device_key,
        one.device_name == other.device_name,
        one.mac == other.mac,
        one.broadcast_ip == other.broadcast_ip,
        one.wol_port == other.wol_port,
        one.wol_repeat == other.wol_repeat,
        one.power_off_cmd == other.power_off_cmd,
        one.update_time == other.update_time,
    ensures
        login_members(one, now) == login_members(other, now),
        one.message_key == other.message_key ==> login_message(one, now) == login_message(
            other,
            now,
        ),
{
    reveal(login_message);
}

/// There is a login message exactly where its members fit a frame, and it is the text of a frame
/// of the kind that the controller takes for a login, packed with the key of the configuration.
pub proof fn law_the_login_is_packed_with_the_configured_key(config: ConfigModel, now: i64)
    ensures
        login_message(config, now) == (if fits_frame(json_bytes(login_members(config, now)).len()) {
            Some(
                Ok::<Seq<char>, Seq<char>>(
                    base64_text(
                        des_encrypted(
                            des_key(config.message_key),
                            padded(frame('0' as u8, json_bytes(login_members(config, now)))),
                        ),
                    ),
                ),
            )
        } else {
            None
        }),
{
    reveal(login_message);
}

/// A login message that may be missing is modelled as it is.
pub proof fn law_the_model_of_a_login_is_faithful(message: Option<Result<String, String>>)
    ensures
        message is None <==> message_model(message) is None,
        message matches Some(Ok(text)) ==> message_model(message) == Some(
            Ok::<Seq<char>, Seq<char>>(text@),
        ),
        message matches Some(Err(error)) ==> message_model(message) == Some(
            Err::<Seq<char>, Seq<char>>(error@),
        ),
{
}

} // verus!
