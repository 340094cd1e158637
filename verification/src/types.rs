//! The normalized log message, its decode rules, and the shared gateway
//! state.

use crate::encoding::hex_chars;
use crate::json::{
    clone_json, json_parse, jspec, jspec_obj, parse_json, JsonSpec, JsonValue,
};
use crate::signature::{hmac_sha1, hmac_sha1_sign, hmac_sha1_verify, MAX_MAC_INPUT};
use vstd::prelude::*;
use vstd::string::StringExecFns;

verus! {

broadcast use vstd::std_specs::vec::group_vec_axioms;

/// First member of an object with the given key, if any.
pub open spec fn lookup(fields: Seq<(Seq<char>, JsonSpec)>, key: Seq<char>) -> Option<JsonSpec>
    decreases fields.len(),
{
    if fields.len() == 0 {
        None
    } else if fields[0].0 == key {
        Some(fields[0].1)
    } else {
        lookup(fields.drop_first(), key)
    }
}

/// A required text field: present and a string, or the message is invalid.
pub open spec fn req_str(fields: Seq<(Seq<char>, JsonSpec)>, key: Seq<char>) -> Option<
    Seq<char>,
> {
    match lookup(fields, key) {
        Some(JsonSpec::Str(s)) => Some(s),
        _ => None,
    }
}

/// A required integer field.
pub open spec fn req_i64(fields: Seq<(Seq<char>, JsonSpec)>, key: Seq<char>) -> Option<i64> {
    match lookup(fields, key) {
        Some(JsonSpec::Int(i)) => Some(i),
        _ => None,
    }
}

/// An optional text field: absent and null decode to nothing; any other
/// non-string value makes the message invalid.
pub open spec fn opt_str(fields: Seq<(Seq<char>, JsonSpec)>, key: Seq<char>) -> Option<
    Option<Seq<char>>,
> {
    match lookup(fields, key) {
        None => Some(None),
        Some(JsonSpec::Null) => Some(None),
        Some(JsonSpec::Str(s)) => Some(Some(s)),
        Some(_) => None,
    }
}

/// An optional small-integer field, range checked.
pub open spec fn opt_i16(fields: Seq<(Seq<char>, JsonSpec)>, key: Seq<char>) -> Option<
    Option<i16>,
> {
    match lookup(fields, key) {
        None => Some(None),
        Some(JsonSpec::Null) => Some(None),
        Some(JsonSpec::Int(i)) => if -0x8000 <= i && i <= 0x7fff {
            Some(Some(i as i16))
        } else {
            None
        },
        Some(_) => None,
    }
}

/// An optional integer field.
pub open spec fn opt_i64(fields: Seq<(Seq<char>, JsonSpec)>, key: Seq<char>) -> Option<
    Option<i64>,
> {
    match lookup(fields, key) {
        None => Some(None),
        Some(JsonSpec::Null) => Some(None),
        Some(JsonSpec::Int(i)) => Some(Some(i)),
        Some(_) => None,
    }
}

/// Every element a string, or nothing.
pub open spec fn all_strings(a: Seq<JsonSpec>) -> Option<Seq<Seq<char>>>
    decreases a.len(),
{
    if a.len() == 0 {
        Some(Seq::empty())
    } else {
        match (all_strings(a.drop_last()), a.last()) {
            (Some(init), JsonSpec::Str(s)) => Some(init.push(s)),
            _ => None,
        }
    }
}

/// An optional list-of-text field: absent decodes to the empty list.
pub open spec fn opt_str_list(fields: Seq<(Seq<char>, JsonSpec)>, key: Seq<char>) -> Option<
    Seq<Seq<char>>,
> {
    match lookup(fields, key) {
        None => Some(Seq::empty()),
        Some(JsonSpec::Arr(a)) => all_strings(a),
        Some(_) => None,
    }
}

/// The decode rule for the free-form message payload: a JSON string whose
/// contents are themselves valid JSON is replaced by the nested parse result,
/// one level only; everything else is kept verbatim.
pub open spec fn decode_message_data(v: JsonSpec) -> JsonSpec {
    match v {
        JsonSpec::Str(s) => match json_parse(s) {
            Some(nested) => nested,
            None => JsonSpec::Str(s),
        },
        _ => v,
    }
}

/// The message payload field: absent decodes to null, then the decode rule
/// applies.
pub open spec fn message_data_of(fields: Seq<(Seq<char>, JsonSpec)>) -> JsonSpec {
    match lookup(fields, "message"@) {
        None => JsonSpec::Null,
        Some(v) => decode_message_data(v),
    }
}

/// Abstract shape of the nested proxy-request details.
pub struct ProxySpec {
    pub timestamp: i64,
    pub method: Seq<char>,
    pub scheme: Seq<char>,
    pub host: Seq<char>,
    pub user_agent: Seq<Seq<char>>,
    pub referer: Option<Seq<char>>,
    pub status_code: Option<i64>,
    pub client_ip: Seq<char>,
    pub region: Seq<char>,
    pub cache_id: Option<Seq<char>>,
    pub vercel_cache: Option<Seq<char>>,
}

/// How an object decodes to proxy details.
pub open spec fn proxy_of(j: JsonSpec) -> Option<ProxySpec> {
    match j {
        JsonSpec::Obj(f) => {
            let timestamp = req_i64(f, "timestamp"@);
            let method = req_str(f, "method"@);
            let scheme = req_str(f, "scheme"@);
            let host = req_str(f, "host"@);
            let user_agent = opt_str_list(f, "userAgent"@);
            let referer = opt_str(f, "referer"@);
            let status_code = opt_i64(f, "statusCode"@);
            let client_ip = req_str(f, "clientIp"@);
            let region = req_str(f, "region"@);
            let cache_id = opt_str(f, "cacheId"@);
            let vercel_cache = opt_str(f, "vercelCache"@);
            if timestamp is Some && method is Some && scheme is Some && host is Some
                && user_agent is Some && referer is Some && status_code is Some && client_ip
                is Some && region is Some && cache_id is Some && vercel_cache is Some {
                Some(
                    ProxySpec {
                        timestamp: timestamp->0,
                        method: method->0,
                        scheme: scheme->0,
                        host: host->0,
                        user_agent: user_agent->0,
                        referer: referer->0,
                        status_code: status_code->0,
                        client_ip: client_ip->0,
                        region: region->0,
                        cache_id: cache_id->0,
                        vercel_cache: vercel_cache->0,
                    },
                )
            } else {
                None
            }
        },
        _ => None,
    }
}

/// An optional proxy field.
pub open spec fn opt_proxy(fields: Seq<(Seq<char>, JsonSpec)>) -> Option<Option<ProxySpec>> {
    match lookup(fields, "proxy"@) {
        None => Some(None),
        Some(JsonSpec::Null) => Some(None),
        Some(j) => match proxy_of(j) {
            Some(p) => Some(Some(p)),
            None => None,
        },
    }
}

/// Abstract shape of one normalized log message.
pub struct MsgSpec {
    pub id: Seq<char>,
    pub message: JsonSpec,
    pub timestamp: i64,
    pub output_type: Option<Seq<char>>,
    pub source: Seq<char>,
    pub project_name: Option<Seq<char>>,
    pub project_id: Seq<char>,
    pub deployment_id: Seq<char>,
    pub build_id: Option<Seq<char>>,
    pub host: Seq<char>,
    pub path: Option<Seq<char>>,
    pub entrypoint: Option<Seq<char>>,
    pub request_id: Option<Seq<char>>,
    pub proxy: Option<ProxySpec>,
    pub status_code: Option<i16>,
    pub execution_region: Option<Seq<char>>,
    pub level: Option<Seq<char>>,
    pub environment: Option<Seq<char>>,
    pub branch: Option<Seq<char>>,
}

/// How a JSON document decodes to one message. The identifier, timestamp,
/// source, project, deployment and host are owed; everything else decodes to
/// an absent value when missing or null.
pub open spec fn msg_of(j: JsonSpec) -> Option<MsgSpec> {
    match j {
        JsonSpec::Obj(f) => {
            let id = req_str(f, "id"@);
            let timestamp = req_i64(f, "timestamp"@);
            let output_type = opt_str(f, "type"@);
            let source = req_str(f, "source"@);
            let project_name = opt_str(f, "projectName"@);
            let project_id = req_str(f, "projectId"@);
            let deployment_id = req_str(f, "deploymentId"@);
            let build_id = opt_str(f, "buildId"@);
            let host = req_str(f, "host"@);
            let path = opt_str(f, "path"@);
            let entrypoint = opt_str(f, "entrypoint"@);
            let request_id = opt_str(f, "requestId"@);
            let proxy = opt_proxy(f);
            let status_code = opt_i16(f, "statusCode"@);
            let execution_region = opt_str(f, "executionRegion"@);
            let level = opt_str(f, "level"@);
            let environment = opt_str(f, "environment"@);
            let branch = opt_str(f, "branch"@);
            if id is Some && timestamp is Some && output_type is Some && source is Some
                && project_name is Some && project_id is Some && deployment_id is Some
                && build_id is Some && host is Some && path is Some && entrypoint is Some
                && request_id is Some && proxy is Some && status_code is Some
                && execution_region is Some && level is Some && environment is Some && branch
                is Some {
                Some(
                    MsgSpec {
                        id: id->0,
                        message: message_data_of(f),
                        timestamp: timestamp->0,
                        output_type: output_type->0,
                        source: source->0,
                        project_name: project_name->0,
                        project_id: project_id->0,
                        deployment_id: deployment_id->0,
                        build_id: build_id->0,
                        host: host->0,
                        path: path->0,
                        entrypoint: entrypoint->0,
                        request_id: request_id->0,
                        proxy: proxy->0,
                        status_code: status_code->0,
                        execution_region: execution_region->0,
                        level: level->0,
                        environment: environment->0,
                        branch: branch->0,
                    },
                )
            } else {
                None
            }
        },
        _ => None,
    }
}

/// Nested proxy-request details carried by some messages.
pub struct VercelProxy {
    pub timestamp: i64,
    pub method: String,
    pub scheme: String,
    pub host: String,
    pub user_agent: Vec<String>,
    pub referer: Option<String>,
    pub status_code: Option<i64>,
    pub client_ip: String,
    pub region: String,
    pub cache_id: Option<String>,
    pub vercel_cache: Option<String>,
}

/// View of an optional owned string.
pub open spec fn opt_view(o: Option<String>) -> Option<Seq<char>> {
    match o {
        Some(s) => Some(s@),
        None => None,
    }
}

/// Views of a list of owned strings.
pub open spec fn strs_view(v: Seq<String>) -> Seq<Seq<char>> {
    Seq::new(v.len(), |i: int| v[i]@)
}

impl View for VercelProxy {
    type V = ProxySpec;

    open spec fn view(&self) -> ProxySpec {
        ProxySpec {
            timestamp: self.timestamp,
            method: self.method@,
            scheme: self.scheme@,
            host: self.host@,
            user_agent: strs_view(self.user_agent@),
            referer: opt_view(self.referer),
            status_code: self.status_code,
            client_ip: self.client_ip@,
            region: self.region@,
            cache_id: opt_view(self.cache_id),
            vercel_cache: opt_view(self.vercel_cache),
        }
    }
}

/// One normalized log event.
pub struct Message {
    pub id: String,
    pub message: JsonValue,
    pub timestamp: i64,
    pub output_type: Option<String>,
    pub source: String,
    pub project_name: Option<String>,
    pub project_id: String,
    pub deployment_id: String,
    pub build_id: Option<String>,
    pub host: String,
    pub path: Option<String>,
    pub entrypoint: Option<String>,
    pub request_id: Option<String>,
    pub proxy: Option<VercelProxy>,
    pub status_code: Option<i16>,
    pub execution_region: Option<String>,
    pub level: Option<String>,
    pub environment: Option<String>,
    pub branch: Option<String>,
}

impl View for Message {
    type V = MsgSpec;

    open spec fn view(&self) -> MsgSpec {
        MsgSpec {
            id: self.id@,
            message: self.message@,
            timestamp: self.timestamp,
            output_type: opt_view(self.output_type),
            source: self.source@,
            project_name: opt_view(self.project_name),
            project_id: self.project_id@,
            deployment_id: self.deployment_id@,
            build_id: opt_view(self.build_id),
            host: self.host@,
            path: opt_view(self.path),
            entrypoint: opt_view(self.entrypoint),
            request_id: opt_view(self.request_id),
            proxy: match self.proxy {
                Some(p) => Some(p@),
                None => None,
            },
            status_code: self.status_code,
            execution_region: opt_view(self.execution_region),
            level: opt_view(self.level),
            environment: opt_view(self.environment),
            branch: opt_view(self.branch),
        }
    }
}

/// First member of an object value with the given key.
fn get_field<'a>(obj: &'a Vec<(String, JsonValue)>, key: &str) -> (r: Option<&'a JsonValue>)
    ensures
        match r {
            Some(v) => lookup(jspec_obj(obj@), key@) == Some(v@),
            None => lookup(jspec_obj(obj@), key@) is None,
        },
{
    let ks: String = key.to_owned();
    let ghost pairs = jspec_obj(obj@);
    proof {
        crate::json::lemma_jspec_obj(obj@);
        assert(pairs.skip(0) =~= pairs);
    }
    let mut i: usize = 0;
    while i < obj.len()
        invariant
            i <= obj@.len(),
            ks@ == key@,
            pairs == jspec_obj(obj@),
            pairs.len() == obj@.len(),
            forall|k: int| 0 <= k < obj@.len() ==> pairs[k] == (obj@[k].0@, jspec(obj@[k].1)),
            lookup(pairs, key@) == lookup(pairs.skip(i as int), key@),
        decreases obj@.len() - i,
    {
        let pair = &obj[i];
        if pair.0 == ks {
            proof {
                assert(pairs.skip(i as int)[0] == pairs[i as int]);
            }
            return Some(&pair.1);
        }
        i += 1;
        proof {
            assert(pairs.skip(i as int - 1)[0] == pairs[i as int - 1]);
            assert(pairs.skip(i as int - 1).drop_first() =~= pairs.skip(i as int));
        }
    }
    proof {
        assert(pairs.skip(obj@.len() as int) =~= Seq::<(Seq<char>, JsonSpec)>::empty());
    }
    None
}

/// A required text field of an object value.
fn get_req_str(obj: &Vec<(String, JsonValue)>, key: &str) -> (r: Option<String>)
    ensures
        match r {
            Some(s) => req_str(jspec_obj(obj@), key@) == Some(s@),
            None => req_str(jspec_obj(obj@), key@) is None,
        },
{
    match get_field(obj, key) {
        Some(JsonValue::Str(s)) => Some(s.clone()),
        _ => None,
    }
}

/// A required integer field of an object value.
fn get_req_i64(obj: &Vec<(String, JsonValue)>, key: &str) -> (r: Option<i64>)
    ensures
        match r {
            Some(i) => req_i64(jspec_obj(obj@), key@) == Some(i),
            None => req_i64(jspec_obj(obj@), key@) is None,
        },
{
    match get_field(obj, key) {
        Some(JsonValue::Int(i)) => Some(*i),
        _ => None,
    }
}

/// An optional text field of an object value.
fn get_opt_str(obj: &Vec<(String, JsonValue)>, key: &str) -> (r: Option<Option<String>>)
    ensures
        match r {
            Some(o) => opt_str(jspec_obj(obj@), key@) == Some(opt_view(o)),
            None => opt_str(jspec_obj(obj@), key@) is None,
        },
{
    match get_field(obj, key) {
        None => Some(None),
        Some(JsonValue::Null) => Some(None),
        Some(JsonValue::Str(s)) => Some(Some(s.clone())),
        Some(_) => None,
    }
}

/// An optional small-integer field of an object value.
fn get_opt_i16(obj: &Vec<(String, JsonValue)>, key: &str) -> (r: Option<Option<i16>>)
    ensures
        match r {
            Some(o) => opt_i16(jspec_obj(obj@), key@) == Some(o),
            None => opt_i16(jspec_obj(obj@), key@) is None,
        },
{
    match get_field(obj, key) {
        None => Some(None),
        Some(JsonValue::Null) => Some(None),
        Some(JsonValue::Int(i)) => {
            let i = *i;
            if -0x8000 <= i && i <= 0x7fff {
                Some(Some(i as i16))
            } else {
                None
            }
        },
        Some(_) => None,
    }
}

/// An optional integer field of an object value.
fn get_opt_i64(obj: &Vec<(String, JsonValue)>, key: &str) -> (r: Option<Option<i64>>)
    ensures
        match r {
            Some(o) => opt_i64(jspec_obj(obj@), key@) == Some(o),
            None => opt_i64(jspec_obj(obj@), key@) is None,
        },
{
    match get_field(obj, key) {
        None => Some(None),
        Some(JsonValue::Null) => Some(None),
        Some(JsonValue::Int(i)) => Some(Some(*i)),
        Some(_) => None,
    }
}

/// An optional list-of-text field of an object value.
#[verifier::loop_isolation(false)]
fn get_opt_str_list(obj: &Vec<(String, JsonValue)>, key: &str) -> (r: Option<Vec<String>>)
    ensures
        match r {
            Some(v) => opt_str_list(jspec_obj(obj@), key@) == Some(strs_view(v@)),
            None => opt_str_list(jspec_obj(obj@), key@) is None,
        },
{
    match get_field(obj, key) {
        None => {
            let out: Vec<String> = Vec::new();
            proof {
                assert(strs_view(out@) =~= Seq::<Seq<char>>::empty());
            }
            Some(out)
        },
        Some(JsonValue::Arr(a)) => {
            let ghost elems = crate::json::jspec_seq(a@);
            proof {
                crate::json::lemma_jspec_seq(a@);
            }
            let mut out: Vec<String> = Vec::new();
            let mut i: usize = 0;
            proof {
                assert(elems.take(0) =~= Seq::<JsonSpec>::empty());
                assert(strs_view(out@) =~= Seq::<Seq<char>>::empty());
                assert(all_strings(elems.take(0)) == Some(strs_view(out@)));
            }
            while i < a.len()
                invariant
                    i <= a@.len(),
                    elems == crate::json::jspec_seq(a@),
                    elems.len() == a@.len(),
                    forall|k: int| 0 <= k < a@.len() ==> elems[k] == jspec(a@[k]),
                    all_strings(elems.take(i as int)) == Some(strs_view(out@)),
                decreases a@.len() - i,
            {
                match &a[i] {
                    JsonValue::Str(s) => {
                        out.push(s.clone());
                        proof {
                            assert(elems[i as int] == JsonSpec::Str(s@));
                            assert(elems.take(i as int + 1).drop_last() =~= elems.take(
                                i as int,
                            ));
                            assert(elems.take(i as int + 1).last() == elems[i as int]);
                            assert(strs_view(out@) =~= all_strings(
                                elems.take(i as int),
                            )->0.push(s@));
                        }
                    },
                    _ => {
                        proof {
                            lemma_all_strings_bad(elems, i as int);
                        }
                        return None;
                    },
                }
                i += 1;
            }
            proof {
                assert(elems.take(elems.len() as int) =~= elems);
            }
            Some(out)
        },
        Some(_) => None,
    }
}

/// If some element is no string, the whole list decodes to nothing.
proof fn lemma_all_strings_bad(a: Seq<JsonSpec>, i: int)
    requires
        0 <= i < a.len(),
        !(a[i] is Str),
    ensures
        all_strings(a) is None,
    decreases a.len(),
{
    if a.len() > 0 {
        if i < a.len() - 1 {
            lemma_all_strings_bad(a.drop_last(), i);
        }
    }
}

/// The message payload of an object value, decoded by the nested-parse rule.
fn get_message_data(obj: &Vec<(String, JsonValue)>) -> (r: JsonValue)
    ensures
        r@ == message_data_of(jspec_obj(obj@)),
{
    match get_field(obj, "message") {
        None => JsonValue::Null,
        Some(v) => match v {
            JsonValue::Str(s) => {
                match parse_json(s.as_str()) {
                    Some(nested) => nested,
                    None => JsonValue::Str(s.clone()),
                }
            },
            other => clone_json(other),
        },
    }
}

/// Decode the nested proxy details of an object value.
fn get_opt_proxy(obj: &Vec<(String, JsonValue)>) -> (r: Option<Option<VercelProxy>>)
    ensures
        match r {
            Some(Some(p)) => opt_proxy(jspec_obj(obj@)) == Some(Some(p@)),
            Some(None::<VercelProxy>) => opt_proxy(jspec_obj(obj@)) == Some(
                None::<ProxySpec>,
            ),
            None => opt_proxy(jspec_obj(obj@)) is None,
        },
{
    match get_field(obj, "proxy") {
        None => Some(None),
        Some(JsonValue::Null) => Some(None),
        Some(JsonValue::Obj(f)) => {
            match parse_proxy(f) {
                Some(p) => Some(Some(p)),
                None => None,
            }
        },
        Some(_) => None,
    }
}

/// Decode proxy details from an object's members.
fn parse_proxy(f: &Vec<(String, JsonValue)>) -> (r: Option<VercelProxy>)
    ensures
        match r {
            Some(p) => proxy_of(JsonSpec::Obj(jspec_obj(f@))) == Some(p@),
            None => proxy_of(JsonSpec::Obj(jspec_obj(f@))) is None,
        },
{
    let timestamp = get_req_i64(f, "timestamp");
    let method = get_req_str(f, "method");
    let scheme = get_req_str(f, "scheme");
    let host = get_req_str(f, "host");
    let user_agent = get_opt_str_list(f, "userAgent");
    let referer = get_opt_str(f, "referer");
    let status_code = get_opt_i64(f, "statusCode");
    let client_ip = get_req_str(f, "clientIp");
    let region = get_req_str(f, "region");
    let cache_id = get_opt_str(f, "cacheId");
    let vercel_cache = get_opt_str(f, "vercelCache");
    match (timestamp, method, scheme, host, user_agent, referer, status_code, client_ip,
        region, cache_id, vercel_cache) {
        (
            Some(timestamp),
            Some(method),
            Some(scheme),
            Some(host),
            Some(user_agent),
            Some(referer),
            Some(status_code),
            Some(client_ip),
            Some(region),
            Some(cache_id),
            Some(vercel_cache),
        ) => Some(
            VercelProxy {
                timestamp,
                method,
                scheme,
                host,
                user_agent,
                referer,
                status_code,
                client_ip,
                region,
                cache_id,
                vercel_cache,
            },
        ),
        _ => None,
    }
}

/// Decode one message from a JSON document.
pub fn parse_message(v: &JsonValue) -> (r: Option<Message>)
    ensures
        match r {
            Some(m) => msg_of(v@) == Some(m@),
            None => msg_of(v@) is None,
        },
{
    match v {
        JsonValue::Obj(f) => {
            let id = get_req_str(f, "id");
            let timestamp = get_req_i64(f, "timestamp");
            let output_type = get_opt_str(f, "type");
            let source = get_req_str(f, "source");
            let project_name = get_opt_str(f, "projectName");
            let project_id = get_req_str(f, "projectId");
            let deployment_id = get_req_str(f, "deploymentId");
            let build_id = get_opt_str(f, "buildId");
            let host = get_req_str(f, "host");
            let path = get_opt_str(f, "path");
            let entrypoint = get_opt_str(f, "entrypoint");
            let request_id = get_opt_str(f, "requestId");
            let proxy = get_opt_proxy(f);
            let status_code = get_opt_i16(f, "statusCode");
            let execution_region = get_opt_str(f, "executionRegion");
            let level = get_opt_str(f, "level");
            let environment = get_opt_str(f, "environment");
            let branch = get_opt_str(f, "branch");
            match (id, timestamp, output_type, source, project_name, project_id, deployment_id,
                build_id, host, path, entrypoint, request_id, proxy, status_code,
                execution_region, level, environment, branch) {
                (
                    Some(id),
                    Some(timestamp),
                    Some(output_type),
                    Some(source),
                    Some(project_name),
                    Some(project_id),
                    Some(deployment_id),
                    Some(build_id),
                    Some(host),
                    Some(path),
                    Some(entrypoint),
                    Some(request_id),
                    Some(proxy),
                    Some(status_code),
                    Some(execution_region),
                    Some(level),
                    Some(environment),
                    Some(branch),
                ) => {
                    let message = get_message_data(f);
                    Some(
                        Message {
                            id,
                            message,
                            timestamp,
                            output_type,
                            source,
                            project_name,
                            project_id,
                            deployment_id,
                            build_id,
                            host,
                            path,
                            entrypoint,
                            request_id,
                            proxy,
                            status_code,
                            execution_region,
                            level,
                            environment,
                            branch,
                        },
                    )
                },
                _ => None,
            }
        },
        _ => None,
    }
}

/// Views of a list of messages.
pub open spec fn msgs_view(v: Seq<Message>) -> Seq<MsgSpec> {
    Seq::new(v.len(), |i: int| v[i]@)
}

/// All messages of an array, in order; nothing if any element is invalid.
pub open spec fn msgs_of(a: Seq<JsonSpec>) -> Option<Seq<MsgSpec>>
    decreases a.len(),
{
    if a.len() == 0 {
        Some(Seq::empty())
    } else {
        match (msgs_of(a.drop_last()), msg_of(a.last())) {
            (Some(init), Some(m)) => Some(init.push(m)),
            _ => None,
        }
    }
}

/// How a JSON document decodes to the payload envelope: a bare array of
/// messages; any other root is a decode failure.
pub open spec fn payload_of(j: JsonSpec) -> Option<Seq<MsgSpec>> {
    match j {
        JsonSpec::Arr(a) => msgs_of(a),
        _ => None,
    }
}

/// What a payload text decodes to, end to end.
pub open spec fn parse_payload_spec(text: Seq<char>) -> Option<Seq<MsgSpec>> {
    match json_parse(text) {
        Some(j) => payload_of(j),
        None => None,
    }
}

/// The inbound payload envelope: an ordered batch of messages.
pub struct VercelPayload(pub Vec<Message>);

/// If some element is no valid message, the whole array decodes to nothing.
proof fn lemma_msgs_of_bad(a: Seq<JsonSpec>, i: int)
    requires
        0 <= i < a.len(),
        msg_of(a[i]) is None,
    ensures
        msgs_of(a) is None,
    decreases a.len(),
{
    if a.len() > 0 {
        if i < a.len() - 1 {
            lemma_msgs_of_bad(a.drop_last(), i);
        }
    }
}

/// Decode the payload envelope from a text.
#[verifier::loop_isolation(false)]
pub fn parse_payload(s: &str) -> (r: Option<VercelPayload>)
    ensures
        match r {
            Some(p) => parse_payload_spec(s@) == Some(msgs_view(p.0@)),
            None => parse_payload_spec(s@) is None,
        },
{
    let parsed = match parse_json(s) {
        Some(v) => v,
        None => {
            return None;
        },
    };
    match &parsed {
        JsonValue::Arr(a) => {
            let ghost elems = crate::json::jspec_seq(a@);
            proof {
                crate::json::lemma_jspec_seq(a@);
            }
            let mut out: Vec<Message> = Vec::new();
            let mut i: usize = 0;
            proof {
                assert(elems.take(0) =~= Seq::<JsonSpec>::empty());
                assert(msgs_view(out@) =~= Seq::<MsgSpec>::empty());
                assert(msgs_of(elems.take(0)) == Some(msgs_view(out@)));
            }
            while i < a.len()
                invariant
                    i <= a@.len(),
                    elems == crate::json::jspec_seq(a@),
                    elems.len() == a@.len(),
                    forall|k: int| 0 <= k < a@.len() ==> elems[k] == jspec(a@[k]),
                    msgs_of(elems.take(i as int)) == Some(msgs_view(out@)),
                decreases a@.len() - i,
            {
                match parse_message(&a[i]) {
                    Some(m) => {
                        let ghost mv = m@;
                        out.push(m);
                        proof {
                            assert(msg_of(elems[i as int]) == Some(mv));
                            assert(elems.take(i as int + 1).drop_last() =~= elems.take(
                                i as int,
                            ));
                            assert(elems.take(i as int + 1).last() == elems[i as int]);
                            assert(msgs_view(out@) =~= msgs_of(elems.take(i as int))->0.push(
                                mv,
                            ));
                        }
                    },
                    None => {
                        proof {
                            lemma_msgs_of_bad(elems, i as int);
                        }
                        return None;
                    },
                }
                i += 1;
            }
            proof {
                assert(elems.take(elems.len() as int) =~= elems);
            }
            Some(VercelPayload(out))
        },
        _ => None,
    }
}

/// An optional text as a JSON value: absent serializes as null.
pub open spec fn opt_str_json(o: Option<Seq<char>>) -> JsonSpec {
    match o {
        Some(s) => JsonSpec::Str(s),
        None => JsonSpec::Null,
    }
}

/// An optional small integer as a JSON value.
pub open spec fn opt_i16_json(o: Option<i16>) -> JsonSpec {
    match o {
        Some(i) => JsonSpec::Int(i as i64),
        None => JsonSpec::Null,
    }
}

/// An optional integer as a JSON value.
pub open spec fn opt_i64_json(o: Option<i64>) -> JsonSpec {
    match o {
        Some(i) => JsonSpec::Int(i),
        None => JsonSpec::Null,
    }
}

/// A list of texts as a JSON array of strings.
pub open spec fn strs_json(v: Seq<Seq<char>>) -> Seq<JsonSpec> {
    Seq::new(v.len(), |i: int| JsonSpec::Str(v[i]))
}

/// How proxy details serialize back to JSON.
pub open spec fn proxy_json(p: ProxySpec) -> JsonSpec {
    JsonSpec::Obj(
        seq![
            ("timestamp"@, JsonSpec::Int(p.timestamp)),
            ("method"@, JsonSpec::Str(p.method)),
            ("scheme"@, JsonSpec::Str(p.scheme)),
            ("host"@, JsonSpec::Str(p.host)),
            ("userAgent"@, JsonSpec::Arr(strs_json(p.user_agent))),
            ("referer"@, opt_str_json(p.referer)),
            ("statusCode"@, opt_i64_json(p.status_code)),
            ("clientIp"@, JsonSpec::Str(p.client_ip)),
            ("region"@, JsonSpec::Str(p.region)),
            ("cacheId"@, opt_str_json(p.cache_id)),
            ("vercelCache"@, opt_str_json(p.vercel_cache)),
        ],
    )
}

/// How a message serializes back to JSON, fields in declaration order with
/// lower-camel-case keys; absent values serialize as null.
pub open spec fn msg_json(m: MsgSpec) -> JsonSpec {
    JsonSpec::Obj(
        seq![
            ("id"@, JsonSpec::Str(m.id)),
            ("message"@, m.message),
            ("timestamp"@, JsonSpec::Int(m.timestamp)),
            ("type"@, opt_str_json(m.output_type)),
            ("source"@, JsonSpec::Str(m.source)),
            ("projectName"@, opt_str_json(m.project_name)),
            ("projectId"@, JsonSpec::Str(m.project_id)),
            ("deploymentId"@, JsonSpec::Str(m.deployment_id)),
            ("buildId"@, opt_str_json(m.build_id)),
            ("host"@, JsonSpec::Str(m.host)),
            ("path"@, opt_str_json(m.path)),
            ("entrypoint"@, opt_str_json(m.entrypoint)),
            ("requestId"@, opt_str_json(m.request_id)),
            (
                "proxy"@,
                match m.proxy {
                    Some(p) => proxy_json(p),
                    None => JsonSpec::Null,
                },
            ),
            ("statusCode"@, opt_i16_json(m.status_code)),
            ("executionRegion"@, opt_str_json(m.execution_region)),
            ("level"@, opt_str_json(m.level)),
            ("environment"@, opt_str_json(m.environment)),
            ("branch"@, opt_str_json(m.branch)),
        ],
    )
}

/// An optional text field as an owned JSON value.
fn opt_str_value(o: &Option<String>) -> (r: JsonValue)
    ensures
        r@ == opt_str_json(opt_view(*o)),
{
    match o {
        Some(s) => JsonValue::Str(s.clone()),
        None => JsonValue::Null,
    }
}

/// An optional small integer as an owned JSON value.
fn opt_i16_value(o: &Option<i16>) -> (r: JsonValue)
    ensures
        r@ == opt_i16_json(*o),
{
    match o {
        Some(i) => JsonValue::Int(*i as i64),
        None => JsonValue::Null,
    }
}

/// An optional integer as an owned JSON value.
fn opt_i64_value(o: &Option<i64>) -> (r: JsonValue)
    ensures
        r@ == opt_i64_json(*o),
{
    match o {
        Some(i) => JsonValue::Int(*i),
        None => JsonValue::Null,
    }
}

/// A list of texts as an owned JSON array.
fn strs_value(v: &Vec<String>) -> (r: JsonValue)
    ensures
        r@ == JsonSpec::Arr(strs_json(strs_view(v@))),
{
    let mut items: Vec<JsonValue> = Vec::new();
    let mut i: usize = 0;
    while i < v.len()
        invariant
            i <= v@.len(),
            items@.len() == i,
            forall|k: int| 0 <= k < i ==> items@[k]@ == JsonSpec::Str(v@[k]@),
        decreases v@.len() - i,
    {
        items.push(JsonValue::Str(v[i].clone()));
        i += 1;
    }
    proof {
        crate::json::lemma_jspec_seq(items@);
        assert(crate::json::jspec_seq(items@) =~= strs_json(strs_view(v@)));
    }
    JsonValue::Arr(items)
}

/// A fresh key for an object member.
fn key(s: &str) -> (r: String)
    ensures
        r@ == s@,
{
    s.to_owned()
}

/// Serialize proxy details to an owned JSON value.
fn proxy_value(p: &VercelProxy) -> (r: JsonValue)
    ensures
        r@ == proxy_json(p@),
{
    let mut f: Vec<(String, JsonValue)> = Vec::new();
    f.push((key("timestamp"), JsonValue::Int(p.timestamp)));
    f.push((key("method"), JsonValue::Str(p.method.clone())));
    f.push((key("scheme"), JsonValue::Str(p.scheme.clone())));
    f.push((key("host"), JsonValue::Str(p.host.clone())));
    f.push((key("userAgent"), strs_value(&p.user_agent)));
    f.push((key("referer"), opt_str_value(&p.referer)));
    f.push((key("statusCode"), opt_i64_value(&p.status_code)));
    f.push((key("clientIp"), JsonValue::Str(p.client_ip.clone())));
    f.push((key("region"), JsonValue::Str(p.region.clone())));
    f.push((key("cacheId"), opt_str_value(&p.cache_id)));
    f.push((key("vercelCache"), opt_str_value(&p.vercel_cache)));
    proof {
        crate::json::lemma_jspec_obj(f@);
        assert(crate::json::jspec_obj(f@) =~= (match proxy_json(p@) {
            JsonSpec::Obj(o) => o,
            _ => Seq::empty(),
        }));
    }
    JsonValue::Obj(f)
}

/// Serialize one message to an owned JSON value.
pub fn message_to_json(m: &Message) -> (r: JsonValue)
    ensures
        r@ == msg_json(m@),
{
    let mut f: Vec<(String, JsonValue)> = Vec::new();
    f.push((key("id"), JsonValue::Str(m.id.clone())));
    f.push((key("message"), clone_json(&m.message)));
    f.push((key("timestamp"), JsonValue::Int(m.timestamp)));
    f.push((key("type"), opt_str_value(&m.output_type)));
    f.push((key("source"), JsonValue::Str(m.source.clone())));
    f.push((key("projectName"), opt_str_value(&m.project_name)));
    f.push((key("projectId"), JsonValue::Str(m.project_id.clone())));
    f.push((key("deploymentId"), JsonValue::Str(m.deployment_id.clone())));
    f.push((key("buildId"), opt_str_value(&m.build_id)));
    f.push((key("host"), JsonValue::Str(m.host.clone())));
    f.push((key("path"), opt_str_value(&m.path)));
    f.push((key("entrypoint"), opt_str_value(&m.entrypoint)));
    f.push((key("requestId"), opt_str_value(&m.request_id)));
    let proxy = match &m.proxy {
        Some(p) => proxy_value(p),
        None => JsonValue::Null,
    };
    f.push((key("proxy"), proxy));
    f.push((key("statusCode"), opt_i16_value(&m.status_code)));
    f.push((key("executionRegion"), opt_str_value(&m.execution_region)));
    f.push((key("level"), opt_str_value(&m.level)));
    f.push((key("environment"), opt_str_value(&m.environment)));
    f.push((key("branch"), opt_str_value(&m.branch)));
    proof {
        crate::json::lemma_jspec_obj(f@);
        assert(crate::json::jspec_obj(f@) =~= (match msg_json(m@) {
            JsonSpec::Obj(o) => o,
            _ => Seq::empty(),
        }));
    }
    JsonValue::Obj(f)
}

/// One message as a serialized JSON line.
pub fn message_line(m: &Message) -> (r: Vec<u8>)
    ensures
        r@ == crate::json::json_bytes(msg_json(m@)),
{
    let v = message_to_json(m);
    crate::json::json_to_bytes(&v)
}

/// Process-wide state shared by every request handler: the MAC secret and the
/// verification token echoed on success.
pub struct AppState {
    secret: Vec<u8>,
    verify_token: String,
}

impl AppState {
    /// The configured shared secret.
    pub closed spec fn secret(&self) -> Seq<u8> {
        self.secret@
    }

    /// The configured verification token.
    pub closed spec fn token(&self) -> Seq<char> {
        self.verify_token@
    }

    /// The secret is small enough for the MAC primitive.
    pub closed spec fn wf(&self) -> bool {
        self.secret@.len() < MAX_MAC_INPUT
    }

    /// Build the shared state from the verification token and the secret.
    pub fn new(vercel_verify: &str, vercel_secret: &[u8]) -> (r: AppState)
        requires
            vercel_secret@.len() < MAX_MAC_INPUT,
        ensures
            r.secret() == vercel_secret@,
            r.token() == vercel_verify@,
            r.wf(),
    {
        AppState {
            secret: vstd::slice::slice_to_vec(vercel_secret),
            verify_token: vercel_verify.to_owned(),
        }
    }

    /// Sign a request body with the shared secret, spelled in lowercase hex.
    ///
    /// This method is only for use in tests.
    pub fn sign_request_for_test_only(&self, body: &[u8]) -> (r: String)
        requires
            self.wf(),
            body@.len() < MAX_MAC_INPUT,
        ensures
            r@ == hex_chars(hmac_sha1(self.secret(), body@)),
    {
        let tag = hmac_sha1_sign(self.secret.as_slice(), body);
        crate::encoding::encode_hex(tag.as_slice())
    }

    /// Whether a decoded signature authenticates a request body.
    pub fn verify_signature(&self, body: &[u8], sig_bytes: &[u8]) -> (r: bool)
        requires
            self.wf(),
            body@.len() < MAX_MAC_INPUT,
        ensures
            r <==> sig_bytes@ == hmac_sha1(self.secret(), body@),
    {
        hmac_sha1_verify(self.secret.as_slice(), body, sig_bytes)
    }

    /// The success response: status 200 and the verification token header.
    pub fn ok_response(&self) -> (r: (u16, String))
        ensures
            r.0 == 200,
            r.1@ == self.token(),
    {
        (200, self.verify_token.clone())
    }
}

} // verus!
