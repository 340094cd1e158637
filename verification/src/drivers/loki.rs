//! The Loki-style push sink: builds one timestamped entry with a label set
//! per message. The HTTP call itself is performed by the caller; any non-2xx
//! answer is a failure, and this sink never retries.

use crate::encoding::{dec_int, push_bytes, push_dec_i64};
use crate::json::{json_bytes, write_json, JsonSpec};
use crate::types::{msg_json, opt_str_json, Message, MsgSpec};
use vstd::prelude::*;
use vstd::utf8::encode_utf8;

verus! {

/// The sink's expected time unit is nanoseconds; source timestamps are
/// scaled by this factor.
pub const TIMESTAMP_SCALE: i64 = 1000000;

/// The label set attached to a message's entry, keys in serialization order.
pub open spec fn labels_json(m: MsgSpec) -> JsonSpec {
    JsonSpec::Obj(
        seq![
            ("branch"@, opt_str_json(m.branch)),
            ("deployment"@, JsonSpec::Str(m.deployment_id)),
            ("environment"@, opt_str_json(m.environment)),
            ("project"@, opt_str_json(m.project_name)),
            ("source"@, JsonSpec::Str(m.source)),
        ],
    )
}

/// How one byte of an embedded document is written inside a JSON string.
pub open spec fn esc_byte(b: u8) -> Seq<u8> {
    if b == 0x22 {
        seq![0x5c, 0x22]
    } else if b == 0x5c {
        seq![0x5c, 0x5c]
    } else if 0x20 <= b && b <= 0x7e {
        seq![b]
    } else {
        seq![0x5c, 0x75, 0x30, 0x30, crate::json::hex_byte(b as int / 16), crate::json::hex_byte(
            b as int % 16,
        )]
    }
}

/// A byte string written inside a JSON string.
pub open spec fn esc_bytes(s: Seq<u8>) -> Seq<u8>
    decreases s.len(),
{
    if s.len() == 0 {
        Seq::empty()
    } else {
        esc_bytes(s.drop_last()) + esc_byte(s.last())
    }
}

/// The push body for one message: a single stream carrying the label set and
/// one value pair of the scaled timestamp and the serialized message.
pub open spec fn loki_body(m: MsgSpec) -> Seq<u8> {
    encode_utf8("{\"streams\":[{\"stream\":"@) + json_bytes(labels_json(m)) + encode_utf8(
        ",\"values\":[[\""@,
    ) + dec_int(m.timestamp * TIMESTAMP_SCALE) + encode_utf8("\",\""@) + esc_bytes(
        json_bytes(msg_json(m)),
    ) + encode_utf8("\"]]}]}"@)
}

/// Append the escape of one embedded byte.
fn push_esc_byte(b: u8, out: &mut Vec<u8>)
    ensures
        final(out)@ == old(out)@ + esc_byte(b),
{
    if b == 0x22 {
        out.push(0x5c);
        out.push(0x22);
    } else if b == 0x5c {
        out.push(0x5c);
        out.push(0x5c);
    } else if 0x20 <= b && b <= 0x7e {
        out.push(b);
    } else {
        out.push(0x5c);
        out.push(0x75);
        out.push(0x30);
        out.push(0x30);
        out.push(crate::json::hex_byte_of((b / 16) as u16));
        out.push(crate::json::hex_byte_of((b % 16) as u16));
    }
    proof {
        assert(out@ =~= old(out)@ + esc_byte(b));
    }
}

/// Append a byte string escaped for embedding in a JSON string.
fn push_esc_bytes(s: &[u8], out: &mut Vec<u8>)
    ensures
        final(out)@ == old(out)@ + esc_bytes(s@),
{
    let mut i: usize = 0;
    proof {
        assert(esc_bytes(s@.take(0)) =~= Seq::<u8>::empty());
        assert(out@ =~= old(out)@ + esc_bytes(s@.take(0)));
    }
    while i < s.len()
        invariant
            i <= s@.len(),
            out@ == old(out)@ + esc_bytes(s@.take(i as int)),
        decreases s@.len() - i,
    {
        push_esc_byte(s[i], out);
        i += 1;
        proof {
            assert(s@.take(i as int).drop_last() =~= s@.take(i as int - 1));
            assert(s@.take(i as int).last() == s@[i as int - 1]);
            assert(out@ =~= old(out)@ + esc_bytes(s@.take(i as int)));
        }
    }
    proof {
        assert(s@.take(s@.len() as int) =~= s@);
    }
}

/// The HTTP push sink: one endpoint and optional basic-auth credentials.
pub struct LokiDriver {
    url: String,
    username: String,
    password: String,
}

impl LokiDriver {
    /// The configured endpoint.
    pub closed spec fn url_spec(&self) -> Seq<char> {
        self.url@
    }

    /// The configured user name.
    pub closed spec fn username_spec(&self) -> Seq<char> {
        self.username@
    }

    /// The configured password.
    pub closed spec fn password_spec(&self) -> Seq<char> {
        self.password@
    }

    /// Configure the sink.
    pub fn new(url: String, username: String, password: String) -> (r: LokiDriver)
        ensures
            r.url_spec() == url@,
            r.username_spec() == username@,
            r.password_spec() == password@,
    {
        LokiDriver { url, username, password }
    }

    /// This sink is stateless: setting it up always succeeds and does
    /// nothing.
    pub fn init(&mut self) -> (r: bool)
        ensures
            r,
            *final(self) == *old(self),
    {
        true
    }

    /// The endpoint to post to.
    pub fn url(&self) -> (r: &String)
        ensures
            r@ == self.url_spec(),
    {
        &self.url
    }

    /// The configured user name.
    pub fn username(&self) -> (r: &String)
        ensures
            r@ == self.username_spec(),
    {
        &self.username
    }

    /// The configured password.
    pub fn password(&self) -> (r: &String)
        ensures
            r@ == self.password_spec(),
    {
        &self.password
    }

    /// Basic auth is attached exactly when both credentials are set.
    pub fn use_basic_auth(&self) -> (r: bool)
        ensures
            r <==> (self.username_spec().len() > 0 && self.password_spec().len() > 0),
    {
        !self.username.as_str().is_empty() && !self.password.as_str().is_empty()
    }

    /// Build the push body for one message.
    pub fn build_payload(&self, m: &Message) -> (r: Vec<u8>)
        requires
            i64::MIN <= m@.timestamp * TIMESTAMP_SCALE <= i64::MAX,
        ensures
            r@ == loki_body(m@),
    {
        let mut out: Vec<u8> = Vec::new();
        push_bytes(&mut out, ("{\"streams\":[{\"stream\":").as_bytes());
        let labels = labels_value(m);
        write_json(&labels, &mut out);
        push_bytes(&mut out, (",\"values\":[[\"").as_bytes());
        push_dec_i64(m.timestamp * TIMESTAMP_SCALE, &mut out);
        push_bytes(&mut out, ("\",\"").as_bytes());
        let line = crate::types::message_line(m);
        push_esc_bytes(line.as_slice(), &mut out);
        push_bytes(&mut out, ("\"]]}]}").as_bytes());
        proof {
            assert(out@ =~= loki_body(m@));
        }
        out
    }

    /// Whether an HTTP answer counts as delivered: any 2xx status.
    pub fn accept_status(&self, status: u16) -> (r: bool)
        ensures
            r <==> (200 <= status < 300),
    {
        200 <= status && status < 300
    }
}

/// The label set of one message as an owned document.
fn labels_value(m: &Message) -> (r: crate::json::JsonValue)
    ensures
        r@ == labels_json(m@),
{
    let mut f: Vec<(String, crate::json::JsonValue)> = Vec::new();
    f.push((label_key("branch"), opt_label(&m.branch)));
    f.push(
        (label_key("deployment"), crate::json::JsonValue::Str(m.deployment_id.clone())),
    );
    f.push((label_key("environment"), opt_label(&m.environment)));
    f.push((label_key("project"), opt_label(&m.project_name)));
    f.push((label_key("source"), crate::json::JsonValue::Str(m.source.clone())));
    proof {
        crate::json::lemma_jspec_obj(f@);
        assert(crate::json::jspec_obj(f@) =~= (match labels_json(m@) {
            JsonSpec::Obj(o) => o,
            _ => Seq::empty(),
        }));
    }
    crate::json::JsonValue::Obj(f)
}

/// A fresh label key.
fn label_key(s: &str) -> (r: String)
    ensures
        r@ == s@,
{
    s.to_owned()
}

/// An optional text as an owned label value.
fn opt_label(o: &Option<String>) -> (r: crate::json::JsonValue)
    ensures
        r@ == opt_str_json(crate::types::opt_view(*o)),
{
    match o {
        Some(s) => crate::json::JsonValue::Str(s.clone()),
        None => crate::json::JsonValue::Null,
    }
}

} // verus!
