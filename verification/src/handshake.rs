//! The session configuration and the URL that carries it to the gateway.
//!
//! The gateway identifies and authorises a client from the connection URL
//! alone, so the URL is a function of the configuration and of nothing
//! else:
//!
//! ```text
//! https://<server address>/?token=<token>&userID=<user id>&publishFormat=<format>&broadcastMode=<mode>
//! ```
//!
//! The four values are percent-encoded; the server address is written as
//! it stands.

use vstd::prelude::*;
use vstd::string::StringExecFns;
use vstd::utf8::{
    decode_utf8, encode_utf8, encode_utf8_decode_utf8, encode_utf8_valid_utf8, is_ascii_chars,
    is_ascii_chars_encode_utf8, valid_utf8,
};
use vstd::slice::{slice_subrange, slice_to_vec};
use crate::encoding::{
    is_unreserved, law_decode_inverts_encode, law_encoded_alphabet, percent_decode,
    percent_encode, spec_percent_decode, spec_percent_encode,
};
use crate::query::{
    find_byte, find_field, find_field_value, index_of, lemma_index_of_is, lemma_split_first,
    lemma_split_last, split, split_bytes, views, AMPERSAND, EQUALS,
};
use crate::errors::ConfigError;
use crate::text::{
    ascii_text, lemma_ascii_byte_in_text, lemma_ascii_text_bytes, lemma_encode_utf8_concat,
    text_from_utf8,
};

verus! {

/// What a session configuration says, as plain text.
pub struct ConfigView {
    pub server_addr: Seq<char>,
    pub token: Seq<char>,
    pub user_id: Seq<char>,
    pub publish_format: Seq<char>,
    pub broadcast_mode: Seq<char>,
}

impl ConfigView {
    /// The first field, in the order of declaration, that is empty.
    pub open spec fn first_empty(self) -> Option<ConfigError> {
        if self.server_addr.len() == 0 {
            Some(ConfigError::EmptyServerAddress)
        } else if self.token.len() == 0 {
            Some(ConfigError::EmptyToken)
        } else if self.user_id.len() == 0 {
            Some(ConfigError::EmptyUserId)
        } else if self.publish_format.len() == 0 {
            Some(ConfigError::EmptyPublishFormat)
        } else if self.broadcast_mode.len() == 0 {
            Some(ConfigError::EmptyBroadcastMode)
        } else {
            None
        }
    }

    /// A configuration is valid when none of its fields is empty. Nothing
    /// else is checked locally: a malformed token is for the gateway to
    /// reject.
    pub open spec fn valid(self) -> bool {
        self.first_empty() is None
    }
}

/// The settings of one session: where the gateway is and how the client
/// presents itself to it. Every value of this type is valid, and none
/// changes after it was made.
pub struct SessionConfig {
    server_addr: String,
    token: String,
    user_id: String,
    publish_format: String,
    broadcast_mode: String,
}

impl View for SessionConfig {
    type V = ConfigView;

    closed spec fn view(&self) -> ConfigView {
        ConfigView {
            server_addr: self.server_addr@,
            token: self.token@,
            user_id: self.user_id@,
            publish_format: self.publish_format@,
            broadcast_mode: self.broadcast_mode@,
        }
    }
}

impl Clone for SessionConfig {
    fn clone(&self) -> (copy: Self)
        ensures
            copy@ == self@,
    {
        proof {
            use_type_invariant(self);
        }
        SessionConfig {
            server_addr: self.server_addr.clone(),
            token: self.token.clone(),
            user_id: self.user_id.clone(),
            publish_format: self.publish_format.clone(),
            broadcast_mode: self.broadcast_mode.clone(),
        }
    }
}

impl SessionConfig {
    #[verifier::type_invariant]
    spec fn well_formed(self) -> bool {
        self@.valid()
    }

    /// Makes a configuration from its five fields, or names the first of
    /// them that is empty.
    pub fn new(
        server_addr: String,
        token: String,
        user_id: String,
        publish_format: String,
        broadcast_mode: String,
    ) -> (r: Result<SessionConfig, ConfigError>)
        ensures
            match r {
                Ok(config) => config@ == (ConfigView {
                    server_addr: server_addr@,
                    token: token@,
                    user_id: user_id@,
                    publish_format: publish_format@,
                    broadcast_mode: broadcast_mode@,
                }) && config@.valid(),
                Err(e) => (ConfigView {
                    server_addr: server_addr@,
                    token: token@,
                    user_id: user_id@,
                    publish_format: publish_format@,
                    broadcast_mode: broadcast_mode@,
                }).first_empty() == Some(e),
            },
    {
        if server_addr.as_str().is_empty() {
            Err(ConfigError::EmptyServerAddress)
        } else if token.as_str().is_empty() {
            Err(ConfigError::EmptyToken)
        } else if user_id.as_str().is_empty() {
            Err(ConfigError::EmptyUserId)
        } else if publish_format.as_str().is_empty() {
            Err(ConfigError::EmptyPublishFormat)
        } else if broadcast_mode.as_str().is_empty() {
            Err(ConfigError::EmptyBroadcastMode)
        } else {
            Ok(SessionConfig { server_addr, token, user_id, publish_format, broadcast_mode })
        }
    }

    pub fn server_addr(&self) -> (s: &str)
        ensures
            s@ == self@.server_addr,
            self@.valid(),
    {
        proof {
            use_type_invariant(self);
        }
        self.server_addr.as_str()
    }

    pub fn token(&self) -> (s: &str)
        ensures
            s@ == self@.token,
            self@.valid(),
    {
        proof {
            use_type_invariant(self);
        }
        self.token.as_str()
    }

    pub fn user_id(&self) -> (s: &str)
        ensures
            s@ == self@.user_id,
            self@.valid(),
    {
        proof {
            use_type_invariant(self);
        }
        self.user_id.as_str()
    }

    pub fn publish_format(&self) -> (s: &str)
        ensures
            s@ == self@.publish_format,
            self@.valid(),
    {
        proof {
            use_type_invariant(self);
        }
        self.publish_format.as_str()
    }

    pub fn broadcast_mode(&self) -> (s: &str)
        ensures
            s@ == self@.broadcast_mode,
            self@.valid(),
    {
        proof {
            use_type_invariant(self);
        }
        self.broadcast_mode.as_str()
    }
}

/// The percent-encoded form of a value, as text: its UTF-8 bytes, encoded.
pub open spec fn encoded_text(value: Seq<char>) -> Seq<char> {
    ascii_text(spec_percent_encode(encode_utf8(value)))
}

/// One field of the query string: the name, `=`, and the encoded value.
pub open spec fn query_field(name: Seq<char>, value: Seq<char>) -> Seq<char> {
    name + "="@ + encoded_text(value)
}

/// The query string of the handshake: the four fields, in this order,
/// separated by `&`.
pub open spec fn handshake_query(c: ConfigView) -> Seq<char> {
    query_field("token"@, c.token) + "&"@ + query_field("userID"@, c.user_id) + "&"@
        + query_field("publishFormat"@, c.publish_format) + "&"@ + query_field(
        "broadcastMode"@,
        c.broadcast_mode,
    )
}

/// The URL of the handshake.
pub open spec fn handshake_url(c: ConfigView) -> Seq<char> {
    "https://"@ + c.server_addr + "/?"@ + handshake_query(c)
}

/// Percent-encodes a value.
pub fn encode_value(value: &str) -> (encoded: String)
    ensures
        encoded@ == encoded_text(value@),
{
    let bytes = percent_encode(value.as_bytes());
    proof {
        law_encoded_alphabet(encode_utf8(value@));
        lemma_ascii_text_bytes(bytes@);
    }
    text_from_utf8(bytes).unwrap()
}

/// Appends one query field to `out`.
fn push_field(out: &mut String, name: &str, value: &str)
    ensures
        final(out)@ == old(out)@ + query_field(name@, value@),
{
    let encoded = encode_value(value);
    out.append(name);
    out.append("=");
    out.append(encoded.as_str());
    assert(out@ == old(out)@ + (name@ + "="@ + encoded_text(value@)));
}

/// Builds the handshake URL of `config`.
pub fn build_handshake_url(config: &SessionConfig) -> (url: String)
    ensures
        url@ == handshake_url(config@),
{
    let mut url = String::from_str("https://");
    url.append(config.server_addr());
    url.append("/?");
    let ghost head = url@;
    push_field(&mut url, "token", config.token());
    url.append("&");
    push_field(&mut url, "userID", config.user_id());
    url.append("&");
    push_field(&mut url, "publishFormat", config.publish_format());
    url.append("&");
    push_field(&mut url, "broadcastMode", config.broadcast_mode());
    assert(url@ == head + handshake_query(config@));
    url
}

/// The byte `?`, which starts the query string of a URL.
pub const QUESTION: u8 = 0x3F;

/// The byte `/`.
pub const SLASH: u8 = 0x2F;

/// The text of the query field `name` among `fields`: the value of the
/// first field of that name, percent-decoded and read as UTF-8, or `None`
/// if there is no such field or its value is not the encoding of a text.
pub open spec fn field_text(fields: Seq<Seq<u8>>, name: Seq<char>) -> Option<Seq<char>> {
    match find_field(fields, encode_utf8(name)) {
        Some(raw) => match spec_percent_decode(raw) {
            Some(bytes) => if valid_utf8(bytes) {
                Some(decode_utf8(bytes))
            } else {
                None
            },
            None => None,
        },
        None => None,
    }
}

/// The configuration that a handshake URL carries, or `None` if `url` is
/// not a handshake URL.
///
/// A handshake URL starts with `https://`; its server address runs from
/// there to the `/` that stands before the first `?`; its query string,
/// after that `?`, holds exactly four fields, one of each required name,
/// in any order; and the address and the four decoded values are not empty.
pub open spec fn spec_parse_handshake_url(url: Seq<char>) -> Option<ConfigView> {
    let bytes = encode_utf8(url);
    let scheme = encode_utf8("https://"@);
    let q = index_of(bytes, QUESTION);
    if q < bytes.len() && scheme.len() < q && scheme.is_prefix_of(bytes) && bytes[q - 1] == SLASH {
        let address = bytes.subrange(scheme.len() as int, q - 1);
        let fields = split(bytes.skip(q + 1), AMPERSAND);
        if valid_utf8(address) && fields.len() == 4 {
            match (
                field_text(fields, "token"@),
                field_text(fields, "userID"@),
                field_text(fields, "publishFormat"@),
                field_text(fields, "broadcastMode"@),
            ) {
                (Some(token), Some(user_id), Some(publish_format), Some(broadcast_mode)) => {
                    let c = ConfigView {
                        server_addr: decode_utf8(address),
                        token,
                        user_id,
                        publish_format,
                        broadcast_mode,
                    };
                    if c.valid() {
                        Some(c)
                    } else {
                        None
                    }
                },
                _ => None,
            }
        } else {
            None
        }
    } else {
        None
    }
}

/// Whether `s` starts with `prefix`.
fn starts_with(s: &[u8], prefix: &[u8]) -> (r: bool)
    ensures
        r == prefix@.is_prefix_of(s@),
{
    if s.len() < prefix.len() {
        return false;
    }
    let mut i: usize = 0;
    while i < prefix.len()
        invariant
            i <= prefix@.len() <= s@.len(),
            forall|k: int| 0 <= k < i ==> s@[k] == prefix@[k],
        decreases prefix@.len() - i,
    {
        if s[i] != prefix[i] {
            assert(s@.subrange(0, prefix@.len() as int)[i as int] == s@[i as int]);
            return false;
        }
        i += 1;
    }
    assert(prefix@ =~= s@.subrange(0, prefix@.len() as int));
    true
}

/// Reads one query field as text.
fn read_field(fields: &Vec<Vec<u8>>, name: &str) -> (text: Option<String>)
    ensures
        match text {
            Some(t) => field_text(views(fields@), name@) == Some(t@),
            None => field_text(views(fields@), name@) is None,
        },
{
    let raw = match find_field_value(fields, name.as_bytes()) {
        Some(raw) => raw,
        None => {
            return None;
        },
    };
    let bytes = match percent_decode(raw.as_slice()) {
        Some(bytes) => bytes,
        None => {
            return None;
        },
    };
    text_from_utf8(bytes)
}

/// Reads a handshake URL back into the configuration it was built from.
pub fn parse_handshake_url(url: &str) -> (r: Option<SessionConfig>)
    ensures
        match r {
            Some(config) => spec_parse_handshake_url(url@) == Some(config@),
            None => spec_parse_handshake_url(url@) is None,
        },
{
    let bytes = url.as_bytes();
    let scheme = "https://".as_bytes();
    let q = find_byte(bytes, 0, QUESTION);
    assert(bytes@.skip(0) == bytes@);
    if q >= bytes.len() || scheme.len() >= q || !starts_with(bytes, scheme) || bytes[q - 1]
        != SLASH {
        return None;
    }
    let address = match text_from_utf8(slice_to_vec(slice_subrange(bytes, scheme.len(), q - 1))) {
        Some(address) => address,
        None => {
            return None;
        },
    };
    let end: usize = bytes.len();
    let query = slice_subrange(bytes, q + 1, end);
    assert(query@ == bytes@.skip(q + 1));
    let fields = split_bytes(query, AMPERSAND);
    assert(views(fields@).len() == fields@.len());
    if fields.len() != 4 {
        return None;
    }
    let token = match read_field(&fields, "token") {
        Some(text) => text,
        None => {
            return None;
        },
    };
    let user_id = match read_field(&fields, "userID") {
        Some(text) => text,
        None => {
            return None;
        },
    };
    let publish_format = match read_field(&fields, "publishFormat") {
        Some(text) => text,
        None => {
            return None;
        },
    };
    let broadcast_mode = match read_field(&fields, "broadcastMode") {
        Some(text) => text,
        None => {
            return None;
        },
    };
    match SessionConfig::new(address, token, user_id, publish_format, broadcast_mode) {
        Ok(config) => Some(config),
        Err(_) => None,
    }
}

/// Whether `bytes` can stand for a field name without being cut: it is
/// not empty and made of unreserved bytes alone.
spec fn is_name(bytes: Seq<u8>) -> bool {
    bytes.len() > 0 && forall|i: int| 0 <= i < bytes.len() ==> is_unreserved(#[trigger] bytes[i])
}

/// The UTF-8 form of a text of ASCII characters, byte for byte.
proof fn lemma_literal_bytes(text: Seq<char>)
    requires
        is_ascii_chars(text),
    ensures
        encode_utf8(text).len() == text.len(),
        forall|i: int| 0 <= i < text.len() ==> #[trigger] encode_utf8(text)[i] == text[i] as u8,
{
    is_ascii_chars_encode_utf8(text);
}

/// What the fixed parts of a handshake URL are as bytes.
proof fn lemma_fixed_parts()
    ensures
        encode_utf8("https://"@).len() == 8,
        !encode_utf8("https://"@).contains(QUESTION),
        encode_utf8("/?"@) == seq![SLASH, QUESTION],
        encode_utf8("="@) == seq![EQUALS],
        encode_utf8("&"@) == seq![AMPERSAND],
        is_name(encode_utf8("token"@)),
        is_name(encode_utf8("userID"@)),
        is_name(encode_utf8("publishFormat"@)),
        is_name(encode_utf8("broadcastMode"@)),
        encode_utf8("token"@)[0] == 0x74,
        encode_utf8("userID"@)[0] == 0x75,
        encode_utf8("publishFormat"@)[0] == 0x70,
        encode_utf8("broadcastMode"@)[0] == 0x62,
{
    reveal_strlit("https://");
    reveal_strlit("/?");
    reveal_strlit("=");
    reveal_strlit("&");
    reveal_strlit("token");
    reveal_strlit("userID");
    reveal_strlit("publishFormat");
    reveal_strlit("broadcastMode");
    lemma_literal_bytes("https://"@);
    lemma_literal_bytes("/?"@);
    lemma_literal_bytes("="@);
    lemma_literal_bytes("&"@);
    lemma_literal_bytes("token"@);
    lemma_literal_bytes("userID"@);
    lemma_literal_bytes("publishFormat"@);
    lemma_literal_bytes("broadcastMode"@);
    assert(encode_utf8("/?"@) =~= seq![SLASH, QUESTION]);
    assert(encode_utf8("="@) =~= seq![EQUALS]);
    assert(encode_utf8("&"@) =~= seq![AMPERSAND]);
}

/// The bytes of one query field.
spec fn field_bytes(name: Seq<char>, value: Seq<char>) -> Seq<u8> {
    encode_utf8(name) + seq![EQUALS] + spec_percent_encode(encode_utf8(value))
}

/// A query field is its name, `=`, and the encoded value, as bytes too.
proof fn lemma_field_bytes(name: Seq<char>, value: Seq<char>)
    ensures
        encode_utf8(query_field(name, value)) == field_bytes(name, value),
{
    let encoded = spec_percent_encode(encode_utf8(value));
    lemma_fixed_parts();
    law_encoded_alphabet(encode_utf8(value));
    lemma_ascii_text_bytes(encoded);
    lemma_encode_utf8_concat(name, "="@);
    lemma_encode_utf8_concat(name + "="@, encoded_text(value));
}

/// A query field holds no `&`, starts with its name and `=`, and what
/// follows the two decodes to the value.
proof fn lemma_field_reads_back(name: Seq<char>, value: Seq<char>)
    requires
        is_name(encode_utf8(name)),
    ensures
        forall|k: int|
            0 <= k < field_bytes(name, value).len() ==> #[trigger] field_bytes(name, value)[k]
                != AMPERSAND,
        (encode_utf8(name) + seq![EQUALS]).is_prefix_of(field_bytes(name, value)),
        field_bytes(name, value).skip(encode_utf8(name).len() as int + 1) == spec_percent_encode(
            encode_utf8(value),
        ),
        spec_percent_decode(spec_percent_encode(encode_utf8(value))) == Some(encode_utf8(value)),
        valid_utf8(encode_utf8(value)),
        decode_utf8(encode_utf8(value)) == value,
{
    let key = encode_utf8(name);
    let encoded = spec_percent_encode(encode_utf8(value));
    let field = field_bytes(name, value);
    law_encoded_alphabet(encode_utf8(value));
    assert forall|k: int| 0 <= k < field.len() implies #[trigger] field[k] != AMPERSAND by {
        if k < key.len() {
            assert(field[k] == key[k]);
        } else if k > key.len() {
            assert(field[k] == encoded[k - key.len() - 1]);
        }
    }
    assert((key + seq![EQUALS]) =~= field.subrange(0, key.len() as int + 1));
    assert(field.skip(key.len() as int + 1) =~= encoded);
    law_decode_inverts_encode(encode_utf8(value));
    encode_utf8_valid_utf8(value);
    encode_utf8_decode_utf8(value);
}

/// A field whose name starts with another byte is not the field looked for.
proof fn lemma_other_field(name: Seq<char>, other: Seq<char>, value: Seq<char>)
    requires
        is_name(encode_utf8(name)),
        is_name(encode_utf8(other)),
        encode_utf8(name)[0] != encode_utf8(other)[0],
    ensures
        !(encode_utf8(name) + seq![EQUALS]).is_prefix_of(field_bytes(other, value)),
{
    let key = encode_utf8(name) + seq![EQUALS];
    let field = field_bytes(other, value);
    if key.is_prefix_of(field) {
        assert(field.subrange(0, key.len() as int)[0] == field[0]);
        assert(field[0] == encode_utf8(other)[0]);
        assert(key[0] == encode_utf8(name)[0]);
    }
}

/// The four query fields of a configuration, as bytes.
spec fn fields_of(c: ConfigView) -> Seq<Seq<u8>> {
    seq![
        field_bytes("token"@, c.token),
        field_bytes("userID"@, c.user_id),
        field_bytes("publishFormat"@, c.publish_format),
        field_bytes("broadcastMode"@, c.broadcast_mode),
    ]
}

/// The query string of a configuration, as bytes.
spec fn query_bytes(c: ConfigView) -> Seq<u8> {
    let f = fields_of(c);
    let amp = seq![AMPERSAND];
    f[0] + amp + f[1] + amp + f[2] + amp + f[3]
}

/// The handshake URL is the scheme, the address, `/?` and the query
/// string, as bytes too.
proof fn lemma_url_bytes(c: ConfigView)
    ensures
        encode_utf8(handshake_url(c)) == encode_utf8("https://"@) + encode_utf8(c.server_addr)
            + seq![SLASH, QUESTION] + query_bytes(c),
{
    lemma_fixed_parts();
    assert(encode_utf8(handshake_query(c)) == query_bytes(c)) by {
        let q1 = query_field("token"@, c.token);
        let q2 = query_field("userID"@, c.user_id);
        let q3 = query_field("publishFormat"@, c.publish_format);
        let q4 = query_field("broadcastMode"@, c.broadcast_mode);
        lemma_field_bytes("token"@, c.token);
        lemma_field_bytes("userID"@, c.user_id);
        lemma_field_bytes("publishFormat"@, c.publish_format);
        lemma_field_bytes("broadcastMode"@, c.broadcast_mode);
        lemma_encode_utf8_concat(q1, "&"@);
        lemma_encode_utf8_concat(q1 + "&"@, q2);
        lemma_encode_utf8_concat(q1 + "&"@ + q2, "&"@);
        lemma_encode_utf8_concat(q1 + "&"@ + q2 + "&"@, q3);
        lemma_encode_utf8_concat(q1 + "&"@ + q2 + "&"@ + q3, "&"@);
        lemma_encode_utf8_concat(q1 + "&"@ + q2 + "&"@ + q3 + "&"@, q4);
    }
    lemma_encode_utf8_concat("https://"@, c.server_addr);
    lemma_encode_utf8_concat("https://"@ + c.server_addr, "/?"@);
    lemma_encode_utf8_concat("https://"@ + c.server_addr + "/?"@, handshake_query(c));
}

/// Where the parts of a URL lie: the first `?` is the one before the
/// query string, provided that the address holds none.
proof fn lemma_url_parts(scheme: Seq<u8>, address: Seq<u8>, query: Seq<u8>)
    requires
        !scheme.contains(QUESTION),
        !address.contains(QUESTION),
    ensures
        ({
            let bytes = scheme + address + seq![SLASH, QUESTION] + query;
            let q: int = (scheme.len() + address.len() + 1) as int;
            &&& index_of(bytes, QUESTION) == q
            &&& scheme.is_prefix_of(bytes)
            &&& bytes[q - 1] == SLASH
            &&& bytes.subrange(scheme.len() as int, q - 1) == address
            &&& bytes.skip(q + 1) == query
        }),
{
    let bytes = scheme + address + seq![SLASH, QUESTION] + query;
    let q: int = (scheme.len() + address.len() + 1) as int;
    assert forall|k: int| 0 <= k < q implies bytes[k] != QUESTION by {
        if k < scheme.len() {
            assert(bytes[k] == scheme[k]);
            assert(scheme.contains(scheme[k]));
        } else if k < scheme.len() + address.len() {
            assert(bytes[k] == address[k - scheme.len()]);
            assert(address.contains(address[k - scheme.len()]));
        } else {
            assert(bytes[k] == SLASH);
        }
    }
    assert(bytes[q] == QUESTION);
    lemma_index_of_is(bytes, QUESTION, q);
    assert(scheme =~= bytes.subrange(0, scheme.len() as int));
    assert(bytes.subrange(scheme.len() as int, q - 1) =~= address);
    assert(bytes.skip(q + 1) =~= query);
}

/// The query string splits into the four fields.
proof fn lemma_query_splits(c: ConfigView)
    ensures
        split(query_bytes(c), AMPERSAND) == fields_of(c),
{
    lemma_fixed_parts();
    let f1 = field_bytes("token"@, c.token);
    let f2 = field_bytes("userID"@, c.user_id);
    let f3 = field_bytes("publishFormat"@, c.publish_format);
    let f4 = field_bytes("broadcastMode"@, c.broadcast_mode);
    let amp = seq![AMPERSAND];
    lemma_field_reads_back("token"@, c.token);
    lemma_field_reads_back("userID"@, c.user_id);
    lemma_field_reads_back("publishFormat"@, c.publish_format);
    lemma_field_reads_back("broadcastMode"@, c.broadcast_mode);
    lemma_split_last(f4, AMPERSAND);
    lemma_split_first(f3, f4, AMPERSAND);
    lemma_split_first(f2, f3 + amp + f4, AMPERSAND);
    lemma_split_first(f1, f2 + amp + (f3 + amp + f4), AMPERSAND);
    assert(f1 + amp + (f2 + amp + (f3 + amp + f4)) == query_bytes(c));
    assert(seq![f1] + (seq![f2] + (seq![f3] + seq![f4])) == fields_of(c));
}

/// Each of the four fields is read back from the four.
proof fn lemma_fields_read(c: ConfigView)
    ensures
        field_text(fields_of(c), "token"@) == Some(c.token),
        field_text(fields_of(c), "userID"@) == Some(c.user_id),
        field_text(fields_of(c), "publishFormat"@) == Some(c.publish_format),
        field_text(fields_of(c), "broadcastMode"@) == Some(c.broadcast_mode),
{
    lemma_fixed_parts();
    let fields = fields_of(c);
    lemma_field_reads_back("token"@, c.token);
    lemma_field_reads_back("userID"@, c.user_id);
    lemma_field_reads_back("publishFormat"@, c.publish_format);
    lemma_field_reads_back("broadcastMode"@, c.broadcast_mode);
    let rest1 = fields.skip(1);
    let rest2 = rest1.skip(1);
    let rest3 = rest2.skip(1);
    assert(rest1[0] == fields[1]);
    assert(rest2[0] == fields[2]);
    assert(rest3[0] == fields[3]);
    assert(find_field(fields, encode_utf8("token"@)) == Some(
        spec_percent_encode(encode_utf8(c.token)),
    ));
    assert(find_field(fields, encode_utf8("userID"@)) == Some(
        spec_percent_encode(encode_utf8(c.user_id)),
    )) by {
        lemma_other_field("userID"@, "token"@, c.token);
        assert(find_field(rest1, encode_utf8("userID"@)) == Some(
            spec_percent_encode(encode_utf8(c.user_id)),
        ));
    }
    assert(find_field(fields, encode_utf8("publishFormat"@)) == Some(
        spec_percent_encode(encode_utf8(c.publish_format)),
    )) by {
        lemma_other_field("publishFormat"@, "token"@, c.token);
        lemma_other_field("publishFormat"@, "userID"@, c.user_id);
        assert(find_field(rest2, encode_utf8("publishFormat"@)) == Some(
            spec_percent_encode(encode_utf8(c.publish_format)),
        ));
        assert(find_field(rest1, encode_utf8("publishFormat"@)) == find_field(
            rest2,
            encode_utf8("publishFormat"@),
        ));
    }
    assert(find_field(fields, encode_utf8("broadcastMode"@)) == Some(
        spec_percent_encode(encode_utf8(c.broadcast_mode)),
    )) by {
        lemma_other_field("broadcastMode"@, "token"@, c.token);
        lemma_other_field("broadcastMode"@, "userID"@, c.user_id);
        lemma_other_field("broadcastMode"@, "publishFormat"@, c.publish_format);
        assert(find_field(rest3, encode_utf8("broadcastMode"@)) == Some(
            spec_percent_encode(encode_utf8(c.broadcast_mode)),
        ));
        assert(find_field(rest2, encode_utf8("broadcastMode"@)) == find_field(
            rest3,
            encode_utf8("broadcastMode"@),
        ));
        assert(find_field(rest1, encode_utf8("broadcastMode"@)) == find_field(
            rest2,
            encode_utf8("broadcastMode"@),
        ));
    }
}

/// Reading back what was built: for every valid configuration whose
/// server address holds no `?`, the handshake URL is read as a handshake
/// URL, and as that of this configuration. In particular the URL holds
/// exactly the four required fields, and each decodes to the field of the
/// configuration that it was made from.
pub proof fn law_handshake_round_trip(c: ConfigView)
    requires
        c.valid(),
        !c.server_addr.contains('?'),
    ensures
        spec_parse_handshake_url(handshake_url(c)) == Some(c),
{
    if encode_utf8(c.server_addr).contains(QUESTION) {
        lemma_ascii_byte_in_text(c.server_addr, QUESTION);
    }
    lemma_fixed_parts();
    lemma_url_bytes(c);
    lemma_url_parts(encode_utf8("https://"@), encode_utf8(c.server_addr), query_bytes(c));
    lemma_query_splits(c);
    lemma_fields_read(c);
    encode_utf8_valid_utf8(c.server_addr);
    encode_utf8_decode_utf8(c.server_addr);
}

} // verus!
