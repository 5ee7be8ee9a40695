//! The key a client presents: `uuid|ip|nick`, encrypted with the server's
//! secret. Reading it back into the player it names.
use vstd::prelude::*;
use crate::error::ApiError;
use crate::text::{join_on, lemma_split_extend, lemma_split_join, lemma_split_len, push_char, split_fields, split_on};
use crate::utils::token::{decrypt, encrypt, spec_decrypt, spec_encrypt};

verus! {

/// What `Uuid::parse_str(text)` gives: the 128-bit value (big-endian,
/// `as_u128`) of the UUID that `text` spells in any of the forms it
/// accepts, or the `Display` text of the error it reports.
pub uninterp spec fn spec_uuid_parse(text: Seq<char>) -> Result<u128, Seq<char>>;

/// The value of the UUID that `text` spells, if it spells one.
pub open spec fn spec_parse_uuid(text: Seq<char>) -> Option<u128> {
    match spec_uuid_parse(text) {
        Ok(v) => Some(v),
        Err(_) => None,
    }
}

/// Parses a UUID (`Uuid::parse_str(text)`, the value taken by `as_u128`,
/// an error by its `Display` text). Trusted: the result is
/// `spec_uuid_parse` of the text.
#[verifier::external_body]
pub(crate) fn parse_uuid(text: &str) -> (r: Result<u128, String>)
    ensures
        r matches Ok(v) ==> spec_parse_uuid(text@) == Some(v),
        r matches Err(m) ==> (spec_uuid_parse(text@) matches Err(x) && x == m@),
{
    match uuid::Uuid::parse_str(text) {
        Ok(u) => Ok(u.as_u128()),
        Err(e) => Err(e.to_string()),
    }
}

/// The text `Uuid::from_u128(u).to_string()` gives.
pub uninterp spec fn spec_uuid_text(u: u128) -> Seq<char>;

/// Whether `c` is a lowercase hexadecimal digit.
pub open spec fn is_lower_hex(c: char) -> bool {
    ('0' <= c && c <= '9') || ('a' <= c && c <= 'f')
}

/// The hyphenated form: 36 characters, hyphens at 8, 13, 18 and 23,
/// lowercase hexadecimal digits elsewhere.
pub open spec fn is_hyphenated_lower(s: Seq<char>) -> bool {
    &&& s.len() == 36
    &&& forall|i: int| 0 <= i < 36 ==> if i == 8 || i == 13 || i == 18 || i == 23 {
        #[trigger] s[i] == '-'
    } else {
        is_lower_hex(s[i])
    }
}

/// Prints a UUID (`Uuid::from_u128(u).to_string()`). Trusted: the text is
/// `spec_uuid_text(u)`, in the hyphenated lowercase form, and parsing it
/// gives `u` back.
#[verifier::external_body]
pub fn format_uuid(u: u128) -> (s: String)
    ensures
        s@ == spec_uuid_text(u),
        is_hyphenated_lower(s@),
        spec_parse_uuid(s@) == Some(u),
{
    uuid::Uuid::from_u128(u).to_string()
}

/// The player a key names: UUID (as its 128-bit value), IP address, nick.
pub struct ExotiaKey {
    pub uuid: u128,
    pub ip: String,
    pub nick: String,
}

/// The fields of a key text: the pieces between `|`.
pub open spec fn key_fields(s: Seq<char>) -> Seq<Seq<char>> {
    split_on(s, '|')
}

/// The player a plain key text names, when its first field is a UUID and
/// it has the two fields after it: (uuid, ip, nick).
pub open spec fn spec_key_info(s: Seq<char>) -> Option<(u128, Seq<char>, Seq<char>)> {
    match spec_parse_uuid(key_fields(s)[0]) {
        Some(u) => if key_fields(s).len() >= 3 {
            Some((u, key_fields(s)[1], key_fields(s)[2]))
        } else {
            None
        },
        None => None,
    }
}

/// The plain values of a key.
pub open spec fn key_view(k: ExotiaKey) -> (u128, Seq<char>, Seq<char>) {
    (k.uuid, k.ip@, k.nick@)
}

/// Reading a key text into the player it names.
pub trait UserInfoTrait {
    /// Whether `extract` can read this text without a missing field.
    spec fn extract_allowed(&self) -> bool;

    fn extract(&self) -> Result<ExotiaKey, ApiError>
        requires
            self.extract_allowed(),
    ;
}

impl UserInfoTrait for String {
    /// A text whose first field is a UUID must have the two fields after it.
    open spec fn extract_allowed(&self) -> bool {
        spec_parse_uuid(key_fields(self@)[0]) is Some ==> key_fields(self@).len() >= 3
    }

    /// Splits `uuid|ip|nick` and parses the UUID; a first field that is no
    /// UUID is an `UuidError` with the parser's message.
    fn extract(&self) -> (r: Result<ExotiaKey, ApiError>)
        ensures
            spec_uuid_parse(key_fields(self@)[0]) matches Err(m) ==> (r matches Err(e)
                && e matches ApiError::UuidError(t) && t@ == m),
            spec_parse_uuid(key_fields(self@)[0]) is Some ==> (r matches Ok(k)
                && Some(key_view(k)) == spec_key_info(self@)),
    {
        let val = split_fields(self.as_str(), '|');
        proof {
            lemma_split_len(self@, '|');
            assert(val@[0]@ == key_fields(self@)[0]);
        }
        let uuid = match parse_uuid(val[0].as_str()) {
            Ok(u) => u,
            Err(m) => return Err(ApiError::UuidError(m)),
        };
        proof {
            assert(val@[1]@ == key_fields(self@)[1]);
            assert(val@[2]@ == key_fields(self@)[2]);
        }
        Ok(ExotiaKey { uuid, ip: val[1].clone(), nick: val[2].clone() })
    }
}

/// The player named by an encrypted key: the key is decrypted with the
/// server's secret and read as `uuid|ip|nick`. `None` when it does not
/// decrypt, its first field is no UUID, or a field after it is missing.
pub fn user_info_from_token(token: &str, key: &str) -> (r: Option<ExotiaKey>)
    ensures
        spec_decrypt(key@, token@) is None ==> r is None,
        spec_decrypt(key@, token@) matches Some(p) ==> match r {
            Some(k) => spec_key_info(p) == Some(key_view(k)),
            None => spec_key_info(p) is None,
        },
        forall|p: Seq<char>| token@ == spec_encrypt(key@, p) ==> match r {
            Some(k) => spec_key_info(p) == Some(key_view(k)),
            None => spec_key_info(p) is None,
        },
{
    let plain = match decrypt(token, key) {
        Ok(p) => p,
        Err(_) => return None,
    };
    let fields = split_fields(plain.as_str(), '|');
    proof {
        lemma_split_len(plain@, '|');
        assert(fields@[0]@ == key_fields(plain@)[0]);
    }
    if fields.len() < 3 {
        return None;
    }
    match plain.extract() {
        Ok(k) => Some(k),
        Err(_) => None,
    }
}

/// The plain key of the game servers' websocket connection: the nil UUID,
/// address `0.0.0.0`, nick `0`.
pub open spec fn server_key_text() -> Seq<char> {
    "00000000-0000-0000-0000-000000000000|0.0.0.0|0"@
}

/// The key that game servers present on the websocket: the plain server
/// key encrypted with the server's secret.
pub fn server_auth_key(secret: &str) -> (s: String)
    ensures
        s@ == spec_encrypt(secret@, server_key_text()),
        spec_decrypt(secret@, s@) == Some(server_key_text()),
{
    encrypt("00000000-0000-0000-0000-000000000000|0.0.0.0|0", secret)
}

/// The text of a key: `uuid|ip|nick`, the UUID hyphenated in lowercase
/// (`format!("{}|{}|{}", uuid, ip, nick)`).
pub open spec fn spec_key_text(k: ExotiaKey) -> Seq<char> {
    join_on(seq![spec_uuid_text(k.uuid), k.ip@, k.nick@], '|')
}

/// Prints a key as `uuid|ip|nick`. Reading the text back gives the same
/// key when neither IP nor nick holds a `|`, also when more `|`-separated
/// fields follow it.
pub fn key_text(k: &ExotiaKey) -> (s: String)
    ensures
        s@ == spec_key_text(*k),
        !k.ip@.contains('|') && !k.nick@.contains('|') ==> spec_key_info(s@) == Some(key_view(*k)),
        !k.ip@.contains('|') && !k.nick@.contains('|') ==> forall|extra: Seq<char>|
            spec_key_info(#[trigger] (s@ + seq!['|'] + extra)) == Some(key_view(*k)),
{
    let mut s = format_uuid(k.uuid);
    let ghost u = s@;
    push_char(&mut s, '|');
    s.append(k.ip.as_str());
    push_char(&mut s, '|');
    s.append(k.nick.as_str());
    let ghost parts = seq![u, k.ip@, k.nick@];
    proof {
        let p2 = parts.drop_last();
        assert(p2 =~= seq![u, k.ip@]);
        assert(p2.drop_last() =~= seq![u]);
        assert(join_on(p2.drop_last(), '|') == u);
        assert(p2.last() == k.ip@);
        assert(join_on(p2, '|') == u.push('|') + k.ip@);
        assert(s@ =~= join_on(parts, '|'));
        if !k.ip@.contains('|') && !k.nick@.contains('|') {
            assert(!u.contains('|')) by {
                if u.contains('|') {
                    let i = choose|i: int| 0 <= i < u.len() && u[i] == '|';
                    assert(is_hyphenated_lower(u));
                    if i == 8 || i == 13 || i == 18 || i == 23 {
                        assert(u[i] == '-');
                    } else {
                        assert(is_lower_hex(u[i]));
                    }
                }
            }
            assert forall|i: int| 0 <= i < parts.len() implies !(#[trigger] parts[i]).contains('|') by {}
            lemma_split_join(parts, '|');
            assert(key_fields(s@) == parts);
            assert forall|extra: Seq<char>| spec_key_info(#[trigger] (s@ + seq!['|'] + extra)) == Some(key_view(*k)) by {
                lemma_split_extend(s@, extra, '|');
                let f = key_fields(s@ + seq!['|'] + extra);
                assert(f[0] == parts[0]);
                assert(f[1] == parts[1]);
                assert(f[2] == parts[2]);
            }
        }
    }
    s
}

} // verus!
