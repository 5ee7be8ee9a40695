//! Encryption of the keys that clients present, and random tokens.
use vstd::prelude::*;
use magic_crypt::{MagicCrypt256, MagicCryptError, MagicCryptTrait};
use rand::rngs::ThreadRng;
use rand::Rng;
use crate::text::chars_of;
use crate::text::push_char;

verus! {

#[verifier::external_type_specification]
#[verifier::external_body]
pub struct ExMagicCryptError(MagicCryptError);

#[verifier::external_type_specification]
#[verifier::external_body]
pub struct ExThreadRng(ThreadRng);

/// The Base64 text that AES-256 (key hashed with SHA-256, zero IV, CBC,
/// PKCS#7) makes of `plain` under `key`.
pub uninterp spec fn spec_encrypt(key: Seq<char>, plain: Seq<char>) -> Seq<char>;

/// The text that decrypting the Base64 `token` under `key` gives, if the
/// token decodes, decrypts and is UTF-8.
pub uninterp spec fn spec_decrypt(key: Seq<char>, token: Seq<char>) -> Option<Seq<char>>;

/// Decrypts a Base64 token with `key`
/// (`MagicCrypt256::new(key, None).decrypt_base64_to_string(token)`).
/// Trusted: the result is `spec_decrypt` of the arguments, and a token
/// that `encrypt` made with the same key gives back the text it was made from.
#[verifier::external_body]
pub fn decrypt(token: &str, key: &str) -> (r: Result<String, MagicCryptError>)
    ensures
        r is Ok <==> spec_decrypt(key@, token@) is Some,
        r matches Ok(s) ==> spec_decrypt(key@, token@) == Some(s@),
        r is Err ==> forall|p: Seq<char>| token@ != spec_encrypt(key@, p),
        r matches Ok(s) ==> forall|p: Seq<char>| token@ == spec_encrypt(key@, p) ==> s@ == p,
{
    let mc = MagicCrypt256::new(key, None::<String>);
    mc.decrypt_base64_to_string(token)
}

/// Encrypts `token` with `key` into Base64
/// (`MagicCrypt256::new(key, None).encrypt_str_to_base64(token)`).
/// Trusted: the result is `spec_encrypt` of the arguments, and decrypting
/// it with the same key gives `token` back.
#[verifier::external_body]
pub fn encrypt(token: &str, key: &str) -> (s: String)
    ensures
        s@ == spec_encrypt(key@, token@),
        spec_decrypt(key@, s@) == Some(token@),
{
    let mc = MagicCrypt256::new(key, None::<String>);
    mc.encrypt_str_to_base64(token)
}

/// A generator seeded by the system (`rand::thread_rng`). Nothing is
/// stated of it.
#[verifier::external_body]
fn new_rng() -> ThreadRng {
    rand::thread_rng()
}

/// A random index below `n` (`rng.gen_range(0..n)`, which panics on an
/// empty range). Trusted: the index is below `n`; which one is left open.
#[verifier::external_body]
fn random_index(rng: &mut ThreadRng, n: usize) -> (i: usize)
    requires
        n > 0,
    ensures
        i < n,
{
    rng.gen_range(0..n)
}

/// The characters a token is drawn from: letters and digits, and with
/// `special` also the punctuation `!@#$%^&*()[]{};':",./<>?` and backquote.
pub open spec fn token_charset(special: bool) -> Seq<char> {
    if special {
        "ABCDEFGHIJKLMNOPQRSTUVWXYZabcdefghijklmnopqrstuvwxyz0123456789!@#$%^&*()[]{};':\",./<>?`"@
    } else {
        "ABCDEFGHIJKLMNOPQRSTUVWXYZabcdefghijklmnopqrstuvwxyz0123456789"@
    }
}

/// The number of characters of a token asked for with `length`.
pub open spec fn token_len(length: i32) -> nat {
    if length > 0 { length as nat } else { 0 }
}

/// Whether a text could be a token of `length` characters drawn from the
/// charset chosen by `use_special_chars` (absent means no specials).
pub open spec fn is_token(t: Seq<char>, length: i32, use_special_chars: Option<bool>) -> bool {
    &&& t.len() == token_len(length)
    &&& forall|i: int| 0 <= i < t.len() ==> token_charset(use_special_chars == Some(true)).contains(#[trigger] t[i])
}

fn charset(special: bool) -> (v: Vec<char>)
    ensures
        v@ == token_charset(special),
        v@.len() > 0,
{
    if special {
        proof {
            reveal_strlit("ABCDEFGHIJKLMNOPQRSTUVWXYZabcdefghijklmnopqrstuvwxyz0123456789!@#$%^&*()[]{};':\",./<>?`");
        }
        chars_of("ABCDEFGHIJKLMNOPQRSTUVWXYZabcdefghijklmnopqrstuvwxyz0123456789!@#$%^&*()[]{};':\",./<>?`")
    } else {
        proof {
            reveal_strlit("ABCDEFGHIJKLMNOPQRSTUVWXYZabcdefghijklmnopqrstuvwxyz0123456789");
        }
        chars_of("ABCDEFGHIJKLMNOPQRSTUVWXYZabcdefghijklmnopqrstuvwxyz0123456789")
    }
}

/// The token spelled by the drawn indices into the charset chosen by
/// `special`: the character at each index, in order.
pub fn token_from_indices(indices: &Vec<usize>, special: bool) -> (t: String)
    requires
        forall|i: int| 0 <= i < indices@.len() ==> #[trigger] indices@[i] < token_charset(special).len(),
    ensures
        t@.len() == indices@.len(),
        forall|i: int| 0 <= i < indices@.len() ==> #[trigger] t@[i] == token_charset(special)[indices@[i] as int],
{
    let chars = charset(special);
    let mut t = String::new();
    let mut j: usize = 0;
    while j < indices.len()
        invariant
            j <= indices@.len(),
            chars@ == token_charset(special),
            forall|i: int| 0 <= i < indices@.len() ==> #[trigger] indices@[i] < token_charset(special).len(),
            t@.len() == j,
            forall|i: int| 0 <= i < j ==> #[trigger] t@[i] == token_charset(special)[indices@[i] as int],
        decreases indices@.len() - j,
    {
        let idx = indices[j];
        push_char(&mut t, chars[idx]);
        j = j + 1;
    }
    t
}

/// A random token of `length` characters (none when `length` is not
/// positive), drawn from letters and digits, plus punctuation when
/// `use_special_chars` is `Some(true)`.
pub fn create(length: i32, use_special_chars: Option<bool>) -> (t: String)
    ensures
        is_token(t@, length, use_special_chars),
{
    let special = match use_special_chars {
        Some(b) => b,
        None => false,
    };
    let n = charset(special).len();
    let mut rng = new_rng();
    let mut indices: Vec<usize> = Vec::new();
    let mut j: i32 = 0;
    while j < length
        invariant
            0 <= j,
            length > 0 ==> j <= length,
            length <= 0 ==> j == 0,
            n == token_charset(special).len(),
            n > 0,
            indices@.len() == j,
            forall|i: int| 0 <= i < indices@.len() ==> #[trigger] indices@[i] < n,
        decreases length - j,
    {
        let idx = random_index(&mut rng, n);
        indices.push(idx);
        j = j + 1;
    }
    let t = token_from_indices(&indices, special);
    proof {
        assert(special == (use_special_chars == Some(true)));
        assert forall|i: int| 0 <= i < t@.len() implies token_charset(use_special_chars == Some(true)).contains(#[trigger] t@[i]) by {
            assert(t@[i] == token_charset(special)[indices@[i] as int]);
        }
    }
    t
}

} // verus!
