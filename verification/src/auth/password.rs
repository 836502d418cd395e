//! Argon2id password hashing and verification for blocking worker threads.
use crate::auth::tokens::{
    constant_time_eq, draw_bytes, entropy_gives, hex_encode, hex_text, hex_text_is_hex,
    hex_text_is_injective, hex_token,
};
use crate::config::{password_allowed, valid_password};
use crate::error::{authentication_failure, rejected, AppError};
use crate::sites::new_site::optional_text;
use crate::status;
use crate::text::{decimal, push_decimal, push_text, same};
use argon2::{Algorithm, Argon2, Params, PasswordHash, PasswordHasher, PasswordVerifier, Version};
use vstd::prelude::*;
use vstd::utf8::encode_utf8;

verus! {

/// Memory cost in KiB: nineteen MiB.
pub const MEMORY_KIB: u32 = 19_456;

/// Passes over the memory.
pub const ITERATIONS: u32 = 2;

/// Lanes filled side by side.
pub const LANES: u32 = 1;

/// The bytes of a hash.
pub const HASH_BYTES: usize = 32;

/// The bytes of a salt.
pub const SALT_BYTES: usize = 16;

/// The Argon2 version whose number is nineteen.
pub const HASH_VERSION: u32 = 19;

/// The longest stored hash that is looked at.
pub const MAX_ENCODED_HASH_CHARS: usize = 128;

/// What a password hash string holds.
pub struct PhcHash {
    /// The name of the algorithm.
    pub algorithm: String,
    /// The version of the algorithm, where it is given.
    pub version: Option<u32>,
    /// The parameters as they are written.
    pub params: String,
    /// The decoded salt, where there is one.
    pub salt: Option<Vec<u8>>,
    /// The number of bytes of the hash, where there is one.
    pub output_length: Option<usize>,
    /// The string that the parts are written as.
    pub text: String,
}

/// The parts of a password hash string: algorithm, version, parameters, salt,
/// length of the hash, and the string that these parts are written as.
pub type PhcParts = (
    Seq<char>,
    Option<u32>,
    Seq<char>,
    Option<Seq<u8>>,
    Option<usize>,
    Seq<char>,
);

impl PhcHash {
    /// The parts as mathematical values.
    pub open spec fn view(&self) -> PhcParts {
        (
            self.algorithm@,
            self.version,
            self.params@,
            match self.salt {
                Some(salt) => Some(salt@),
                None => None,
            },
            self.output_length,
            self.text@,
        )
    }
}

/// What `PasswordHash::new` reads from a string, where it accepts the string.
pub uninterp spec fn phc_parts(encoded: Seq<char>) -> Option<PhcParts>;

/// The string that `Argon2::hash_password_with_salt` makes of a password and a
/// salt at these costs, with Argon2id in version nineteen.
pub uninterp spec fn argon2_text(
    password: Seq<u8>,
    salt: Seq<u8>,
    memory: u32,
    iterations: u32,
    lanes: u32,
    length: usize,
) -> Seq<char>;

/// The parameters of one cost profile as they are written.
pub open spec fn params_text(memory: u32, iterations: u32, lanes: u32) -> Seq<char> {
    "m="@ + decimal(memory as nat) + ",t="@ + decimal(iterations as nat) + ",p="@ + decimal(
        lanes as nat,
    )
}

/// The parts of a hash string made at these costs.
pub open spec fn made_parts(
    salt: Seq<u8>,
    memory: u32,
    iterations: u32,
    lanes: u32,
    length: usize,
    text: Seq<char>,
) -> PhcParts {
    (
        "argon2id"@,
        Some(HASH_VERSION),
        params_text(memory, iterations, lanes),
        Some(salt),
        Some(length),
        text,
    )
}

/// The number of characters that unpadded Base64 writes so many bytes in.
pub open spec fn base64_length(bytes: int) -> int {
    (4 * bytes + 2) / 3
}

/// The length of a hash string made at these costs: behind a dollar sign each,
/// the algorithm, the version, the parameters, the salt and the output.
pub open spec fn made_length(
    salt: int,
    memory: u32,
    iterations: u32,
    lanes: u32,
    length: int,
) -> int {
    "$argon2id$v=19$"@.len() + params_text(memory, iterations, lanes).len() + 1 + base64_length(
        salt,
    ) + 1 + base64_length(length)
}

/// `PasswordHash::new` reads a hash string; its fields and its `Display` give the parts.
#[verifier::external_body]
fn read_phc(encoded: &str) -> (r: Option<PhcHash>)
    ensures
        (match r {
            Some(hash) => Some(hash@),
            None => None,
        }) == phc_parts(encoded@),
{
    let hash: PasswordHash = PasswordHash::new(encoded).ok()?;
    Some(PhcHash {
        algorithm: hash.algorithm.as_str().to_owned(),
        version: hash.version,
        params: hash.params.as_str().to_owned(),
        salt: hash.salt.as_ref().map(|salt| salt.to_vec()),
        output_length: hash.hash.as_ref().map(|output| output.len()),
        text: format!("{hash}"),
    })
}

/// `Argon2::hash_password_with_salt` makes a hash string that depends on the
/// password, the salt and the costs alone. Reading it gives back the salt, the
/// costs and the string itself. Its length is that of its parts, with salt and
/// output in unpadded Base64. It can fail, for one where memory runs out.
#[verifier::external_body]
fn hash_with_salt(
    password: &[u8],
    salt: &[u8],
    memory: u32,
    iterations: u32,
    lanes: u32,
    length: usize,
) -> (r: Option<String>)
    ensures
        r matches Some(text) ==> text@ == argon2_text(
            password@,
            salt@,
            memory,
            iterations,
            lanes,
            length,
        ),
        r matches Some(text) ==> phc_parts(text@) == Some(
            made_parts(salt@, memory, iterations, lanes, length, text@),
        ),
        r matches Some(text) ==> encode_utf8(text@).len() == made_length(
            salt@.len() as int,
            memory,
            iterations,
            lanes,
            length as int,
        ),
{
    let params: Params = Params::new(memory, iterations, lanes, Some(length)).ok()?;
    let hasher: Argon2<'static> = Argon2::new(Algorithm::Argon2id, Version::V0x13, params);
    let hash: PasswordHash = hasher.hash_password_with_salt(password, salt).ok()?;
    Some(format!("{hash}"))
}

/// `Argon2::verify_password` hashes the password anew with the salt and costs
/// of the stored string and compares: it accepts exactly the passwords that
/// hash to that string. It can fail, for one where memory runs out.
#[verifier::external_body]
fn verify_encoded(password: &[u8], encoded: &str) -> (r: Option<bool>)
    requires
        stored_salt(encoded@) is Some,
    ensures
        r matches Some(accepted) ==> accepted == hashes_to(password@, encoded@),
{
    match Argon2::default().verify_password(password, encoded) {
        Ok(()) => Some(true),
        Err(argon2::password_hash::Error::PasswordInvalid) => Some(false),
        Err(_) => None,
    }
}

/// What hashing a password with a salt comes to: what a call of `hash_with_salt`
/// at the costs of the supported profile returns.
pub closed spec fn hashing_gives(
    password: Seq<u8>,
    salt: Seq<u8>,
    hashed: Option<Seq<char>>,
) -> bool {
    exists|bytes: &[u8], random: &[u8], made: Option<String>|
        bytes@ == password && random@ == salt && optional_text(made) == hashed
            && #[trigger] call_ensures(
            hash_with_salt,
            (bytes, random, MEMORY_KIB, ITERATIONS, LANES, HASH_BYTES),
            made,
        )
}

/// What checking a password against a stored string comes to: what a call of
/// `verify_encoded` returns.
pub closed spec fn verification_gives(
    password: Seq<u8>,
    encoded: Seq<char>,
    verified: Option<bool>,
) -> bool {
    exists|bytes: &[u8], text: &str|
        bytes@ == password && text@ == encoded && #[trigger] call_ensures(
            verify_encoded,
            (bytes, text),
            verified,
        )
}

/// A hash string of the supported profile is within its bound.
proof fn made_strings_are_short()
    ensures
        made_length(SALT_BYTES as int, MEMORY_KIB, ITERATIONS, LANES, HASH_BYTES as int)
            <= MAX_ENCODED_HASH_CHARS,
{
    reveal_strlit("$argon2id$v=19$");
    reveal_strlit("m=");
    reveal_strlit(",t=");
    reveal_strlit(",p=");
    reveal_with_fuel(decimal, 6);
}

/// The salt of hash parts of the one supported profile, in canonical writing.
pub open spec fn profile_salt_of(parts: PhcParts, encoded: Seq<char>) -> Option<Seq<u8>> {
    if parts.3 is Some && parts.3->0.len() == SALT_BYTES && parts == made_parts(
        parts.3->0,
        MEMORY_KIB,
        ITERATIONS,
        LANES,
        HASH_BYTES,
        encoded,
    ) {
        parts.3
    } else {
        None
    }
}

/// The salt of a stored hash string that is supported.
pub open spec fn stored_salt(encoded: Seq<char>) -> Option<Seq<u8>> {
    match phc_parts(encoded) {
        Some(parts) if encode_utf8(encoded).len() <= MAX_ENCODED_HASH_CHARS => profile_salt_of(
            parts,
            encoded,
        ),
        _ => None,
    }
}

/// Whether a password hashes to a stored string with the salt of that string.
pub open spec fn hashes_to(password: Seq<u8>, encoded: Seq<char>) -> bool {
    argon2_text(
        password,
        stored_salt(encoded)->0,
        MEMORY_KIB,
        ITERATIONS,
        LANES,
        HASH_BYTES,
    ) == encoded
}

/// Writes the parameters of the supported profile.
fn profile_params() -> (r: String)
    ensures
        r@ == params_text(MEMORY_KIB, ITERATIONS, LANES),
{
    let mut text = String::new();
    push_text(&mut text, "m=");
    push_decimal(&mut text, MEMORY_KIB as u64);
    push_text(&mut text, ",t=");
    push_decimal(&mut text, ITERATIONS as u64);
    push_text(&mut text, ",p=");
    push_decimal(&mut text, LANES as u64);
    assert(text@ =~= params_text(MEMORY_KIB, ITERATIONS, LANES));
    text
}

/// The salt of a parsed hash, where it has the supported algorithm, version,
/// costs and lengths and its string is canonical.
pub fn profile_salt(hash: PhcHash, encoded: &str) -> (r: Option<Vec<u8>>)
    ensures
        (match r {
            Some(salt) => Some(salt@),
            None => None,
        }) == profile_salt_of(hash@, encoded@),
{
    let params: String = profile_params();
    match (hash.version, hash.salt, hash.output_length) {
        (Some(version), Some(salt), Some(length)) => {
            if same(hash.algorithm.as_str(), "argon2id") && version == HASH_VERSION && same(
                hash.params.as_str(),
                params.as_str(),
            ) && salt.len() == SALT_BYTES && length == HASH_BYTES && same(
                hash.text.as_str(),
                encoded,
            ) {
                Some(salt)
            } else {
                None
            }
        },
        _ => None,
    }
}

/// A canonical, fixed-cost Argon2id hash and its full random salt generation.
pub struct Password {
    encoded_hash: String,
    salt_id: String,
}

impl Password {
    #[verifier::type_invariant]
    spec fn well_formed(self) -> bool {
        stored_salt(self.encoded_hash@) matches Some(salt) && self.salt_id@ == hex_text(salt)
    }

    /// The encoded hash.
    pub closed spec fn view(&self) -> Seq<char> {
        self.encoded_hash@
    }

    /// The salt, which tells password generations apart.
    pub open spec fn salt(&self) -> Seq<u8> {
        stored_salt(self@)->0
    }

    /// Validates a stored hash without performing expensive password work.
    pub fn from_encoded(encoded_hash: String) -> (r: Result<Self, AppError>)
        ensures
            match r {
                Ok(password) => stored_salt(encoded_hash@) is Some && password@ == encoded_hash@,
                Err(error) => stored_salt(encoded_hash@) is None && error
                    == authentication_failure(),
            },
    {
        if encoded_hash.as_str().as_bytes().len() > MAX_ENCODED_HASH_CHARS {
            return Err(AppError::authentication());
        }
        match read_phc(encoded_hash.as_str()) {
            None => Err(AppError::authentication()),
            Some(hash) => match profile_salt(hash, encoded_hash.as_str()) {
                None => Err(AppError::authentication()),
                Some(salt) => {
                    let salt_id: String = hex_encode(salt.as_slice());
                    Ok(Password { encoded_hash, salt_id })
                },
            },
        }
    }

    /// Returns the encoded credential only for persistence, never presentation.
    pub fn encoded(&self) -> (r: &str)
        ensures
            r@ == self@,
            stored_salt(r@) is Some,
    {
        proof {
            use_type_invariant(self);
        }
        self.encoded_hash.as_str()
    }

    /// Returns all 16 salt bytes as 32 lowercase hexadecimal characters.
    pub fn salt_id(&self) -> (r: &str)
        ensures
            r@ == hex_text(self.salt()),
            hex_token(r@, 2 * SALT_BYTES as int),
    {
        proof {
            use_type_invariant(self);
            hex_text_is_hex(self.salt());
        }
        self.salt_id.as_str()
    }

    /// Compares validated fixed-length password generations in constant time.
    pub fn same_generation(&self, other: &Self) -> (r: bool)
        ensures
            r == (self.salt() == other.salt()),
    {
        proof {
            use_type_invariant(self);
            use_type_invariant(other);
            vstd::utf8::encode_utf8_decode_utf8(self.salt_id@);
            vstd::utf8::encode_utf8_decode_utf8(other.salt_id@);
            if hex_text(self.salt()) == hex_text(other.salt()) {
                hex_text_is_injective(self.salt(), other.salt());
            }
        }
        constant_time_eq(self.salt_id.as_str().as_bytes(), other.salt_id.as_str().as_bytes())
    }

    /// An equal credential.
    pub fn copy(&self) -> (r: Self)
        ensures
            r@ == self@,
    {
        proof {
            use_type_invariant(self);
        }
        Password {
            encoded_hash: self.encoded_hash.as_str().to_owned(),
            salt_id: self.salt_id.as_str().to_owned(),
        }
    }

    /// Hashes a fresh password on the caller's blocking thread, with a salt of
    /// the bytes that the entropy source gives. It fails exactly where the
    /// entropy source or the hashing does.
    pub fn new(password: String) -> (r: Result<Self, AppError>)
        ensures
            exists|read: Result<[u8; SALT_BYTES], AppError>| #[trigger]
                entropy_gives(read) && match read {
                    Ok(salt) => match r {
                        Ok(made) => {
                            &&& made.salt() == salt@
                            &&& made@ == argon2_text(
                                encode_utf8(password@),
                                salt@,
                                MEMORY_KIB,
                                ITERATIONS,
                                LANES,
                                HASH_BYTES,
                            )
                            &&& hashing_gives(encode_utf8(password@), salt@, Some(made@))
                        },
                        Err(error) => {
                            &&& error == authentication_failure()
                            &&& hashing_gives(encode_utf8(password@), salt@, None)
                        },
                    },
                    Err(error) => r == Err::<Self, AppError>(error),
                },
            match r {
                Ok(made) => accepts(made@, password@),
                Err(error) => error == authentication_failure(),
            },
    {
        match draw_bytes::<SALT_BYTES>() {
            Err(error) => Err(error),
            Ok(salt) => {
                let hashed: Option<String> = hash_with_salt(
                    password.as_str().as_bytes(),
                    salt.as_slice(),
                    MEMORY_KIB,
                    ITERATIONS,
                    LANES,
                    HASH_BYTES,
                );
                proof {
                    assert(hashing_gives(encode_utf8(password@), salt@, optional_text(hashed)));
                    made_strings_are_short();
                }
                match hashed {
                    None => Err(AppError::authentication()),
                    Some(encoded) => Password::from_encoded(encoded),
                }
            },
        }
    }

    /// Verifies a password on the caller's bounded blocking worker. It fails
    /// exactly where the hashing does.
    pub fn verify(&self, password: &str) -> (r: Result<bool, AppError>)
        ensures
            verified(self@, password@, r),
    {
        proof {
            use_type_invariant(self);
        }
        let verified: Option<bool> = verify_encoded(
            password.as_bytes(),
            self.encoded_hash.as_str(),
        );
        assert(verification_gives(encode_utf8(password@), self@, verified));
        match verified {
            Some(accepted) => Ok(accepted),
            None => Err(AppError::authentication()),
        }
    }
}

/// Whether a credential accepts a password.
pub open spec fn accepts(encoded: Seq<char>, password: Seq<char>) -> bool {
    stored_salt(encoded) is Some && hashes_to(encode_utf8(password), encoded)
}

/// What verifying a password against a credential comes to: whether it is
/// accepted, or a failure of the hashing.
pub open spec fn verified(
    encoded: Seq<char>,
    password: Seq<char>,
    r: Result<bool, AppError>,
) -> bool {
    match r {
        Ok(accepted) => {
            &&& accepted == accepts(encoded, password)
            &&& verification_gives(encode_utf8(password), encoded, Some(accepted))
        },
        Err(error) => {
            &&& error == authentication_failure()
            &&& verification_gives(encode_utf8(password), encoded, None)
        },
    }
}

/// A stored credential means the same after a restart: what is restored from
/// the encoding of a credential accepts the same passwords and is of the same
/// generation.
pub proof fn restored_password_is_the_same(stored: Password, restored: Password, password: Seq<char>)
    requires
        restored@ == stored@,
    ensures
        accepts(restored@, password) == accepts(stored@, password),
        restored.salt() == stored.salt(),
{
}

/// Applies the shared byte and control-character policy without trimming.
pub fn validate_site_password(password: &str) -> (r: Result<(), AppError>)
    ensures
        match r {
            Ok(_) => password_allowed(password@),
            Err(error) => !password_allowed(password@) && error == rejected(
                status::BAD_REQUEST,
                "Invalid site password.",
            ),
        },
{
    if valid_password(password) {
        Ok(())
    } else {
        Err(AppError::request(status::BAD_REQUEST, "Invalid site password."))
    }
}

}
