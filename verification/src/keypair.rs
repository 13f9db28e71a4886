//! Schnorr keypairs over Ristretto.
use crate::primitives::Public;
use rand_core::OsRng;
use vstd::prelude::*;

verus! {

/// The encoding of the public key which `schnorrkel::SecretKey::to_public` gives for the secret key
/// which these bytes are the encoding of, if `schnorrkel::SecretKey::from_bytes` reads one from them.
pub uninterp spec fn public_of_secret(secret: Seq<u8>) -> Option<Seq<u8>>;

/// Whether `schnorrkel::PublicKey::verify_simple` accepts a signature, the public key and the
/// signature being given by their encodings. It isn't accepted where `schnorrkel` reads no public key,
/// or no signature, from these.
pub uninterp spec fn verifies(
    public: Seq<u8>,
    context: Seq<u8>,
    message: Seq<u8>,
    signature: Seq<u8>,
) -> bool;

/// Whether bytes are the encoding of a public key which a secret key has.
pub open spec fn is_public_key(public: Seq<u8>) -> bool {
    exists|secret: Seq<u8>| #[trigger] public_of_secret(secret) == Some(public)
}

/// `schnorrkel::Keypair::generate_with`, by the encodings of the secret and the public key generated.
/// The keypair is random. It's claimed that the public key is the one the secret key has. It panics
/// where the operating system fails to provide randomness.
#[verifier::external_body]
fn generate_with(rng: &mut OsRng) -> (keys: ([u8; 64], [u8; 32]))
    ensures
        public_of_secret(keys.0@) == Some(keys.1@),
{
    let keypair = schnorrkel::Keypair::generate_with(rng);
    (keypair.secret.to_bytes(), keypair.public.to_bytes())
}

/// `schnorrkel::Keypair::sign_simple`, on the keypair of a secret key. The signature is random. It's
/// claimed that the secret key's public key verifies it, for this context and message.
///
/// The transcript which is signed encodes the length of the context, and of the message, as a `u32`,
/// and can't be made of anything longer. Signing panics where the operating system fails to provide
/// randomness.
#[verifier::external_body]
fn sign_simple(secret: &[u8; 64], context: &[u8], message: &[u8]) -> (signature: [u8; 64])
    requires
        public_of_secret(secret@) is Some,
        context@.len() <= u32::MAX,
        message@.len() <= u32::MAX,
    ensures
        verifies(public_of_secret(secret@)->Some_0, context@, message@, signature@),
{
    let secret = schnorrkel::SecretKey::from_bytes(secret).unwrap();
    secret.to_keypair().sign_simple(context, message).to_bytes()
}

/// `schnorrkel::PublicKey::verify_simple`, on the encodings of a public key and a signature. What it
/// returns depends on nothing but its arguments, so it's claimed to be what's named for them.
///
/// As of signing, the transcript can't be made of a longer context or message.
#[verifier::external_body]
fn verify_simple(
    public: &[u8; 32],
    context: &[u8],
    message: &[u8],
    signature: &[u8; 64],
) -> (accepted: bool)
    requires
        context@.len() <= u32::MAX,
        message@.len() <= u32::MAX,
    ensures
        accepted == verifies(public@, context@, message@, signature@),
{
    match (schnorrkel::PublicKey::from_bytes(public), schnorrkel::Signature::from_bytes(signature)) {
        (Ok(public), Ok(signature)) => public.verify_simple(context, message, &signature).is_ok(),
        _ => false,
    }
}

/// Verify the signature of a message, for a context, by a public key.
pub fn verify_signature(
    public: &Public,
    context: &[u8],
    message: &[u8],
    signature: &[u8; 64],
) -> (accepted: bool)
    requires
        context@.len() <= u32::MAX,
        message@.len() <= u32::MAX,
    ensures
        accepted == verifies(public.0@, context@, message@, signature@),
{
    verify_simple(&public.0, context, message, signature)
}

/// A secret key, with its public key.
pub struct Keypair {
    secret: [u8; 64],
    public: Public,
}

impl Keypair {
    #[verifier::type_invariant]
    spec fn inv(self) -> bool {
        public_of_secret(self.secret@) == Some(self.public.0@)
    }

    /// The public key.
    pub closed spec fn spec_public(&self) -> Public {
        self.public
    }

    /// Generate a random keypair.
    pub fn generate(rng: &mut OsRng) -> (keypair: Self)
        ensures
            is_public_key(keypair.public().0@),
    {
        let (secret, public): ([u8; 64], [u8; 32]) = generate_with(rng);
        Keypair { secret, public: Public(public) }
    }

    /// The public key.
    #[verifier::when_used_as_spec(spec_public)]
    pub fn public(&self) -> (public: Public)
        ensures
            public == self.spec_public(),
            is_public_key(public.0@),
    {
        proof {
            use_type_invariant(self);
        }
        self.public
    }

    /// Sign a message, for a context. The signature verifies with the public key.
    pub fn sign(&self, context: &[u8], message: &[u8]) -> (signature: [u8; 64])
        requires
            context@.len() <= u32::MAX,
            message@.len() <= u32::MAX,
        ensures
            verifies(self.public().0@, context@, message@, signature@),
    {
        proof {
            use_type_invariant(self);
        }
        sign_simple(&self.secret, context, message)
    }
}

} // verus!
