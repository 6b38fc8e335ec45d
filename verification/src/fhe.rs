//! Key material and the encrypted 8-bit integer, together with the
//! homomorphic operations the registry and the ledger rely on.
//!
//! Every call into the `tfhe` crate stands behind a trusted wrapper here.
//! Each ciphertext carries, as ghost data, the plaintext it encrypts and an
//! identifier of the key pair it was made under; the wrappers' contracts
//! state how the homomorphic operations act on those plaintexts, which is
//! exactly the homomorphism guarantee the `tfhe` documentation gives.

use vstd::prelude::*;

use tfhe::prelude::{FheDecrypt, FheEncrypt, FheOrd};

verus! {

/// tfhe's secret key: it encrypts plaintexts and decrypts ciphertexts.
#[verifier::external_type_specification]
#[verifier::external_body]
pub struct ExClientKey(tfhe::ClientKey);

/// tfhe's public evaluation key: it carries out homomorphic operations.
#[verifier::external_type_specification]
#[verifier::external_body]
pub struct ExServerKey(tfhe::ServerKey);

/// Holds tfhe's encrypted eight-bit unsigned integer. Inside tfhe that type
/// is an instance of a generic whose width-marker trait the crate keeps
/// private, so the type cannot be declared on its own; this struct carries
/// it opaquely instead.
#[verifier::external_body]
pub struct FheCt8 {
    inner: tfhe::FheUint8,
}

/// tfhe's encrypted boolean, the result type of homomorphic comparisons.
#[verifier::external_type_specification]
#[verifier::external_body]
pub struct ExFheBool(tfhe::FheBool);

/// A client/server key pair. The pair is generated (or reloaded) once per
/// process and shared by reference afterwards.
///
/// The ghost `key_id` distinguishes pairs: a ciphertext may only be
/// decrypted, or fed to a homomorphic operation, through the context whose
/// identifier it carries.
pub struct FheContext {
    client_key: tfhe::ClientKey,
    server_key: tfhe::ServerKey,
    key_id: Ghost<int>,
}

/// An encrypted eight-bit unsigned integer. Its mathematical value is the
/// plaintext it encrypts, available in specifications as `c@`; `c.key_id()`
/// names the key pair it was encrypted under.
pub struct CtU8 {
    ct: FheCt8,
    plain: Ghost<u8>,
    key: Ghost<int>,
}

/// An encrypted boolean, as produced by the homomorphic comparisons. Like
/// [`CtU8`] it never leaves the process; only its decryption does.
pub struct CtBool {
    ct: tfhe::FheBool,
    plain: Ghost<bool>,
    key: Ghost<int>,
}

impl View for CtU8 {
    type V = u8;

    closed spec fn view(&self) -> u8 {
        self.plain@
    }
}

impl CtU8 {
    /// The key pair this ciphertext was encrypted under.
    pub closed spec fn key_id(&self) -> int {
        self.key@
    }
}

impl View for CtBool {
    type V = bool;

    closed spec fn view(&self) -> bool {
        self.plain@
    }
}

impl CtBool {
    /// The key pair this ciphertext was encrypted under.
    pub closed spec fn key_id(&self) -> int {
        self.key@
    }
}

impl FheContext {
    /// The identifier of this context's key pair.
    pub closed spec fn id(&self) -> int {
        self.key_id@
    }

    /// Relies on tfhe's `generate_keys`: the returned client and server key
    /// form one consistent pair. Generation draws randomness, so nothing is
    /// promised of the returned material beyond what the other wrappers
    /// state about values passed through it.
    #[verifier::external_body]
    pub fn generate() -> (r: FheContext) {
        let config = tfhe::ConfigBuilder::default().build();
        let (client_key, server_key) = tfhe::generate_keys(config);
        FheContext { client_key, server_key, key_id: Ghost(arbitrary()) }
    }

    /// Rebuilds a context from persisted key material. The two keys must
    /// come from one `tfhe::generate_keys` call (the caller persists and
    /// reloads them together); with an inconsistent pair the homomorphic
    /// results would not decrypt to the values the wrappers state.
    #[verifier::external_body]
    pub fn from_pair(client_key: tfhe::ClientKey, server_key: tfhe::ServerKey) -> (r: FheContext) {
        FheContext { client_key, server_key, key_id: Ghost(arbitrary()) }
    }

    /// Read-only handle to the client key, for persistence.
    pub fn client_key(&self) -> &tfhe::ClientKey {
        &self.client_key
    }

    /// Read-only handle to the server key, for persistence.
    pub fn server_key(&self) -> &tfhe::ServerKey {
        &self.server_key
    }

    /// Relies on tfhe's `FheEncrypt` for `FheUint8`: the result encrypts
    /// exactly the given plaintext under this context's client key.
    #[verifier::external_body]
    pub fn encrypt_u8(&self, value: u8) -> (r: CtU8)
        ensures
            r@ == value,
            r.key_id() == self.id(),
    {
        let ct = FheCt8 { inner: tfhe::FheUint8::encrypt(value, &self.client_key) };
        CtU8 { ct, plain: Ghost(arbitrary()), key: Ghost(arbitrary()) }
    }

    /// Relies on tfhe's `FheDecrypt` for `FheUint8`: decryption under the
    /// client key of the pair that encrypted the value returns that value.
    #[verifier::external_body]
    pub fn decrypt_u8(&self, c: &CtU8) -> (r: u8)
        requires
            c.key_id() == self.id(),
        ensures
            r == c@,
    {
        c.ct.inner.decrypt(&self.client_key)
    }

    /// Relies on tfhe's `FheDecrypt` for `FheBool`: decryption under the
    /// client key of the pair that produced the value returns that value.
    #[verifier::external_body]
    pub fn decrypt_bool(&self, c: &CtBool) -> (r: bool)
        requires
            c.key_id() == self.id(),
        ensures
            r == c@,
    {
        c.ct.decrypt(&self.client_key)
    }

    /// Relies on tfhe's `FheOrd::gt` for `FheUint8`: the result encrypts
    /// the boolean `a > b` on the plaintexts. The body installs this
    /// context's server key first, as every homomorphic operation needs the
    /// ambient evaluation key of the pair the operands were made under.
    #[verifier::external_body]
    pub fn ct_gt(&self, a: &CtU8, b: &CtU8) -> (r: CtBool)
        requires
            a.key_id() == self.id(),
            b.key_id() == self.id(),
        ensures
            r@ == (a@ > b@),
            r.key_id() == self.id(),
    {
        tfhe::set_server_key(self.server_key.clone());
        let ct = a.ct.inner.gt(&b.ct.inner);
        CtBool { ct, plain: Ghost(arbitrary()), key: Ghost(arbitrary()) }
    }

    /// Relies on tfhe's `FheOrd::lt` for `FheUint8`: the result encrypts
    /// the boolean `a < b` on the plaintexts. The body installs this
    /// context's server key first.
    #[verifier::external_body]
    pub fn ct_lt(&self, a: &CtU8, b: &CtU8) -> (r: CtBool)
        requires
            a.key_id() == self.id(),
            b.key_id() == self.id(),
        ensures
            r@ == (a@ < b@),
            r.key_id() == self.id(),
    {
        tfhe::set_server_key(self.server_key.clone());
        let ct = a.ct.inner.lt(&b.ct.inner);
        CtBool { ct, plain: Ghost(arbitrary()), key: Ghost(arbitrary()) }
    }

    /// Relies on tfhe's `Add` for `FheUint8`, which is wrapping addition on
    /// the plaintexts. The body installs this context's server key first.
    #[verifier::external_body]
    pub fn ct_add(&self, a: &CtU8, b: &CtU8) -> (r: CtU8)
        requires
            a.key_id() == self.id(),
            b.key_id() == self.id(),
        ensures
            r@ as int == (a@ as int + b@ as int) % 256,
            r.key_id() == self.id(),
    {
        tfhe::set_server_key(self.server_key.clone());
        let ct = FheCt8 { inner: &a.ct.inner + &b.ct.inner };
        CtU8 { ct, plain: Ghost(arbitrary()), key: Ghost(arbitrary()) }
    }
}

/// Relies on tfhe's `Clone` for `FheUint8`: the copy encrypts the same
/// plaintext under the same pair as the original.
#[verifier::external_body]
pub(crate) fn clone_ct(c: &CtU8) -> (r: CtU8)
    ensures
        r@ == c@,
        r.key_id() == c.key_id(),
{
    CtU8 { ct: FheCt8 { inner: c.ct.inner.clone() }, plain: c.plain, key: c.key }
}

/// The demonstration round trip: encrypt 10 and 5, add them homomorphically
/// and decrypt the sum.
pub fn demo_sum(ctx: &FheContext) -> (r: u8)
    ensures
        r == 15u8,
{
    let a = ctx.encrypt_u8(10);
    let b = ctx.encrypt_u8(5);
    let c = ctx.ct_add(&a, &b);
    ctx.decrypt_u8(&c)
}

} // verus!
