//! Deterministic password derivation. A password is derived from the master
//! secret and a context label by an HMAC-SHA-256 keyed on the secret; the
//! digest bytes are mapped onto a fixed 75-character alphabet. Character-class
//! requirements (a digit, a symbol) are enforced by reject-and-rehash: an
//! attempt counter is folded into the MAC input and the first candidate that
//! satisfies every requested class is returned, so the scheme stays a pure
//! function of its inputs.

use vstd::prelude::*;
use vstd::string::StringSliceAdditionalSpecFns;

use hmac::Mac;

use crate::error::EasyPasswordError;
use crate::text::{ascii_to_string, chars_of_bytes};

verus! {

/// The action a completed trigger requests.
#[derive(Clone, Copy, Debug, PartialEq, Eq, Structural)]
pub enum GenerationMode {
    /// Cache the argument text as the new master secret.
    SetMasterKey,
    /// Derive and inject a password for the current context.
    GenerateForContext,
}

impl GenerationMode {
    /// Whether a completed trigger of this mode captures trailing argument
    /// text before it is emitted.
    pub open spec fn spec_takes_argument(self) -> bool {
        self is SetMasterKey
    }

    #[verifier::when_used_as_spec(spec_takes_argument)]
    pub fn takes_argument(self) -> (b: bool)
        ensures
            b == self.spec_takes_argument(),
    {
        match self {
            GenerationMode::SetMasterKey => true,
            GenerationMode::GenerateForContext => false,
        }
    }
}

/// Options for password derivation.
#[derive(Clone, Copy, Debug, PartialEq, Eq, Structural)]
pub struct PasswordConfig {
    /// Number of characters in the derived password.
    pub length: usize,
    /// The password must contain at least one decimal digit.
    pub require_digit: bool,
    /// The password must contain at least one symbol character.
    pub require_symbol: bool,
}

/// Output alphabet size: 26 lower-case letters, 26 upper-case letters, 10
/// digits and 13 symbols.
pub const ALPHABET_LEN: u8 = 75;

/// How many derivation attempts are made before giving up on the requested
/// character classes.
pub const MAX_ATTEMPTS: u8 = 64;

/// The symbol portion of the output alphabet, by position.
pub open spec fn symbol_at(j: int) -> u8 {
    if j == 0 {
        33u8
    } else if j == 1 {
        64u8
    } else if j == 2 {
        35u8
    } else if j == 3 {
        36u8
    } else if j == 4 {
        37u8
    } else if j == 5 {
        94u8
    } else if j == 6 {
        38u8
    } else if j == 7 {
        42u8
    } else if j == 8 {
        45u8
    } else if j == 9 {
        95u8
    } else if j == 10 {
        61u8
    } else if j == 11 {
        43u8
    } else {
        63u8
    }
}

/// The output alphabet, by position: `a..z`, `A..Z`, `0..9`, then symbols.
pub open spec fn alpha_at(i: int) -> u8 {
    if 0 <= i < 26 {
        (97u8 + i) as u8
    } else if 26 <= i < 52 {
        (65u8 + (i - 26)) as u8
    } else if 52 <= i < 62 {
        (48u8 + (i - 52)) as u8
    } else {
        symbol_at(i - 62)
    }
}

fn symbol_byte(j: u8) -> (b: u8)
    requires
        j < 13,
    ensures
        b == symbol_at(j as int),
        b < 128,
{
    if j == 0 {
        33u8
    } else if j == 1 {
        64u8
    } else if j == 2 {
        35u8
    } else if j == 3 {
        36u8
    } else if j == 4 {
        37u8
    } else if j == 5 {
        94u8
    } else if j == 6 {
        38u8
    } else if j == 7 {
        42u8
    } else if j == 8 {
        45u8
    } else if j == 9 {
        95u8
    } else if j == 10 {
        61u8
    } else if j == 11 {
        43u8
    } else {
        63u8
    }
}

fn alpha_byte(i: u8) -> (b: u8)
    requires
        i < ALPHABET_LEN,
    ensures
        b == alpha_at(i as int),
        b < 128,
{
    if i < 26 {
        97u8 + i
    } else if i < 52 {
        65u8 + (i - 26)
    } else if i < 62 {
        48u8 + (i - 52)
    } else {
        symbol_byte(i - 62)
    }
}

/// Whether the byte is the ASCII code of a decimal digit.
pub open spec fn is_digit_byte(b: u8) -> bool {
    48u8 <= b && b <= 57u8
}

/// Whether the byte is one of the alphabet's symbol characters.
pub open spec fn is_symbol_byte(b: u8) -> bool {
    exists|j: int| 0 <= j < 13 && b == symbol_at(j)
}

/// Whether the candidate contains at least one digit.
pub open spec fn spec_has_digit(s: Seq<u8>) -> bool {
    exists|i: int| 0 <= i < s.len() && is_digit_byte(s[i])
}

/// Whether the candidate contains at least one symbol.
pub open spec fn spec_has_symbol(s: Seq<u8>) -> bool {
    exists|i: int| 0 <= i < s.len() && is_symbol_byte(s[i])
}

/// Whether the candidate meets every character class the options request.
pub open spec fn spec_satisfies(s: Seq<u8>, options: PasswordConfig) -> bool {
    &&& options.require_digit ==> spec_has_digit(s)
    &&& options.require_symbol ==> spec_has_symbol(s)
}

fn byte_is_digit(b: u8) -> (r: bool)
    ensures
        r == is_digit_byte(b),
{
    48u8 <= b && b <= 57u8
}

fn byte_is_symbol(b: u8) -> (r: bool)
    ensures
        r == is_symbol_byte(b),
{
    let r = b == 33u8 || b == 64u8 || b == 35u8 || b == 36u8 || b == 37u8 || b == 94u8 || b == 38u8
        || b == 42u8 || b == 45u8 || b == 95u8 || b == 61u8 || b == 43u8 || b == 63u8;
    proof {
        if r {
            assert(exists|j: int| 0 <= j < 13 && b == symbol_at(j)) by {
                if b == 33u8 {
                    assert(b == symbol_at(0));
                } else if b == 64u8 {
                    assert(b == symbol_at(1));
                } else if b == 35u8 {
                    assert(b == symbol_at(2));
                } else if b == 36u8 {
                    assert(b == symbol_at(3));
                } else if b == 37u8 {
                    assert(b == symbol_at(4));
                } else if b == 94u8 {
                    assert(b == symbol_at(5));
                } else if b == 38u8 {
                    assert(b == symbol_at(6));
                } else if b == 42u8 {
                    assert(b == symbol_at(7));
                } else if b == 45u8 {
                    assert(b == symbol_at(8));
                } else if b == 95u8 {
                    assert(b == symbol_at(9));
                } else if b == 61u8 {
                    assert(b == symbol_at(10));
                } else {
                    assert(b == symbol_at(11) || b == symbol_at(12));
                }
            }
        }
    }
    r
}

fn has_digit(s: &Vec<u8>) -> (r: bool)
    ensures
        r == spec_has_digit(s@),
{
    let mut i: usize = 0;
    while i < s.len()
        invariant
            i <= s@.len(),
            forall|j: int| 0 <= j < i ==> !is_digit_byte(s@[j]),
        decreases s@.len() - i,
    {
        if byte_is_digit(s[i]) {
            return true;
        }
        i = i + 1;
    }
    false
}

fn has_symbol(s: &Vec<u8>) -> (r: bool)
    ensures
        r == spec_has_symbol(s@),
{
    let mut i: usize = 0;
    while i < s.len()
        invariant
            i <= s@.len(),
            forall|j: int| 0 <= j < i ==> !is_symbol_byte(s@[j]),
        decreases s@.len() - i,
    {
        if byte_is_symbol(s[i]) {
            return true;
        }
        i = i + 1;
    }
    false
}

fn satisfies(candidate: &Vec<u8>, options: &PasswordConfig) -> (r: bool)
    ensures
        r == spec_satisfies(candidate@, *options),
{
    let digit_ok = !options.require_digit || has_digit(candidate);
    let symbol_ok = !options.require_symbol || has_symbol(candidate);
    digit_ok && symbol_ok
}

/// What HMAC-SHA-256 returns for the given key and message bytes.
pub uninterp spec fn hmac_sha256(key: Seq<u8>, msg: Seq<u8>) -> Seq<u8>;

/// Relies on `hmac::Hmac<sha2::Sha256>` through the `digest::Mac` interface
/// (`new_from_slice`, `update`, `finalize`): HMAC-SHA-256 is a deterministic
/// function of the key and message bytes alone, its output is 32 bytes, and
/// `new_from_slice` accepts a key of any length, so the call cannot fail.
#[verifier::external_body]
fn hmac_sha256_bytes(key: &[u8], msg: &[u8]) -> (r: Vec<u8>)
    ensures
        r@ == hmac_sha256(key@, msg@),
        r@.len() == 32,
{
    let mut mac = <hmac::Hmac<sha2::Sha256> as hmac::Mac>::new_from_slice(key).expect(
        "HMAC accepts keys of any length",
    );
    hmac::Mac::update(&mut mac, msg);
    mac.finalize().into_bytes().to_vec()
}

/// The MAC input for one derivation attempt: the context bytes, a zero
/// separator, and the attempt counter.
pub open spec fn attempt_message(context: Seq<u8>, attempt: u8) -> Seq<u8> {
    context.push(0u8).push(attempt)
}

fn attempt_bytes(context: &[u8], attempt: u8) -> (v: Vec<u8>)
    ensures
        v@ == attempt_message(context@, attempt),
{
    let mut v = vstd::slice::slice_to_vec(context);
    v.push(0u8);
    v.push(attempt);
    assert(v@ =~= attempt_message(context@, attempt));
    v
}

/// The candidate drawn from one digest: each output position takes the
/// alphabet character selected by the matching digest byte, the digest being
/// reused cyclically past 32 characters.
pub open spec fn candidate_bytes(digest: Seq<u8>, length: nat) -> Seq<u8> {
    Seq::new(length, |i: int| alpha_at((digest[i % 32] as int) % (ALPHABET_LEN as int)))
}

fn candidate_from_digest(digest: &Vec<u8>, length: usize) -> (v: Vec<u8>)
    requires
        digest@.len() == 32,
    ensures
        v@ == candidate_bytes(digest@, length as nat),
        forall|i: int| 0 <= i < v@.len() ==> v@[i] < 128,
{
    let mut v: Vec<u8> = Vec::new();
    let mut i: usize = 0;
    while i < length
        invariant
            digest@.len() == 32,
            i <= length,
            v@.len() == i,
            forall|j: int| 0 <= j < i ==> v@[j] == alpha_at((digest@[j % 32] as int) % (
            ALPHABET_LEN as int)),
            forall|j: int| 0 <= j < i ==> v@[j] < 128,
        decreases length - i,
    {
        let b = digest[i % 32];
        let c = alpha_byte(b % ALPHABET_LEN);
        v.push(c);
        i = i + 1;
    }
    assert(v@ =~= candidate_bytes(digest@, length as nat));
    v
}

/// The first of the first `n` attempts whose candidate meets the requested
/// character classes, if any.
pub open spec fn first_good(key: Seq<u8>, context: Seq<u8>, options: PasswordConfig, n: int) -> Option<
    Seq<u8>,
>
    decreases n,
{
    if n <= 0 {
        None
    } else {
        match first_good(key, context, options, n - 1) {
            Some(c) => Some(c),
            None => {
                let c = candidate_bytes(
                    hmac_sha256(key, attempt_message(context, (n - 1) as u8)),
                    options.length as nat,
                );
                if spec_satisfies(c, options) {
                    Some(c)
                } else {
                    None
                }
            },
        }
    }
}

proof fn lemma_first_good_extend(
    key: Seq<u8>,
    context: Seq<u8>,
    options: PasswordConfig,
    n: int,
    m: int,
)
    requires
        0 <= n <= m,
        first_good(key, context, options, n) is Some,
    ensures
        first_good(key, context, options, m) == first_good(key, context, options, n),
    decreases m,
{
    if m > n {
        lemma_first_good_extend(key, context, options, n, m - 1);
    }
}

proof fn lemma_first_good_len(key: Seq<u8>, context: Seq<u8>, options: PasswordConfig, n: int)
    ensures
        first_good(key, context, options, n) matches Some(cb) ==> cb.len() == options.length,
    decreases n,
{
    if n > 0 {
        lemma_first_good_len(key, context, options, n - 1);
    }
}

proof fn lemma_first_good_satisfies(key: Seq<u8>, context: Seq<u8>, options: PasswordConfig, n: int)
    ensures
        first_good(key, context, options, n) matches Some(cb) ==> spec_satisfies(cb, options),
    decreases n,
{
    if n > 0 {
        lemma_first_good_satisfies(key, context, options, n - 1);
    }
}

/// The successful-generation relation: `p` is the password derived for this
/// key, context and options.
pub open spec fn spec_generated(
    key: Seq<u8>,
    context: Seq<u8>,
    options: PasswordConfig,
    p: Seq<char>,
) -> bool {
    match first_good(key, context, options, MAX_ATTEMPTS as int) {
        Some(cb) => p == chars_of_bytes(cb),
        None => false,
    }
}

/// Derivation is a pure function of its inputs: any two successful outputs
/// for the same key, context and options are identical.
pub proof fn lemma_generate_deterministic(
    key: Seq<u8>,
    context: Seq<u8>,
    options: PasswordConfig,
    p1: Seq<char>,
    p2: Seq<char>,
)
    requires
        spec_generated(key, context, options, p1),
        spec_generated(key, context, options, p2),
    ensures
        p1 == p2,
{
}

/// A successfully derived password has the requested length, and its bytes
/// meet every requested character class: at least one digit when
/// `require_digit` is set, at least one symbol when `require_symbol` is.
pub proof fn lemma_generated_meets_options(
    key: Seq<u8>,
    context: Seq<u8>,
    options: PasswordConfig,
    p: Seq<char>,
)
    requires
        spec_generated(key, context, options, p),
    ensures
        p.len() == options.length,
        exists|cb: Seq<u8>|
            {
                &&& p == chars_of_bytes(cb)
                &&& cb.len() == options.length
                &&& spec_satisfies(cb, options)
            },
{
    lemma_first_good_len(key, context, options, MAX_ATTEMPTS as int);
    lemma_first_good_satisfies(key, context, options, MAX_ATTEMPTS as int);
}

/// Derives the password for `context` from `master_secret` under `options`.
///
/// Fails with `MasterKeyNotSet` exactly when the secret is empty; otherwise
/// the result is the first candidate (by attempt counter) meeting the
/// requested character classes, or `PasswordGeneration` if none of the
/// bounded attempts produced one.
pub fn generate_password(master_secret: &str, context: &str, options: &PasswordConfig) -> (r: Result<
    String,
    EasyPasswordError,
>)
    ensures
        master_secret@.len() == 0 ==> (r matches Err(e) && e is MasterKeyNotSet),
        master_secret@.len() != 0 ==> match r {
            Ok(p) => spec_generated(
                master_secret.spec_bytes(),
                context.spec_bytes(),
                *options,
                p@,
            ),
            Err(e) => e matches EasyPasswordError::PasswordGeneration(_) && first_good(
                master_secret.spec_bytes(),
                context.spec_bytes(),
                *options,
                MAX_ATTEMPTS as int,
            ) is None,
        },
        r matches Ok(p) ==> p@.len() == options.length,
{
    if master_secret.is_empty() {
        return Err(EasyPasswordError::MasterKeyNotSet);
    }
    let key = master_secret.as_bytes();
    let ctx = context.as_bytes();
    let mut attempt: u8 = 0;
    while attempt < MAX_ATTEMPTS
        invariant
            master_secret@.len() != 0,
            key@ == master_secret.spec_bytes(),
            ctx@ == context.spec_bytes(),
            attempt <= MAX_ATTEMPTS,
            first_good(key@, ctx@, *options, attempt as int) is None,
        decreases MAX_ATTEMPTS - attempt,
    {
        let msg = attempt_bytes(ctx, attempt);
        let digest = hmac_sha256_bytes(key, msg.as_slice());
        let cand = candidate_from_digest(&digest, options.length);
        let ghost gcand = cand@;
        if satisfies(&cand, options) {
            proof {
                assert(first_good(key@, ctx@, *options, attempt as int + 1) == Some(gcand));
                lemma_first_good_extend(
                    key@,
                    ctx@,
                    *options,
                    attempt as int + 1,
                    MAX_ATTEMPTS as int,
                );
                lemma_first_good_len(key@, ctx@, *options, MAX_ATTEMPTS as int);
            }
            let p = ascii_to_string(cand);
            return Ok(p);
        }
        proof {
            assert(first_good(key@, ctx@, *options, attempt as int + 1) is None);
        }
        attempt = attempt + 1;
    }
    Err(
        EasyPasswordError::PasswordGeneration(
            String::from_str("no candidate met the required character classes"),
        ),
    )
}

} // verus!
