//! The derivation engine: a deterministic function from master password,
//! domain and per-domain configuration to a generated password.
//!
//! The seed is the master password, the optional suffix, a `':'` and the
//! domain. The engine repeatedly digests the buffer, encodes the digest
//! with a fixed 64-symbol alphabet, and substitutes the three
//! non-alphanumeric encoding artifacts, keeping the buffer alphanumeric.
//! After a minimum number of rounds the first `length` characters are
//! tested for complexity; one more round is run per failed test, up to a
//! fatal ceiling.

use vstd::prelude::*;

verus! {

use vstd::string::{StrSliceExecFns, StringExecFns, StringSliceAdditionalSpecFns};
use vstd::utf8::encode_utf8;

use crate::config::{DomainConfig, DomainConfigV};
use crate::error::Error;

/// A domain name a password is derived for.
#[derive(Clone, Copy, Debug)]
pub struct Domain<'a>(pub &'a str);

/// A master password.
pub struct Password<'a>(pub &'a str);

/// Rounds always run before the first validity test.
pub const MIN_ROUNDS: u32 = 10;

/// Total rounds after which derivation fails fatally.
pub const MAX_ROUNDS: u32 = 50;

/// What `md5::compute` returns for the given bytes; a function of the
/// input alone.
pub uninterp spec fn md5_of(bytes: Seq<u8>) -> Seq<u8>;

/// What the fixed-alphabet base64 encoding returns for the given bytes;
/// a function of the input alone.
pub uninterp spec fn b64_custom_of(bytes: Seq<u8>) -> Seq<u8>;

pub open spec fn is_lower_byte(b: u8) -> bool {
    97 <= b <= 122
}

pub open spec fn is_upper_byte(b: u8) -> bool {
    65 <= b <= 90
}

pub open spec fn is_digit_byte(b: u8) -> bool {
    48 <= b <= 57
}

/// The buffer stays alphanumeric ASCII between rounds.
pub open spec fn is_password_byte(b: u8) -> bool {
    is_lower_byte(b) || is_upper_byte(b) || is_digit_byte(b)
}

/// Relies on `md5::compute`: a 16-byte digest determined by the input
/// bytes alone.
#[verifier::external_body]
fn md5_digest(bytes: &Vec<u8>) -> (r: Vec<u8>)
    ensures
        r@ == md5_of(bytes@),
        r@.len() == 16,
{
    md5::compute(bytes.as_slice()).0.to_vec()
}

/// Relies on base64's `GeneralPurpose` engine with the fixed 64-symbol
/// alphabet (upper case, lower case, digits, `'.'`, `'/'`) and `'='`
/// padding: the encoding is determined by the input alone, emits
/// `4 * ceil(n / 3)` symbols, and every symbol is from the alphabet or is
/// the padding symbol. `Alphabet::new` cannot fail on this fixed,
/// 64-symbol, duplicate-free, padding-free alphabet.
#[verifier::external_body]
fn b64_custom_encode(bytes: &Vec<u8>) -> (r: Vec<u8>)
    ensures
        r@ == b64_custom_of(bytes@),
        r@.len() == 4 * ((bytes@.len() + 2) / 3),
        forall|i: int|
            0 <= i < r@.len() ==> (is_password_byte(r@[i]) || r@[i] == 46u8 || r@[i] == 47u8
                || r@[i] == 61u8),
{
    let alpha = base64::alphabet::Alphabet::new(
        "ABCDEFGHIJKLMNOPQRSTUVWXYZabcdefghijklmnopqrstuvwxyz0123456789./",
    ).unwrap();
    let engine = base64::engine::GeneralPurpose::new(&alpha, base64::engine::general_purpose::PAD);
    base64::Engine::encode(&engine, bytes.as_slice()).into_bytes()
}

/// The character a password byte stands for.
pub open spec fn byte_char(b: u8) -> char {
    (b as u32) as char
}

pub open spec fn chars_of_bytes(s: Seq<u8>) -> Seq<char> {
    s.map_values(|b: u8| byte_char(b))
}

/// Relies on `String::from_utf8`: ASCII bytes are valid UTF-8 and decode
/// to the characters with the same code points, so the call cannot fail.
#[verifier::external_body]
fn ascii_to_string(bytes: Vec<u8>) -> (r: String)
    requires
        forall|i: int| 0 <= i < bytes@.len() ==> bytes@[i] < 128,
    ensures
        r@ == chars_of_bytes(bytes@),
{
    String::from_utf8(bytes).unwrap()
}

/// The substitution applied after each encoding: padding (61, `'='`)
/// becomes 65 (`'A'`), 46 (`'.'`) becomes 57 (`'9'`), 47 (`'/'`) becomes
/// 56 (`'8'`).
pub open spec fn spec_substitute(b: u8) -> u8 {
    if b == 61 {
        65
    } else if b == 46 {
        57
    } else if b == 47 {
        56
    } else {
        b
    }
}

fn substitute(byte: u8) -> (r: u8)
    ensures
        r == spec_substitute(byte),
{
    if byte == 61 {
        65
    } else if byte == 46 {
        57
    } else if byte == 47 {
        56
    } else {
        byte
    }
}

pub open spec fn subst_all(s: Seq<u8>) -> Seq<u8> {
    s.map_values(|b: u8| spec_substitute(b))
}

/// One round: digest, encode, substitute.
pub open spec fn round(v: Seq<u8>) -> Seq<u8> {
    subst_all(b64_custom_of(md5_of(v)))
}

/// The buffer after `n` rounds from `v`.
pub open spec fn rounds(v: Seq<u8>, n: nat) -> Seq<u8>
    decreases n,
{
    if n == 0 {
        v
    } else {
        round(rounds(v, (n - 1) as nat))
    }
}

/// How many of the first `len` requested positions the buffer can fill.
pub open spec fn clip_len(v: Seq<u8>, len: int) -> int {
    if len <= v.len() {
        len
    } else {
        v.len() as int
    }
}

/// The complexity test on the first `len` characters of the buffer: the
/// first is lower case, and among them are an upper-case letter and a
/// digit.
pub open spec fn valid_at(v: Seq<u8>, len: int) -> bool {
    let w = v.take(clip_len(v, len));
    &&& w.len() > 0
    &&& is_lower_byte(w[0])
    &&& exists|i: int| 0 <= i < w.len() && is_upper_byte(w[i])
    &&& exists|i: int| 0 <= i < w.len() && is_digit_byte(w[i])
}

/// The first round at or after `n`, within `budget` further rounds, whose
/// buffer passes the validity test.
pub open spec fn search(v: Seq<u8>, len: int, n: nat, budget: nat) -> Option<nat>
    decreases budget,
{
    if valid_at(rounds(v, n), len) {
        Some(n)
    } else if budget == 0 {
        None
    } else {
        search(v, len, (n + 1) as nat, (budget - 1) as nat)
    }
}

/// The round the engine settles on for this seed and length, if any.
pub open spec fn round_search(seed: Seq<u8>, len: int) -> Option<nat> {
    search(seed, len, MIN_ROUNDS as nat, (MAX_ROUNDS - MIN_ROUNDS) as nat)
}

/// The bytes of the generated password, when the search succeeds.
pub open spec fn derived_password(seed: Seq<u8>, len: int) -> Seq<u8>
    recommends
        round_search(seed, len) is Some,
{
    let v = rounds(seed, round_search(seed, len)->0);
    v.take(clip_len(v, len))
}

/// The seed character sequence: master password, optional suffix, `':'`,
/// domain.
pub open spec fn derive_seed(password: Seq<char>, suffix: Option<Seq<char>>, domain: Seq<char>)
    -> Seq<char> {
    password + (match suffix {
        Some(s) => s,
        None => Seq::empty(),
    }) + seq![':'] + domain
}

pub open spec fn seed_of(domain: Seq<char>, password: Seq<char>, suffix: Option<Seq<char>>)
    -> Seq<u8> {
    encode_utf8(derive_seed(password, suffix, domain))
}

/// The complete outcome of generation as a function of the inputs: the
/// password's characters, or `None` when no round within the ceiling
/// passes the validity test.
pub open spec fn generate_outcome(domain: Seq<char>, password: Seq<char>, config: DomainConfigV)
    -> Option<Seq<char>> {
    let seed = seed_of(domain, password, config.suffix);
    if round_search(seed, config.length) is Some {
        Some(chars_of_bytes(derived_password(seed, config.length)))
    } else {
        None
    }
}

/// Generation is deterministic: any two results that satisfy
/// [`generate`]'s contract for the same domain, master password and
/// configuration are equal.
pub proof fn lemma_generate_deterministic(
    domain: Seq<char>,
    password: Seq<char>,
    config: DomainConfigV,
    r1: Option<Seq<char>>,
    r2: Option<Seq<char>>,
)
    requires
        r1 == generate_outcome(domain, password, config),
        r2 == generate_outcome(domain, password, config),
    ensures
        r1 == r2,
{
}

proof fn lemma_search_found(v: Seq<u8>, len: int, n: nat, budget: nat, i: nat)
    requires
        n <= i <= n + budget,
        valid_at(rounds(v, i), len),
        forall|m: nat| n <= m < i ==> !valid_at(rounds(v, m), len),
    ensures
        search(v, len, n, budget) == Some(i),
    decreases budget,
{
    if i == n {
    } else {
        assert(!valid_at(rounds(v, n), len));
        lemma_search_found(v, len, (n + 1) as nat, (budget - 1) as nat, i);
    }
}

proof fn lemma_search_none(v: Seq<u8>, len: int, n: nat, budget: nat)
    requires
        forall|m: nat| n <= m <= n + budget ==> !valid_at(rounds(v, m), len),
    ensures
        search(v, len, n, budget) is None,
    decreases budget,
{
    assert(!valid_at(rounds(v, n), len));
    if budget > 0 {
        lemma_search_none(v, len, (n + 1) as nat, (budget - 1) as nat);
    }
}

struct Gen {
    value: Vec<u8>,
    length: usize,
}

impl Gen {
    fn new(value: Vec<u8>, config: &DomainConfig) -> (g: Gen)
        ensures
            g.value@ == value@,
            g.length == config.length,
    {
        Gen { value, length: config.length }
    }

    fn valid(&self) -> (r: bool)
        ensures
            r == valid_at(self.value@, self.length as int),
    {
        let n = if self.length < self.value.len() {
            self.length
        } else {
            self.value.len()
        };
        if n == 0 {
            return false;
        }
        let leading_lower = 97 <= self.value[0] && self.value[0] <= 122;
        let mut has_upper = false;
        let mut has_digit = false;
        let mut i: usize = 0;
        while i < n
            invariant
                n == clip_len(self.value@, self.length as int),
                n <= self.value@.len(),
                i <= n,
                has_upper == exists|j: int| 0 <= j < i && is_upper_byte(self.value@[j]),
                has_digit == exists|j: int| 0 <= j < i && is_digit_byte(self.value@[j]),
            decreases n - i,
        {
            let b = self.value[i];
            if 65 <= b && b <= 90 {
                has_upper = true;
            }
            if 48 <= b && b <= 57 {
                has_digit = true;
            }
            i += 1;
        }
        proof {
            let w = self.value@.take(clip_len(self.value@, self.length as int));
            assert(w.len() == n as int);
            assert(forall|j: int| 0 <= j < w.len() ==> w[j] == self.value@[j]);
            if has_upper {
                let j = choose|j: int| 0 <= j < n as int && is_upper_byte(self.value@[j]);
                assert(is_upper_byte(w[j]));
            }
            if has_digit {
                let j = choose|j: int| 0 <= j < n as int && is_digit_byte(self.value@[j]);
                assert(is_digit_byte(w[j]));
            }
            if exists|j: int| 0 <= j < w.len() && is_upper_byte(w[j]) {
                let j = choose|j: int| 0 <= j < w.len() && is_upper_byte(w[j]);
                assert(is_upper_byte(self.value@[j]));
            }
            if exists|j: int| 0 <= j < w.len() && is_digit_byte(w[j]) {
                let j = choose|j: int| 0 <= j < w.len() && is_digit_byte(w[j]);
                assert(is_digit_byte(self.value@[j]));
            }
        }
        leading_lower && has_upper && has_digit
    }

    fn iterate(&mut self)
        ensures
            final(self).length == old(self).length,
            final(self).value@ == round(old(self).value@),
            final(self).value@.len() == 24,
            forall|j: int|
                0 <= j < final(self).value@.len() ==> is_password_byte(final(self).value@[j]),
    {
        let digest = md5_digest(&self.value);
        let encoded = b64_custom_encode(&digest);
        let mut out: Vec<u8> = Vec::new();
        let mut i: usize = 0;
        while i < encoded.len()
            invariant
                encoded@ == b64_custom_of(md5_of(old(self).value@)),
                encoded@.len() == 24,
                forall|j: int|
                    0 <= j < encoded@.len() ==> (is_password_byte(encoded@[j]) || encoded@[j]
                        == 46u8 || encoded@[j] == 47u8 || encoded@[j] == 61u8),
                i <= encoded@.len(),
                out@.len() == i,
                forall|j: int| 0 <= j < i ==> out@[j] == spec_substitute(encoded@[j]),
                forall|j: int| 0 <= j < i ==> is_password_byte(out@[j]),
            decreases encoded@.len() - i,
        {
            out.push(substitute(encoded[i]));
            i += 1;
        }
        proof {
            assert(out@ =~= subst_all(encoded@));
        }
        self.value = out;
    }

    fn run(&mut self) -> (r: Result<String, Error>)
        ensures
            ({
                let seed = old(self).value@;
                let len = old(self).length as int;
                match r {
                    Ok(s) => {
                        &&& round_search(seed, len) is Some
                        &&& s@ == chars_of_bytes(derived_password(seed, len))
                        &&& s@.len() == (if len <= 24 {
                            len
                        } else {
                            24
                        })
                        &&& derived_password(seed, len).len() > 0
                        &&& is_lower_byte(derived_password(seed, len)[0])
                        &&& exists|i: int|
                            0 <= i < derived_password(seed, len).len() && is_upper_byte(
                                derived_password(seed, len)[i],
                            )
                        &&& exists|i: int|
                            0 <= i < derived_password(seed, len).len() && is_digit_byte(
                                derived_password(seed, len)[i],
                            )
                        &&& forall|i: int|
                            0 <= i < derived_password(seed, len).len() ==> is_password_byte(
                                derived_password(seed, len)[i],
                            )
                    },
                    Err(e) => {
                        &&& e == Error::ValidationFailure
                        &&& round_search(seed, len) is None
                    },
                }
            }),
    {
        let ghost seed = self.value@;
        let ghost len = self.length as int;
        let mut i: u32 = 0;
        while i < MIN_ROUNDS
            invariant
                seed == old(self).value@,
                len == old(self).length as int,
                i <= MIN_ROUNDS,
                self.length as int == len,
                self.value@ == rounds(seed, i as nat),
                i >= 1 ==> self.value@.len() == 24,
                i >= 1 ==> forall|j: int| 0 <= j < self.value@.len() ==> is_password_byte(
                    self.value@[j],
                ),
            decreases MIN_ROUNDS - i,
        {
            self.iterate();
            i += 1;
        }
        while !self.valid()
            invariant
                seed == old(self).value@,
                len == old(self).length as int,
                MIN_ROUNDS <= i <= MAX_ROUNDS,
                self.length as int == len,
                self.value@ == rounds(seed, i as nat),
                self.value@.len() == 24,
                forall|j: int| 0 <= j < self.value@.len() ==> is_password_byte(self.value@[j]),
                forall|m: nat|
                    MIN_ROUNDS as nat <= m < i as nat ==> !valid_at(rounds(seed, m), len),
            decreases MAX_ROUNDS - i,
        {
            proof {
                assert(!valid_at(rounds(seed, i as nat), len));
            }
            i += 1;
            if i > MAX_ROUNDS {
                proof {
                    assert forall|m: nat|
                        MIN_ROUNDS as nat <= m <= MIN_ROUNDS as nat + (MAX_ROUNDS
                            - MIN_ROUNDS) as nat implies !valid_at(rounds(seed, m), len) by {
                        if m < (i - 1) as nat {
                        } else {
                            assert(m == (i - 1) as nat);
                        }
                    }
                    lemma_search_none(
                        seed,
                        len,
                        MIN_ROUNDS as nat,
                        (MAX_ROUNDS - MIN_ROUNDS) as nat,
                    );
                }
                return Err(Error::ValidationFailure);
            }
            self.iterate();
        }
        proof {
            lemma_search_found(
                seed,
                len,
                MIN_ROUNDS as nat,
                (MAX_ROUNDS - MIN_ROUNDS) as nat,
                i as nat,
            );
        }
        let n = if self.length < self.value.len() {
            self.length
        } else {
            self.value.len()
        };
        let mut out: Vec<u8> = Vec::new();
        let mut k: usize = 0;
        while k < n
            invariant
                seed == old(self).value@,
                len == old(self).length as int,
                n == clip_len(self.value@, len),
                n <= self.value@.len(),
                k <= n,
                out@.len() == k,
                forall|j: int| 0 <= j < k ==> out@[j] == self.value@[j],
                forall|j: int| 0 <= j < self.value@.len() ==> is_password_byte(self.value@[j]),
            decreases n - k,
        {
            out.push(self.value[k]);
            k += 1;
        }
        proof {
            assert(out@ =~= self.value@.take(clip_len(self.value@, len)));
            assert(out@ =~= derived_password(seed, len));
            assert forall|j: int| 0 <= j < derived_password(seed, len).len() implies
                is_password_byte(derived_password(seed, len)[j]) by {
                assert(derived_password(seed, len)[j] == self.value@[j]);
            }
        }
        Ok(ascii_to_string(out))
    }
}

/// Derive the password for `domain` from the master password and the
/// domain's configuration.
///
/// The result is a total function of the inputs ([`generate_outcome`]).
/// On success the password holds exactly `config.length` characters
/// (capped by the 24-character round buffer), every character is
/// alphanumeric ASCII, its first character is a lower-case letter, and
/// among its characters are an upper-case letter and a digit. When no
/// round up to the ceiling yields a valid buffer, the derivation fails
/// with [`Error::ValidationFailure`].
pub fn generate(domain: Domain<'_>, password: Password<'_>, config: DomainConfig) -> (r: Result<
    String,
    Error,
>)
    ensures
        ({
            let outcome = generate_outcome(domain.0@, password.0@, config@);
            match r {
                Ok(s) => outcome == Some(s@),
                Err(e) => e == Error::ValidationFailure && outcome is None,
            }
        }),
        ({
            let seed = seed_of(domain.0@, password.0@, config@.suffix);
            let len = config@.length;
            r is Ok ==> {
                &&& r->Ok_0@.len() == (if len <= 24 {
                    len
                } else {
                    24
                })
                &&& derived_password(seed, len).len() > 0
                &&& is_lower_byte(derived_password(seed, len)[0])
                &&& exists|i: int|
                    0 <= i < derived_password(seed, len).len() && is_upper_byte(
                        derived_password(seed, len)[i],
                    )
                &&& exists|i: int|
                    0 <= i < derived_password(seed, len).len() && is_digit_byte(
                        derived_password(seed, len)[i],
                    )
                &&& forall|i: int|
                    0 <= i < derived_password(seed, len).len() ==> is_password_byte(
                        derived_password(seed, len)[i],
                    )
            }
        }),
{
    let mut seed = String::new();
    seed.append(password.0);
    match &config.suffix {
        Some(s) => seed.append(s.as_str()),
        None => {},
    }
    seed.append(":");
    seed.append(domain.0);
    proof {
        reveal_strlit(":");
        assert(seed@ =~= derive_seed(password.0@, config@.suffix, domain.0@));
    }
    let bytes = seed.as_str().as_bytes_vec();
    let mut gen = Gen::new(bytes, &config);
    gen.run()
}

} // verus!
