//! The hook identifier signer: a stable, content-derived name for an inline callback.
use sha1::Digest;
use vstd::prelude::*;
use vstd::string::StrSliceExecFns;
use vstd::utf8::encode_utf8;

verus! {

/// What `sha1` gives for a byte string: its 20-byte SHA-1 digest.
pub uninterp spec fn sha1_of(data: Seq<u8>) -> Seq<u8>;

/// What `base64::encode` gives for a byte string (standard alphabet, padded).
pub uninterp spec fn base64_of(data: Seq<u8>) -> Seq<char>;

/// Relies on `sha1::Sha1` through `Digest::digest`: the SHA-1 digest of `data`,
/// whose output size is 20 bytes.
#[verifier::external_body]
fn sha1_digest(data: &Vec<u8>) -> (r: Vec<u8>)
    ensures
        r@ == sha1_of(data@),
        r@.len() == 20,
{
    sha1::Sha1::digest(data.as_slice()).to_vec()
}

/// Whether `c` belongs to the standard base64 alphabet (letters, digits, `+`, `/`).
pub open spec fn is_base64_digit(c: char) -> bool {
    ('A' <= c <= 'Z') || ('a' <= c <= 'z') || ('0' <= c <= '9') || c == '+' || c == '/'
}

/// The number of `=` that pad the base64 text of `n` bytes.
pub open spec fn base64_pad(n: nat) -> int {
    (3 - n % 3) % 3
}

/// Relies on `base64::encode`: the standard, padded base64 text of `data`, four
/// characters for each started group of three bytes, all from the standard alphabet
/// but the trailing padding, which is `(3 - n % 3) % 3` characters `=`.
#[verifier::external_body]
fn base64_encode(data: &Vec<u8>) -> (r: String)
    ensures
        r@ == base64_of(data@),
        r@.len() == 4 * ((data@.len() + 2) / 3),
        forall|i: int|
            0 <= i < r@.len() ==> if i >= r@.len() - base64_pad(data@.len()) {
                #[trigger] r@[i] == '='
            } else {
                is_base64_digit(r@[i])
            },
{
    base64::encode(data)
}

/// The marker text that starts every hook identifier.
pub open spec fn hook_prefix() -> Seq<char> {
    seq!['u', 's', 'e', 'D', 'e', 'n', 'o', '-']
}

/// The ASCII decimal digits of `n`.
pub open spec fn decimal(n: nat) -> Seq<u8>
    decreases n,
{
    if n < 10 {
        seq![(48 + n) as u8]
    } else {
        decimal(n / 10).push((48 + n % 10) as u8)
    }
}

/// Whether `c` is left out of an identifier: `+`, `/` and the padding `=`.
pub open spec fn is_dropped(c: char) -> bool {
    c == '+' || c == '/' || c == '='
}

/// `s` without the characters that `is_dropped` names.
pub open spec fn strip_unsafe(s: Seq<char>) -> Seq<char>
    decreases s.len(),
{
    if s.len() == 0 {
        s
    } else if is_dropped(s.last()) {
        strip_unsafe(s.drop_last())
    } else {
        strip_unsafe(s.drop_last()).push(s.last())
    }
}

/// Whether `c` is an ASCII letter or digit.
pub open spec fn is_ident_char(c: char) -> bool {
    ('A' <= c <= 'Z') || ('a' <= c <= 'z') || ('0' <= c <= '9')
}

proof fn lemma_strip_unsafe(s: Seq<char>, k: int)
    requires
        0 <= k <= s.len(),
        forall|i: int|
            0 <= i < s.len() ==> if i >= s.len() - k {
                #[trigger] s[i] == '='
            } else {
                is_base64_digit(s[i])
            },
    ensures
        strip_unsafe(s).len() <= s.len() - k,
        forall|i: int| 0 <= i < strip_unsafe(s).len() ==> is_ident_char(#[trigger] strip_unsafe(s)[i]),
    decreases s.len(),
{
    if s.len() > 0 {
        let t = s.drop_last();
        let k2 = if k > 0 {
            k - 1
        } else {
            0
        };
        assert forall|i: int| 0 <= i < t.len() implies if i >= t.len() - k2 {
            #[trigger] t[i] == '='
        } else {
            is_base64_digit(t[i])
        } by {
            assert(t[i] == s[i]);
        }
        lemma_strip_unsafe(t, k2);
        let last = s[s.len() - 1];
        if k > 0 {
            assert(last == '=');
        } else {
            assert(is_base64_digit(last));
        }
    }
}

/// The bytes that are hashed: the module specifier, the ordinal in decimal, the callback text.
pub open spec fn hook_input(specifier: Seq<char>, ordinal: nat, callback: Seq<char>) -> Seq<u8> {
    encode_utf8(specifier) + decimal(ordinal) + encode_utf8(callback)
}

/// The identifier built from the base64 text of a digest.
pub open spec fn ident_of_encoded(encoded: Seq<char>) -> Seq<char> {
    hook_prefix() + strip_unsafe(encoded)
}

/// The identifier of the `ordinal`-th hook callback `callback` in module `specifier`.
pub open spec fn hook_ident(specifier: Seq<char>, ordinal: nat, callback: Seq<char>) -> Seq<char> {
    ident_of_encoded(base64_of(sha1_of(hook_input(specifier, ordinal, callback))))
}

/// The ASCII decimal digits of `n`.
pub fn decimal_bytes(n: u64) -> (r: Vec<u8>)
    ensures
        r@ == decimal(n as nat),
    decreases n,
{
    if n < 10 {
        let d: u8 = (48 + n) as u8;
        let r = vec![d];
        assert(r@ =~= seq![d]);
        r
    } else {
        let mut r = decimal_bytes(n / 10);
        r.push((48 + n % 10) as u8);
        r
    }
}

fn push_bytes(a: &mut Vec<u8>, b: &Vec<u8>)
    ensures
        final(a)@ == old(a)@ + b@,
{
    let mut i: usize = 0;
    while i < b.len()
        invariant
            i <= b@.len(),
            a@ == old(a)@ + b@.take(i as int),
        decreases b@.len() - i,
    {
        a.push(b[i]);
        i = i + 1;
        assert(a@ =~= old(a)@ + b@.take(i as int));
    }
    assert(b@.take(b@.len() as int) =~= b@);
}

/// The bytes hashed for a hook callback.
pub fn hook_hash_input(specifier: &str, ordinal: u64, callback: &str) -> (r: Vec<u8>)
    ensures
        r@ == hook_input(specifier@, ordinal as nat, callback@),
{
    let mut r = specifier.as_bytes_vec();
    let d = decimal_bytes(ordinal);
    push_bytes(&mut r, &d);
    let c = callback.as_bytes_vec();
    push_bytes(&mut r, &c);
    r
}

/// The identifier for a digest whose base64 text is `encoded`.
pub fn ident_from_encoded(encoded: &str) -> (r: String)
    ensures
        r@ == ident_of_encoded(encoded@),
{
    let n = encoded.unicode_len();
    let mut out: Vec<char> = vec!['u', 's', 'e', 'D', 'e', 'n', 'o', '-'];
    assert(out@ =~= hook_prefix());
    let mut i: usize = 0;
    while i < n
        invariant
            n == encoded@.len(),
            i <= n,
            out@ == hook_prefix() + strip_unsafe(encoded@.take(i as int)),
        decreases n - i,
    {
        let c = encoded.get_char(i);
        assert(encoded@.take(i + 1).drop_last() =~= encoded@.take(i as int));
        if !(c == '+' || c == '/' || c == '=') {
            out.push(c);
        }
        i = i + 1;
        assert(out@ =~= hook_prefix() + strip_unsafe(encoded@.take(i as int)));
    }
    assert(encoded@.take(n as int) =~= encoded@);
    crate::text::string_of(&out)
}

/// Signs the `ordinal`-th hook callback of module `specifier`, whose source text is `callback`.
pub fn sign(specifier: &str, ordinal: u64, callback: &str) -> (r: String)
    ensures
        r@ == hook_ident(specifier@, ordinal as nat, callback@),
        hook_prefix().is_prefix_of(r@),
        r@.len() <= 35,
        forall|i: int| 8 <= i < r@.len() ==> is_ident_char(#[trigger] r@[i]),
{
    let input = hook_hash_input(specifier, ordinal, callback);
    let digest = sha1_digest(&input);
    let encoded = base64_encode(&digest);
    let r = ident_from_encoded(encoded.as_str());
    proof {
        assert(base64_pad(20) == 1);
        lemma_strip_unsafe(encoded@, 1);
        let t = strip_unsafe(encoded@);
        assert(r@ == hook_prefix() + t);
        assert(r@.take(8) =~= hook_prefix());
        assert forall|i: int| 8 <= i < r@.len() implies is_ident_char(#[trigger] r@[i]) by {
            assert(r@[i] == t[i - 8]);
        }
    }
    r
}

} // verus!
