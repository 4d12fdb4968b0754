use vstd::prelude::*;
use vstd::string::{StrSliceExecFns, StringExecFns};

verus! {

/// The length that every game slug reaches.
pub const SLUG_LEN: usize = 6;

pub open spec fn base36_digit(d: nat) -> char {
    "0123456789ABCDEFGHIJKLMNOPQRSTUVWXYZ"@[d as int]
}

/// `n` written in base 36 with upper-case digits, most significant first.
pub open spec fn base36(n: nat) -> Seq<char>
    decreases n,
{
    if n < 36 {
        seq![base36_digit(n)]
    } else {
        base36(n / 36).push(base36_digit(n % 36))
    }
}

pub open spec fn is_ascii_alphanumeric(c: char) -> bool {
    ('A' <= c && c <= 'Z') || ('a' <= c && c <= 'z') || ('0' <= c && c <= '9')
}

/// What a slug for `id` looks like: the base-36 form of the id, padded with ASCII
/// letters and digits up to the slug length when it is shorter.
pub open spec fn is_slug_for(id: nat, s: Seq<char>) -> bool {
    let b = base36(id);
    if b.len() < SLUG_LEN {
        &&& s.len() == SLUG_LEN
        &&& s.subrange(0, b.len() as int) == b
        &&& forall|k: int| b.len() <= k < SLUG_LEN ==> is_ascii_alphanumeric(#[trigger] s[k])
    } else {
        s == b
    }
}

/// Relies on radix's `RadixNum`: the decimal text of `n` read back and rewritten in
/// radix 36, whose digits are `0`-`9` then `A`-`Z`, most significant first.
#[verifier::external_body]
fn to_base36(n: u32) -> (r: String)
    ensures
        r@ == base36(n as nat),
{
    match radix::RadixNum::from_str(&n.to_string(), 10) {
        Ok(decimal) => match decimal.with_radix(36) {
            Ok(converted) => converted.as_str().to_string(),
            Err(_) => String::new(),
        },
        Err(_) => String::new(),
    }
}

/// Relies on rand's `Alphanumeric` distribution, sampled with `thread_rng`: one ASCII
/// letter or digit.
#[verifier::external_body]
fn random_alphanumeric() -> (r: String)
    ensures
        r@.len() == 1,
        is_ascii_alphanumeric(r@[0]),
{
    let byte: u8 = rand::Rng::sample(&mut rand::thread_rng(), rand::distributions::Alphanumeric);
    (byte as char).to_string()
}

/// A short public name for the game with the given id.
pub fn create_slug_from_id(id: i32) -> (r: String)
    requires
        id >= 0,
    ensures
        is_slug_for(id as nat, r@),
{
    let mut slug = to_base36(id as u32);
    let ghost b = slug@;
    let mut len: usize = slug.as_str().unicode_len();
    if len >= SLUG_LEN {
        return slug;
    }
    while len < SLUG_LEN
        invariant
            b == base36(id as nat),
            b.len() < SLUG_LEN,
            b.len() <= len <= SLUG_LEN,
            slug@.len() == len,
            slug@.subrange(0, b.len() as int) == b,
            forall|k: int| b.len() <= k < len ==> is_ascii_alphanumeric(#[trigger] slug@[k]),
        decreases SLUG_LEN - len,
    {
        let pad = random_alphanumeric();
        let ghost before = slug@;
        slug.append(pad.as_str());
        proof {
            assert(slug@ == before + pad@);
            assert(slug@.subrange(0, b.len() as int) =~= before.subrange(0, b.len() as int));
            assert forall|k: int| b.len() <= k < len + 1 implies is_ascii_alphanumeric(
                #[trigger] slug@[k],
            ) by {
                if k < len {
                    assert(slug@[k] == before[k]);
                } else {
                    assert(slug@[k] == pad@[0]);
                }
            }
        }
        len = len + 1;
    }
    slug
}

} // verus!
