//! Subdomains the client picks when the user names none.
use crate::text::chars_of;
use vstd::prelude::*;
use vstd::string::StringExecFns;

verus! {

/// A lower-case hexadecimal digit.
pub open spec fn is_lower_hex(c: char) -> bool {
    ('0' <= c && c <= '9') || ('a' <= c && c <= 'f')
}

/// The text of a random (version 4) UUID in hyphenated lower-case form:
/// 36 characters, hyphens at 8, 13, 18 and 23, hexadecimal digits
/// elsewhere, the version digit `4` at 14 and a variant digit `8`, `9`, `a`
/// or `b` at 19.
pub open spec fn is_uuid_v4_text(s: Seq<char>) -> bool {
    &&& s.len() == 36
    &&& forall|i: int|
        0 <= i < 36 ==> if i == 8 || i == 13 || i == 18 || i == 23 {
            #[trigger] s[i] == '-'
        } else {
            is_lower_hex(s[i])
        }
    &&& s[14] == '4'
    &&& (s[19] == '8' || s[19] == '9' || s[19] == 'a' || s[19] == 'b')
}

/// `uuid::Uuid::new_v4().to_string()`: a fresh random UUID in its
/// hyphenated lower-case form (`new_v4` fixes the version and variant bits,
/// `Display` writes lower-case hex with hyphens). Which UUID comes out is
/// left open.
#[verifier::external_body]
fn new_uuid_string() -> (s: String)
    ensures
        is_uuid_v4_text(s@),
{
    uuid::Uuid::new_v4().to_string()
}

/// A fresh tunnel id: a random UUID in its hyphenated lower-case form.
pub fn new_tunnel_id() -> (s: String)
    ensures
        is_uuid_v4_text(s@),
{
    new_uuid_string()
}

/// `prefix` followed by the first eight characters of `id` (all of them
/// when it has fewer).
pub open spec fn spec_subdomain_with_id(prefix: Seq<char>, id: Seq<char>) -> Seq<char> {
    prefix + if id.len() < 8 {
        id
    } else {
        id.take(8)
    }
}

/// `prefix` followed by the first eight characters of `id`.
pub fn subdomain_with_id(prefix: &str, id: &str) -> (r: String)
    ensures
        r@ == spec_subdomain_with_id(prefix@, id@),
{
    let cs = chars_of(id);
    let n: usize = if cs.len() < 8 {
        cs.len()
    } else {
        8
    };
    let mut r = prefix.to_owned();
    r.append(id.substring_char(0, n));
    proof {
        if id@.len() < 8 {
            assert(id@.subrange(0, n as int) =~= id@);
        }
    }
    r
}

/// A fresh subdomain: `prefix` and eight random hexadecimal digits, as the
/// client picks when the user names none (`dev-` for HTTP, `tcp-` for TCP).
pub fn random_subdomain(prefix: &str) -> (r: String)
    ensures
        r@.len() == prefix@.len() + 8,
        r@.take(prefix@.len() as int) == prefix@,
        forall|i: int| prefix@.len() <= i < r@.len() ==> is_lower_hex(#[trigger] r@[i]),
{
    let id = new_uuid_string();
    let r = subdomain_with_id(prefix, id.as_str());
    proof {
        assert forall|i: int| 0 <= i < 8 implies is_lower_hex(id@[i]) by {
            assert(!(i == 8 || i == 13 || i == 18 || i == 23));
        }
        assert(r@.take(prefix@.len() as int) =~= prefix@);
        assert forall|i: int| prefix@.len() <= i < r@.len() implies is_lower_hex(#[trigger] r@[i]) by {
            assert(r@[i] == id@[i - prefix@.len()]);
        }
    }
    r
}

} // verus!
