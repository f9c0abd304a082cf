//! The normalizing steps a directory name passes through before an entry
//! would be created. The directory call itself is I/O and stays outside
//! the library.
use vstd::prelude::*;
use vstd::string::*;

use crate::text::contains_str;
use crate::text::contains_sub;
use crate::text::replace;
use crate::text::replace_spec;
use crate::text::split_char;
use crate::text::split_char_spec;
use crate::text::starts_with;
use crate::text::starts_with_spec;
use crate::text::take_chars;
use crate::text::u64_to_dec;
use crate::text::dec_digits;

verus! {

/// The name with spaces removed, an organizational unit prefixed when none
/// is named, the example suffix appended when it is missing, and newlines
/// removed.
pub open spec fn parse_dn_structure_spec(input: Seq<char>) -> Seq<char> {
    let s1 = replace_spec(input, " "@, ""@);
    let s2 = if contains_sub(s1, "ou="@) {
        s1
    } else {
        "ou=users,"@ + s1
    };
    let s3 = if contains_sub(s2, "dc=example"@) {
        s2
    } else {
        s2 + ",dc=example,dc=com"@
    };
    replace_spec(s3, "\n"@, ""@)
}

/// Parse and normalize a distinguished-name structure.
pub fn parse_dn_structure(input: String) -> (r: String)
    ensures
        r@ == parse_dn_structure_spec(input@),
{
    proof {
        reveal_strlit(" ");
        reveal_strlit("\n");
    }
    let s1 = replace(input.as_str(), " ", "");
    let s2 = if contains_str(s1.as_str(), "ou=") {
        s1
    } else {
        let mut p = String::from_str("ou=users,");
        p.append(s1.as_str());
        p
    };
    let mut s3 = s2;
    if !contains_str(s3.as_str(), "dc=example") {
        s3.append(",dc=example,dc=com");
    }
    replace(s3.as_str(), "\n", "")
}

/// The fixed attribute list, padded with a common name and a department
/// when the name carries none, and closed with a custom attribute naming
/// the name's length.
pub open spec fn enrich_ldap_attrs_spec(dn: Seq<char>) -> Seq<Seq<char>> {
    let base = seq!["objectClass=inetOrgPerson"@, "sn=Smith"@, "mail=jsmith@example.com"@];
    let with_cn = if contains_sub(dn, "cn="@) {
        base
    } else {
        base.push("cn=John Smith"@)
    };
    let with_dep = if contains_sub(dn, "department="@) {
        with_cn
    } else {
        with_cn.push("department=IT"@)
    };
    with_dep.push("customAttr="@ + dec_digits(dn.len()))
}

/// Enrich the attribute list for a name.
pub fn enrich_ldap_attrs(dn: &str) -> (r: Vec<String>)
    ensures
        r.deep_view() == enrich_ldap_attrs_spec(dn@),
{
    let mut attrs: Vec<String> = Vec::new();
    attrs.push(String::from_str("objectClass=inetOrgPerson"));
    attrs.push(String::from_str("sn=Smith"));
    attrs.push(String::from_str("mail=jsmith@example.com"));
    if !contains_str(dn, "cn=") {
        attrs.push(String::from_str("cn=John Smith"));
    }
    if !contains_str(dn, "department=") {
        attrs.push(String::from_str("department=IT"));
    }
    let mut custom = String::from_str("customAttr=");
    let len = dn.unicode_len();
    custom.append(u64_to_dec(len as u64).as_str());
    attrs.push(custom);
    proof {
        assert(attrs.deep_view() =~= enrich_ldap_attrs_spec(dn@));
    }
    attrs
}

/// The first comma-separated part that names a uid (or a fallback uid
/// prefixed to the whole name), capped at thirty-two characters, with
/// single quotes removed.
pub open spec fn first_uid_part(parts: Seq<Seq<char>>) -> int
    decreases parts.len(),
{
    if parts.len() == 0 {
        -1
    } else if starts_with_spec(parts.first(), "uid="@) {
        0
    } else {
        let r = first_uid_part(parts.drop_first());
        if r < 0 {
            -1
        } else {
            r + 1
        }
    }
}

/// What [`extract_uid_token`] returns for a name.
pub open spec fn extract_uid_token_spec(dn: Seq<char>) -> Seq<char> {
    let parts = split_char_spec(dn, ',');
    let i = first_uid_part(parts);
    let uid = if i >= 0 {
        parts[i]
    } else {
        "uid=jsmith,"@ + dn
    };
    let capped = if uid.len() > 32 {
        uid.take(32)
    } else {
        uid
    };
    replace_spec(capped, "'"@, ""@)
}

proof fn lemma_first_uid_part_at(parts: Seq<Seq<char>>, i: int)
    requires
        0 <= i <= parts.len(),
        forall|k: int| 0 <= k < i ==> !starts_with_spec(#[trigger] parts[k], "uid="@),
        i == parts.len() || starts_with_spec(parts[i], "uid="@),
    ensures
        i == parts.len() ==> first_uid_part(parts) == -1,
        i < parts.len() ==> first_uid_part(parts) == i,
    decreases parts.len(),
{
    if parts.len() > 0 && !starts_with_spec(parts.first(), "uid="@) {
        let rest = parts.drop_first();
        assert(forall|k: int| 0 <= k < rest.len() ==> #[trigger] rest[k] == parts[k + 1]);
        lemma_first_uid_part_at(rest, if i == 0 { 0 } else { i - 1 });
    }
}

/// Extract and format a uid token.
pub fn extract_uid_token(dn: &str) -> (r: String)
    ensures
        r@ == extract_uid_token_spec(dn@),
{
    proof {
        reveal_strlit("'");
    }
    let parts = split_char(dn, ',');
    let ghost pv = parts.deep_view();
    let mut found: Option<usize> = None;
    let mut j: usize = 0;
    while j < parts.len() && found.is_none()
        invariant
            0 <= j <= parts@.len(),
            pv == parts.deep_view(),
            pv.len() == parts@.len(),
            match found {
                Some(f) => f == j && j < parts@.len() && starts_with_spec(pv[f as int], "uid="@)
                    && forall|k: int| 0 <= k < f ==> !starts_with_spec(#[trigger] pv[k], "uid="@),
                None => forall|k: int| 0 <= k < j ==> !starts_with_spec(#[trigger] pv[k], "uid="@),
            },
        decreases parts@.len() - j + (if found.is_none() {
            1int
        } else {
            0int
        }),
    {
        proof {
            assert(pv[j as int] == parts@[j as int]@);
        }
        if starts_with(parts[j].as_str(), "uid=") {
            found = Some(j);
        } else {
            j = j + 1;
        }
    }
    let uid: String = match found {
        Some(f) => {
            proof {
                lemma_first_uid_part_at(pv, f as int);
            }
            parts[f].clone()
        },
        None => {
            proof {
                lemma_first_uid_part_at(pv, pv.len() as int);
            }
            let mut p = String::from_str("uid=jsmith,");
            p.append(dn);
            p
        },
    };
    let capped = take_chars(uid.as_str(), 32);
    proof {
        if uid@.len() == 32 {
            assert(uid@.take(32) =~= uid@);
        }
    }
    replace(capped, "'", "")
}

} // verus!
