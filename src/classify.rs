//! Labels for the codes that the charity registry uses.

use crate::outside::{lower_of, lowercase};
use crate::records::opt_view;
use crate::text::{
    contains_text, digits_of, ein_text_of, is_infix, normalize_ein, normalize_i64_ein,
    signed_decimal, text_with_number, trim, trimmed,
};
use vstd::prelude::*;

verus! {

/// An organization as the charity registry describes it.
pub struct ProPublicaOrganization {
    pub ein: Option<i64>,
    pub strein: Option<String>,
    pub name: Option<String>,
    pub address: Option<String>,
    pub city: Option<String>,
    pub state: Option<String>,
    pub zipcode: Option<String>,
    pub ntee_code: Option<String>,
    pub deductibility_code: Option<i64>,
    pub subsection_code: Option<i64>,
    pub foundation_code: Option<i64>,
    pub exempt_organization_status_code: Option<i64>,
}

/// An organization as the registry's name search returns it.
pub struct ProPublicaSearchOrg {
    pub ein: Option<i64>,
    pub strein: Option<String>,
    pub name: String,
    pub city: Option<String>,
    pub state: Option<String>,
    pub ntee_code: Option<String>,
    pub subseccd: Option<i64>,
}

/// The view of an optional text slice.
pub open spec fn opt_str(o: Option<&str>) -> Option<Seq<char>> {
    match o {
        Some(s) => Some(s@),
        None => None,
    }
}

pub open spec fn deductibility_label(code: Option<i64>) -> Option<Seq<char>> {
    match code {
        Some(c) => Some(
            if c == 1 {
                "Contributions are deductible"@
            } else if c == 2 {
                "Contributions are not deductible"@
            } else if c == 4 {
                "Contributions are deductible by treaty"@
            } else {
                "Code "@ + signed_decimal(c as int)
            },
        ),
        None => None,
    }
}

/// Describes the registry's deductibility code.
pub fn map_deductibility(code: Option<i64>) -> (r: Option<String>)
    ensures
        opt_view(r) == deductibility_label(code),
{
    match code {
        Some(1) => Some(String::from_str("Contributions are deductible")),
        Some(2) => Some(String::from_str("Contributions are not deductible")),
        Some(4) => Some(String::from_str("Contributions are deductible by treaty")),
        Some(other) => Some(text_with_number("Code ", other)),
        None => None,
    }
}

pub open spec fn exempt_deductibility_label(code: Option<i64>) -> Option<Seq<char>> {
    match code {
        Some(c) => Some(
            if c == 1 {
                "Deductible"@
            } else if 2 <= c <= 4 {
                "May not be deductible"@
            } else {
                "Status "@ + signed_decimal(c as int)
            },
        ),
        None => None,
    }
}

/// Describes deductibility from the registry's exempt-status code.
pub fn map_deductibility_from_exempt_status(exempt_status_code: Option<i64>) -> (r: Option<String>)
    ensures
        opt_view(r) == exempt_deductibility_label(exempt_status_code),
{
    match exempt_status_code {
        Some(1) => Some(String::from_str("Deductible")),
        Some(2) | Some(3) | Some(4) => Some(String::from_str("May not be deductible")),
        Some(other) => Some(text_with_number("Status ", other)),
        None => None,
    }
}

/// The tax-code section of a registry subsection code.
pub open spec fn tax_section_label(code: i64) -> Option<Seq<char>> {
    if code == 2 {
        Some("501(c)(2)"@)
    } else if code == 3 {
        Some("501(c)(3)"@)
    } else if code == 4 {
        Some("501(c)(4)"@)
    } else if code == 5 {
        Some("501(c)(5)"@)
    } else if code == 6 {
        Some("501(c)(6)"@)
    } else if code == 7 {
        Some("501(c)(7)"@)
    } else if code == 8 {
        Some("501(c)(8)"@)
    } else if code == 9 {
        Some("501(c)(9)"@)
    } else if code == 10 {
        Some("501(c)(10)"@)
    } else if code == 11 {
        Some("501(c)(11)"@)
    } else if code == 12 {
        Some("501(c)(12)"@)
    } else if code == 13 {
        Some("501(c)(13)"@)
    } else if code == 14 {
        Some("501(c)(14)"@)
    } else if code == 15 {
        Some("501(c)(15)"@)
    } else if code == 16 {
        Some("501(c)(16)"@)
    } else if code == 17 {
        Some("501(c)(17)"@)
    } else if code == 18 {
        Some("501(c)(18)"@)
    } else if code == 19 {
        Some("501(c)(19)"@)
    } else if code == 21 {
        Some("501(c)(21)"@)
    } else if code == 22 {
        Some("501(c)(22)"@)
    } else if code == 23 {
        Some("501(c)(23)"@)
    } else if code == 25 {
        Some("501(c)(25)"@)
    } else if code == 26 {
        Some("501(c)(26)"@)
    } else if code == 27 {
        Some("501(c)(27)"@)
    } else if code == 28 {
        Some("501(c)(28)"@)
    } else if code == 92 {
        Some("4947(a)(1)"@)
    } else {
        None
    }
}

/// Names the tax-code section of a registry subsection code.
pub fn map_tax_section(subsection_code: i64) -> (r: Option<&'static str>)
    ensures
        opt_str(r) == tax_section_label(subsection_code),
{
    match subsection_code {
        2 => Some("501(c)(2)"),
        3 => Some("501(c)(3)"),
        4 => Some("501(c)(4)"),
        5 => Some("501(c)(5)"),
        6 => Some("501(c)(6)"),
        7 => Some("501(c)(7)"),
        8 => Some("501(c)(8)"),
        9 => Some("501(c)(9)"),
        10 => Some("501(c)(10)"),
        11 => Some("501(c)(11)"),
        12 => Some("501(c)(12)"),
        13 => Some("501(c)(13)"),
        14 => Some("501(c)(14)"),
        15 => Some("501(c)(15)"),
        16 => Some("501(c)(16)"),
        17 => Some("501(c)(17)"),
        18 => Some("501(c)(18)"),
        19 => Some("501(c)(19)"),
        21 => Some("501(c)(21)"),
        22 => Some("501(c)(22)"),
        23 => Some("501(c)(23)"),
        25 => Some("501(c)(25)"),
        26 => Some("501(c)(26)"),
        27 => Some("501(c)(27)"),
        28 => Some("501(c)(28)"),
        92 => Some("4947(a)(1)"),
        _ => None,
    }
}

/// Names the nonprofit type of a registry subsection code, when it has one.
pub fn map_nonprofit_type(subsection_code: Option<i64>) -> (r: Option<String>)
    ensures
        opt_view(r) == match subsection_code {
            Some(c) => tax_section_label(c),
            None => None,
        },
{
    match subsection_code {
        Some(c) => match map_tax_section(c) {
            Some(s) => Some(String::from_str(s)),
            None => None,
        },
        None => None,
    }
}

/// An ASCII letter in upper case; other characters as they are.
pub open spec fn ascii_upper(c: char) -> char {
    if 'a' <= c && c <= 'z' {
        ((c as u8) - 32) as char
    } else {
        c
    }
}

/// The broad category of an NTEE major group letter.
pub open spec fn ntee_category(letter: Option<char>) -> Seq<char> {
    match letter {
        Some(c) => if c == 'A' {
            "Arts, Culture & Humanities"@
        } else if c == 'B' {
            "Education"@
        } else if c == 'C' || c == 'D' {
            "Environment and Animals"@
        } else if 'E' <= c && c <= 'H' {
            "Health"@
        } else if 'I' <= c && c <= 'P' {
            "Human Services"@
        } else if c == 'Q' {
            "International, Foreign Affairs"@
        } else if 'R' <= c && c <= 'W' {
            "Public, Societal Benefit"@
        } else if c == 'X' {
            "Religion Related"@
        } else if c == 'Y' {
            "Mutual/Membership Benefit"@
        } else {
            "Unknown, Unclassified"@
        },
        None => "Unknown, Unclassified"@,
    }
}

/// The upper-cased first letter of an optional code.
pub open spec fn first_letter(code: Option<&str>) -> Option<char> {
    match code {
        Some(s) => if s@.len() > 0 {
            Some(ascii_upper(s@[0]))
        } else {
            None
        },
        None => None,
    }
}

/// The broad category that an NTEE code's first letter names.
pub fn map_category_from_ntee(ntee_code: Option<&str>) -> (r: Option<String>)
    ensures
        opt_view(r) == Some(ntee_category(first_letter(ntee_code))),
{
    let letter: Option<char> = match ntee_code {
        Some(code) => {
            if code.unicode_len() > 0 {
                let c = code.get_char(0);
                if 'a' <= c && c <= 'z' {
                    Some(((c as u8) - 32) as char)
                } else {
                    Some(c)
                }
            } else {
                None
            }
        },
        None => None,
    };
    let category = match letter {
        Some(c) => {
            if c == 'A' {
                "Arts, Culture & Humanities"
            } else if c == 'B' {
                "Education"
            } else if c == 'C' || c == 'D' {
                "Environment and Animals"
            } else if 'E' <= c && c <= 'H' {
                "Health"
            } else if 'I' <= c && c <= 'P' {
                "Human Services"
            } else if c == 'Q' {
                "International, Foreign Affairs"
            } else if 'R' <= c && c <= 'W' {
                "Public, Societal Benefit"
            } else if c == 'X' {
                "Religion Related"
            } else if c == 'Y' {
                "Mutual/Membership Benefit"
            } else {
                "Unknown, Unclassified"
            }
        },
        None => "Unknown, Unclassified",
    };
    Some(String::from_str(category))
}

pub open spec fn exempt_status_label(code: Option<i64>) -> Option<Seq<char>> {
    match code {
        Some(c) => if c == 1 {
            Some("Active"@)
        } else if c == 2 {
            Some("Exempt"@)
        } else if c == 3 {
            Some("Revoked"@)
        } else if c == 4 {
            Some("Terminated"@)
        } else {
            None
        },
        None => None,
    }
}

/// Names the registry's exempt-status code, when it is a known one.
pub fn map_exempt_status_label(code: Option<i64>) -> (r: Option<&'static str>)
    ensures
        opt_str(r) == exempt_status_label(code),
{
    match code {
        Some(1) => Some("Active"),
        Some(2) => Some("Exempt"),
        Some(3) => Some("Revoked"),
        Some(4) => Some("Terminated"),
        _ => None,
    }
}

pub open spec fn foundation_label(code: Option<i64>) -> Option<Seq<char>> {
    match code {
        Some(c) => Some(
            if c == 0 {
                "Non-501(c)(3)"@
            } else if c == 2 {
                "Private Operating (tax-exempt investment income)"@
            } else if c == 3 {
                "Private Operating"@
            } else if c == 4 {
                "Private Non-Operating"@
            } else if c == 9 {
                "Suspense"@
            } else if c == 10 {
                "Church"@
            } else if c == 11 {
                "School"@
            } else if c == 12 {
                "Hospital/Medical Research"@
            } else if c == 13 {
                "Gov-Owned College/University Support"@
            } else if c == 14 {
                "Governmental Unit"@
            } else if c == 15 {
                "Public Support (Gov/Public)"@
            } else if c == 16 {
                "509(a)(2)"@
            } else if c == 17 {
                "509(a)(3) Supporting Org"@
            } else if c == 18 {
                "509(a)(4) Public Safety Testing"@
            } else {
                "Foundation "@ + signed_decimal(c as int)
            },
        ),
        None => None,
    }
}

/// Names the registry's foundation code.
pub fn map_foundation_label(code: Option<i64>) -> (r: Option<String>)
    ensures
        opt_view(r) == foundation_label(code),
{
    match code {
        Some(0) => Some(String::from_str("Non-501(c)(3)")),
        Some(2) => Some(String::from_str("Private Operating (tax-exempt investment income)")),
        Some(3) => Some(String::from_str("Private Operating")),
        Some(4) => Some(String::from_str("Private Non-Operating")),
        Some(9) => Some(String::from_str("Suspense")),
        Some(10) => Some(String::from_str("Church")),
        Some(11) => Some(String::from_str("School")),
        Some(12) => Some(String::from_str("Hospital/Medical Research")),
        Some(13) => Some(String::from_str("Gov-Owned College/University Support")),
        Some(14) => Some(String::from_str("Governmental Unit")),
        Some(15) => Some(String::from_str("Public Support (Gov/Public)")),
        Some(16) => Some(String::from_str("509(a)(2)")),
        Some(17) => Some(String::from_str("509(a)(3) Supporting Org")),
        Some(18) => Some(String::from_str("509(a)(4) Public Safety Testing")),
        Some(other) => Some(text_with_number("Foundation ", other)),
        None => None,
    }
}

pub open spec fn status_label(code: Option<i64>) -> Option<Seq<char>> {
    match exempt_status_label(code) {
        Some(l) => Some(l),
        None => match code {
            Some(c) => Some("Status "@ + signed_decimal(c as int)),
            None => None,
        },
    }
}

/// The organization's status: its exempt-status label, else the bare code.
pub fn derive_status(exempt_status_code: Option<i64>) -> (r: Option<String>)
    ensures
        opt_view(r) == status_label(exempt_status_code),
{
    if let Some(status_label) = map_exempt_status_label(exempt_status_code) {
        Some(String::from_str(status_label))
    } else {
        match exempt_status_code {
            Some(code) => Some(text_with_number("Status ", code)),
            None => None,
        }
    }
}

/// The organization's tax id: the digits of its text form when there are
/// any, else its number written with nine digits.
pub open spec fn organization_ein(strein: Option<String>, ein: Option<i64>) -> Option<Seq<char>> {
    let from_text = match strein {
        Some(s) => digits_of(s@),
        None => Seq::empty(),
    };
    if from_text.len() > 0 {
        Some(from_text)
    } else {
        match ein {
            Some(v) => Some(ein_text_of(v as int)),
            None => None,
        }
    }
}

/// The tax id of a registry organization.
pub fn propublica_ein_from_org(org: &ProPublicaOrganization) -> (r: Option<String>)
    ensures
        opt_view(r) == organization_ein(org.strein, org.ein),
{
    if let Some(strein) = &org.strein {
        let normalized = normalize_ein(strein.as_str());
        if !normalized.as_str().is_empty() {
            return Some(normalized);
        }
    }
    match org.ein {
        Some(v) => Some(normalize_i64_ein(v)),
        None => None,
    }
}

/// The tax id of an organization from a registry search.
pub fn propublica_ein_from_search(org: &ProPublicaSearchOrg) -> (r: Option<String>)
    ensures
        opt_view(r) == organization_ein(org.strein, org.ein),
{
    if let Some(strein) = &org.strein {
        let normalized = normalize_ein(strein.as_str());
        if !normalized.as_str().is_empty() {
            return Some(normalized);
        }
    }
    match org.ein {
        Some(v) => Some(normalize_i64_ein(v)),
        None => None,
    }
}

/// How well a candidate's name matches the wanted one, both trimmed and
/// lowercased: 3 when equal, 2 when one holds the other, 1 otherwise, and 0
/// for a candidate without a name.
pub open spec fn name_match_score(candidate: Seq<char>, target: Seq<char>) -> i32 {
    let t = lower_of(trimmed(target));
    let n = lower_of(trimmed(candidate));
    if n.len() == 0 {
        0
    } else if n == t {
        3
    } else if is_infix(t, n) || is_infix(n, t) {
        2
    } else {
        1
    }
}

/// Scores a search result against the name that was searched for.
pub fn organization_by_name_match_score(candidate: &ProPublicaSearchOrg, target_name: &str) -> (r: i32)
    ensures
        r == name_match_score(candidate.name@, target_name@),
{
    let target = lowercase(trim(target_name));
    let name = lowercase(trim(candidate.name.as_str()));
    if name.as_str().is_empty() {
        return 0;
    }
    if name == target {
        return 3;
    }
    if contains_text(name.as_str(), target.as_str()) || contains_text(target.as_str(), name.as_str()) {
        return 2;
    }
    1
}

} // verus!
