use donation_ledger::assets::{has_fingerprint_suffix, relative_path, resolve_js_relative};
use donation_ledger::classify::{
    derive_status, map_category_from_ntee, map_deductibility, map_deductibility_from_exempt_status,
    map_exempt_status_label, map_foundation_label, map_nonprofit_type, map_tax_section,
    organization_by_name_match_score, propublica_ein_from_org, propublica_ein_from_search,
    ProPublicaOrganization, ProPublicaSearchOrg,
};
use donation_ledger::text::{
    clean_opt_string, contains_text, csv_escape, normalize_category, normalize_ein, normalize_i64_ein, trim,
    txf_escape_line,
};

fn org(strein: Option<&str>, ein: Option<i64>) -> ProPublicaOrganization {
    ProPublicaOrganization {
        ein,
        strein: strein.map(|s| s.to_string()),
        name: None,
        address: None,
        city: None,
        state: None,
        zipcode: None,
        ntee_code: None,
        deductibility_code: None,
        subsection_code: None,
        foundation_code: None,
        exempt_organization_status_code: None,
    }
}

#[test]
fn ein_normalization() {
    assert_eq!(normalize_ein("12-3456789"), "123456789");
    assert_eq!(normalize_ein("abc"), "");
    assert_eq!(normalize_i64_ein(123), "000000123");
    assert_eq!(normalize_i64_ein(1234567890), "1234567890");
    assert_eq!(normalize_i64_ein(-5), "-00000005");
    assert_eq!(normalize_i64_ein(0), "000000000");
    assert_eq!(propublica_ein_from_org(&org(Some("53-0196605"), Some(1))).as_deref(), Some("530196605"));
    assert_eq!(propublica_ein_from_org(&org(Some("--"), Some(42))).as_deref(), Some("000000042"));
    assert_eq!(propublica_ein_from_org(&org(None, None)), None);
}

#[test]
fn trimming_and_cleaning() {
    assert_eq!(trim("  a b \t\n"), "a b");
    assert_eq!(trim("\u{3000}x\u{a0}"), "x");
    assert_eq!(trim("   "), "");
    assert_eq!(clean_opt_string(Some(" Boston ".to_string())).as_deref(), Some("Boston"));
    assert_eq!(clean_opt_string(Some("  ".to_string())), None);
    assert_eq!(clean_opt_string(None), None);
}

#[test]
fn categories_normalize() {
    assert_eq!(normalize_category(&Some(" Items ".to_string())).as_deref(), Some("items"));
    assert_eq!(normalize_category(&Some("MILEAGE".to_string())).as_deref(), Some("mileage"));
    assert_eq!(normalize_category(&Some("cash".to_string())).as_deref(), Some("money"));
    assert_eq!(normalize_category(&Some("  ".to_string())), None);
    assert_eq!(normalize_category(&None), None);
}

#[test]
fn csv_and_txf_escaping() {
    assert_eq!(csv_escape("plain"), "plain");
    assert_eq!(csv_escape("a,b"), "\"a,b\"");
    assert_eq!(csv_escape("say \"hi\""), "\"say \"\"hi\"\"\"");
    assert_eq!(csv_escape("two\nlines"), "\"two\nlines\"");
    assert_eq!(txf_escape_line("a^b\r\nc"), "a b  c");
    assert_eq!(txf_escape_line("clean"), "clean");
}

#[test]
fn registry_labels() {
    assert_eq!(map_deductibility(Some(1)).as_deref(), Some("Contributions are deductible"));
    assert_eq!(map_deductibility(Some(4)).as_deref(), Some("Contributions are deductible by treaty"));
    assert_eq!(map_deductibility(Some(-7)).as_deref(), Some("Code -7"));
    assert_eq!(map_deductibility(None), None);
    assert_eq!(map_deductibility_from_exempt_status(Some(3)).as_deref(), Some("May not be deductible"));
    assert_eq!(map_deductibility_from_exempt_status(Some(1)).as_deref(), Some("Deductible"));
    assert_eq!(map_deductibility_from_exempt_status(Some(12)).as_deref(), Some("Status 12"));
    assert_eq!(map_tax_section(3), Some("501(c)(3)"));
    assert_eq!(map_tax_section(92), Some("4947(a)(1)"));
    assert_eq!(map_tax_section(20), None);
    assert_eq!(map_nonprofit_type(Some(19)).as_deref(), Some("501(c)(19)"));
    assert_eq!(map_nonprofit_type(None), None);
    assert_eq!(map_category_from_ntee(Some("b21")).as_deref(), Some("Education"));
    assert_eq!(map_category_from_ntee(Some("K30")).as_deref(), Some("Human Services"));
    assert_eq!(map_category_from_ntee(Some("Z99")).as_deref(), Some("Unknown, Unclassified"));
    assert_eq!(map_category_from_ntee(None).as_deref(), Some("Unknown, Unclassified"));
    assert_eq!(map_exempt_status_label(Some(4)), Some("Terminated"));
    assert_eq!(map_exempt_status_label(Some(5)), None);
    assert_eq!(map_foundation_label(Some(10)).as_deref(), Some("Church"));
    assert_eq!(map_foundation_label(Some(21)).as_deref(), Some("Foundation 21"));
    assert_eq!(derive_status(Some(1)).as_deref(), Some("Active"));
    assert_eq!(derive_status(Some(9)).as_deref(), Some("Status 9"));
    assert_eq!(derive_status(None), None);
}

#[test]
fn fingerprinted_file_names() {
    assert!(has_fingerprint_suffix("app-0123456789ab.js"));
    assert!(has_fingerprint_suffix("app-0123456789AB"));
    assert!(!has_fingerprint_suffix("app.js"));
    assert!(!has_fingerprint_suffix("app-0123456789a.js"));
    assert!(!has_fingerprint_suffix("app-0123456789ag.js"));
    assert!(has_fingerprint_suffix(".app-0123456789ab"));
    assert!(!has_fingerprint_suffix(".."));
    assert!(has_fingerprint_suffix("x.app-0123456789ab.css"));
    assert!(has_fingerprint_suffix("dist/js/app-0123456789ab.js"));
    assert!(has_fingerprint_suffix("dist/app-0123456789ab.js/"));
    assert!(!has_fingerprint_suffix("x-0123456789ab.d/c"));
    assert!(!has_fingerprint_suffix("dist/app-0123456789ab.js/.."));
    assert!(!has_fingerprint_suffix("/"));
    assert!(!has_fingerprint_suffix(""));
}

#[test]
fn import_specifiers_resolve() {
    assert_eq!(resolve_js_relative("js/pages", "./util.js").as_deref(), Some("js/pages/util.js"));
    assert_eq!(resolve_js_relative("js/pages", "../lib/a.js").as_deref(), Some("js/lib/a.js"));
    assert_eq!(resolve_js_relative("js", "../../x.js").as_deref(), Some("x.js"));
    assert_eq!(resolve_js_relative("js//pages/.", "./a.js").as_deref(), Some("js/pages/a.js"));
    assert_eq!(resolve_js_relative("js", "lodash"), None);
    assert_eq!(resolve_js_relative("/abs", "./a.js"), None);
}

#[test]
fn relative_paths_between_assets() {
    assert_eq!(relative_path("js/pages", "js/lib/a.js"), "../lib/a.js");
    assert_eq!(relative_path("js", "js/a.js"), "a.js");
    assert_eq!(relative_path("", "a/b"), "a/b");
    assert_eq!(relative_path("a/b/c", "a"), "../..");
    assert_eq!(relative_path("/srv/js", "/srv/css/x.css"), "../css/x.css");
}

fn search_org(name: &str, strein: Option<&str>, ein: Option<i64>) -> ProPublicaSearchOrg {
    ProPublicaSearchOrg {
        ein,
        strein: strein.map(|s| s.to_string()),
        name: name.to_string(),
        city: None,
        state: None,
        ntee_code: None,
        subseccd: None,
    }
}

#[test]
fn search_results_scored_by_name() {
    let red_cross = search_org("  American Red Cross ", None, None);
    assert_eq!(organization_by_name_match_score(&red_cross, "american red cross"), 3);
    assert_eq!(organization_by_name_match_score(&red_cross, "RED CROSS"), 2);
    assert_eq!(organization_by_name_match_score(&red_cross, "Salvation Army"), 1);
    assert_eq!(organization_by_name_match_score(&search_org("  ", None, None), "x"), 0);
    assert_eq!(propublica_ein_from_search(&search_org("x", None, Some(7))).as_deref(), Some("000000007"));
    assert_eq!(propublica_ein_from_search(&search_org("x", Some("12-3"), Some(7))).as_deref(), Some("123"));
}

#[test]
fn substring_search() {
    assert!(contains_text("red cross", "cross"));
    assert!(contains_text("red cross", ""));
    assert!(contains_text("abc", "abc"));
    assert!(!contains_text("abc", "abcd"));
    assert!(!contains_text("abc", "ac"));
}
