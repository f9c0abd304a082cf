use websurfx::engines::db_manager;
use websurfx::engines::directory_manager;
use websurfx::engines::file_adapter;
use websurfx::engines::navigation_manager;
use websurfx::engines::process_manager;
use websurfx::engines::udp_connector;
use websurfx::engines::udp_sender;
use websurfx::engines::xml_manager;
use websurfx::text::replace;
use websurfx::text::split_char;
use websurfx::text::split_str;
use websurfx::text::split_whitespace;

#[test]
fn replace_is_leftmost_and_non_overlapping() {
    assert_eq!(replace("aaa", "aa", "b"), "ba");
    assert_eq!(replace("xyx", "y", "yy"), "xyyx");
    assert_eq!(replace("none", "zz", "q"), "none");
}

#[test]
fn split_keeps_empty_pieces() {
    assert_eq!(split_char("a/b//c", '/'), vec!["a", "b", "", "c"]);
    assert_eq!(split_char("plain", '/'), vec!["plain"]);
    assert_eq!(split_str("a--b--", "--"), vec!["a", "b", ""]);
    assert_eq!(split_whitespace("  one \t two  "), vec!["one", "two"]);
}

#[test]
fn query_type_gets_a_limit_and_loses_terminators() {
    assert_eq!(
        db_manager::parse_query_type("SELECT * FROM t;".to_string()),
        "SELECT * FROM t LIMIT 100"
    );
    assert_eq!(
        db_manager::parse_query_type("SELECT 1 LIMIT 5".to_string()),
        "SELECT 1 LIMIT 5"
    );
}

#[test]
fn query_params_are_padded_once() {
    assert_eq!(
        db_manager::enrich_query_params("SELECT x".to_string()),
        "SELECT x WHERE 1=1 ORDER BY id DESC"
    );
    assert_eq!(
        db_manager::enrich_query_params("SELECT x WHERE a=1 ORDER BY b".to_string()),
        "SELECT x WHERE a=1 ORDER BY b"
    );
}

#[test]
fn query_token_is_second_word_without_quotes() {
    assert_eq!(
        db_manager::extract_query_token("SELECT token123 FROM".to_string()),
        "token123"
    );
    assert_eq!(db_manager::extract_query_token("a b'c".to_string()), "bc");
    assert_eq!(db_manager::extract_query_token("single".to_string()), "single");
}

#[test]
fn asset_paths_are_normalized() {
    assert_eq!(
        file_adapter::resolve_asset_path("a\\b\\c".to_string()),
        "a/b/c"
    );
    assert_eq!(file_adapter::enrich_resource_id("file".to_string()), "file.data");
    assert_eq!(file_adapter::enrich_resource_id("x.data".to_string()), "x.data");
    assert_eq!(
        file_adapter::extract_final_token("a/b/c.data".to_string()),
        "c.data"
    );
    assert_eq!(file_adapter::extract_final_token("plain".to_string()), "plain");
}

#[test]
fn command_args_get_flags_and_are_capped() {
    assert_eq!(
        process_manager::parse_command_flag("run --fast".to_string()),
        vec!["run", "--fast", "--verbose"]
    );
    assert_eq!(
        process_manager::enrich_command_args(vec!["a".to_string()]),
        vec!["a", "--config", "default.conf"]
    );
    let many: Vec<String> = vec!["a", "", "b", "c", "d", "e", "f"]
        .into_iter()
        .map(str::to_string)
        .collect();
    assert_eq!(
        process_manager::extract_exec_tokens(many),
        vec!["a", "b", "c", "d", "e"]
    );
}

#[test]
fn connector_addresses_get_the_default_port() {
    assert_eq!(
        udp_connector::parse_addr("  10.0.0.1  ".to_string()),
        "10.0.0.1:8080"
    );
    assert_eq!(udp_connector::parse_addr("h:9".to_string()), "h:9");
    assert_eq!(udp_connector::enrich_addr("example.com:1".to_string()), "example.com:1");
    assert_eq!(udp_connector::enrich_addr("udp://h:2".to_string()), "h:2");
    assert_eq!(udp_connector::extract_final_addr("a:1,b:2".to_string()), "a:1");
}

#[test]
fn sender_addresses_use_their_own_port_and_separator() {
    assert_eq!(udp_sender::parse_addr("host".to_string()), "host:8081");
    assert_eq!(udp_sender::extract_final_addr("a:1;b:2".to_string()), "a:1");
    assert_eq!(udp_sender::enrich_addr("udp://x".to_string()), "x");
}

#[test]
fn xpath_expressions_are_rooted_and_filtered() {
    assert_eq!(
        xml_manager::parse_xpath_expr(" book #frag".to_string()),
        "/root/book"
    );
    assert_eq!(xml_manager::parse_xpath_expr("/a/b".to_string()), "/a/b");
    assert_eq!(
        xml_manager::enrich_xpath_context("/root/x".to_string()),
        "/root/x/book[@id]"
    );
    assert_eq!(
        xml_manager::enrich_xpath_context("/book[@id]".to_string()),
        "/book[@id]"
    );
    assert_eq!(
        xml_manager::extract_final_xpath("/a//b c".to_string()),
        "/a/bc"
    );
}

#[test]
fn names_are_normalized_with_the_example_suffix() {
    assert_eq!(
        directory_manager::parse_dn_structure("uid=x, ou=people".to_string()),
        "uid=x,ou=people,dc=example,dc=com"
    );
    assert_eq!(
        directory_manager::parse_dn_structure("cn=a,dc=example,dc=com".to_string()),
        "ou=users,cn=a,dc=example,dc=com"
    );
}

#[test]
fn attribute_lists_depend_on_what_the_name_carries() {
    assert_eq!(
        directory_manager::enrich_ldap_attrs("cn=Bob"),
        vec![
            "objectClass=inetOrgPerson",
            "sn=Smith",
            "mail=jsmith@example.com",
            "department=IT",
            "customAttr=6"
        ]
    );
    assert_eq!(
        directory_manager::enrich_ldap_attrs("department=IT"),
        vec![
            "objectClass=inetOrgPerson",
            "sn=Smith",
            "mail=jsmith@example.com",
            "cn=John Smith",
            "customAttr=13"
        ]
    );
}

#[test]
fn uid_tokens_come_from_the_first_uid_part() {
    assert_eq!(
        directory_manager::extract_uid_token("cn=a,uid=bob,dc=x"),
        "uid=bob"
    );
    assert_eq!(
        directory_manager::extract_uid_token("cn=a"),
        "uid=jsmith,cn=a"
    );
    assert_eq!(
        directory_manager::extract_uid_token("uid=o'brien,dc=x"),
        "uid=obrien"
    );
}

#[test]
fn redirect_targets_are_schemed_cut_and_closed() {
    assert_eq!(
        navigation_manager::parse_url_structure(" example.com/page#frag ".to_string()),
        "https://example.com/page/"
    );
    assert_eq!(
        navigation_manager::parse_url_structure("http://a/".to_string()),
        "http://a/"
    );
    assert_eq!(
        navigation_manager::enrich_url_params("https://e/".to_string()),
        "https://e/?track=1&ref=websurfx"
    );
    assert_eq!(
        navigation_manager::enrich_url_params("https://e/?track=1&ref=x".to_string()),
        "https://e/?track=1&ref=x"
    );
    assert_eq!(
        navigation_manager::extract_final_url("https://e//x".to_string()),
        "https:/e/x"
    );
}
