//! Tests for the metadata-store query planning.

use nexashell::db::{
    build_sessions_query, credentials_changed, edit_group_plan, edit_session_plan,
    edit_tag_plan, save_session_update_sql, should_write_credentials, SqlValue,
};
use nexashell::keychain::SensitiveData;

fn text(v: &SqlValue) -> &str {
    match v {
        SqlValue::Text(s) => s.as_str(),
        _ => panic!("text parameter expected"),
    }
}

#[test]
fn unfiltered_listing_is_the_plain_select() {
    let (sql, params) = build_sessions_query(&None, &None, &None, &None, &None);
    assert_eq!(
        sql,
        "SELECT DISTINCT s.id, s.addr, s.port, s.server_name, s.username, s.auth_type, \
         s.private_key_path, s.is_favorite, s.created_at, s.updated_at FROM sessions s"
    );
    assert!(params.is_empty());
}

#[test]
fn fully_filtered_listing_joins_and_binds_in_order() {
    let (sql, params) = build_sessions_query(
        &Some("g-1".to_string()),
        &Some("t-1".to_string()),
        &Some("id-1".to_string()),
        &Some("web".to_string()),
        &Some("10.".to_string()),
    );
    assert_eq!(
        sql,
        "SELECT DISTINCT s.id, s.addr, s.port, s.server_name, s.username, s.auth_type, \
         s.private_key_path, s.is_favorite, s.created_at, s.updated_at FROM sessions s \
         JOIN session_groups sg ON s.id = sg.session_id \
         JOIN session_tags st ON s.id = st.session_id \
         WHERE sg.group_id = ? AND st.tag_id = ? AND s.id = ? \
         AND s.server_name LIKE ? AND s.addr LIKE ?"
    );
    assert_eq!(params, vec!["g-1", "t-1", "id-1", "%web%", "%10.%"]);
}

#[test]
fn name_filter_alone_needs_no_join() {
    let (sql, params) =
        build_sessions_query(&None, &None, &None, &Some("db".to_string()), &None);
    assert!(sql.ends_with(" WHERE s.server_name LIKE ?"));
    assert!(!sql.contains("JOIN"));
    assert_eq!(params, vec!["%db%"]);
}

#[test]
fn edit_session_with_nothing_to_change_is_a_no_op() {
    let r = edit_session_plan(
        &"id-1".to_string(),
        &None,
        &None,
        &None,
        &None,
        &None,
        &None,
        &None,
    );
    assert!(r.is_none());
}

#[test]
fn edit_session_sets_exactly_the_given_fields() {
    let (sql, vals) = edit_session_plan(
        &"id-1".to_string(),
        &Some("203.0.113.9".to_string()),
        &Some(2200),
        &None,
        &None,
        &None,
        &Some(None),
        &Some(true),
    )
    .unwrap();
    assert_eq!(
        sql,
        "UPDATE sessions SET addr = ?, port = ?, private_key_path = ?, is_favorite = ?, \
         updated_at = CURRENT_TIMESTAMP WHERE id = ?"
    );
    assert_eq!(vals.len(), 5);
    assert_eq!(text(&vals[0]), "203.0.113.9");
    assert!(matches!(vals[1], SqlValue::Int(2200)));
    assert!(matches!(vals[2], SqlValue::NullableText(None)));
    assert!(matches!(vals[3], SqlValue::Int(1)));
    assert_eq!(text(&vals[4]), "id-1");
}

#[test]
fn edit_group_and_tag_plans_bind_key_last() {
    let (sql, vals) =
        edit_group_plan(&"g".to_string(), &Some("ops".to_string()), &Some(3)).unwrap();
    assert_eq!(
        sql,
        "UPDATE groups SET name = ?, sort = ?, updated_at = CURRENT_TIMESTAMP WHERE id = ?"
    );
    assert_eq!(text(&vals[2]), "g");
    assert!(edit_group_plan(&"g".to_string(), &None, &None).is_none());

    let (sql, vals) = edit_tag_plan(
        &"t".to_string(),
        &None,
        &Some("#ff0000".to_string()),
        &None,
    )
    .unwrap();
    assert_eq!(
        sql,
        "UPDATE tags SET color = ?, updated_at = CURRENT_TIMESTAMP WHERE id = ?"
    );
    assert_eq!(text(&vals[0]), "#ff0000");
    assert_eq!(text(&vals[1]), "t");
}

#[test]
fn save_session_update_numbers_placeholders() {
    assert_eq!(
        save_session_update_sql(false),
        "UPDATE sessions SET addr = ?1, port = ?2, server_name = ?3, username = ?4, \
         auth_type = ?5, private_key_path = ?6, updated_at = CURRENT_TIMESTAMP WHERE id = ?7"
    );
    assert_eq!(
        save_session_update_sql(true),
        "UPDATE sessions SET addr = ?1, port = ?2, server_name = ?3, username = ?4, \
         auth_type = ?5, private_key_path = ?6, updated_at = CURRENT_TIMESTAMP, \
         is_favorite = ?7 WHERE id = ?8"
    );
}

#[test]
fn credentials_are_written_only_when_needed() {
    let stored = SensitiveData {
        password: Some("pw".to_string()),
        key_passphrase: None,
    };
    // nothing provided: no write
    assert!(!should_write_credentials(&Some(stored.clone()), &None, &None));
    // unchanged: no write, avoiding a keychain prompt
    assert!(!should_write_credentials(
        &Some(stored.clone()),
        &Some("pw".to_string()),
        &None
    ));
    // changed member: write
    assert!(should_write_credentials(
        &Some(stored.clone()),
        &Some("new".to_string()),
        &None
    ));
    // stored record unreadable: write
    assert!(should_write_credentials(&None, &Some("pw".to_string()), &None));
    // member-by-member comparison
    assert!(credentials_changed(&stored, &Some("pw".to_string()), &Some("k".to_string())));
    assert!(!credentials_changed(&stored, &Some("pw".to_string()), &None));
}
