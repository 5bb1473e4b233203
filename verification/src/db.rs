//! The session-metadata records (sessions, groups, tags) and the query
//! planning for the store that persists them.
//!
//! The store itself is an external collaborator: opening the database and
//! running statements happen outside.  What is verified here is the part
//! that decides: which SQL text a filtered listing or a partial update
//! runs, which parameters it binds and in which order, and when changed
//! credentials are written back to the keychain.

use vstd::prelude::*;

use crate::text::{spec_join, join_with, strings_view};

verus! {

/// A persisted session descriptor.
#[derive(Debug)]
pub struct Session {
    /// UUID primary key.
    pub id: String,
    /// SSH server address (host or IP).
    pub addr: String,
    /// SSH server port.
    pub port: i64,
    /// Human-friendly session name.
    pub server_name: String,
    /// SSH username.
    pub username: String,
    /// Authentication type (`password` or `key`).
    pub auth_type: String,
    /// Path to the private key file, if key authentication is used.
    pub private_key_path: Option<String>,
    /// Whether the session is favorited.
    pub is_favorite: bool,
    /// Creation timestamp.
    pub created_at: String,
    /// Last update timestamp.
    pub updated_at: String,
}

/// A persisted group for organizing sessions.
#[derive(Debug)]
pub struct Group {
    /// UUID primary key.
    pub id: String,
    /// Group name.
    pub name: String,
    /// Sort order.
    pub sort: i64,
    /// Creation timestamp.
    pub created_at: String,
    /// Last update timestamp.
    pub updated_at: String,
}

/// A persisted tag.
#[derive(Debug)]
pub struct Tag {
    /// UUID primary key.
    pub id: String,
    /// Tag name.
    pub name: String,
    /// Tag color (hex string).
    pub color: Option<String>,
    /// Sort order.
    pub sort: i64,
    /// Creation timestamp.
    pub created_at: String,
    /// Last update timestamp.
    pub updated_at: String,
}

/// A value bound to one SQL placeholder.
#[derive(Debug)]
pub enum SqlValue {
    /// A text parameter.
    Text(String),
    /// An integer parameter.
    Int(i64),
    /// A nullable text parameter.
    NullableText(Option<String>),
}

/// Model of a bound value.
pub enum SqlValueModel {
    Text(Seq<char>),
    Int(i64),
    NullableText(Option<Seq<char>>),
}

impl View for SqlValue {
    type V = SqlValueModel;

    open spec fn view(&self) -> SqlValueModel {
        match self {
            SqlValue::Text(s) => SqlValueModel::Text(s@),
            SqlValue::Int(n) => SqlValueModel::Int(*n),
            SqlValue::NullableText(o) => SqlValueModel::NullableText(
                crate::credjson::opt_str_view(*o),
            ),
        }
    }
}

/// The models of a parameter list.
pub open spec fn sql_values_view(v: Seq<SqlValue>) -> Seq<SqlValueModel> {
    v.map_values(|x: SqlValue| x@)
}

/// The view of an optional string.
pub open spec fn opt_view(o: Option<String>) -> Option<Seq<char>> {
    crate::credjson::opt_str_view(o)
}

/// A singleton where the option is set, else nothing.
pub open spec fn opt_part(o: Option<Seq<char>>, text: Seq<char>) -> Seq<Seq<char>> {
    match o {
        Some(_) => seq![text],
        None => Seq::empty(),
    }
}

/// The `WHERE` clauses a filtered session listing uses, in fixed order.
pub open spec fn spec_sessions_where(
    group_id: Option<Seq<char>>,
    tag_id: Option<Seq<char>>,
    id: Option<Seq<char>>,
    server_name: Option<Seq<char>>,
    host_addr: Option<Seq<char>>,
) -> Seq<Seq<char>> {
    opt_part(group_id, "sg.group_id = ?"@) + opt_part(tag_id, "st.tag_id = ?"@) + opt_part(
        id,
        "s.id = ?"@,
    ) + opt_part(server_name, "s.server_name LIKE ?"@) + opt_part(host_addr, "s.addr LIKE ?"@)
}

/// The SQL text of a filtered session listing: the base select, a join
/// per association filter, and the `WHERE` clauses joined with `AND`.
pub open spec fn spec_sessions_query(
    group_id: Option<Seq<char>>,
    tag_id: Option<Seq<char>>,
    id: Option<Seq<char>>,
    server_name: Option<Seq<char>>,
    host_addr: Option<Seq<char>>,
) -> Seq<char> {
    let base =
        "SELECT DISTINCT s.id, s.addr, s.port, s.server_name, s.username, s.auth_type, s.private_key_path, s.is_favorite, s.created_at, s.updated_at FROM sessions s"@;
    let with_joins = base + (if group_id is Some {
        " JOIN session_groups sg ON s.id = sg.session_id"@
    } else {
        Seq::empty()
    }) + (if tag_id is Some {
        " JOIN session_tags st ON s.id = st.session_id"@
    } else {
        Seq::empty()
    });
    let clauses = spec_sessions_where(group_id, tag_id, id, server_name, host_addr);
    if clauses.len() > 0 {
        with_joins + " WHERE "@ + spec_join(clauses, " AND "@)
    } else {
        with_joins
    }
}

/// A `%`-wrapped pattern for a `LIKE` match.
pub open spec fn spec_like_pattern(s: Seq<char>) -> Seq<char> {
    "%"@ + s + "%"@
}

/// The parameters a filtered session listing binds, in clause order.
pub open spec fn spec_sessions_params(
    group_id: Option<Seq<char>>,
    tag_id: Option<Seq<char>>,
    id: Option<Seq<char>>,
    server_name: Option<Seq<char>>,
    host_addr: Option<Seq<char>>,
) -> Seq<Seq<char>> {
    (match group_id {
        Some(g) => seq![g],
        None => Seq::empty(),
    }) + (match tag_id {
        Some(t) => seq![t],
        None => Seq::empty(),
    }) + (match id {
        Some(i) => seq![i],
        None => Seq::empty(),
    }) + (match server_name {
        Some(n) => seq![spec_like_pattern(n)],
        None => Seq::empty(),
    }) + (match host_addr {
        Some(a) => seq![spec_like_pattern(a)],
        None => Seq::empty(),
    })
}

/// Plans a filtered session listing: the SQL text and its parameters.
/// Every filter is optional; with none, the plain table select runs.
pub fn build_sessions_query(
    group_id: &Option<String>,
    tag_id: &Option<String>,
    id: &Option<String>,
    server_name: &Option<String>,
    host_addr: &Option<String>,
) -> (r: (String, Vec<String>))
    ensures
        r.0@ == spec_sessions_query(
            opt_view(*group_id),
            opt_view(*tag_id),
            opt_view(*id),
            opt_view(*server_name),
            opt_view(*host_addr),
        ),
        strings_view(r.1@) == spec_sessions_params(
            opt_view(*group_id),
            opt_view(*tag_id),
            opt_view(*id),
            opt_view(*server_name),
            opt_view(*host_addr),
        ),
{
    let mut sql = String::from_str(
        "SELECT DISTINCT s.id, s.addr, s.port, s.server_name, s.username, s.auth_type, s.private_key_path, s.is_favorite, s.created_at, s.updated_at FROM sessions s",
    );
    if group_id.is_some() {
        sql.append(" JOIN session_groups sg ON s.id = sg.session_id");
    }
    if tag_id.is_some() {
        sql.append(" JOIN session_tags st ON s.id = st.session_id");
    }

    let mut clauses: Vec<String> = Vec::new();
    let mut params: Vec<String> = Vec::new();
    if let Some(g) = group_id {
        clauses.push(String::from_str("sg.group_id = ?"));
        params.push(g.clone());
    }
    if let Some(t) = tag_id {
        clauses.push(String::from_str("st.tag_id = ?"));
        params.push(t.clone());
    }
    if let Some(i) = id {
        clauses.push(String::from_str("s.id = ?"));
        params.push(i.clone());
    }
    if let Some(n) = server_name {
        clauses.push(String::from_str("s.server_name LIKE ?"));
        let mut p = String::from_str("%");
        p.append(n.as_str());
        p.append("%");
        params.push(p);
    }
    if let Some(a) = host_addr {
        clauses.push(String::from_str("s.addr LIKE ?"));
        let mut p = String::from_str("%");
        p.append(a.as_str());
        p.append("%");
        params.push(p);
    }
    proof {
        assert(strings_view(clauses@) =~= spec_sessions_where(
            opt_view(*group_id),
            opt_view(*tag_id),
            opt_view(*id),
            opt_view(*server_name),
            opt_view(*host_addr),
        ));
        assert(strings_view(params@) =~= spec_sessions_params(
            opt_view(*group_id),
            opt_view(*tag_id),
            opt_view(*id),
            opt_view(*server_name),
            opt_view(*host_addr),
        ));
    }
    if clauses.len() > 0 {
        sql.append(" WHERE ");
        let joined = join_with(&clauses, " AND ");
        sql.append(joined.as_str());
    }
    (sql, params)
}

/// The `SET` clauses of a partial session update, in fixed column order.
pub open spec fn spec_edit_session_sets(
    addr: Option<Seq<char>>,
    port: Option<i64>,
    server_name: Option<Seq<char>>,
    username: Option<Seq<char>>,
    auth_type: Option<Seq<char>>,
    private_key_path: Option<Option<Seq<char>>>,
    is_favorite: Option<bool>,
) -> Seq<Seq<char>> {
    (match addr {
        Some(_) => seq!["addr = ?"@],
        None => Seq::empty(),
    }) + (match port {
        Some(_) => seq!["port = ?"@],
        None => Seq::empty(),
    }) + (match server_name {
        Some(_) => seq!["server_name = ?"@],
        None => Seq::empty(),
    }) + (match username {
        Some(_) => seq!["username = ?"@],
        None => Seq::empty(),
    }) + (match auth_type {
        Some(_) => seq!["auth_type = ?"@],
        None => Seq::empty(),
    }) + (match private_key_path {
        Some(_) => seq!["private_key_path = ?"@],
        None => Seq::empty(),
    }) + (match is_favorite {
        Some(_) => seq!["is_favorite = ?"@],
        None => Seq::empty(),
    })
}

/// The parameters of a partial session update, in clause order, the row
/// key last.
pub open spec fn spec_edit_session_params(
    addr: Option<Seq<char>>,
    port: Option<i64>,
    server_name: Option<Seq<char>>,
    username: Option<Seq<char>>,
    auth_type: Option<Seq<char>>,
    private_key_path: Option<Option<Seq<char>>>,
    is_favorite: Option<bool>,
    id: Seq<char>,
) -> Seq<SqlValueModel> {
    (match addr {
        Some(a) => seq![SqlValueModel::Text(a)],
        None => Seq::empty(),
    }) + (match port {
        Some(p) => seq![SqlValueModel::Int(p)],
        None => Seq::empty(),
    }) + (match server_name {
        Some(n) => seq![SqlValueModel::Text(n)],
        None => Seq::empty(),
    }) + (match username {
        Some(u) => seq![SqlValueModel::Text(u)],
        None => Seq::empty(),
    }) + (match auth_type {
        Some(t) => seq![SqlValueModel::Text(t)],
        None => Seq::empty(),
    }) + (match private_key_path {
        Some(p) => seq![SqlValueModel::NullableText(p)],
        None => Seq::empty(),
    }) + (match is_favorite {
        Some(f) => seq![
            SqlValueModel::Int(
                if f {
                    1
                } else {
                    0
                },
            ),
        ],
        None => Seq::empty(),
    }) + seq![SqlValueModel::Text(id)]
}

/// The SQL text of a partial session update: the given `SET` clauses plus
/// the timestamp touch, keyed by id.
pub open spec fn spec_edit_session_sql(sets: Seq<Seq<char>>) -> Seq<char> {
    "UPDATE sessions SET "@ + spec_join(
        sets + seq!["updated_at = CURRENT_TIMESTAMP"@],
        ", "@,
    ) + " WHERE id = ?"@
}

/// Appends one text-valued `SET` clause where the field was provided.
fn push_text_set(
    sets: &mut Vec<String>,
    vals: &mut Vec<SqlValue>,
    field: &Option<String>,
    clause: &str,
)
    ensures
        strings_view(final(sets)@) == strings_view(old(sets)@) + opt_part(
            opt_view(*field),
            clause@,
        ),
        sql_values_view(final(vals)@) == sql_values_view(old(vals)@) + (match opt_view(*field) {
            Some(x) => seq![SqlValueModel::Text(x)],
            None => Seq::<SqlValueModel>::empty(),
        }),
{
    if let Some(v) = field {
        sets.push(String::from_str(clause));
        vals.push(SqlValue::Text(v.clone()));
        proof {
            assert(strings_view(sets@) =~= strings_view(old(sets)@) + opt_part(
                opt_view(*field),
                clause@,
            ));
            assert(sql_values_view(vals@) =~= sql_values_view(old(vals)@) + seq![
                SqlValueModel::Text(v@),
            ]);
        }
    } else {
        proof {
            assert(strings_view(sets@) =~= strings_view(old(sets)@) + opt_part(
                opt_view(*field),
                clause@,
            ));
            assert(sql_values_view(vals@) =~= sql_values_view(old(vals)@)
                + Seq::<SqlValueModel>::empty());
        }
    }
}

/// Appends one integer-valued `SET` clause where the field was provided.
fn push_int_set(
    sets: &mut Vec<String>,
    vals: &mut Vec<SqlValue>,
    field: &Option<i64>,
    clause: &str,
)
    ensures
        strings_view(final(sets)@) == strings_view(old(sets)@) + (match *field {
            Some(_) => seq![clause@],
            None => Seq::<Seq<char>>::empty(),
        }),
        sql_values_view(final(vals)@) == sql_values_view(old(vals)@) + (match *field {
            Some(x) => seq![SqlValueModel::Int(x)],
            None => Seq::<SqlValueModel>::empty(),
        }),
{
    if let Some(v) = field {
        sets.push(String::from_str(clause));
        vals.push(SqlValue::Int(*v));
        proof {
            assert(strings_view(sets@) =~= strings_view(old(sets)@) + seq![clause@]);
            assert(sql_values_view(vals@) =~= sql_values_view(old(vals)@) + seq![
                SqlValueModel::Int(*v),
            ]);
        }
    } else {
        proof {
            assert(strings_view(sets@) =~= strings_view(old(sets)@)
                + Seq::<Seq<char>>::empty());
            assert(sql_values_view(vals@) =~= sql_values_view(old(vals)@)
                + Seq::<SqlValueModel>::empty());
        }
    }
}

/// Appends one flag-valued `SET` clause where the field was provided,
/// binding 1 for true and 0 for false.
fn push_flag_set(
    sets: &mut Vec<String>,
    vals: &mut Vec<SqlValue>,
    field: &Option<bool>,
    clause: &str,
)
    ensures
        strings_view(final(sets)@) == strings_view(old(sets)@) + (match *field {
            Some(_) => seq![clause@],
            None => Seq::<Seq<char>>::empty(),
        }),
        sql_values_view(final(vals)@) == sql_values_view(old(vals)@) + (match *field {
            Some(x) => seq![
                SqlValueModel::Int(
                    if x {
                        1
                    } else {
                        0
                    },
                ),
            ],
            None => Seq::<SqlValueModel>::empty(),
        }),
{
    if let Some(v) = field {
        sets.push(String::from_str(clause));
        let bound: i64 = if *v {
            1
        } else {
            0
        };
        vals.push(SqlValue::Int(bound));
        proof {
            assert(strings_view(sets@) =~= strings_view(old(sets)@) + seq![clause@]);
            assert(sql_values_view(vals@) =~= sql_values_view(old(vals)@) + seq![
                SqlValueModel::Int(bound),
            ]);
        }
    } else {
        proof {
            assert(strings_view(sets@) =~= strings_view(old(sets)@)
                + Seq::<Seq<char>>::empty());
            assert(sql_values_view(vals@) =~= sql_values_view(old(vals)@)
                + Seq::<SqlValueModel>::empty());
        }
    }
}

/// Appends one nullable-text `SET` clause where the field was provided.
fn push_nullable_set(
    sets: &mut Vec<String>,
    vals: &mut Vec<SqlValue>,
    field: &Option<Option<String>>,
    clause: &str,
)
    ensures
        strings_view(final(sets)@) == strings_view(old(sets)@) + (match *field {
            Some(_) => seq![clause@],
            None => Seq::<Seq<char>>::empty(),
        }),
        sql_values_view(final(vals)@) == sql_values_view(old(vals)@) + (match field {
            Some(x) => seq![SqlValueModel::NullableText(opt_view(*x))],
            None => Seq::<SqlValueModel>::empty(),
        }),
{
    if let Some(pk) = field {
        sets.push(String::from_str(clause));
        let inner = match pk {
            Some(x) => Some(x.clone()),
            None => None,
        };
        vals.push(SqlValue::NullableText(inner));
        proof {
            assert(strings_view(sets@) =~= strings_view(old(sets)@) + seq![clause@]);
            assert(sql_values_view(vals@) =~= sql_values_view(old(vals)@) + seq![
                SqlValueModel::NullableText(opt_view(*pk)),
            ]);
        }
    } else {
        proof {
            assert(strings_view(sets@) =~= strings_view(old(sets)@)
                + Seq::<Seq<char>>::empty());
            assert(sql_values_view(vals@) =~= sql_values_view(old(vals)@)
                + Seq::<SqlValueModel>::empty());
        }
    }
}

/// Closes a partial-update plan: appends the timestamp touch and the row
/// key, joins the clauses and writes the statement for the given table.
fn finish_edit_plan(table_prefix: &str, mut sets: Vec<String>, mut vals: Vec<SqlValue>, id: &String) -> (r: (
    String,
    Vec<SqlValue>,
))
    ensures
        r.0@ == table_prefix@ + spec_join(
            strings_view(sets@) + seq!["updated_at = CURRENT_TIMESTAMP"@],
            ", "@,
        ) + " WHERE id = ?"@,
        sql_values_view(r.1@) == sql_values_view(vals@) + seq![SqlValueModel::Text(id@)],
{
    let ghost sets0 = strings_view(sets@);
    let ghost vals0 = sql_values_view(vals@);
    sets.push(String::from_str("updated_at = CURRENT_TIMESTAMP"));
    vals.push(SqlValue::Text(id.clone()));
    proof {
        assert(strings_view(sets@) =~= sets0 + seq!["updated_at = CURRENT_TIMESTAMP"@]);
        assert(sql_values_view(vals@) =~= vals0 + seq![SqlValueModel::Text(id@)]);
    }
    let mut sql = String::from_str(table_prefix);
    let joined = join_with(&sets, ", ");
    sql.append(joined.as_str());
    sql.append(" WHERE id = ?");
    (sql, vals)
}

/// Plans a partial session update.  With no field to change the plan is
/// empty and nothing runs; otherwise the update sets exactly the given
/// fields, touches `updated_at`, and binds the values in clause order
/// with the row key last.
pub fn edit_session_plan(
    id: &String,
    addr: &Option<String>,
    port: &Option<i64>,
    server_name: &Option<String>,
    username: &Option<String>,
    auth_type: &Option<String>,
    private_key_path: &Option<Option<String>>,
    is_favorite: &Option<bool>,
) -> (r: Option<(String, Vec<SqlValue>)>)
    ensures
        ({
            let sets = spec_edit_session_sets(
                opt_view(*addr),
                *port,
                opt_view(*server_name),
                opt_view(*username),
                opt_view(*auth_type),
                (match private_key_path {
                    Some(p) => Some(opt_view(*p)),
                    None => None,
                }),
                *is_favorite,
            );
            match r {
                None => sets.len() == 0,
                Some(plan) => sets.len() > 0 && plan.0@ == spec_edit_session_sql(sets)
                    && sql_values_view(plan.1@) == spec_edit_session_params(
                    opt_view(*addr),
                    *port,
                    opt_view(*server_name),
                    opt_view(*username),
                    opt_view(*auth_type),
                    (match private_key_path {
                        Some(p) => Some(opt_view(*p)),
                        None => None,
                    }),
                    *is_favorite,
                    id@,
                ),
            }
        }),
{
    let mut sets: Vec<String> = Vec::new();
    let mut vals: Vec<SqlValue> = Vec::new();
    push_text_set(&mut sets, &mut vals, addr, "addr = ?");
    push_int_set(&mut sets, &mut vals, port, "port = ?");
    push_text_set(&mut sets, &mut vals, server_name, "server_name = ?");
    push_text_set(&mut sets, &mut vals, username, "username = ?");
    push_text_set(&mut sets, &mut vals, auth_type, "auth_type = ?");
    push_nullable_set(&mut sets, &mut vals, private_key_path, "private_key_path = ?");
    push_flag_set(&mut sets, &mut vals, is_favorite, "is_favorite = ?");
    proof {
        assert(strings_view(sets@) =~= spec_edit_session_sets(
            opt_view(*addr),
            *port,
            opt_view(*server_name),
            opt_view(*username),
            opt_view(*auth_type),
            (match private_key_path {
                Some(p) => Some(opt_view(*p)),
                None => None,
            }),
            *is_favorite,
        ));
        assert(sql_values_view(vals@) + seq![SqlValueModel::Text(id@)]
            =~= spec_edit_session_params(
            opt_view(*addr),
            *port,
            opt_view(*server_name),
            opt_view(*username),
            opt_view(*auth_type),
            (match private_key_path {
                Some(p) => Some(opt_view(*p)),
                None => None,
            }),
            *is_favorite,
            id@,
        ));
    }
    if sets.len() == 0 {
        return None;
    }
    Some(finish_edit_plan("UPDATE sessions SET ", sets, vals, id))
}

/// The `SET` clauses of a partial group update, in fixed column order.
pub open spec fn spec_edit_group_sets(name: Option<Seq<char>>, sort: Option<i64>) -> Seq<
    Seq<char>,
> {
    (match name {
        Some(_) => seq!["name = ?"@],
        None => Seq::<Seq<char>>::empty(),
    }) + (match sort {
        Some(_) => seq!["sort = ?"@],
        None => Seq::<Seq<char>>::empty(),
    })
}

/// The parameters of a partial group update, the row key last.
pub open spec fn spec_edit_group_params(
    name: Option<Seq<char>>,
    sort: Option<i64>,
    id: Seq<char>,
) -> Seq<SqlValueModel> {
    (match name {
        Some(n) => seq![SqlValueModel::Text(n)],
        None => Seq::<SqlValueModel>::empty(),
    }) + (match sort {
        Some(x) => seq![SqlValueModel::Int(x)],
        None => Seq::<SqlValueModel>::empty(),
    }) + seq![SqlValueModel::Text(id)]
}

/// Plans a partial group update; empty with nothing to change.
pub fn edit_group_plan(id: &String, name: &Option<String>, sort: &Option<i64>) -> (r: Option<
    (String, Vec<SqlValue>),
>)
    ensures
        ({
            let sets = spec_edit_group_sets(opt_view(*name), *sort);
            match r {
                None => sets.len() == 0,
                Some(plan) => sets.len() > 0 && plan.0@ == "UPDATE groups SET "@ + spec_join(
                    sets + seq!["updated_at = CURRENT_TIMESTAMP"@],
                    ", "@,
                ) + " WHERE id = ?"@ && sql_values_view(plan.1@) == spec_edit_group_params(
                    opt_view(*name),
                    *sort,
                    id@,
                ),
            }
        }),
{
    let mut sets: Vec<String> = Vec::new();
    let mut vals: Vec<SqlValue> = Vec::new();
    push_text_set(&mut sets, &mut vals, name, "name = ?");
    push_int_set(&mut sets, &mut vals, sort, "sort = ?");
    proof {
        assert(strings_view(sets@) =~= spec_edit_group_sets(opt_view(*name), *sort));
        assert(sql_values_view(vals@) + seq![SqlValueModel::Text(id@)]
            =~= spec_edit_group_params(opt_view(*name), *sort, id@));
    }
    if sets.len() == 0 {
        return None;
    }
    Some(finish_edit_plan("UPDATE groups SET ", sets, vals, id))
}

/// The `SET` clauses of a partial tag update, in fixed column order.
pub open spec fn spec_edit_tag_sets(
    name: Option<Seq<char>>,
    color: Option<Seq<char>>,
    sort: Option<i64>,
) -> Seq<Seq<char>> {
    (match name {
        Some(_) => seq!["name = ?"@],
        None => Seq::<Seq<char>>::empty(),
    }) + (match color {
        Some(_) => seq!["color = ?"@],
        None => Seq::<Seq<char>>::empty(),
    }) + (match sort {
        Some(_) => seq!["sort = ?"@],
        None => Seq::<Seq<char>>::empty(),
    })
}

/// The parameters of a partial tag update, the row key last.
pub open spec fn spec_edit_tag_params(
    name: Option<Seq<char>>,
    color: Option<Seq<char>>,
    sort: Option<i64>,
    id: Seq<char>,
) -> Seq<SqlValueModel> {
    (match name {
        Some(n) => seq![SqlValueModel::Text(n)],
        None => Seq::<SqlValueModel>::empty(),
    }) + (match color {
        Some(c) => seq![SqlValueModel::Text(c)],
        None => Seq::<SqlValueModel>::empty(),
    }) + (match sort {
        Some(x) => seq![SqlValueModel::Int(x)],
        None => Seq::<SqlValueModel>::empty(),
    }) + seq![SqlValueModel::Text(id)]
}

/// Plans a partial tag update; empty with nothing to change.
pub fn edit_tag_plan(
    id: &String,
    name: &Option<String>,
    color: &Option<String>,
    sort: &Option<i64>,
) -> (r: Option<(String, Vec<SqlValue>)>)
    ensures
        ({
            let sets = spec_edit_tag_sets(opt_view(*name), opt_view(*color), *sort);
            match r {
                None => sets.len() == 0,
                Some(plan) => sets.len() > 0 && plan.0@ == "UPDATE tags SET "@ + spec_join(
                    sets + seq!["updated_at = CURRENT_TIMESTAMP"@],
                    ", "@,
                ) + " WHERE id = ?"@ && sql_values_view(plan.1@) == spec_edit_tag_params(
                    opt_view(*name),
                    opt_view(*color),
                    *sort,
                    id@,
                ),
            }
        }),
{
    let mut sets: Vec<String> = Vec::new();
    let mut vals: Vec<SqlValue> = Vec::new();
    push_text_set(&mut sets, &mut vals, name, "name = ?");
    push_text_set(&mut sets, &mut vals, color, "color = ?");
    push_int_set(&mut sets, &mut vals, sort, "sort = ?");
    proof {
        assert(strings_view(sets@) =~= spec_edit_tag_sets(
            opt_view(*name),
            opt_view(*color),
            *sort,
        ));
        assert(sql_values_view(vals@) + seq![SqlValueModel::Text(id@)] =~= spec_edit_tag_params(
            opt_view(*name),
            opt_view(*color),
            *sort,
            id@,
        ));
    }
    if sets.len() == 0 {
        return None;
    }
    Some(finish_edit_plan("UPDATE tags SET ", sets, vals, id))
}

/// The SQL text a full session save runs when it updates an existing row:
/// all six descriptor columns and the timestamp, plus the favorite flag
/// where one was given, with numbered placeholders and the row key last.
pub open spec fn spec_save_session_update_sql(with_favorite: bool) -> Seq<char> {
    let base =
        "UPDATE sessions SET addr = ?1, port = ?2, server_name = ?3, username = ?4, auth_type = ?5, private_key_path = ?6, updated_at = CURRENT_TIMESTAMP"@;
    if with_favorite {
        base + ", is_favorite = ?7"@ + " WHERE id = ?8"@
    } else {
        base + " WHERE id = ?7"@
    }
}

/// Writes the update statement a full session save runs.
pub fn save_session_update_sql(with_favorite: bool) -> (r: String)
    ensures
        r@ == spec_save_session_update_sql(with_favorite),
{
    let mut sql = String::from_str(
        "UPDATE sessions SET addr = ?1, port = ?2, server_name = ?3, username = ?4, auth_type = ?5, private_key_path = ?6, updated_at = CURRENT_TIMESTAMP",
    );
    if with_favorite {
        sql.append(", is_favorite = ?7");
        sql.append(" WHERE id = ?8");
    } else {
        sql.append(" WHERE id = ?7");
    }
    sql
}

/// Whether stored credentials differ from the ones now provided, member
/// by member.
pub fn credentials_changed(
    existing: &crate::keychain::SensitiveData,
    password: &Option<String>,
    key_passphrase: &Option<String>,
) -> (r: bool)
    ensures
        r == !(existing.model() == (opt_view(*password), opt_view(*key_passphrase))),
{
    let pw_same = match (&existing.password, password) {
        (Some(a), Some(b)) => *a == *b,
        (None, None) => true,
        _ => false,
    };
    let kp_same = match (&existing.key_passphrase, key_passphrase) {
        (Some(a), Some(b)) => *a == *b,
        (None, None) => true,
        _ => false,
    };
    proof {
        assert(pw_same == (existing.model().0 == opt_view(*password)));
        assert(kp_same == (existing.model().1 == opt_view(*key_passphrase)));
        assert((existing.model() == (opt_view(*password), opt_view(*key_passphrase))) == (
        existing.model().0 == opt_view(*password) && existing.model().1 == opt_view(
            *key_passphrase,
        )));
    }
    !(pw_same && kp_same)
}

/// Whether a session save writes credentials to the keychain: only when
/// one of the members was provided, and then only when the stored record
/// could not be read or differs from the provided members — unchanged
/// credentials are not rewritten, avoiding system prompts.
pub fn should_write_credentials(
    existing: &Option<crate::keychain::SensitiveData>,
    password: &Option<String>,
    key_passphrase: &Option<String>,
) -> (r: bool)
    ensures
        r == ((password is Some || key_passphrase is Some) && (match existing {
            Some(e) => !(e.model() == (opt_view(*password), opt_view(*key_passphrase))),
            None => true,
        })),
{
    if password.is_none() && key_passphrase.is_none() {
        return false;
    }
    match existing {
        Some(e) => credentials_changed(e, password, key_passphrase),
        None => true,
    }
}

} // verus!
