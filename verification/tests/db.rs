use coding_plan_manager::db::{
    add_binding_usage, aggregator_stats, clear_messages, create_aggregator, create_plan,
    delete_aggregator, delete_plan, delete_setting, get_message, get_plan, get_setting, global_stats,
    init_db, insert_message, list_bindings, list_messages, migrate, migration_statements, plan_stats,
    reset_binding_usage,
    reset_trip, set_aggregator_plans, set_setting, stats_by_model, stats_daily, stats_hourly,
    toggle_trip_pause, trip_stats, update_plan, NewMessage, SETTING_TRIP_PAUSED_AT, SETTING_TRIP_PAUSES,
    SETTING_TRIP_STARTED_AT, STRATEGY_THRESHOLD_ROTATION,
};
use coding_plan_manager::sqlite::Db;

fn mem() -> Db {
    init_db(":memory:").unwrap()
}

fn set_last_created_at(conn: &Db, created: &str) {
    conn.connection().execute("UPDATE messages SET created_at=?1 WHERE id=(SELECT MAX(id) FROM messages)", [created])
        .unwrap();
}

#[test]
fn plan_crud() {
    let mut conn = mem();
    let p = create_plan(&mut conn, "p1", "https://a.example", "tok1", "r", &[]).unwrap();
    assert!(p.enabled);
    let got = get_plan(&mut conn, p.id).unwrap().unwrap();
    assert_eq!(got.name, "p1");
    update_plan(&mut conn, p.id, "p1x", "https://b.example", "tok2", "r2", false, &[]).unwrap();
    let got = get_plan(&mut conn, p.id).unwrap().unwrap();
    assert_eq!(got.name, "p1x");
    assert!(!got.enabled);
    assert_eq!(delete_plan(&mut conn, p.id).unwrap(), 1);
    assert!(get_plan(&mut conn, p.id).unwrap().is_none());
}

#[test]
fn bindings_and_reset() {
    let mut conn = mem();
    let p1 = create_plan(&mut conn, "p1", "https://a", "t1", "", &[]).unwrap();
    let p2 = create_plan(&mut conn, "p2", "https://b", "t2", "", &[]).unwrap();
    let agg = create_aggregator(&mut conn, "g1", 8300, "cpm-x", 100, STRATEGY_THRESHOLD_ROTATION).unwrap();
    set_aggregator_plans(&mut conn, agg.id, &[p1.id, p2.id]).unwrap();

    let bs = list_bindings(&mut conn, agg.id).unwrap();
    assert_eq!(bs.len(), 2);
    assert_eq!(bs[0].plan.id, p1.id);
    assert_eq!(bs[0].used_tokens, 0);

    add_binding_usage(&mut conn, bs[0].binding_id, 40).unwrap();
    add_binding_usage(&mut conn, bs[0].binding_id, 10).unwrap();
    let bs = list_bindings(&mut conn, agg.id).unwrap();
    assert_eq!(bs[0].used_tokens, 50);

    set_aggregator_plans(&mut conn, agg.id, &[p2.id, p1.id]).unwrap();
    let bs = list_bindings(&mut conn, agg.id).unwrap();
    assert_eq!(bs[0].plan.id, p2.id);
    assert_eq!(bs[1].used_tokens, 50);

    reset_binding_usage(&mut conn, agg.id).unwrap();
    let bs = list_bindings(&mut conn, agg.id).unwrap();
    assert!(bs.iter().all(|b| b.used_tokens == 0));
}

fn message(aggregator_id: i64, plan_id: Option<i64>, path: String, model: &str, total: i64) -> NewMessage {
    NewMessage {
        aggregator_id,
        plan_id,
        method: "POST".into(),
        path,
        status: 200,
        request_body: "req".into(),
        response_body: "resp".into(),
        model: model.into(),
        prompt_tokens: 10,
        completion_tokens: 5,
        cache_read_tokens: 40,
        cache_creation_tokens: 20,
        total_tokens: total,
        duration_ms: 3,
    }
}

#[test]
fn messages_paging_and_stats() {
    let mut conn = mem();
    let p1 = create_plan(&mut conn, "p1", "https://a", "t1", "", &[]).unwrap();
    let agg = create_aggregator(&mut conn, "g1", 8300, "cpm-x", 100, STRATEGY_THRESHOLD_ROTATION).unwrap();
    for i in 0..5 {
        insert_message(&mut conn, &message(agg.id, Some(p1.id), format!("/v1/messages/{i}"), "sonnet-5", 75)).unwrap();
    }
    let (total, items) = list_messages(&mut conn, Some(agg.id), 3, 0).unwrap();
    assert_eq!(total, 5);
    assert_eq!(items.len(), 3);
    assert_eq!(items[0].path, "/v1/messages/4");
    assert_eq!(items[0].aggregator_name.as_deref(), Some("g1"));
    assert_eq!(items[0].plan_name.as_deref(), Some("p1"));

    let s = aggregator_stats(&mut conn, agg.id).unwrap();
    assert_eq!(s.requests, 5);
    assert_eq!(s.total_tokens, 375);
    assert_eq!(s.cache_read_tokens, 200);
    assert_eq!(s.cache_creation_tokens, 100);
    let s = plan_stats(&mut conn, p1.id).unwrap();
    assert_eq!(s.total_tokens, 375);
    let s = global_stats(&mut conn).unwrap();
    assert_eq!(s.total_tokens, 375);

    assert_eq!(clear_messages(&mut conn, Some(agg.id)).unwrap(), 5);
    assert_eq!(global_stats(&mut conn).unwrap().requests, 0);
}

#[test]
fn message_round_trip_and_listing_of_all() {
    let mut conn = mem();
    let agg = create_aggregator(&mut conn, "g1", 8300, "cpm-x", 100, STRATEGY_THRESHOLD_ROTATION).unwrap();
    let id = insert_message(&mut conn, &message(agg.id, None, "/p".into(), "m", 9)).unwrap();
    let m = get_message(&mut conn, id).unwrap().unwrap();
    assert_eq!((m.id, m.aggregator_id, m.plan_id, m.total_tokens), (id, agg.id, None, 9));
    assert_eq!((m.request_body.as_str(), m.response_body.as_str()), ("req", "resp"));
    assert_eq!(m.plan_name, None);
    assert!(get_message(&mut conn, id + 1).unwrap().is_none());
    insert_message(&mut conn, &message(agg.id + 1, None, "/q".into(), "m", 1)).unwrap();
    let (total, items) = list_messages(&mut conn, None, 10, 1).unwrap();
    assert_eq!((total, items.len()), (2, 1));
    assert_eq!(items[0].path, "/p");
    assert_eq!(items[0].aggregator_name.as_deref(), Some("g1"));
    assert_eq!(clear_messages(&mut conn, None).unwrap(), 2);
}

fn insert_total(conn: &mut Db, aggregator_id: i64, total: i64) {
    let mut m = message(aggregator_id, None, "/v1/messages".into(), "glm-4.7", total);
    m.request_body = String::new();
    m.response_body = String::new();
    m.prompt_tokens = 0;
    m.completion_tokens = 0;
    m.cache_read_tokens = 0;
    m.cache_creation_tokens = 0;
    m.duration_ms = 1;
    insert_message(conn, &m).unwrap();
}

#[test]
fn trip_meter() {
    let mut conn = mem();
    let agg = create_aggregator(&mut conn, "g1", 8300, "cpm-x", 100, STRATEGY_THRESHOLD_ROTATION).unwrap();
    let insert_at = |conn: &mut Db, total: i64, created: Option<&str>| {
        insert_total(conn, agg.id, total);
        if let Some(c) = created {
            set_last_created_at(conn, c);
        }
    };

    assert_eq!(get_setting(&mut conn, "k").unwrap(), None);
    set_setting(&mut conn, "k", "v1").unwrap();
    set_setting(&mut conn, "k", "v2").unwrap();
    assert_eq!(get_setting(&mut conn, "k").unwrap().as_deref(), Some("v2"));

    insert_at(&mut conn, 100, Some("2001-01-01 00:00:00"));
    insert_at(&mut conn, 50, Some("2020-06-01 12:00:00"));
    let t = trip_stats(&mut conn).unwrap();
    assert!(t.started_at.is_none());
    assert_eq!(t.stats.total_tokens, 150);
    assert_eq!(t.stats.requests, 2);

    let t = reset_trip(&mut conn).unwrap();
    assert!(t.started_at.is_some());
    assert_eq!(t.stats.total_tokens, 0);
    assert_eq!(t.stats.requests, 0);

    insert_at(&mut conn, 30, Some("2001-01-01 00:00:00"));
    insert_at(&mut conn, 70, None);
    let t = trip_stats(&mut conn).unwrap();
    assert_eq!(t.stats.total_tokens, 70);
    assert_eq!(t.stats.requests, 1);

    let g = global_stats(&mut conn).unwrap();
    assert_eq!(g.total_tokens, 250);
    assert_eq!(g.requests, 4);
}

#[test]
fn trip_pause() {
    let mut conn = mem();
    let agg = create_aggregator(&mut conn, "g1", 8301, "cpm-x", 100, STRATEGY_THRESHOLD_ROTATION).unwrap();
    let insert_at = |conn: &mut Db, total: i64, created: &str| {
        insert_total(conn, agg.id, total);
        set_last_created_at(conn, created);
    };

    set_setting(&mut conn, SETTING_TRIP_STARTED_AT, "2020-01-01 00:00:00").unwrap();
    insert_at(&mut conn, 100, "2020-01-01 00:30:00");
    let t = trip_stats(&mut conn).unwrap();
    assert!(!t.paused);
    assert_eq!(t.stats.total_tokens, 100);

    set_setting(&mut conn, SETTING_TRIP_PAUSED_AT, "2020-01-01 01:00:00").unwrap();
    insert_at(&mut conn, 10, "2020-01-01 01:00:00");
    insert_at(&mut conn, 50, "2020-01-01 02:00:00");
    let t = trip_stats(&mut conn).unwrap();
    assert!(t.paused);
    assert_eq!(t.stats.total_tokens, 100);
    assert_eq!(t.stats.requests, 1);

    set_setting(&mut conn, SETTING_TRIP_PAUSES, "[[\"2020-01-01 01:00:00\",\"2020-01-01 03:00:00\"]]").unwrap();
    delete_setting(&mut conn, SETTING_TRIP_PAUSED_AT).unwrap();
    insert_at(&mut conn, 20, "2020-01-01 03:00:00");
    insert_at(&mut conn, 70, "2020-01-01 04:00:00");
    let t = trip_stats(&mut conn).unwrap();
    assert!(!t.paused);
    assert_eq!(t.stats.total_tokens, 190);
    assert_eq!(t.stats.requests, 3);

    let g = global_stats(&mut conn).unwrap();
    assert_eq!(g.total_tokens, 250);
    assert_eq!(g.requests, 5);

    let t = toggle_trip_pause(&mut conn).unwrap();
    assert!(t.paused);
    let t = toggle_trip_pause(&mut conn).unwrap();
    assert!(!t.paused);
    let raw = get_setting(&mut conn, SETTING_TRIP_PAUSES).unwrap().unwrap();
    let pauses: Vec<(String, String)> = serde_json::from_str(&raw).unwrap();
    assert_eq!(pauses.len(), 2, "手工区间 + toggle 闭合区间");

    toggle_trip_pause(&mut conn).unwrap();
    let t = reset_trip(&mut conn).unwrap();
    assert!(!t.paused);
    assert_eq!(t.stats.total_tokens, 0);
    assert!(get_setting(&mut conn, SETTING_TRIP_PAUSED_AT).unwrap().is_none());
    assert!(get_setting(&mut conn, SETTING_TRIP_PAUSES).unwrap().is_none());
}

#[test]
fn damaged_pause_list_counts_no_pause() {
    let mut conn = mem();
    let agg = create_aggregator(&mut conn, "g1", 8300, "cpm-x", 100, STRATEGY_THRESHOLD_ROTATION).unwrap();
    insert_total(&mut conn, agg.id, 5);
    set_setting(&mut conn, SETTING_TRIP_PAUSES, "not json").unwrap();
    assert_eq!(trip_stats(&mut conn).unwrap().stats.total_tokens, 5);
}

#[test]
fn delete_cascades_bindings() {
    let mut conn = mem();
    let p1 = create_plan(&mut conn, "p1", "https://a", "t1", "", &[]).unwrap();
    let p2 = create_plan(&mut conn, "p2", "https://b", "t2", "", &[]).unwrap();
    let agg1 = create_aggregator(&mut conn, "g1", 8300, "cpm-1", 100, STRATEGY_THRESHOLD_ROTATION).unwrap();
    let agg2 = create_aggregator(&mut conn, "g2", 8301, "cpm-2", 100, STRATEGY_THRESHOLD_ROTATION).unwrap();

    set_aggregator_plans(&mut conn, agg1.id, &[p1.id, p2.id]).unwrap();
    set_aggregator_plans(&mut conn, agg2.id, &[p1.id]).unwrap();
    assert_eq!(delete_plan(&mut conn, p1.id).unwrap(), 1);
    assert_eq!(list_bindings(&mut conn, agg1.id).unwrap().len(), 1, "agg1 应只剩 p2");
    assert!(list_bindings(&mut conn, agg2.id).unwrap().is_empty(), "agg2 绑定应全部解除");

    set_aggregator_plans(&mut conn, agg1.id, &[p2.id]).unwrap();
    assert_eq!(delete_aggregator(&mut conn, agg2.id).unwrap(), 1);
    assert!(list_bindings(&mut conn, agg2.id).unwrap().is_empty());
    assert_eq!(list_bindings(&mut conn, agg1.id).unwrap().len(), 1, "agg1 的绑定不应受影响");
}

#[test]
fn grouped_stats_and_migration() {
    let mut conn = mem();
    let p1 = create_plan(&mut conn, "p1", "https://a", "t1", "", &[]).unwrap();
    let agg = create_aggregator(&mut conn, "g1", 8300, "cpm-x", 100, STRATEGY_THRESHOLD_ROTATION).unwrap();
    let insert_at = |conn: &mut Db, model: &str, created: &str, prompt: i64, completion: i64| {
        let mut m = message(agg.id, Some(p1.id), "/v1/messages".into(), model, prompt + completion);
        m.prompt_tokens = prompt;
        m.completion_tokens = completion;
        m.cache_read_tokens = 0;
        m.cache_creation_tokens = 0;
        m.duration_ms = 1;
        insert_message(conn, &m).unwrap();
        set_last_created_at(conn, created);
    };
    let today = chrono::Local::now().format("%Y-%m-%d").to_string();
    insert_at(&mut conn, "glm-4.7", &format!("{today} 09:30:00"), 100, 50);
    insert_at(&mut conn, "glm-4.7", &format!("{today} 21:05:00"), 200, 100);
    insert_at(&mut conn, "sonnet-5", &format!("{today} 14:00:00"), 10, 5);
    insert_at(&mut conn, "glm-4.7", "2001-01-01 08:00:00", 999, 1);

    let days = stats_daily(&mut conn, None, 1).unwrap();
    assert_eq!(days.len(), 1);
    assert_eq!(days[0].key, today);
    assert_eq!(days[0].total_tokens, 100 + 50 + 200 + 100 + 10 + 5);
    assert_eq!(days[0].requests, 3);

    let hours = stats_hourly(&mut conn, None, &today).unwrap();
    assert_eq!(hours.len(), 3);
    assert_eq!(hours[0].key, "09");
    assert_eq!(hours[0].total_tokens, 150);
    assert_eq!(hours[2].key, "21");
    assert_eq!(hours[2].total_tokens, 300);

    let models = stats_by_model(&mut conn, None, None).unwrap();
    assert_eq!(models.len(), 2);
    assert_eq!(models[0].key, "glm-4.7");
    assert_eq!(models[0].total_tokens, 150 + 300 + 1000);
    assert_eq!(models[1].key, "sonnet-5");
    assert_eq!(models[1].requests, 1);

    let models = stats_by_model(&mut conn, None, Some(1)).unwrap();
    assert_eq!(models[0].key, "glm-4.7");
    assert_eq!(models[0].total_tokens, 150 + 300);

    assert!(stats_daily(&mut conn, Some(agg.id + 100), 1).unwrap().is_empty());

    let evil = format!("{today}' OR '1'='1");
    assert!(stats_hourly(&mut conn, None, &evil).unwrap().is_empty());

    let mut old = Db::open(":memory:").unwrap();
    old.connection().execute_batch(
        "CREATE TABLE messages (
            id INTEGER PRIMARY KEY AUTOINCREMENT, aggregator_id INTEGER NOT NULL,
            plan_id INTEGER, method TEXT NOT NULL DEFAULT '', path TEXT NOT NULL DEFAULT '',
            status INTEGER NOT NULL DEFAULT 0, request_body TEXT NOT NULL DEFAULT '',
            response_body TEXT NOT NULL DEFAULT '', prompt_tokens INTEGER NOT NULL DEFAULT 0,
            completion_tokens INTEGER NOT NULL DEFAULT 0, total_tokens INTEGER NOT NULL DEFAULT 0,
            duration_ms INTEGER NOT NULL DEFAULT 0, created_at TEXT NOT NULL);",
    )
    .unwrap();
    migrate(&mut old).unwrap();
    migrate(&mut old).unwrap();
    let mut cols: Vec<String> = Vec::new();
    {
        let mut stmt = old.connection().prepare("SELECT name FROM pragma_table_info('messages')").unwrap();
        let rows = stmt.query_map([], |row| row.get::<_, String>(0)).unwrap();
        for r in rows {
            cols.push(r.unwrap());
        }
    }
    for c in ["model", "cache_read_tokens", "cache_creation_tokens"] {
        assert!(cols.iter().any(|x| x == c), "迁移后应有列 {c}");
    }
    old.connection().execute("INSERT INTO messages (aggregator_id, created_at) VALUES (1, '2026-08-17 10:00:00')", [])
        .unwrap();
    let buckets = stats_by_model(&mut old, None, None).unwrap();
    assert_eq!(buckets[0].key, "");
}

#[test]
fn models_round_trip_through_storage() {
    let mut conn = mem();
    let p = create_plan(&mut conn, "p", "https://a", "t", "", &["a\"b".to_string(), "c".to_string()]).unwrap();
    let got = get_plan(&mut conn, p.id).unwrap().unwrap();
    assert_eq!(got.models, vec!["a\"b".to_string(), "c".to_string()]);
}

#[test]
fn migration_needs_nothing_when_columns_present() {
    let existing = vec!["model".to_string(), "x".to_string()];
    let wanted = vec![("model".to_string(), "ALTER TABLE t ADD COLUMN model TEXT".to_string())];
    assert!(migration_statements(&existing, &wanted).is_empty());
    let missing = vec![
        ("model".to_string(), "ALTER TABLE t ADD COLUMN model TEXT".to_string()),
        ("y".to_string(), "ALTER TABLE t ADD COLUMN y TEXT".to_string()),
    ];
    assert_eq!(migration_statements(&existing, &missing), vec!["ALTER TABLE t ADD COLUMN y TEXT".to_string()]);
}
