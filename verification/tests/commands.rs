use coding_plan_manager::commands::aggregators::{current_plan_check, update_decision};
use coding_plan_manager::db::{Aggregator, BindingWithPlan, CodingPlan};
use std::collections::HashSet;

use coding_plan_manager::commands::aggregators::{
    create_aggregator, dedup_keep_order, find_free_port, resolve_create_port, resolve_strategy,
    set_aggregator_plans, set_current_plan, update_aggregator,
};
use coding_plan_manager::commands::messages::{list_messages, paging};
use coding_plan_manager::commands::plans::{check_plan_input, create_plan, delete_plan, update_plan};
use coding_plan_manager::db;

fn taken(ports: &[i64]) -> HashSet<i64> {
    ports.iter().copied().collect()
}

fn never_probed(_: i64) -> bool {
    panic!("the bind test must not run here")
}

#[test]
fn explicit_port_range_and_uniqueness() {
    let t = taken(&[8300, 8301]);
    assert_eq!(resolve_create_port(Some(9000), &t, never_probed), Ok(9000));
    let err = resolve_create_port(Some(8300), &t, never_probed).unwrap_err();
    assert!(err.contains("已被其他聚合器使用"), "冲突端口应报错: {err}");
    let err = resolve_create_port(Some(0), &t, never_probed).unwrap_err();
    assert!(err.contains("1-65535"), "越界端口应报错: {err}");
    let err = resolve_create_port(Some(70000), &t, never_probed).unwrap_err();
    assert!(err.contains("1-65535"), "越界端口应报错: {err}");
}

#[test]
fn auto_assign_skips_taken_without_binding() {
    let t: HashSet<i64> = (8300..=8399).collect();
    let err = resolve_create_port(None, &t, never_probed).unwrap_err();
    assert!(err.contains("没有可用端口"), "全部占用应报错: {err}");
}

#[test]
fn strategy_resolution() {
    assert_eq!(resolve_strategy(None).unwrap(), db::STRATEGY_THRESHOLD_ROTATION);
    assert_eq!(resolve_strategy(Some("")).unwrap(), db::STRATEGY_THRESHOLD_ROTATION);
    assert_eq!(resolve_strategy(Some("model_match")).unwrap(), db::STRATEGY_MODEL_MATCH);
    let err = resolve_strategy(Some("random")).unwrap_err();
    assert!(err.contains("未知的路由策略"), "未知策略应报错: {err}");
}

#[test]
fn strategy_resolution_trims_and_reports_the_name() {
    assert_eq!(resolve_strategy(Some("  model_match \n")).unwrap(), "model_match");
    assert_eq!(resolve_strategy(Some("   ")).unwrap(), "threshold_rotation");
    assert_eq!(resolve_strategy(Some(" random ")).unwrap_err(), "未知的路由策略：random");
}

#[test]
fn port_messages_are_exact() {
    let t = taken(&[8300]);
    assert_eq!(resolve_create_port(Some(8300), &t, never_probed).unwrap_err(), "端口 8300 已被其他聚合器使用");
    assert_eq!(resolve_create_port(Some(-5), &t, never_probed).unwrap_err(), "端口必须在 1-65535 之间");
    assert_eq!(resolve_create_port(Some(65535), &t, never_probed), Ok(65535));
    assert_eq!(resolve_create_port(Some(1), &t, never_probed), Ok(1));
}

#[test]
fn auto_port_skips_taken_and_unbindable_ports() {
    let t = taken(&[8300, 8302]);
    // 8301 cannot be bound, 8303 can.
    let got = resolve_create_port(None, &t, |p| {
        assert!(p != 8300 && p != 8302, "a taken port must not be probed");
        p >= 8303
    });
    assert_eq!(got, Ok(8303));
    assert_eq!(find_free_port(&t, |_| true), Some(8301));
    assert_eq!(find_free_port(&t, |_| false), None);
    assert_eq!(
        resolve_create_port(None, &HashSet::new(), |_| false).unwrap_err(),
        "8300-8399 范围内没有可用端口"
    );
}

#[test]
fn dedup_keeps_first_occurrences_in_order() {
    assert_eq!(dedup_keep_order(vec![3, 1, 3, 2, 1, 4]), vec![3, 1, 2, 4]);
    assert_eq!(dedup_keep_order(vec![]), Vec::<i64>::new());
    assert_eq!(dedup_keep_order(vec![7, 7, 7]), vec![7]);
}

#[test]
fn plan_input_checks_in_order() {
    assert_eq!(check_plan_input("  ", "ftp://x", "", true).unwrap_err(), "计划名称不能为空");
    assert_eq!(
        check_plan_input("p", "ftp://x", "", true).unwrap_err(),
        "BASE_URL 必须以 http:// 或 https:// 开头"
    );
    assert_eq!(check_plan_input("p", " https://x ", "  ", true).unwrap_err(), "AUTH_TOKEN 不能为空");
    let (n, b, t) = check_plan_input(" p ", " http://x ", "", false).unwrap();
    assert_eq!((n.as_str(), b.as_str(), t.as_str()), ("p", "http://x", ""));
}

#[test]
fn paging_defaults_and_clamps() {
    assert_eq!(paging(None, None), (1, 20, 0));
    assert_eq!(paging(Some(0), Some(0)), (1, 1, 0));
    assert_eq!(paging(Some(3), Some(500)), (3, 200, 400));
    assert_eq!(paging(Some(-7), Some(50)), (1, 50, 0));
}

#[test]
fn aggregator_commands_on_a_database() {
    let mut conn = db::init_db(":memory:").unwrap();
    assert_eq!(
        create_aggregator(&mut conn, "  ".into(), None, None, None, never_probed).err().unwrap(),
        "聚合器名称不能为空"
    );
    assert_eq!(
        create_aggregator(&mut conn, "g".into(), Some(9000), None, Some("x".into()), never_probed).err().unwrap(),
        "未知的路由策略：x"
    );
    let v = create_aggregator(&mut conn, " g ".into(), Some(9000), Some(0), None, never_probed).unwrap();
    assert_eq!(v.aggregator.name, "g");
    assert_eq!(v.aggregator.port, 9000);
    assert_eq!(v.aggregator.token_threshold, 1);
    assert_eq!(v.aggregator.strategy, "threshold_rotation");
    assert!(v.aggregator.auth_token.starts_with("cpm-"));
    assert_eq!(v.base_url, "http://127.0.0.1:9000");
    assert!(!v.running);
    assert_eq!(v.current_plan_id, None);
    let err = create_aggregator(&mut conn, "h".into(), Some(9000), None, None, never_probed).err().unwrap();
    assert_eq!(err, "端口 9000 已被其他聚合器使用");
    let auto = create_aggregator(&mut conn, "h".into(), None, None, Some("model_match".into()), |p| p == 8305).unwrap();
    assert_eq!(auto.aggregator.port, 8305);
    assert_eq!(auto.aggregator.token_threshold, 1_000_000);

    let id = v.aggregator.id;
    assert_eq!(update_aggregator(&mut conn, id, "g".into(), 0, 1, None, false).err().unwrap(), "端口必须在 1-65535 之间");
    assert_eq!(update_aggregator(&mut conn, id, "g".into(), 9000, 0, None, false).err().unwrap(), "token 阈值必须大于 0");
    assert_eq!(
        update_aggregator(&mut conn, id, "g".into(), 9001, 5, None, true).err().unwrap(),
        "服务运行中不能修改端口，请先停止服务"
    );
    assert_eq!(
        update_aggregator(&mut conn, id, "g".into(), 8305, 5, None, false).err().unwrap(),
        "端口 8305 已被其他聚合器使用"
    );
    assert_eq!(update_aggregator(&mut conn, id + 100, "g".into(), 1234, 5, None, false).err().unwrap(), "聚合器不存在");
    let u = update_aggregator(&mut conn, id, "g2".into(), 9001, 5, Some("model_match".into()), false).unwrap();
    assert_eq!(u.aggregator.name, "g2");
    assert_eq!(u.aggregator.port, 9001);
    assert_eq!(u.aggregator.strategy, "model_match");

    let p = create_plan(&mut conn, "p".into(), "https://a".into(), "t".into(), None, None).unwrap();
    assert_eq!(
        set_aggregator_plans(&mut conn, id, vec![p.id, 999], false).err().unwrap(),
        "计划 999 不存在"
    );
    let v = set_aggregator_plans(&mut conn, id, vec![p.id, p.id], true).unwrap();
    assert!(v.running);
    assert_eq!(v.bindings.len(), 1);
    assert_eq!(v.bindings[0].token_threshold, 5);
    assert_eq!(
        set_current_plan(&mut conn, id, Some(999), false).err().unwrap(),
        "计划 999 未绑定到该聚合器"
    );
    let v = set_current_plan(&mut conn, id, Some(p.id), false).unwrap();
    assert_eq!(v.manual_current_plan_id, Some(p.id));
    assert_eq!(v.current_plan_id, Some(p.id));
    update_plan(&mut conn, p.id, "p".into(), "https://a".into(), "t".into(), None, Some(false), None).unwrap();
    assert_eq!(
        set_current_plan(&mut conn, id, Some(p.id), false).err().unwrap(),
        "该计划已禁用，不能设为当前计划"
    );
    assert_eq!(delete_plan(&mut conn, p.id + 50).unwrap_err(), "计划不存在");
}

#[test]
fn message_listing_command() {
    let mut conn = db::init_db(":memory:").unwrap();
    let page = list_messages(&mut conn, None, Some(2), Some(10)).unwrap();
    assert_eq!((page.total, page.page, page.page_size, page.items.len()), (0, 2, 10, 0));
}

#[test]
fn update_and_current_plan_decisions() {
    let agg = |id: i64, port: i64, strategy: &str| Aggregator {
        id,
        name: "g".into(),
        port,
        auth_token: "t".into(),
        strategy: strategy.into(),
        token_threshold: 1,
        current_plan_id: None,
        created_at: String::new(),
    };
    let old = agg(1, 9000, "threshold_rotation");
    let all = vec![agg(1, 9000, "threshold_rotation"), agg(2, 9100, "model_match")];
    assert_eq!(update_decision(&old, &all, 1, 9001, true, &"threshold_rotation".into()).unwrap_err(), "服务运行中不能修改端口，请先停止服务");
    assert_eq!(update_decision(&old, &all, 1, 9100, false, &"threshold_rotation".into()).unwrap_err(), "端口 9100 已被其他聚合器使用");
    assert_eq!(update_decision(&old, &all, 1, 9000, true, &"threshold_rotation".into()), Ok(false));
    assert_eq!(update_decision(&old, &all, 1, 9000, false, &"model_match".into()), Ok(true));

    let binding = |pid: i64, enabled: bool| BindingWithPlan {
        binding_id: pid,
        position: 0,
        used_tokens: 0,
        plan: CodingPlan {
            id: pid,
            name: "p".into(),
            base_url: "https://a".into(),
            auth_token: "t".into(),
            remark: String::new(),
            enabled,
            models: vec![],
            created_at: String::new(),
        },
    };
    let bs = vec![binding(1, true), binding(2, false)];
    assert_eq!(current_plan_check(&bs, 1), Ok(()));
    assert_eq!(current_plan_check(&bs, 2).unwrap_err(), "该计划已禁用，不能设为当前计划");
    assert_eq!(current_plan_check(&bs, 3).unwrap_err(), "计划 3 未绑定到该聚合器");
}
