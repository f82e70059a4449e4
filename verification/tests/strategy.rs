use coding_plan_manager::db::{self as db_mod, Aggregator};
use coding_plan_manager::strategy::{peek_plan, pick_plan};
use coding_plan_manager::sqlite::Db;

fn setup() -> (Db, Aggregator, i64, i64) {
    let mut conn = db_mod::init_db(":memory:").unwrap();
    let p1 = db_mod::create_plan(&mut conn, "p1", "https://a", "t1", "", &[]).unwrap();
    let p2 = db_mod::create_plan(&mut conn, "p2", "https://b", "t2", "", &[]).unwrap();
    let agg = db_mod::create_aggregator(&mut conn, "g", 8300, "cpm", 100, db_mod::STRATEGY_THRESHOLD_ROTATION).unwrap();
    db_mod::set_aggregator_plans(&mut conn, agg.id, &[p1.id, p2.id]).unwrap();
    (conn, agg, p1.id, p2.id)
}

#[test]
fn picks_first_then_next() {
    let (mut conn, agg, p1, p2) = setup();
    let pick = pick_plan(&mut conn, &agg, "").unwrap().unwrap();
    assert_eq!(pick.plan.id, p1);

    let b = db_mod::list_bindings(&mut conn, agg.id).unwrap().remove(0);
    db_mod::add_binding_usage(&mut conn, b.binding_id, 100).unwrap();
    let pick = pick_plan(&mut conn, &agg, "").unwrap().unwrap();
    assert_eq!(pick.plan.id, p2);

    db_mod::update_plan(&mut conn, p2, "p2", "https://b", "t2", "", false, &[]).unwrap();
    let pick = pick_plan(&mut conn, &agg, "").unwrap().unwrap();
    assert_eq!(pick.plan.id, p1);

    db_mod::update_plan(&mut conn, p1, "p1", "https://a", "t1", "", false, &[]).unwrap();
    assert!(pick_plan(&mut conn, &agg, "").unwrap().is_none());
}

#[test]
fn all_exhausted_resets_and_wraps() {
    let (mut conn, agg, p1, p2) = setup();
    for b in db_mod::list_bindings(&mut conn, agg.id).unwrap() {
        db_mod::add_binding_usage(&mut conn, b.binding_id, 200).unwrap();
    }
    let pick = pick_plan(&mut conn, &agg, "").unwrap().unwrap();
    assert_eq!(pick.plan.id, p1);

    let bs = db_mod::list_bindings(&mut conn, agg.id).unwrap();
    assert!(bs.iter().all(|b| b.used_tokens == 0));
    let _ = p2;
}

#[test]
fn skips_disabled() {
    let (mut conn, agg, p1, p2) = setup();
    db_mod::update_plan(&mut conn, p1, "p1", "https://a", "t1", "", false, &[]).unwrap();
    let pick = pick_plan(&mut conn, &agg, "").unwrap().unwrap();
    assert_eq!(pick.plan.id, p2);
}

#[test]
fn peek_matches_pick_without_side_effects() {
    let (mut conn, agg, p1, p2) = setup();

    assert_eq!(peek_plan(&mut conn, &agg).unwrap(), Some(p1));
    assert_eq!(pick_plan(&mut conn, &agg, "").unwrap().unwrap().plan.id, p1);

    let b = db_mod::list_bindings(&mut conn, agg.id).unwrap().remove(0);
    db_mod::add_binding_usage(&mut conn, b.binding_id, 100).unwrap();
    assert_eq!(peek_plan(&mut conn, &agg).unwrap(), Some(p2));
    db_mod::update_plan(&mut conn, p1, "p1", "https://a", "t1", "", false, &[]).unwrap();
    assert_eq!(peek_plan(&mut conn, &agg).unwrap(), Some(p2));

    db_mod::update_plan(&mut conn, p2, "p2", "https://b", "t2", "", false, &[]).unwrap();
    assert_eq!(peek_plan(&mut conn, &agg).unwrap(), None);
}

#[test]
fn peek_all_exhausted_wraps_without_reset() {
    let (mut conn, agg, p1, _p2) = setup();
    for b in db_mod::list_bindings(&mut conn, agg.id).unwrap() {
        db_mod::add_binding_usage(&mut conn, b.binding_id, 200).unwrap();
    }

    assert_eq!(peek_plan(&mut conn, &agg).unwrap(), Some(p1));
    let bs = db_mod::list_bindings(&mut conn, agg.id).unwrap();
    assert!(bs.iter().all(|b| b.used_tokens > 0), "peek 不应清零用量");

    let pick = pick_plan(&mut conn, &agg, "").unwrap().unwrap();
    assert_eq!(pick.plan.id, p1);
    let bs = db_mod::list_bindings(&mut conn, agg.id).unwrap();
    assert!(bs.iter().all(|b| b.used_tokens == 0));
}

#[test]
fn peek_none_when_no_bindings() {
    let mut conn = db_mod::init_db(":memory:").unwrap();
    let agg = db_mod::create_aggregator(&mut conn, "g", 8300, "cpm", 100, db_mod::STRATEGY_THRESHOLD_ROTATION).unwrap();
    assert_eq!(peek_plan(&mut conn, &agg).unwrap(), None);
}

#[test]
fn threshold_manual_pin_wins_over_rotation() {
    let (mut conn, agg, p1, p2) = setup();
    db_mod::set_current_plan(&mut conn, agg.id, p2).unwrap();
    let agg = fresh(&mut conn, agg.id);
    assert_eq!(pick_plan(&mut conn, &agg, "").unwrap().unwrap().plan.id, p2);
    assert_eq!(peek_plan(&mut conn, &agg).unwrap(), Some(p2));
    assert_eq!(current(&mut conn, agg.id), Some(p2));
    let bs = db_mod::list_bindings(&mut conn, agg.id).unwrap();
    assert!(bs.iter().all(|b| b.used_tokens == 0));
    let _ = p1;
}

#[test]
fn threshold_pin_cleared_when_exhausted() {
    let (mut conn, agg, p1, p2) = setup();
    let b2 = db_mod::list_bindings(&mut conn, agg.id).unwrap().remove(1);
    db_mod::add_binding_usage(&mut conn, b2.binding_id, 100).unwrap();
    db_mod::set_current_plan(&mut conn, agg.id, p2).unwrap();
    let agg = fresh(&mut conn, agg.id);
    assert_eq!(peek_plan(&mut conn, &agg).unwrap(), Some(p1));
    assert_eq!(pick_plan(&mut conn, &agg, "").unwrap().unwrap().plan.id, p1);
    assert_eq!(current(&mut conn, agg.id), None, "失效的指定应被清除");
}

#[test]
fn threshold_pin_cleared_when_disabled_or_unbound() {
    let (mut conn, agg, p1, p2) = setup();
    db_mod::set_current_plan(&mut conn, agg.id, p2).unwrap();
    db_mod::update_plan(&mut conn, p2, "p2", "https://b", "t2", "", false, &[]).unwrap();
    let agg = fresh(&mut conn, agg.id);
    assert_eq!(pick_plan(&mut conn, &agg, "").unwrap().unwrap().plan.id, p1);
    assert_eq!(current(&mut conn, agg.id), None, "禁用的指定计划应被清除");

    db_mod::set_current_plan(&mut conn, agg.id, p2).unwrap();
    db_mod::set_aggregator_plans(&mut conn, agg.id, &[p1]).unwrap();
    let agg = fresh(&mut conn, agg.id);
    assert_eq!(pick_plan(&mut conn, &agg, "").unwrap().unwrap().plan.id, p1);
    assert_eq!(current(&mut conn, agg.id), None);
}

#[test]
fn threshold_pin_exhausted_with_all_wraps() {
    let (mut conn, agg, p1, _p2) = setup();
    for b in db_mod::list_bindings(&mut conn, agg.id).unwrap() {
        db_mod::add_binding_usage(&mut conn, b.binding_id, 200).unwrap();
    }
    db_mod::set_current_plan(&mut conn, agg.id, p1).unwrap();
    let agg = fresh(&mut conn, agg.id);
    let pick = pick_plan(&mut conn, &agg, "").unwrap().unwrap();
    assert_eq!(pick.plan.id, p1);
    assert_eq!(current(&mut conn, agg.id), None, "回绕后应恢复自动轮转");
    let bs = db_mod::list_bindings(&mut conn, agg.id).unwrap();
    assert!(bs.iter().all(|b| b.used_tokens == 0));
}

fn setup_model(models: &[&[&str]]) -> (Db, Aggregator, Vec<i64>) {
    let mut conn = db_mod::init_db(":memory:").unwrap();
    let mut ids = Vec::new();
    for (i, ms) in models.iter().enumerate() {
        let owned: Vec<String> = ms.iter().map(|s| s.to_string()).collect();
        let p = db_mod::create_plan(&mut conn, &format!("p{i}"), "https://a", &format!("t{i}"), "", &owned).unwrap();
        ids.push(p.id);
    }
    let agg = db_mod::create_aggregator(&mut conn, "g", 8300, "cpm", 1_000_000, db_mod::STRATEGY_MODEL_MATCH).unwrap();
    db_mod::set_aggregator_plans(&mut conn, agg.id, &ids).unwrap();
    (conn, agg, ids)
}

fn current(conn: &mut Db, agg_id: i64) -> Option<i64> {
    db_mod::get_aggregator(conn, agg_id).unwrap().unwrap().current_plan_id
}

fn fresh(conn: &mut Db, agg_id: i64) -> Aggregator {
    db_mod::get_aggregator(conn, agg_id).unwrap().unwrap()
}

#[test]
fn model_match_current_in_matches_stays() {
    let (mut conn, agg, ids) = setup_model(&[&["m1"], &["m1"]]);
    db_mod::set_current_plan(&mut conn, agg.id, ids[0]).unwrap();
    let bs = db_mod::list_bindings(&mut conn, agg.id).unwrap();
    db_mod::add_binding_usage(&mut conn, bs[1].binding_id, 500).unwrap();

    let agg = fresh(&mut conn, agg.id);
    let pick = pick_plan(&mut conn, &agg, "m1").unwrap().unwrap();
    assert_eq!(pick.plan.id, ids[0], "当前计划在匹配集中应保持不变");
    assert_eq!(current(&mut conn, agg.id), Some(ids[0]));
}

#[test]
fn model_match_switches_and_persists() {
    let (mut conn, agg, ids) = setup_model(&[&[], &["m2"]]);
    db_mod::set_current_plan(&mut conn, agg.id, ids[0]).unwrap();

    let agg = fresh(&mut conn, agg.id);
    let pick = pick_plan(&mut conn, &agg, "m2").unwrap().unwrap();
    assert_eq!(pick.plan.id, ids[1], "当前不匹配时应切到匹配计划");
    assert_eq!(current(&mut conn, agg.id), Some(ids[1]), "切换应持久化为新当前计划");

    let agg = fresh(&mut conn, agg.id);
    let pick = pick_plan(&mut conn, &agg, "m2").unwrap().unwrap();
    assert_eq!(pick.plan.id, ids[1]);
    assert_eq!(peek_plan(&mut conn, &agg).unwrap(), Some(ids[1]));
}

#[test]
fn model_match_multiple_least_used_wins() {
    let (mut conn, agg, ids) = setup_model(&[&[], &["m1"], &["m1"], &["m1"]]);
    db_mod::set_current_plan(&mut conn, agg.id, ids[0]).unwrap();
    for b in db_mod::list_bindings(&mut conn, agg.id).unwrap() {
        let usage = if b.plan.id == ids[1] { 100 } else { 50 };
        db_mod::add_binding_usage(&mut conn, b.binding_id, usage).unwrap();
    }

    let agg = fresh(&mut conn, agg.id);
    let pick = pick_plan(&mut conn, &agg, "m1").unwrap().unwrap();
    assert_eq!(pick.plan.id, ids[2], "多匹配取用量最少者，同量取先绑定者");
    assert_eq!(current(&mut conn, agg.id), Some(ids[2]));
}

#[test]
fn model_match_no_match_uses_current() {
    let (mut conn, agg, ids) = setup_model(&[&[], &["m2"]]);
    db_mod::set_current_plan(&mut conn, agg.id, ids[1]).unwrap();

    let agg = fresh(&mut conn, agg.id);
    assert_eq!(pick_plan(&mut conn, &agg, "unknown").unwrap().unwrap().plan.id, ids[1]);
    assert_eq!(pick_plan(&mut conn, &agg, "").unwrap().unwrap().plan.id, ids[1]);
    assert_eq!(current(&mut conn, agg.id), Some(ids[1]), "无匹配不应改写当前计划");
}

#[test]
fn model_match_invalid_current_falls_back_to_first_enabled() {
    let (mut conn, agg, ids) = setup_model(&[&["m1"], &[]]);

    let pick = pick_plan(&mut conn, &agg, "").unwrap().unwrap();
    assert_eq!(pick.plan.id, ids[0]);
    assert_eq!(current(&mut conn, agg.id), Some(ids[0]), "回退应固化，避免每请求漂移");

    db_mod::update_plan(&mut conn, ids[0], "p0", "https://a", "t0", "", false, &["m1".into()]).unwrap();
    let agg = fresh(&mut conn, agg.id);
    let pick = pick_plan(&mut conn, &agg, "m1").unwrap().unwrap();
    assert_eq!(pick.plan.id, ids[1]);
    assert_eq!(current(&mut conn, agg.id), Some(ids[1]));
}

#[test]
fn model_match_empty_models_never_match() {
    let (mut conn, agg, ids) = setup_model(&[&[], &["m1"]]);
    db_mod::set_current_plan(&mut conn, agg.id, ids[0]).unwrap();

    let agg = fresh(&mut conn, agg.id);
    assert_eq!(pick_plan(&mut conn, &agg, "m1").unwrap().unwrap().plan.id, ids[1]);

    let agg = fresh(&mut conn, agg.id);
    assert_eq!(pick_plan(&mut conn, &agg, "whatever").unwrap().unwrap().plan.id, ids[1]);
}

#[test]
fn model_match_peek_no_side_effects_and_none() {
    let (mut conn, agg, ids) = setup_model(&[&["m1"], &[]]);
    assert_eq!(peek_plan(&mut conn, &agg).unwrap(), Some(ids[0]));
    assert_eq!(current(&mut conn, agg.id), None, "peek 不应写 current");

    db_mod::set_current_plan(&mut conn, agg.id, ids[1]).unwrap();
    let agg = fresh(&mut conn, agg.id);
    assert_eq!(peek_plan(&mut conn, &agg).unwrap(), Some(ids[1]));

    for id in &ids {
        db_mod::update_plan(&mut conn, *id, "x", "https://a", "t", "", false, &[]).unwrap();
    }
    assert_eq!(peek_plan(&mut conn, &agg).unwrap(), None);
    assert!(pick_plan(&mut conn, &agg, "m1").unwrap().is_none());
}
