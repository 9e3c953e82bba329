use smart_pointers::shared_cell::SharedMutableCell;
use smart_pointers::smart_pointer_rc::best_avenger;
use smart_pointers::smart_pointer_rc::multiple_dbs;
use smart_pointers::smart_pointer_rc::strongest_avenger;
use smart_pointers::smart_pointer_rc::test_rc;
use smart_pointers::smart_pointer_rc::Db;

#[test]
fn db_holds_every_avenger() {
    let db = Db::new();
    assert_eq!(db.get("tony stark"), 1);
    assert_eq!(db.get("steve rogers"), 2);
    assert_eq!(db.get("natasha romanoff"), 3);
    assert_eq!(db.get("bruce banner"), 4);
    assert_eq!(db.get("bart clinton"), 5);
    assert_eq!(db.get("thor"), 6);
}

#[test]
fn db_misses_fall_back_to_zero() {
    let db = Db::new();
    assert_eq!(db.get("loki"), 0);
    assert_eq!(db.get(""), 0);
    assert_eq!(db.get("thor "), 0);
}

#[test]
fn shared_db_scenario() {
    // One table, cloned into two independent read paths; each temporary
    // clone is given back inside its path, so the count afterwards
    // equals the count before.
    let (mut cell, db) = SharedMutableCell::create(Db::new());
    let clone_b = cell.clone_handle(&db);
    assert_eq!(cell.strong_count(), 2);

    let arg = cell.clone_handle(&db);
    assert_eq!(cell.strong_count(), 3);
    let strongest = strongest_avenger(&mut cell, arg);
    assert_eq!(cell.strong_count(), 2);

    let arg = cell.clone_handle(&db);
    assert_eq!(cell.strong_count(), 3);
    let best = best_avenger(&mut cell, arg);
    assert_eq!(cell.strong_count(), 2);

    assert_eq!(strongest, 6);
    assert_eq!(best, 1);

    cell.drop_handle(clone_b);
    cell.drop_handle(db);
    assert_eq!(cell.strong_count(), 0);
    assert!(!cell.is_allocated());
}

#[test]
fn rc_demo_runs() {
    test_rc();
}

#[test]
fn multiple_dbs_demo_runs() {
    multiple_dbs();
}
