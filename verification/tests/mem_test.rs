//! In-memory store tests.

use state_manager::db::{DatabaseService, MemoryDB, Store};

#[test]
fn mem_db_open() {
    let mut db = MemoryDB::default();
    db.open().unwrap();
    // Calling open on opened db should not error
    db.open().unwrap();
}

#[test]
fn mem_db_write() {
    let mut db = MemoryDB::default();
    let key = [1];
    let value = [1];
    db.write(&key, &value).unwrap();
}

#[test]
fn mem_db_read() {
    let mut db = MemoryDB::default();
    let key = [0];
    let value = [1];
    db.write(&key, &value).unwrap();
    let res = db.read(&key).unwrap().unwrap();
    assert_eq!(value.to_vec(), res);
}

#[test]
fn mem_db_exists() {
    let mut db = MemoryDB::default();
    let key = [0];
    let value = [1];
    db.write(&key, &value).unwrap();
    let res = db.key_exists(&key).unwrap();
    assert_eq!(res, true);
}

#[test]
fn mem_db_does_not_exist() {
    let db = MemoryDB::default();
    let key = [0];
    let res = db.key_exists(&key).unwrap();
    assert_eq!(res, false);
}

#[test]
fn mem_db_delete() {
    let mut db = MemoryDB::default();
    let key = [0];
    let value = [1];
    db.write(&key, &value).unwrap();
    let res = db.key_exists(&key).unwrap();
    assert_eq!(res, true);
    db.delete(&key).unwrap();
    let res = db.key_exists(&key).unwrap();
    assert_eq!(res, false);
}

#[test]
fn mem_db_overwrite() {
    let mut db = MemoryDB::default();
    let key = [0];
    db.write(&key, &[1]).unwrap();
    db.write(&key, &[2]).unwrap();
    assert_eq!(db.read(&key).unwrap().unwrap(), vec![2]);
}

#[test]
fn mem_db_bulk_write() {
    let mut db = MemoryDB::default();
    let keys = vec![vec![0], vec![1], vec![2]];
    let values = vec![vec![0], vec![1], vec![2]];
    db.bulk_write(&keys, &values).unwrap();
    for k in keys.iter() {
        let res = db.key_exists(k).unwrap();
        assert_eq!(res, true);
    }
}

#[test]
fn mem_db_bulk_read() {
    let mut db = MemoryDB::default();
    let keys = vec![vec![0], vec![1], vec![2]];
    let values = vec![vec![0], vec![1], vec![2]];
    db.bulk_write(&keys, &values).unwrap();
    let results = db.bulk_read(&keys).unwrap();
    for (result, value) in results.iter().zip(values.iter()) {
        match result {
            Some(v) => assert_eq!(v, value),
            None => panic!("No values found!"),
        }
    }
}

#[test]
fn mem_db_bulk_delete() {
    let mut db = MemoryDB::default();
    let keys = vec![vec![0], vec![1], vec![2]];
    let values = vec![vec![0], vec![1], vec![2]];
    db.bulk_write(&keys, &values).unwrap();
    db.bulk_delete(&keys).unwrap();
    for k in keys.iter() {
        let res = db.key_exists(k).unwrap();
        assert_eq!(res, false);
    }
}
