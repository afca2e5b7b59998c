use object_loader::content_store;
use object_loader::keys::{ObjectId, ObjectKey, VersionedObjectKey};
use object_loader::loaded::LoadStep;
use object_loader::metadata_store;
use object_loader::metadata_store::{RowFilter, RowIndex};
use object_loader::records::{Data, MoveObject, Object, OwnerKind, StoredObject};

fn id(tag: u8) -> ObjectId {
    let mut bytes = [0u8; 32];
    bytes[0] = tag;
    bytes[31] = tag.wrapping_mul(3);
    ObjectId::new(bytes)
}

fn row(tag: u8, version: i64, locator: &[u8]) -> StoredObject {
    StoredObject {
        object_id: id(tag).into_bytes(),
        object_version: version,
        content_locator: Some(locator.to_vec()),
    }
}

fn object(tag: u8, version: u64, contents: &[u8]) -> Object {
    Object {
        id: id(tag),
        version,
        owner: Some(OwnerKind::Address),
        data: Data::Move(MoveObject { type_tag: String::from("0x2::coin::Coin"), contents: contents.to_vec() }),
    }
}

#[test]
fn metadata_load_of_no_keys_needs_no_round_trip() {
    match metadata_store::begin_load(&[]) {
        LoadStep::Finished(loaded) => {
            assert_eq!(loaded.len(), 0);
            assert!(loaded.is_empty());
        }
        LoadStep::RoundTrip(_) => panic!("an empty batch must not reach the backend"),
    }
}

#[test]
fn content_load_of_no_keys_needs_no_round_trip() {
    match content_store::begin_load(&[]) {
        LoadStep::Finished(loaded) => {
            assert_eq!(loaded.len(), 0);
            assert!(loaded.is_empty());
        }
        LoadStep::RoundTrip(_) => panic!("an empty batch must not reach the backend"),
    }
}

#[test]
fn metadata_load_asks_once_for_every_key() {
    for count in [1usize, 2, 7, 50] {
        let keys: Vec<VersionedObjectKey> =
            (0..count).map(|i| VersionedObjectKey(id(i as u8), i as u64 + 1)).collect();
        match metadata_store::begin_load(&keys) {
            LoadStep::RoundTrip(filters) => {
                assert_eq!(filters.len(), count);
                for (filter, key) in filters.iter().zip(keys.iter()) {
                    assert_eq!(filter.object_id, key.0.into_bytes());
                    assert_eq!(filter.object_version, key.1 as i64);
                }
            }
            LoadStep::Finished(_) => panic!("a batch with keys needs its round trip"),
        }
    }
}

#[test]
fn metadata_query_spells_versions_as_the_signed_column_does() {
    let keys = [
        VersionedObjectKey(id(1), 0),
        VersionedObjectKey(id(1), 3),
        VersionedObjectKey(id(1), i64::MAX as u64),
        VersionedObjectKey(id(1), i64::MAX as u64 + 1),
        VersionedObjectKey(id(1), u64::MAX),
    ];
    let filters = match metadata_store::begin_load(&keys) {
        LoadStep::RoundTrip(filters) => filters,
        LoadStep::Finished(_) => panic!("a batch with keys needs its round trip"),
    };
    let versions: Vec<i64> = filters.iter().map(|f| f.object_version).collect();
    assert_eq!(versions, vec![0, 3, i64::MAX, i64::MIN, -1]);
    assert_eq!(
        filters[1],
        RowFilter { object_id: id(1).into_bytes(), object_version: 3 }
    );
}

#[test]
fn content_load_asks_once_for_every_key() {
    let keys = [
        VersionedObjectKey(id(1), 1),
        VersionedObjectKey(id(1), 3),
        VersionedObjectKey(id(2), u64::MAX),
    ];
    match content_store::begin_load(&keys) {
        LoadStep::RoundTrip(lookups) => {
            assert_eq!(
                lookups,
                vec![ObjectKey(id(1), 1), ObjectKey(id(1), 3), ObjectKey(id(2), u64::MAX)]
            );
        }
        LoadStep::Finished(_) => panic!("a batch with keys needs its round trip"),
    }
}

#[test]
fn metadata_batch_of_five_with_shared_id_and_one_absent() {
    let keys = [
        VersionedObjectKey(id(1), 1),
        VersionedObjectKey(id(1), 3),
        VersionedObjectKey(id(2), 7),
        VersionedObjectKey(id(3), 2),
        VersionedObjectKey(id(4), 9),
    ];
    // The store answers in an order of its own, and knows nothing of the
    // fourth identifier.
    let rows = vec![
        row(3, 2, b"c2"),
        row(1, 3, b"a3"),
        row(2, 7, b"b7"),
        row(1, 1, b"a1"),
    ];
    let loaded = metadata_store::finish_load::<String>(&keys, Ok(rows)).unwrap();
    assert_eq!(loaded.len(), 4);
    assert_eq!(loaded.get(&keys[0]), Some(&row(1, 1, b"a1")));
    assert_eq!(loaded.get(&keys[1]), Some(&row(1, 3, b"a3")));
    assert_eq!(loaded.get(&keys[2]), Some(&row(2, 7, b"b7")));
    assert_eq!(loaded.get(&keys[3]), Some(&row(3, 2, b"c2")));
    assert_eq!(loaded.get(&keys[4]), None);
    assert!(!loaded.contains_key(&keys[4]));
}

#[test]
fn content_batch_of_five_with_shared_id_and_one_absent() {
    let keys = [
        VersionedObjectKey(id(1), 1),
        VersionedObjectKey(id(1), 3),
        VersionedObjectKey(id(2), 7),
        VersionedObjectKey(id(3), 2),
        VersionedObjectKey(id(4), 9),
    ];
    let objects = vec![
        object(2, 7, b"B7"),
        object(1, 3, b"A3"),
        object(3, 2, b"C2"),
        object(1, 1, b"A1"),
    ];
    let loaded = content_store::finish_load::<String>(&keys, Ok(objects)).unwrap();
    assert_eq!(loaded.len(), 4);
    assert_eq!(loaded.get(&keys[0]), Some(&object(1, 1, b"A1")));
    assert_eq!(loaded.get(&keys[1]), Some(&object(1, 3, b"A3")));
    assert_eq!(loaded.get(&keys[2]), Some(&object(2, 7, b"B7")));
    assert_eq!(loaded.get(&keys[3]), Some(&object(3, 2, b"C2")));
    assert_eq!(loaded.get(&keys[4]), None);
}

#[test]
fn metadata_load_omits_every_key_when_no_row_comes_back() {
    let keys = [VersionedObjectKey(id(1), 1), VersionedObjectKey(id(2), 2)];
    let loaded = metadata_store::finish_load::<String>(&keys, Ok(Vec::new())).unwrap();
    assert_eq!(loaded.len(), 0);
    assert_eq!(loaded.get(&keys[0]), None);
    assert_eq!(loaded.get(&keys[1]), None);
}

#[test]
fn content_load_omits_every_key_when_no_object_comes_back() {
    let keys = [VersionedObjectKey(id(1), 1), VersionedObjectKey(id(2), 2)];
    let loaded = content_store::finish_load::<String>(&keys, Ok(Vec::new())).unwrap();
    assert_eq!(loaded.len(), 0);
    assert_eq!(loaded.get(&keys[0]), None);
}

#[test]
fn metadata_load_needs_identifier_and_version_to_agree() {
    let keys = [VersionedObjectKey(id(1), 2)];
    let rows = vec![row(1, 1, b"older"), row(2, 2, b"other id"), row(1, 3, b"newer")];
    let loaded = metadata_store::match_rows(&keys, &rows);
    assert_eq!(loaded.len(), 0);
}

#[test]
fn metadata_load_keeps_the_last_of_rows_with_one_pair() {
    let keys = [VersionedObjectKey(id(1), 2), VersionedObjectKey(id(2), 5)];
    let rows = vec![
        row(1, 2, b"first"),
        row(2, 5, b"only"),
        row(1, 2, b"second"),
        row(1, 2, b"third"),
    ];
    let loaded = metadata_store::match_rows(&keys, &rows);
    assert_eq!(loaded.len(), 2);
    assert_eq!(loaded.get(&keys[0]), Some(&row(1, 2, b"third")));
    assert_eq!(loaded.get(&keys[1]), Some(&row(2, 5, b"only")));
}

#[test]
fn content_load_keeps_the_last_of_objects_with_one_identity() {
    let keys = [VersionedObjectKey(id(1), 2)];
    let objects = vec![object(1, 2, b"first"), object(1, 2, b"second")];
    let loaded = content_store::file_objects(&keys, objects);
    assert_eq!(loaded.len(), 1);
    assert_eq!(loaded.get(&keys[0]), Some(&object(1, 2, b"second")));
}

#[test]
fn metadata_load_leaves_out_rows_that_no_key_asked_for() {
    let keys = [VersionedObjectKey(id(1), 2)];
    let rows = vec![row(9, 9, b"stray"), row(1, 2, b"wanted")];
    let loaded = metadata_store::match_rows(&keys, &rows);
    assert_eq!(loaded.len(), 1);
    assert_eq!(loaded.get(&VersionedObjectKey(id(9), 9)), None);
    assert_eq!(loaded.get(&keys[0]), Some(&row(1, 2, b"wanted")));
}

#[test]
fn content_load_leaves_out_objects_that_no_key_asked_for() {
    let keys = [VersionedObjectKey(id(1), 2)];
    let objects = vec![object(9, 9, b"stray"), object(1, 2, b"wanted"), object(1, 3, b"stray")];
    let loaded = content_store::file_objects(&keys, objects);
    assert_eq!(loaded.len(), 1);
    assert_eq!(loaded.get(&VersionedObjectKey(id(9), 9)), None);
    assert_eq!(loaded.get(&VersionedObjectKey(id(1), 3)), None);
    assert_eq!(loaded.get(&keys[0]), Some(&object(1, 2, b"wanted")));
}

#[test]
fn content_load_files_by_the_objects_own_identity_not_by_position() {
    let keys = [VersionedObjectKey(id(1), 1), VersionedObjectKey(id(2), 1)];
    // Answers in the opposite order of the keys.
    let objects = vec![object(2, 1, b"two"), object(1, 1, b"one")];
    let loaded = content_store::file_objects(&keys, objects);
    assert_eq!(loaded.get(&keys[0]), Some(&object(1, 1, b"one")));
    assert_eq!(loaded.get(&keys[1]), Some(&object(2, 1, b"two")));
}

#[test]
fn metadata_load_matches_versions_beyond_the_signed_range() {
    let keys = [
        VersionedObjectKey(id(1), u64::MAX),
        VersionedObjectKey(id(1), i64::MAX as u64 + 1),
        VersionedObjectKey(id(1), 1),
    ];
    let rows = vec![row(1, -1, b"max"), row(1, i64::MIN, b"half")];
    let loaded = metadata_store::match_rows(&keys, &rows);
    assert_eq!(loaded.len(), 2);
    assert_eq!(loaded.get(&keys[0]), Some(&row(1, -1, b"max")));
    assert_eq!(loaded.get(&keys[1]), Some(&row(1, i64::MIN, b"half")));
    assert_eq!(loaded.get(&keys[2]), None);
}

#[test]
fn metadata_load_ignores_rows_whose_identifier_has_another_length() {
    let keys = [VersionedObjectKey(id(1), 1)];
    let mut short = row(1, 1, b"short");
    short.object_id.truncate(31);
    let mut long = row(1, 1, b"long");
    long.object_id.push(0);
    let loaded = metadata_store::match_rows(&keys, &vec![short, long]);
    assert_eq!(loaded.len(), 0);
}

#[test]
fn metadata_load_with_a_repeated_key_holds_it_once() {
    let keys = [
        VersionedObjectKey(id(1), 1),
        VersionedObjectKey(id(1), 1),
        VersionedObjectKey(id(2), 1),
    ];
    let rows = vec![row(2, 1, b"two"), row(1, 1, b"one")];
    let loaded = metadata_store::match_rows(&keys, &rows);
    assert_eq!(loaded.len(), 2);
    assert_eq!(loaded.get(&keys[0]), Some(&row(1, 1, b"one")));
}

#[test]
fn metadata_load_copies_the_whole_row() {
    let keys = [VersionedObjectKey(id(5), 8)];
    let without_locator =
        StoredObject { object_id: id(5).into_bytes(), object_version: 8, content_locator: None };
    let loaded = metadata_store::match_rows(&keys, &vec![without_locator.clone()]);
    assert_eq!(loaded.get(&keys[0]), Some(&without_locator));
    assert_eq!(without_locator.duplicate(), without_locator);
    assert_eq!(row(5, 8, b"xyz").duplicate(), row(5, 8, b"xyz"));
    assert_eq!(row(5, -8, b"").version(), (-8i64) as u64);
}

#[test]
fn metadata_load_hands_a_backend_failure_on() {
    let keys = [VersionedObjectKey(id(1), 1)];
    let result = metadata_store::finish_load(&keys, Err(String::from("connection refused")));
    match result {
        Err(failure) => assert_eq!(failure, "connection refused"),
        Ok(_) => panic!("a failed round trip gives no mapping"),
    }
}

#[test]
fn content_load_hands_a_backend_failure_on() {
    let keys = [VersionedObjectKey(id(1), 1)];
    let result = content_store::finish_load(&keys, Err(17u32));
    match result {
        Err(failure) => assert_eq!(failure, 17),
        Ok(_) => panic!("a failed round trip gives no mapping"),
    }
}

#[test]
fn row_index_finds_the_last_row_of_each_pair() {
    let rows = vec![
        row(1, 1, b"a"),
        row(2, 1, b"b"),
        row(1, 1, b"c"),
        row(1, 2, b"d"),
        row(2, 1, b"e"),
    ];
    let index = RowIndex::build(&rows);
    assert_eq!(index.lookup(&rows, &VersionedObjectKey(id(1), 1)), Some(2));
    assert_eq!(index.lookup(&rows, &VersionedObjectKey(id(2), 1)), Some(4));
    assert_eq!(index.lookup(&rows, &VersionedObjectKey(id(1), 2)), Some(3));
    assert_eq!(index.lookup(&rows, &VersionedObjectKey(id(2), 2)), None);
    assert_eq!(index.lookup(&rows, &VersionedObjectKey(id(3), 1)), None);
}

#[test]
fn row_index_of_no_rows_finds_nothing() {
    let rows: Vec<StoredObject> = Vec::new();
    let index = RowIndex::build(&rows);
    assert_eq!(index.lookup(&rows, &VersionedObjectKey(id(1), 1)), None);
}

#[test]
fn loaders_give_the_same_mapping_for_the_same_answers() {
    let keys = [VersionedObjectKey(id(1), 1), VersionedObjectKey(id(2), 2)];
    let rows = vec![row(2, 2, b"two"), row(1, 1, b"one")];
    let first = metadata_store::match_rows(&keys, &rows);
    let second = metadata_store::match_rows(&keys, &rows);
    for key in keys.iter() {
        assert_eq!(first.get(key), second.get(key));
    }
    assert_eq!(first.len(), second.len());
}
