use todo_on_ic_backend::{
    create_todo, file_under, get_node_id, get_time, get_todo_by_id, try_create, Attempt,
    IdGenerator, TodoStore, MAX_ATTEMPTS,
};
use uuid::{ContextV1, Timestamp, Uuid};

fn drawn_by_uuid(context: &ContextV1, time: u64, node: &[u8; 6]) -> String {
    let timestamp = Timestamp::from_unix(context, time, time as u32);
    Uuid::new_v1(timestamp, node).to_string()
}

#[test]
fn stand_in_clock_and_identity() {
    assert_eq!(get_time(), 1699707661583u64);
    assert_eq!(get_node_id(), vec![1u8, 2, 3, 4, 5, 6]);
}

#[test]
fn first_identifier_is_the_version_one_uuid() {
    let mut generator = IdGenerator::new(get_time(), &get_node_id());
    let id = generator.next_id(get_time());
    assert_eq!(id, "c80e2cd4-dcf2-1d93-ad0f-010203040506");
    assert_eq!(id.len(), 36);
}

#[test]
fn identifier_follows_the_documented_example() {
    // Seeded so that the clock sequence counter starts at 42.
    let mut generator = IdGenerator::new(42, &[1, 2, 3, 4, 5, 6]);
    let id = generator.next_id(1497624119);
    let context = ContextV1::new(42);
    let timestamp = Timestamp::from_unix(&context, 1497624119, 1497624119u64 as u32);
    assert_eq!(id, Uuid::new_v1(timestamp, &[1, 2, 3, 4, 5, 6]).to_string());
    assert_eq!(&id[19..23], "802a");
    assert_eq!(&id[24..], "010203040506");
}

#[test]
fn draws_agree_with_a_shared_context() {
    let time = get_time();
    let node = [1u8, 2, 3, 4, 5, 6];
    let context = ContextV1::new(time as u16);
    let mut generator = IdGenerator::new(time, &node);
    for _ in 0..5 {
        assert_eq!(generator.next_id(time), drawn_by_uuid(&context, time, &node));
    }
}

#[test]
fn draws_agree_with_a_shared_context_across_the_wrap() {
    // The low sixteen bits of the seed are all set: the counter wraps on the second draw.
    let seed = 0x0003_ffffu64;
    let node = [9u8, 8, 7, 6, 5, 4];
    let context = ContextV1::new(seed as u16);
    let mut generator = IdGenerator::new(seed, &node);
    let first = generator.next_id(5);
    let second = generator.next_id(5);
    assert_eq!(first, drawn_by_uuid(&context, 5, &node));
    assert_eq!(second, drawn_by_uuid(&context, 5, &node));
    assert_eq!(first, "167c3080-1dd2-11b2-bfff-090807060504");
    assert_eq!(second, "167c3080-1dd2-11b2-8000-090807060504");
}

#[test]
fn draws_at_one_reading_differ_in_clock_sequence() {
    let mut generator = IdGenerator::new(get_time(), &get_node_id());
    let first = generator.next_id(get_time());
    let second = generator.next_id(get_time());
    let third = generator.next_id(get_time());
    assert_eq!(first, "c80e2cd4-dcf2-1d93-ad0f-010203040506");
    assert_eq!(second, "c80e2cd4-dcf2-1d93-ad10-010203040506");
    assert_eq!(third, "c80e2cd4-dcf2-1d93-ad11-010203040506");
}

#[test]
fn reading_serves_as_seconds_and_nanoseconds() {
    let time = 0x1_0000_0007u64;
    let mut generator = IdGenerator::new(time, &[0, 0, 0, 0, 0, 1]);
    let context = ContextV1::new(7);
    let timestamp = Timestamp::from_unix(&context, time, 7);
    assert_eq!(
        generator.next_id(time),
        Uuid::new_v1(timestamp, &[0, 0, 0, 0, 0, 1]).to_string()
    );
}

#[test]
fn only_six_bytes_of_the_identity_count() {
    let mut short = IdGenerator::new(1, &[10, 20, 30, 40, 50, 60]);
    let mut long = IdGenerator::new(1, &[10, 20, 30, 40, 50, 60, 70, 80]);
    let id = short.next_id(2);
    assert_eq!(id, long.next_id(2));
    assert_eq!(&id[24..], "0a141e28323c");
}

#[test]
fn create_files_the_note_under_the_first_identifier() {
    let mut store = TodoStore::init();
    let id = create_todo(&mut store, "milk".to_owned(), get_time(), &get_node_id());
    assert_eq!(id, Some("c80e2cd4-dcf2-1d93-ad0f-010203040506".to_owned()));
    assert_eq!(
        store.get(&"c80e2cd4-dcf2-1d93-ad0f-010203040506".to_owned()),
        Ok("milk".to_owned())
    );
}

#[test]
fn creations_in_a_row_get_different_identifiers() {
    let mut store = TodoStore::init();
    let mut ids = Vec::new();
    for n in 0..20 {
        let id = create_todo(&mut store, format!("note {}", n), get_time(), &get_node_id());
        ids.push(id.unwrap());
    }
    for i in 0..ids.len() {
        for j in 0..i {
            assert_ne!(ids[i], ids[j]);
        }
        assert_eq!(get_todo_by_id(&store, ids[i].clone()), Ok(format!("note {}", i)));
    }
}

#[test]
fn create_passes_over_identifiers_that_are_taken() {
    let mut store = TodoStore::init();
    store.insert("c80e2cd4-dcf2-1d93-ad0f-010203040506".to_owned(), "a".to_owned());
    store.insert("c80e2cd4-dcf2-1d93-ad10-010203040506".to_owned(), "b".to_owned());
    let id = create_todo(&mut store, "c".to_owned(), get_time(), &get_node_id());
    assert_eq!(id, Some("c80e2cd4-dcf2-1d93-ad11-010203040506".to_owned()));
    assert_eq!(
        get_todo_by_id(&store, "c80e2cd4-dcf2-1d93-ad0f-010203040506".to_owned()),
        Ok("a".to_owned())
    );
    assert_eq!(
        get_todo_by_id(&store, "c80e2cd4-dcf2-1d93-ad10-010203040506".to_owned()),
        Ok("b".to_owned())
    );
    assert_eq!(
        get_todo_by_id(&store, "c80e2cd4-dcf2-1d93-ad11-010203040506".to_owned()),
        Ok("c".to_owned())
    );
}

#[test]
fn create_gives_up_when_every_draw_is_taken() {
    let mut store = TodoStore::init();
    let time = get_time();
    let node = get_node_id();
    let mut generator = IdGenerator::new(time, &node);
    for _ in 0..MAX_ATTEMPTS {
        store.insert(generator.next_id(time), "taken".to_owned());
    }
    assert_eq!(create_todo(&mut store, "late".to_owned(), time, &node), None);
    assert_eq!(
        get_todo_by_id(&store, "c80e2cd4-dcf2-1d93-ad0f-010203040506".to_owned()),
        Ok("taken".to_owned())
    );
    // One draw less is taken: the last one is free.
    let mut store = TodoStore::init();
    let mut generator = IdGenerator::new(time, &node);
    for _ in 0..MAX_ATTEMPTS - 1 {
        store.insert(generator.next_id(time), "taken".to_owned());
    }
    let last = generator.next_id(time);
    assert_eq!(create_todo(&mut store, "late".to_owned(), time, &node), Some(last.clone()));
    assert_eq!(get_todo_by_id(&store, last), Ok("late".to_owned()));
}

#[test]
fn attempt_reports_a_collision_and_hands_the_note_back() {
    let mut store = TodoStore::init();
    store.insert("c80e2cd4-dcf2-1d93-ad0f-010203040506".to_owned(), "a".to_owned());
    let mut generator = IdGenerator::new(get_time(), &get_node_id());
    let attempt = try_create(&mut store, &mut generator, get_time(), "b".to_owned());
    assert_eq!(attempt, Attempt::Collided("b".to_owned()));
    assert_eq!(
        get_todo_by_id(&store, "c80e2cd4-dcf2-1d93-ad0f-010203040506".to_owned()),
        Ok("a".to_owned())
    );
    assert_eq!(store.paginated_list(1, 10).len(), 1);
    // The generator has moved on: the next attempt draws the next identifier.
    let attempt = try_create(&mut store, &mut generator, get_time(), "b".to_owned());
    assert_eq!(
        attempt,
        Attempt::Created("c80e2cd4-dcf2-1d93-ad10-010203040506".to_owned())
    );
    assert_eq!(
        get_todo_by_id(&store, "c80e2cd4-dcf2-1d93-ad10-010203040506".to_owned()),
        Ok("b".to_owned())
    );
}

#[test]
fn attempt_with_a_fresh_reading_draws_at_that_reading() {
    let mut store = TodoStore::init();
    let node = [1u8, 2, 3, 4, 5, 6];
    let context = ContextV1::new(100);
    let mut generator = IdGenerator::new(100, &node);
    let first = try_create(&mut store, &mut generator, 200, "a".to_owned());
    assert_eq!(first, Attempt::Created(drawn_by_uuid(&context, 200, &node)));
    let second = try_create(&mut store, &mut generator, 300, "b".to_owned());
    assert_eq!(second, Attempt::Created(drawn_by_uuid(&context, 300, &node)));
}

#[test]
fn identifier_comes_back_after_a_delete() {
    let mut store = TodoStore::init();
    let first = create_todo(&mut store, "a".to_owned(), get_time(), &get_node_id()).unwrap();
    assert_eq!(store.remove(&first), Ok("a".to_owned()));
    let second = create_todo(&mut store, "b".to_owned(), get_time(), &get_node_id()).unwrap();
    assert_eq!(first, second);
}

#[test]
fn filing_under_a_free_identifier_creates() {
    let mut store = TodoStore::init();
    let attempt = file_under(&mut store, "k1".to_owned(), "a".to_owned());
    assert_eq!(attempt, Attempt::Created("k1".to_owned()));
    assert_eq!(get_todo_by_id(&store, "k1".to_owned()), Ok("a".to_owned()));
}

#[test]
fn filing_under_a_taken_identifier_collides() {
    let mut store = TodoStore::init();
    store.insert("k1".to_owned(), "a".to_owned());
    let attempt = file_under(&mut store, "k1".to_owned(), "b".to_owned());
    assert_eq!(attempt, Attempt::Collided("b".to_owned()));
    assert_eq!(get_todo_by_id(&store, "k1".to_owned()), Ok("a".to_owned()));
    assert_eq!(store.paginated_list(1, 10), vec![("k1".to_owned(), "a".to_owned())]);
}
