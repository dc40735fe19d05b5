use foxbox_taxonomy::tag_storage::{
    add_tag, create_table, get_tags_for, remove_all_tags_for, remove_tag, Statement,
};
use foxbox_taxonomy::util::{Id, ServiceId, TagId};
use rusqlite::{params_from_iter, Connection};

/// A store of tags in memory, which is asked the library's statements.
struct Store {
    db: Connection,
}

impl Store {
    fn new() -> Store {
        let store = Store { db: Connection::open_in_memory().unwrap() };
        store.run(&create_table());
        store
    }

    fn run(&self, statement: &Statement) {
        self.db.execute(&statement.sql, params_from_iter(statement.params.iter())).unwrap();
    }

    fn key<T>(id: &Id<T>, tag: &Id<TagId>) -> String {
        format!("{}:{}:{}", id.as_str().len(), id.as_str(), tag.as_str())
    }

    fn add_tag<T>(&self, id: &Id<T>, tag: &Id<TagId>) {
        self.run(&add_tag(Store::key(id, tag), id, tag));
    }

    fn remove_tag<T>(&self, id: &Id<T>, tag: &Id<TagId>) {
        self.run(&remove_tag(Store::key(id, tag)));
    }

    fn remove_all_tags_for<T>(&self, id: &Id<T>) {
        self.run(&remove_all_tags_for(id));
    }

    fn get_tags_for<T>(&self, id: &Id<T>) -> Vec<Id<TagId>> {
        let statement = get_tags_for(id);
        let mut prepared = self.db.prepare(&statement.sql).unwrap();
        let mut rows = prepared.query(params_from_iter(statement.params.iter())).unwrap();
        let mut tags = Vec::new();
        while let Some(row) = rows.next().unwrap() {
            let tag: String = row.get(0).unwrap();
            tags.push(Id::<TagId>::new(&tag));
        }
        tags
    }
}

#[test]
fn the_statements_of_the_store() {
    let id = Id::<ServiceId>::new("first id");
    let tag = Id::<TagId>::new("tag's");
    let added = add_tag("key".to_owned(), &id, &tag);
    assert_eq!(added.sql, "INSERT OR IGNORE INTO tags VALUES ($1, $2, $3)");
    assert_eq!(added.params, vec!["key".to_owned(), "first id".to_owned(), "tag's".to_owned()]);
    let removed = remove_tag("key".to_owned());
    assert_eq!(removed.sql, "DELETE FROM tags WHERE key=$1");
    assert_eq!(removed.params, vec!["key".to_owned()]);
    let cleared = remove_all_tags_for(&id);
    assert_eq!(cleared.sql, "DELETE FROM tags WHERE id=$1");
    assert_eq!(cleared.params, vec!["first id".to_owned()]);
    let asked = get_tags_for(&tag);
    assert_eq!(asked.sql, "SELECT tag FROM tags WHERE id=$1");
    assert_eq!(asked.params, vec!["tag's".to_owned()]);
    let made = create_table();
    assert_eq!(
        made.sql,
        "CREATE TABLE IF NOT EXISTS tags (key TEXT NOT NULL PRIMARY KEY, id TEXT NOT NULL, tag TEXT NOT NULL)"
    );
    assert!(made.params.is_empty());
}

#[test]
fn parameters_are_the_texts_as_they_are() {
    for source in ["", "plain", "'", "it's", "x''y", "l'été à l'eau", "\"quoted\"", "a;b--c"] {
        let id = Id::<ServiceId>::new(source);
        let tag = Id::<TagId>::new(source);
        assert_eq!(add_tag("k".to_owned(), &id, &tag).params, vec!["k", source, source]);
        assert_eq!(remove_all_tags_for(&id).params, vec![source]);
        assert_eq!(get_tags_for(&id).params, vec![source]);
    }
}

#[test]
fn a_tag_comes_back_as_it_was_given() {
    let store = Store::new();
    let id = Id::<ServiceId>::new("a");
    store.add_tag(&id, &Id::new("it's"));
    assert_eq!(store.get_tags_for(&id), vec![Id::<TagId>::new("it's")]);

    let quoted = Id::<ServiceId>::new("o'clock");
    store.add_tag(&quoted, &Id::new("''"));
    assert_eq!(store.get_tags_for(&quoted), vec![Id::<TagId>::new("''")]);
    assert!(store.get_tags_for(&Id::<ServiceId>::new("o''clock")).is_empty());
    store.remove_all_tags_for(&quoted);
    assert!(store.get_tags_for(&quoted).is_empty());
    assert_eq!(store.get_tags_for(&id), vec![Id::<TagId>::new("it's")]);
}

#[test]
fn adding_twice_is_adding_once() {
    let store = Store::new();
    let id = Id::<ServiceId>::new("id");
    let other = Id::<ServiceId>::new("other");
    store.add_tag(&id, &Id::new("t"));
    store.add_tag(&id, &Id::new("t"));
    assert_eq!(store.get_tags_for(&id), vec![Id::<TagId>::new("t")]);
    store.add_tag(&other, &Id::new("t"));
    store.add_tag(&other, &Id::new("u"));
    store.remove_all_tags_for(&id);
    assert!(store.get_tags_for(&id).is_empty());
    assert_eq!(store.get_tags_for(&other), vec![Id::<TagId>::new("t"), Id::new("u")]);
}

#[test]
fn storage_test() {
    let store = Store::new();

    let id1 = Id::<ServiceId>::new("first id");
    let id2 = Id::<ServiceId>::new("second id");

    // Start with an empty db.
    let mut tags = store.get_tags_for(&id1);
    assert_eq!(tags.len(), 0);

    // Add a first tag.
    store.add_tag(&id1, &Id::new("tag1"));
    tags = store.get_tags_for(&id1);
    assert_eq!(tags.len(), 1);

    // Adding the same one is a no-op.
    store.add_tag(&id1, &Id::new("tag1"));
    tags = store.get_tags_for(&id1);
    assert_eq!(tags.len(), 1);

    // Adding a new tag.
    store.add_tag(&id1, &Id::new("tag2"));
    tags = store.get_tags_for(&id1);
    assert_eq!(tags.len(), 2);
    assert_eq!(tags, [Id::new("tag1"), Id::new("tag2")]);

    // Add the same tags with a different id.
    store.add_tag(&id2, &Id::new("tag1"));
    store.add_tag(&id2, &Id::new("tag2"));
    tags = store.get_tags_for(&id1);
    assert_eq!(tags.len(), 2);
    assert_eq!(tags, [Id::new("tag1"), Id::new("tag2")]);
    tags = store.get_tags_for(&id2);
    assert_eq!(tags.len(), 2);
    assert_eq!(tags, [Id::new("tag1"), Id::new("tag2")]);

    // Non existing id.
    store.remove_tag(&Id::<ServiceId>::new("id3"), &Id::new("some tag"));

    // Remove some tags from id2.
    store.remove_tag(&id2, &Id::new("tag1"));
    tags = store.get_tags_for(&id2);
    assert_eq!(tags.len(), 1);
    assert_eq!(tags, [Id::new("tag2")]);

    store.remove_tag(&id2, &Id::new("tag2"));
    tags = store.get_tags_for(&id2);
    assert_eq!(tags.len(), 0);

    // id1 should be unchanged.
    tags = store.get_tags_for(&id1);
    assert_eq!(tags.len(), 2);
    assert_eq!(tags, [Id::new("tag1"), Id::new("tag2")]);

    // Remove all the id1 tags.
    store.remove_all_tags_for(&id1);
    tags = store.get_tags_for(&id1);
    assert_eq!(tags.len(), 0);

    // Adding multiple tags at once.
    for tag in [Id::new("tag1"), Id::new("tag2"), Id::new("tag3")] {
        store.add_tag(&id1, &tag);
    }
    tags = store.get_tags_for(&id1);
    assert_eq!(tags.len(), 3);

    // Removing multiple tags at once.
    for tag in [Id::new("tag1"), Id::new("tag2"), Id::new("tag3")] {
        store.remove_tag(&id1, &tag);
    }
    tags = store.get_tags_for(&id1);
    assert_eq!(tags.len(), 0);
}

#[test]
fn identifiers_are_the_same_where_their_texts_are() {
    assert_eq!(Id::<TagId>::new("tag1"), Id::<TagId>::new("tag1"));
    assert!(Id::<TagId>::new("tag1") != Id::<TagId>::new("tag2"));
    let tags = vec![Id::<TagId>::new("tag1"), Id::<TagId>::new("tag2")];
    assert_eq!(tags, [Id::new("tag1"), Id::new("tag2")]);
    let id = Id::<ServiceId>::from_string("abc".to_owned());
    assert_eq!(id.as_str(), "abc");
    assert_eq!(id.to_string(), "abc");
    assert_eq!(id.clone(), id);
}
