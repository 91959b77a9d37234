use pssm::dictionary::Dictionary;

#[test]
fn a_new_dictionary_is_empty() {
    let dict: Dictionary<&str, i32> = Dictionary::new();
    assert!(dict.no_values());
    assert!(dict.no_folders());
    assert_eq!(dict.value_count(), 0);
    assert_eq!(dict.folder_count(), 0);
}

#[test]
fn insert_returns_the_value_that_was_there() {
    let mut dict = Dictionary::new();
    assert_eq!(dict.insert("key", 5), None);
    assert_eq!(dict.get(&"key"), Some(&5));
    assert_eq!(dict.insert("key", 10), Some(5));
    assert_eq!(dict.get(&"key"), Some(&10));
    assert_eq!(dict.get(&"missing"), None);
}

#[test]
fn insert_folder_returns_the_folder_that_was_there() {
    let mut dict = Dictionary::new();
    let mut folder = Dictionary::new();
    folder.insert("key", 10);
    assert!(dict.insert_folder("folder", folder).is_none());
    assert_eq!(dict.get_deep(&["folder", "key"]), Some(&10));
    let old = dict.insert_folder("folder", Dictionary::new());
    assert_eq!(old.unwrap().get(&"key"), Some(&10));
    assert_eq!(dict.get_deep(&["folder", "key"]), None);
}

#[test]
fn a_key_can_name_a_value_and_a_folder() {
    let mut dict = Dictionary::new();
    dict.insert("both", 1);
    let mut folder = Dictionary::new();
    folder.insert("inner", 2);
    dict.insert_folder("both", folder);
    assert_eq!(dict.get(&"both"), Some(&1));
    assert_eq!(dict.get_deep(&["both"]), Some(&1));
    assert_eq!(dict.get_deep(&["both", "inner"]), Some(&2));
    assert!(dict.has(&"both"));
    assert!(dict.has_folder(&"both"));
}

#[test]
fn get_mut_changes_the_value() {
    let mut dict = Dictionary::new();
    dict.insert("key", 5);
    if let Some(value) = dict.get_mut(&"key") {
        *value = 10;
    }
    assert_eq!(dict.get(&"key"), Some(&10));
    assert!(dict.get_mut(&"missing").is_none());
}

#[test]
fn get_folder_and_get_folder_mut() {
    let mut dict: Dictionary<&str, i32> = Dictionary::new();
    dict.insert_folder("folder", Dictionary::new());
    assert!(dict.get_folder(&"folder").is_some());
    assert!(dict.get_folder(&"missing").is_none());
    if let Some(folder) = dict.get_folder_mut(&"folder") {
        folder.insert("key", 5);
    }
    assert_eq!(dict.get_deep(&["folder", "key"]), Some(&5));
    assert!(dict.get_folder_mut(&"missing").is_none());
}

#[test]
fn get_deep_follows_the_path() {
    let mut dict = Dictionary::new();
    dict.insert("key", 5);
    let mut inner = Dictionary::new();
    inner.insert("key", 20);
    let mut folder = Dictionary::new();
    folder.insert("key", 10);
    folder.insert_folder("inner", inner);
    dict.insert_folder("folder", folder);
    assert_eq!(dict.get_deep(&["key"]), Some(&5));
    assert_eq!(dict.get_deep(&["folder", "key"]), Some(&10));
    assert_eq!(dict.get_deep(&["folder", "inner", "key"]), Some(&20));
    assert_eq!(dict.get_deep(&["folder", "missing"]), None);
    assert_eq!(dict.get_deep(&["missing", "key"]), None);
    assert_eq!(dict.get_deep(&["key", "key"]), None);
}

#[test]
fn get_deep_mut_changes_the_value_at_the_end_of_the_path() {
    let mut dict = Dictionary::new();
    dict.insert("key", 5);
    let mut folder = Dictionary::new();
    folder.insert("key", 10);
    dict.insert_folder("folder", folder);
    if let Some(value) = dict.get_deep_mut(&["folder", "key"]) {
        *value = 15;
    }
    assert_eq!(dict.get_deep(&["folder", "key"]), Some(&15));
    assert_eq!(dict.get_deep(&["key"]), Some(&5));
    assert!(dict.get_deep_mut(&["missing", "key"]).is_none());
    assert!(dict.get_deep_mut(&["folder", "missing"]).is_none());
}

#[test]
fn remove_takes_the_value_out() {
    let mut dict = Dictionary::new();
    dict.insert("key", 5);
    assert_eq!(dict.remove(&"key"), Some(5));
    assert_eq!(dict.remove(&"key"), None);
    assert_eq!(dict.remove(&"missing"), None);
    assert!(dict.no_values());
}

#[test]
fn remove_folder_takes_the_folder_out() {
    let mut dict = Dictionary::new();
    let mut folder = Dictionary::new();
    folder.insert("key", 10);
    dict.insert_folder("folder", folder);
    let removed = dict.remove_folder(&"folder");
    assert_eq!(removed.unwrap().get(&"key"), Some(&10));
    assert!(dict.remove_folder(&"folder").is_none());
    assert!(dict.remove_folder(&"missing").is_none());
    assert!(dict.no_folders());
}

#[test]
fn remove_deep_takes_the_value_at_the_end_of_the_path() {
    let mut dict = Dictionary::new();
    dict.insert("key", 5);
    let mut folder = Dictionary::new();
    folder.insert("key", 10);
    dict.insert_folder("folder", folder);
    assert_eq!(dict.remove_deep(&["folder", "key"]), Some(10));
    assert_eq!(dict.remove_deep(&["folder", "key"]), None);
    assert_eq!(dict.remove_deep(&["missing", "key"]), None);
    assert!(dict.has_folder(&"folder"));
    assert_eq!(dict.remove_deep(&["key"]), Some(5));
    assert!(dict.no_values());
}

#[test]
fn has_and_has_deep() {
    let mut dict = Dictionary::new();
    dict.insert("key", 5);
    let mut folder = Dictionary::new();
    folder.insert("key", 10);
    dict.insert_folder("folder", folder);
    assert!(dict.has(&"key"));
    assert!(!dict.has(&"missing"));
    assert!(!dict.has(&"folder"));
    assert!(dict.has_folder(&"folder"));
    assert!(!dict.has_folder(&"key"));
    assert!(dict.has_deep(&["key"]));
    assert!(dict.has_deep(&["folder", "key"]));
    assert!(!dict.has_deep(&["missing"]));
    assert!(!dict.has_deep(&["folder", "missing"]));
    assert!(!dict.has_deep(&["missing", "key"]));
}

#[test]
fn counts_leave_the_folders_contents_out() {
    let mut dict = Dictionary::new();
    dict.insert("key1", 5);
    dict.insert("key2", 10);
    let mut folder = Dictionary::new();
    folder.insert("key3", 15);
    dict.insert_folder("folder1", folder);
    dict.insert_folder("folder2", Dictionary::new());
    dict.insert_folder("folder3", Dictionary::new());
    assert_eq!(dict.value_count(), 2);
    assert_eq!(dict.folder_count(), 3);
    assert!(!dict.no_values());
    assert!(!dict.no_folders());
}

#[test]
fn iter_gives_every_value_once() {
    let mut dict = Dictionary::new();
    dict.insert("key1", 5);
    dict.insert("key2", 10);
    dict.insert_folder("folder", Dictionary::new());
    let mut items: Vec<(&str, i32)> = dict.iter().map(|(key, value)| (*key, *value)).collect();
    items.sort();
    assert_eq!(items, vec![("key1", 5), ("key2", 10)]);
}

#[test]
fn iter_mut_changes_every_value() {
    let mut dict = Dictionary::new();
    dict.insert("key1", 5);
    dict.insert("key2", 10);
    for (_key, value) in dict.iter_mut() {
        *value += 1;
    }
    assert_eq!(dict.get(&"key1"), Some(&6));
    assert_eq!(dict.get(&"key2"), Some(&11));
    assert_eq!(dict.value_count(), 2);
}

#[test]
fn iter_folders_mut_changes_every_folder() {
    let mut dict = Dictionary::new();
    dict.insert_folder("folder1", Dictionary::new());
    dict.insert_folder("folder2", Dictionary::new());
    for (_key, folder) in dict.iter_folders_mut() {
        folder.insert("key", 5);
    }
    assert_eq!(dict.get_deep(&["folder1", "key"]), Some(&5));
    assert_eq!(dict.get_deep(&["folder2", "key"]), Some(&5));
    assert_eq!(dict.folder_count(), 2);
}

#[test]
fn iter_folders_gives_every_folder_once() {
    let mut dict = Dictionary::new();
    dict.insert("key", 1);
    let mut folder = Dictionary::new();
    folder.insert("inner", 2);
    dict.insert_folder("folder1", folder);
    dict.insert_folder("folder2", Dictionary::new());
    let mut items: Vec<(&str, usize)> =
        dict.iter_folders().map(|(key, folder)| (*key, folder.value_count())).collect();
    items.sort();
    assert_eq!(items, vec![("folder1", 1), ("folder2", 0)]);
}

#[test]
fn iter_mut_visits_every_key_once() {
    let mut dict = Dictionary::new();
    dict.insert("a", 1);
    dict.insert("b", 2);
    dict.insert("c", 3);
    let mut seen: Vec<(&str, i32)> = Vec::new();
    for (key, value) in dict.iter_mut() {
        seen.push((*key, *value));
        *value *= 10;
    }
    seen.sort();
    assert_eq!(seen, vec![("a", 1), ("b", 2), ("c", 3)]);
    assert_eq!(dict.get(&"a"), Some(&10));
    assert_eq!(dict.get(&"b"), Some(&20));
    assert_eq!(dict.get(&"c"), Some(&30));
}

#[test]
fn iter_mut_left_alone_changes_nothing() {
    let mut dict = Dictionary::new();
    dict.insert("a", 1);
    dict.insert_folder("f", Dictionary::new());
    {
        let _items = dict.iter_mut();
    }
    {
        let _folders = dict.iter_folders_mut();
    }
    assert_eq!(dict.get(&"a"), Some(&1));
    assert_eq!(dict.value_count(), 1);
    assert_eq!(dict.folder_count(), 1);
}

#[test]
fn iter_folders_mut_visits_every_folder_once() {
    let mut dict: Dictionary<&str, i32> = Dictionary::new();
    let mut first = Dictionary::new();
    first.insert("x", 1);
    dict.insert_folder("first", first);
    dict.insert_folder("second", Dictionary::new());
    let mut seen: Vec<(&str, usize)> = Vec::new();
    for (key, folder) in dict.iter_folders_mut() {
        seen.push((*key, folder.value_count()));
        folder.remove(&"x");
    }
    seen.sort();
    assert_eq!(seen, vec![("first", 1), ("second", 0)]);
    assert_eq!(dict.get_deep(&["first", "x"]), None);
    assert_eq!(dict.folder_count(), 2);
}
