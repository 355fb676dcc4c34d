use challenges::list::{DoublyLinkedList, InsertionError, InsertionPos};

fn contents<T: ToString>(list: &DoublyLinkedList<T>) -> Vec<String> {
    let mut out = Vec::new();
    let mut it = list.iter();
    while let Some(elem) = it.next() {
        out.push(elem.to_string());
    }
    out
}

#[test]
fn insertion_at_start() {
    let mut list = DoublyLinkedList::from_iter(vec!["Something", "else"]);
    list.insert_at("Something else", InsertionPos::Start);
    assert_eq!(contents(&list), ["Something else", "Something", "else"]);
}

#[test]
fn insertion_at_end() {
    let mut list = DoublyLinkedList::from_iter(vec!["Something", "else"]);
    list.insert_at("Nothing", InsertionPos::End);
    assert_eq!(contents(&list), ["Something", "else", "Nothing"]);
}

#[test]
fn insertion_at_idx_empty_list() {
    let mut list: DoublyLinkedList<&str> = DoublyLinkedList::default();
    assert!(matches!(list.insert_at_idx("Something", 0), Err(InsertionError::EmptyList)));
}

#[test]
fn insertion_at_idx_correct() {
    let mut list = DoublyLinkedList::from_iter(vec!["Something", "else"]);
    let _ = list.insert_at_idx("NUMA", 1);
    assert_eq!(contents(&list), ["Something", "NUMA", "else"]);
}

#[test]
fn insertion_at_idx_incorrect() {
    let mut list = DoublyLinkedList::from_iter(vec!["Something", "else"]);
    assert!(matches!(
        list.insert_at_idx("NUMA", 10),
        Err(InsertionError::IndexOutOfBounds { wrong_index: 10, actual_elements: 2 })
    ));
}

#[test]
fn search_found() {
    let list = DoublyLinkedList::from_iter(vec!["Something", "else"]);
    assert_eq!(list.get(&"else"), Some(&"else"));
}

#[test]
fn search_not_found() {
    let list = DoublyLinkedList::from_iter(vec!["Something", "else"]);
    assert_eq!(list.get(&"nothing"), None);
}

#[test]
fn deletion_found() {
    let mut list = DoublyLinkedList::from_iter(vec!["Something", "else"]);
    assert_eq!(list.delete(&"Something"), Some("Something"));
    assert_eq!(contents(&list), ["else"]);
}

#[test]
fn deletion_not_found() {
    let mut list = DoublyLinkedList::from_iter(vec!["Something", "else"]);
    assert_eq!(list.delete(&"other"), None);
    assert_eq!(contents(&list), ["Something", "else"]);
}

#[test]
fn consuming_iter() {
    let list = DoublyLinkedList::from_iter(vec!["Something", "else"]);
    println!("finished build");
    assert_eq!(contents(&list), ["Something", "else"]);
    let mut taken = Vec::new();
    let mut it = list.into_iter();
    while let Some(elem) = it.next() {
        println!("{elem}");
        taken.push(elem);
    }
    assert_eq!(taken, ["Something", "else"]);
}

#[test]
fn shared_iter() {
    let list = DoublyLinkedList::from_iter(vec!["Something", "else"]);
    assert_eq!(contents(&list), ["Something", "else"]);
    let mut it = list.iter();
    while let Some(elem) = it.next() {
        println!("{elem}");
    }
    assert_eq!(contents(&list), ["Something", "else"]);
}

#[test]
fn exclusive_iter() {
    let mut list = DoublyLinkedList::from_iter(vec!["Something", "else"]);
    assert_eq!(contents(&list), ["Something", "else"]);
    let mut it = list.iter_mut();
    while let Some(elem) = it.next() {
        println!("{elem}");
    }
    assert_eq!(contents(&list), ["Something", "else"]);
}

#[test]
fn len_and_emptiness() {
    let mut list: DoublyLinkedList<u32> = DoublyLinkedList::new();
    assert!(list.is_empty());
    assert_eq!(list.len(), 0);
    list.insert_at(1, InsertionPos::End);
    list.insert_at(0, InsertionPos::Start);
    assert!(!list.is_empty());
    assert_eq!(list.len(), 2);
    assert_eq!(contents(&list), ["0", "1"]);
}

#[test]
fn insert_into_empty_list_at_start() {
    let mut list: DoublyLinkedList<u32> = DoublyLinkedList::default();
    list.insert_at(7, InsertionPos::Start);
    assert_eq!(contents(&list), ["7"]);
    list.insert_at(8, InsertionPos::Start);
    assert_eq!(contents(&list), ["8", "7"]);
}

#[test]
fn insertion_at_idx_bounds() {
    let mut list = DoublyLinkedList::from_iter(vec![10, 20, 30]);
    assert!(list.insert_at_idx(5, 0).is_ok());
    assert_eq!(contents(&list), ["5", "10", "20", "30"]);
    assert!(list.insert_at_idx(25, 3).is_ok());
    assert_eq!(contents(&list), ["5", "10", "20", "25", "30"]);
    assert_eq!(
        list.insert_at_idx(99, 5),
        Err(InsertionError::IndexOutOfBounds { wrong_index: 5, actual_elements: 5 })
    );
    assert_eq!(list.len(), 5);
}

#[test]
fn deletion_everywhere() {
    let mut list = DoublyLinkedList::from_iter(vec![1, 2, 3, 4, 5]);
    assert_eq!(list.delete(&3), Some(3));
    assert_eq!(contents(&list), ["1", "2", "4", "5"]);
    assert_eq!(list.delete(&1), Some(1));
    assert_eq!(contents(&list), ["2", "4", "5"]);
    assert_eq!(list.delete(&5), Some(5));
    assert_eq!(contents(&list), ["2", "4"]);
    list.insert_at(6, InsertionPos::Start);
    list.insert_at(7, InsertionPos::End);
    assert_eq!(contents(&list), ["6", "2", "4", "7"]);
    assert_eq!(list.delete(&4), Some(4));
    assert_eq!(list.delete(&6), Some(6));
    assert_eq!(list.delete(&7), Some(7));
    assert_eq!(list.delete(&2), Some(2));
    assert!(list.is_empty());
    assert_eq!(list.delete(&2), None);
    list.insert_at(9, InsertionPos::End);
    assert_eq!(contents(&list), ["9"]);
}

#[test]
fn first_of_equal_elements() {
    let mut list = DoublyLinkedList::from_iter(vec![(1, 'a'), (2, 'b'), (1, 'a')]);
    list.insert_at((1, 'a'), InsertionPos::Start);
    assert_eq!(list.get(&(1, 'a')), Some(&(1, 'a')));
    assert_eq!(list.delete(&(1, 'a')), Some((1, 'a')));
    assert_eq!(list.len(), 3);
    assert_eq!(list.delete(&(1, 'a')), Some((1, 'a')));
    assert_eq!(list.delete(&(1, 'a')), Some((1, 'a')));
    assert_eq!(list.delete(&(1, 'a')), None);
    assert_eq!(list.len(), 1);
}

#[test]
fn delete_undoes_insert_at_start() {
    let mut list = DoublyLinkedList::from_iter(vec!["x", "y"]);
    list.insert_at("x", InsertionPos::Start);
    assert_eq!(list.delete(&"x"), Some("x"));
    assert_eq!(contents(&list), ["x", "y"]);
}

#[test]
fn get_and_delete_agree() {
    let mut list = DoublyLinkedList::from_iter(vec![3, 1, 4, 1, 5]);
    let found = list.get(&1).copied();
    assert_eq!(found, Some(1));
    assert_eq!(list.delete(&1), found);
    assert_eq!(contents(&list), ["3", "4", "1", "5"]);
}

#[test]
fn clone_is_deep() {
    let list = DoublyLinkedList::from_iter(vec![String::from("a"), String::from("b")]);
    let mut copy = list.clone();
    copy.insert_at(String::from("c"), InsertionPos::End);
    assert_eq!(contents(&list), ["a", "b"]);
    assert_eq!(contents(&copy), ["a", "b", "c"]);
}

#[test]
fn clone_from_replaces() {
    let source = DoublyLinkedList::from_iter(vec![1, 2, 3]);
    let mut target = DoublyLinkedList::from_iter(vec![9, 8]);
    target.clone_from(&source);
    assert_eq!(contents(&target), ["1", "2", "3"]);
    assert_eq!(target.len(), 3);
    assert_eq!(contents(&source), ["1", "2", "3"]);
}

#[test]
fn iter_mut_writes_back() {
    let mut list = DoublyLinkedList::from_iter(vec![1, 2, 3]);
    list.insert_at(0, InsertionPos::Start);
    let mut it = list.iter_mut();
    while let Some(elem) = it.next() {
        *elem *= 10;
    }
    assert_eq!(contents(&list), ["0", "10", "20", "30"]);
}

#[test]
fn iterators_stay_exhausted() {
    let list = DoublyLinkedList::from_iter(vec![1]);
    let mut it = list.iter();
    assert_eq!(it.next(), Some(&1));
    assert_eq!(it.next(), None);
    assert_eq!(it.next(), None);
    let mut drain = DoublyLinkedList::from_iter(vec![1, 2]).into_iter();
    assert_eq!(drain.next(), Some(1));
    assert_eq!(drain.next(), Some(2));
    assert_eq!(drain.next(), None);
    assert_eq!(drain.next(), None);
}

#[test]
fn drain_after_edits_in_order() {
    let mut list = DoublyLinkedList::from_iter(vec![2, 3]);
    list.insert_at(1, InsertionPos::Start);
    assert!(list.insert_at_idx(9, 1).is_ok());
    assert_eq!(list.delete(&9), Some(9));
    list.insert_at(4, InsertionPos::End);
    let mut out = Vec::new();
    let mut drain = list.into_iter();
    while let Some(x) = drain.next() {
        out.push(x);
    }
    assert_eq!(out, [1, 2, 3, 4]);
}

#[test]
fn get_unchecked_finds_present_element() {
    let list = DoublyLinkedList::from_iter(vec![4, 8, 15]);
    assert_eq!(*list.get_unchecked(&8), 8);
}

#[test]
fn delete_undoes_insert_at_idx() {
    let mut list = DoublyLinkedList::from_iter(vec![1, 2, 3]);
    assert!(list.insert_at_idx(7, 2).is_ok());
    assert_eq!(contents(&list), ["1", "2", "7", "3"]);
    assert_eq!(list.delete(&7), Some(7));
    assert_eq!(contents(&list), ["1", "2", "3"]);
}

#[test]
fn iteration_counts_len() {
    let mut list = DoublyLinkedList::from_iter(vec![1, 2, 3]);
    list.insert_at(0, InsertionPos::Start);
    assert_eq!(list.delete(&2), Some(2));
    let mut count = 0;
    let mut it = list.iter();
    while it.next().is_some() {
        count += 1;
    }
    assert_eq!(count, list.len());
    assert_eq!(it.next(), None);
}
