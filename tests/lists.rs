use deet::linked_list;
use deet::stack_list;

#[test]
fn stack_push_pop_order() {
    let mut l = stack_list::LinkedList::new();
    assert!(l.is_empty());
    l.push(1);
    l.push(2);
    l.push(3);
    assert_eq!(l.get_size(), 3);
    assert_eq!(l.values(), vec![3, 2, 1]);
    assert_eq!(l.pop(), Some(3));
    assert_eq!(l.pop(), Some(2));
    assert_eq!(l.get_size(), 1);
    assert_eq!(l.pop(), Some(1));
    assert_eq!(l.pop(), None);
    assert!(l.is_empty());
}

#[test]
fn generic_list_front_operations() {
    let mut l: linked_list::LinkedList<String> = linked_list::LinkedList::new();
    assert!(l.is_empty());
    l.push_front("a".to_string());
    l.push_front("b".to_string());
    assert_eq!(l.get_size(), 2);
    {
        let mut it = l.iter();
        assert_eq!(it.next().map(|s| s.as_str()), Some("b"));
        assert_eq!(it.next().map(|s| s.as_str()), Some("a"));
        assert_eq!(it.next(), None);
    }
    assert_eq!(l.pop_front(), Some("b".to_string()));
    assert_eq!(l.pop_front(), Some("a".to_string()));
    assert_eq!(l.pop_front(), None);
    assert_eq!(l.get_size(), 0);
}
