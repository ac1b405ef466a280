use algorithms::collections::linked_list::{LinkedList, LinkedListNode};

#[test]
fn test_linked_list() {
    let list = LinkedList::<i32>::new();

    println!("list: {:?}", list);
}

#[test]
fn new_list_holds_nothing() {
    let list = LinkedList::<i32>::new();
    assert!(list.value.is_none());
    assert!(list.next.is_none());
}

#[test]
fn nodes_chain() {
    let tail = LinkedListNode { value: 2, next: None };
    let head = LinkedListNode { value: 1, next: Some(Box::new(tail)) };
    assert_eq!(head.value, 1);
    assert_eq!(head.next.unwrap().value, 2);
}
