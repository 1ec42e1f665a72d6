use dsa::linkedstack::LinkedStack;
use dsa::util::DropCounter;

#[test]
fn linked_stack_new() {
    let linked_stack = LinkedStack::<()>::new();
    assert!(linked_stack == LinkedStack::default());
    assert_eq!(linked_stack.len(), 0);
    assert!(linked_stack.is_empty());
    assert_eq!(linked_stack.peek(), None);
}

#[test]
fn linked_stack_push_pop() {
    let mut linked_stack = LinkedStack::new();

    assert_eq!(linked_stack.pop(), None);
    assert_eq!(linked_stack.len(), 0);
    assert!(linked_stack.is_empty());

    for n in 0..10 {
        linked_stack.push(n);
    }

    assert_eq!(linked_stack.len(), 10);
    assert!(!linked_stack.is_empty());

    for n in (0..10).rev() {
        assert_eq!(linked_stack.pop(), Some(n));
    }

    assert_eq!(linked_stack.pop(), None);
    assert_eq!(linked_stack.len(), 0);
    assert!(linked_stack.is_empty())
}

#[test]
fn linked_stack_peek() {
    let mut linked_stack = LinkedStack::new();
    assert_eq!(linked_stack.peek(), None);

    for n in 0..10 {
        linked_stack.push(n);
        assert_eq!(linked_stack.peek(), Some(&n));
    }
}

#[test]
fn linked_stack_peek_mut() {
    let mut linked_stack = LinkedStack::new();

    for n in 0..10 {
        linked_stack.push(n);
        *linked_stack.peek_mut().unwrap() += 1;
        assert_eq!(linked_stack.peek(), Some(n + 1).as_ref());
    }
}

#[test]
fn linked_stack_peek_mut_on_empty() {
    let mut linked_stack = LinkedStack::<i32>::new();
    assert!(linked_stack.peek_mut().is_none());
    assert_eq!(linked_stack.len(), 0);
}

#[test]
fn linked_stack_debug() {
    let mut linked_stack = LinkedStack::new();
    for n in 0..10 {
        linked_stack.push(n);
    }

    assert_eq!(
        &linked_stack.debug_string(),
        "[9, 8, 7, 6, 5, 4, 3, 2, 1, 0]"
    );
}

#[test]
fn linked_stack_debug_of_empty() {
    assert_eq!(&LinkedStack::<u8>::new().debug_string(), "[]");
}

#[test]
fn linked_stack_clone() {
    let mut linked_stack = LinkedStack::new();
    for n in 0..10 {
        linked_stack.push(n)
    }

    let mut linked_stack_clone = linked_stack.clone();
    let mut iter = linked_stack_clone.iter_mut();
    while let Some(elem) = iter.next() {
        *elem += 1;
    }

    for n in (0..10).rev() {
        assert_eq!(linked_stack.pop(), Some(n));
        assert_eq!(linked_stack_clone.pop(), Some(n + 1));
    }
}

#[test]
fn linked_stack_clone_keeps_order_and_size() {
    let mut linked_stack = LinkedStack::new();
    for n in 0..5 {
        linked_stack.push(n * 3);
    }
    let copy = linked_stack.clone();
    assert_eq!(copy.len(), 5);
    assert!(copy == linked_stack);
    assert_eq!(copy.to_vec(), vec![&12, &9, &6, &3, &0]);
    assert!(LinkedStack::<i32>::new().clone().is_empty());
}

#[test]
fn linked_stack_drop() {
    let mut linked_stack = LinkedStack::new();
    let rc = std::rc::Rc::default();

    for n in 0..10 {
        linked_stack.push(DropCounter::new(&rc, vec![n]));
    }

    drop(linked_stack);
    assert_eq!(rc.get(), 10);
}

#[test]
fn linked_stack_drop_of_long_chain() {
    let mut linked_stack = LinkedStack::new();
    for n in 0..1_000_000u32 {
        linked_stack.push(n);
    }
    assert_eq!(linked_stack.len(), 1_000_000);
    drop(linked_stack);
}

#[test]
fn linked_stack_iter_simple() {
    let mut linked_stack = LinkedStack::new();
    for n in 0..10 {
        linked_stack.push(n);
    }

    let mut iter = linked_stack.iter();
    for n in (0..10).rev() {
        assert_eq!(iter.next(), Some(n).as_ref());
    }

    assert_eq!(iter.next(), None);
    drop(iter);

    for n in (0..10).rev() {
        assert_eq!(linked_stack.pop(), Some(n));
    }
    assert_eq!(linked_stack.pop(), None);
}

#[test]
fn linked_stack_iter_mut() {
    let mut linked_stack = LinkedStack::new();
    for n in 0..10 {
        linked_stack.push(n);
    }

    let mut iter = linked_stack.iter_mut();
    while let Some(node) = iter.next() {
        *node += 1;
    }

    for n in (0..10).rev() {
        assert_eq!(linked_stack.pop(), Some(n + 1));
    }
    assert_eq!(linked_stack.pop(), None);
}

#[test]
fn linked_stack_iter_mut_counts_and_ends() {
    let mut linked_stack = LinkedStack::new();
    linked_stack.push('a');
    linked_stack.push('b');
    let mut iter = linked_stack.iter_mut();
    assert_eq!(iter.pos, 0);
    assert_eq!(iter.next(), Some(&mut 'b'));
    assert_eq!(iter.pos, 1);
    assert_eq!(iter.next(), Some(&mut 'a'));
    assert_eq!(iter.pos, 2);
    assert_eq!(iter.next(), None);
    assert_eq!(iter.next(), None);
    assert_eq!(iter.pos, 2);
    assert_eq!(linked_stack.len(), 2);
}

#[test]
fn linked_stack_into_iter() {
    let mut linked_stack = LinkedStack::new();
    for n in 0..10 {
        linked_stack.push(n);
    }

    let mut iter = linked_stack.into_iter();
    for n in (0..10).rev() {
        assert_eq!(iter.next(), Some(n));
    }
    assert_eq!(iter.next(), None);
}

#[test]
fn linked_stack_into_iter_drops_what_is_left() {
    let rc = std::rc::Rc::default();
    let mut linked_stack = LinkedStack::new();
    for n in 0..4 {
        linked_stack.push(DropCounter::new(&rc, n));
    }
    let mut iter = linked_stack.into_iter();
    drop(iter.next());
    assert_eq!(rc.get(), 1);
    drop(iter);
    assert_eq!(rc.get(), 4);
}

#[test]
fn linked_stack_eq() {
    let mut a = LinkedStack::new();
    let mut b = LinkedStack::new();
    assert!(a == b);
    for n in 0..4 {
        a.push(n);
        b.push(n);
    }
    assert!(a == b);
    b.push(4);
    assert!(a != b);
    a.push(5);
    assert!(a != b);
    a.pop();
    a.push(4);
    assert!(a == b);
    *a.peek_mut().unwrap() = 9;
    assert!(a != b);
}

#[test]
fn linked_stack_eq_differs_below_the_top() {
    let mut a = LinkedStack::new();
    let mut b = LinkedStack::new();
    a.push(1);
    b.push(2);
    for n in 0..3 {
        a.push(n);
        b.push(n);
    }
    assert!(a != b);
    assert!(!(a == b));
}

#[test]
fn linked_stack_to_vec() {
    let mut linked_stack = LinkedStack::new();
    assert!(linked_stack.to_vec().is_empty());
    linked_stack.push("x");
    linked_stack.push("y");
    assert_eq!(linked_stack.to_vec(), vec![&"y", &"x"]);
}
