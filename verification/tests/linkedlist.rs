use dsa::linkedlist::linkedstack::LinkedStack;
use dsa::util::DropCounter;

#[test]
fn plain_stack_push_pop() {
    let mut stack = LinkedStack::new();
    assert_eq!(stack.pop(), None);
    for n in 0..10 {
        stack.push(n);
    }
    for n in (0..10).rev() {
        assert_eq!(stack.pop(), Some(n));
    }
    assert_eq!(stack.pop(), None);
}

#[test]
fn plain_stack_peek() {
    let mut stack = LinkedStack::new();
    assert_eq!(stack.peek(), None);
    for n in 0..10 {
        stack.push(n);
        assert_eq!(stack.peek(), Some(&n));
    }
}

#[test]
fn plain_stack_peek_mut() {
    let mut stack = LinkedStack::new();
    assert!(stack.peek_mut().is_none());
    for n in 0..10 {
        stack.push(n);
        *stack.peek_mut().unwrap() += 1;
        assert_eq!(stack.peek(), Some(&(n + 1)));
    }
    assert_eq!(stack.pop(), Some(10));
    assert_eq!(stack.pop(), Some(9));
}

#[test]
fn plain_stack_iter() {
    let mut stack = LinkedStack::new();
    for n in 0..3 {
        stack.push(n);
    }
    let mut iter = stack.iter();
    assert_eq!(iter.next(), Some(&2));
    assert_eq!(iter.next(), Some(&1));
    assert_eq!(iter.next(), Some(&0));
    assert_eq!(iter.next(), None);
    assert_eq!(stack.pop(), Some(2));
}

#[test]
fn plain_stack_iter_mut() {
    let mut stack = LinkedStack::new();
    for n in 0..10 {
        stack.push(n);
    }
    let mut iter = stack.iter_mut();
    while let Some(elem) = iter.next() {
        *elem *= 2;
    }
    assert_eq!(iter.pos, 10);
    for n in (0..10).rev() {
        assert_eq!(stack.pop(), Some(n * 2));
    }
    assert_eq!(stack.pop(), None);
}

#[test]
fn plain_stack_iter_mut_on_empty() {
    let mut stack = LinkedStack::<u8>::new();
    let mut iter = stack.iter_mut();
    assert_eq!(iter.next(), None);
    assert_eq!(iter.pos, 0);
}

#[test]
fn plain_stack_into_iter() {
    let mut stack = LinkedStack::new();
    for n in 0..10 {
        stack.push(n);
    }
    let mut iter = stack.into_iter();
    for n in (0..10).rev() {
        assert_eq!(iter.next(), Some(n));
    }
    assert_eq!(iter.next(), None);
}

#[test]
fn plain_stack_drop() {
    let rc = std::rc::Rc::default();
    let mut stack = LinkedStack::new();
    for n in 0..10 {
        stack.push(DropCounter::new(&rc, n));
    }
    drop(stack.pop());
    assert_eq!(rc.get(), 1);
    drop(stack);
    assert_eq!(rc.get(), 10);
}

#[test]
fn plain_stack_drop_of_long_chain() {
    let mut stack = LinkedStack::new();
    for n in 0..1_000_000u32 {
        stack.push(n);
    }
    drop(stack);
}
