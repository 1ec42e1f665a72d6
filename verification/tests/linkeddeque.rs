use dsa::linkeddeque::LinkedDeque;
use dsa::util::DropCounter;

fn front_to_back<T: Copy>(deque: &LinkedDeque<T>) -> Vec<T> {
    let mut iter = deque.iter();
    let mut out = Vec::new();
    while let Some(elem) = iter.next() {
        out.push(*elem);
    }
    out
}

fn back_to_front<T: Copy>(deque: &LinkedDeque<T>) -> Vec<T> {
    let mut iter = deque.iter();
    let mut out = Vec::new();
    while let Some(elem) = iter.next_back() {
        out.push(*elem);
    }
    out
}

#[test]
fn deque_new_is_empty() {
    let mut deque = LinkedDeque::<i32>::new();
    assert_eq!(deque.len(), 0);
    assert!(deque.is_empty());
    assert_eq!(deque.peek_front(), None);
    assert_eq!(deque.peek_back(), None);
    assert!(deque.peek_front_mut().is_none());
    assert!(deque.peek_back_mut().is_none());
    assert_eq!(deque.pop_front(), None);
    assert_eq!(deque.pop_back(), None);
    assert_eq!(deque.pop(), None);
    assert_eq!(deque.len(), 0);
}

#[test]
fn deque_push_back_pop_front_scenario() {
    let mut deque = LinkedDeque::new();
    deque.push_back(1);
    deque.push_back(2);
    deque.push_back(3);
    assert_eq!(deque.pop_front(), Some(1));
    assert_eq!(deque.pop_front(), Some(2));
    assert_eq!(deque.pop_front(), Some(3));
    assert_eq!(deque.pop_front(), None);
}

#[test]
fn deque_mixed_pushes_pop_back_scenario() {
    let mut deque = LinkedDeque::new();
    deque.push_front(1);
    deque.push_front(2);
    deque.push_back(3);
    assert_eq!(front_to_back(&deque), vec![2, 1, 3]);
    assert_eq!(deque.pop_back(), Some(3));
    assert_eq!(deque.pop_back(), Some(1));
    assert_eq!(deque.pop_back(), Some(2));
    assert_eq!(deque.pop_back(), None);
}

#[test]
fn deque_push_and_pop_are_a_queue() {
    let mut deque = LinkedDeque::new();
    for n in 0..10 {
        deque.push(n);
    }
    assert_eq!(deque.peek_front(), Some(&0));
    assert_eq!(deque.peek_back(), Some(&9));
    for n in 0..10 {
        assert_eq!(deque.pop(), Some(n));
    }
    assert_eq!(deque.pop(), None);
}

#[test]
fn deque_fifo() {
    let mut deque = LinkedDeque::new();
    for n in 0..100 {
        deque.push_back(n);
    }
    for n in 0..100 {
        assert_eq!(deque.pop_front(), Some(n));
    }
    assert_eq!(deque.pop_front(), None);
    assert!(deque.is_empty());
}

#[test]
fn deque_lifo() {
    let mut deque = LinkedDeque::new();
    for n in 0..100 {
        deque.push_front(n);
    }
    for n in (0..100).rev() {
        assert_eq!(deque.pop_front(), Some(n));
    }
    assert_eq!(deque.pop_front(), None);
    assert!(deque.is_empty());
}

#[test]
fn deque_lifo_at_the_back() {
    let mut deque = LinkedDeque::new();
    for n in 0..100 {
        deque.push_back(n);
    }
    for n in (0..100).rev() {
        assert_eq!(deque.pop_back(), Some(n));
    }
    assert_eq!(deque.pop_back(), None);
}

#[test]
fn deque_walks_mirror_each_other() {
    let mut deque = LinkedDeque::new();
    for n in 0..20 {
        if n % 3 == 0 {
            deque.push_front(n);
        } else {
            deque.push_back(n * 10);
        }
    }
    let forward = front_to_back(&deque);
    let mut backward = back_to_front(&deque);
    assert_eq!(forward.len(), 20);
    backward.reverse();
    assert_eq!(forward, backward);
    assert_eq!(forward[0], 18);
    assert_eq!(forward[19], 190);
}

#[test]
fn deque_walks_mirror_after_pops() {
    let mut deque = LinkedDeque::new();
    for n in 0..8 {
        deque.push_back(n);
    }
    deque.pop_front();
    deque.pop_back();
    deque.push_front(100);
    deque.pop_back();
    deque.push_back(200);
    assert_eq!(front_to_back(&deque), vec![100, 1, 2, 3, 4, 5, 200]);
    assert_eq!(back_to_front(&deque), vec![200, 5, 4, 3, 2, 1, 100]);
}

#[test]
fn deque_size_follows_pushes_and_pops() {
    let mut deque = LinkedDeque::new();
    let mut pushes = 0;
    let mut pops = 0;
    for n in 0..50 {
        if n % 2 == 0 {
            deque.push_back(n);
        } else {
            deque.push_front(n);
        }
        pushes += 1;
        if n % 5 == 4 {
            assert!(deque.pop_front().is_some());
            assert!(deque.pop_back().is_some());
            pops += 2;
        }
        assert_eq!(deque.len(), pushes - pops);
    }
    assert_eq!(deque.len(), 30);
    while deque.pop_back().is_some() {
        pops += 1;
        assert_eq!(deque.len(), pushes - pops);
    }
    assert_eq!(pops, pushes);
    assert_eq!(deque.pop_front(), None);
    assert_eq!(deque.len(), 0);
    assert_eq!(deque.pop_back(), None);
    assert_eq!(deque.len(), 0);
}

#[test]
fn deque_single_element_leaves_both_ends_empty() {
    let mut deque = LinkedDeque::new();
    deque.push_front('x');
    assert_eq!(deque.peek_front(), Some(&'x'));
    assert_eq!(deque.peek_back(), Some(&'x'));
    assert_eq!(deque.pop_back(), Some('x'));
    assert_eq!(deque.peek_front(), None);
    assert_eq!(deque.peek_back(), None);
    deque.push_back('y');
    assert_eq!(deque.pop_front(), Some('y'));
    assert_eq!(deque.peek_front(), None);
    assert_eq!(deque.peek_back(), None);
    assert!(deque.is_empty());
}

#[test]
fn deque_reuses_slots_of_popped_nodes() {
    let mut deque = LinkedDeque::new();
    for round in 0..1000 {
        deque.push_back(round);
        deque.push_front(round + 1);
        deque.push_back(round + 2);
        assert_eq!(deque.pop_front(), Some(round + 1));
        assert_eq!(deque.pop_back(), Some(round + 2));
        assert_eq!(deque.pop_front(), Some(round));
        assert_eq!(deque.pop_front(), None);
    }
    for n in 0..5 {
        deque.push_back(n);
    }
    assert_eq!(deque.pop_front(), Some(0));
    assert_eq!(deque.pop_back(), Some(4));
    deque.push_front(9);
    deque.push_back(8);
    assert_eq!(front_to_back(&deque), vec![9, 1, 2, 3, 8]);
    assert_eq!(back_to_front(&deque), vec![8, 3, 2, 1, 9]);
}

#[test]
fn deque_peek_does_not_change_the_size() {
    let mut deque = LinkedDeque::new();
    deque.push_back(1);
    deque.push_back(2);
    assert_eq!(deque.peek_front(), Some(&1));
    assert_eq!(deque.peek_back(), Some(&2));
    assert_eq!(deque.len(), 2);
    assert_eq!(deque.peek_front_mut(), Some(&mut 1));
    assert_eq!(deque.peek_back_mut(), Some(&mut 2));
    assert_eq!(deque.len(), 2);
}

#[test]
fn deque_peek_mut_writes_through() {
    let mut deque = LinkedDeque::new();
    for n in 0..4 {
        deque.push_back(n);
    }
    *deque.peek_front_mut().unwrap() += 10;
    *deque.peek_back_mut().unwrap() += 20;
    assert_eq!(front_to_back(&deque), vec![10, 1, 2, 23]);
    assert_eq!(deque.pop_front(), Some(10));
    assert_eq!(deque.pop_back(), Some(23));
}

#[test]
fn deque_exclusive_view_can_be_taken_again_once_released() {
    let mut deque = LinkedDeque::new();
    deque.push_back(String::from("a"));
    {
        let first = deque.peek_front_mut().unwrap();
        first.push('b');
    }
    {
        let second = deque.peek_front_mut().unwrap();
        second.push('c');
    }
    {
        let shared_one = deque.peek_front().unwrap();
        let shared_two = deque.peek_back().unwrap();
        assert_eq!(shared_one, shared_two);
    }
    let at_back = deque.peek_back_mut().unwrap();
    at_back.push('d');
    assert_eq!(deque.pop_front(), Some(String::from("abcd")));
}

#[test]
fn deque_into_iter_forward() {
    let mut deque = LinkedDeque::new();
    for n in 0..5 {
        deque.push_back(n);
    }
    let mut iter = deque.into_iter();
    for n in 0..5 {
        assert_eq!(iter.next(), Some(n));
    }
    assert_eq!(iter.next(), None);
    assert_eq!(iter.next_back(), None);
}

#[test]
fn deque_into_iter_backward() {
    let mut deque = LinkedDeque::new();
    for n in 0..5 {
        deque.push_back(n);
    }
    let mut iter = deque.into_iter();
    for n in (0..5).rev() {
        assert_eq!(iter.next_back(), Some(n));
    }
    assert_eq!(iter.next_back(), None);
    assert_eq!(iter.next(), None);
}

#[test]
fn deque_into_iter_meets_in_the_middle() {
    let mut deque = LinkedDeque::new();
    for n in 1..=5 {
        deque.push_back(n);
    }
    let mut iter = deque.into_iter();
    assert_eq!(iter.next(), Some(1));
    assert_eq!(iter.next_back(), Some(5));
    assert_eq!(iter.next_back(), Some(4));
    assert_eq!(iter.next(), Some(2));
    assert_eq!(iter.next(), Some(3));
    assert_eq!(iter.next(), None);
    assert_eq!(iter.next_back(), None);
}

#[test]
fn deque_iter_meets_in_the_middle_and_can_start_again() {
    let mut deque = LinkedDeque::new();
    for n in 1..=4 {
        deque.push_back(n);
    }
    let mut iter = deque.iter();
    assert_eq!(iter.next(), Some(&1));
    assert_eq!(iter.next_back(), Some(&4));
    assert_eq!(iter.next(), Some(&2));
    assert_eq!(iter.next_back(), Some(&3));
    assert_eq!(iter.next(), None);
    assert_eq!(iter.next_back(), None);
    let mut again = deque.iter();
    assert_eq!(again.next(), Some(&1));
    assert_eq!(deque.len(), 4);
}

#[test]
fn deque_iter_of_empty() {
    let deque = LinkedDeque::<u8>::new();
    let mut iter = deque.iter();
    assert_eq!(iter.next(), None);
    assert_eq!(iter.next_back(), None);
}

#[test]
fn deque_drop_releases_every_element_once() {
    let rc = std::rc::Rc::default();
    let mut deque = LinkedDeque::new();
    for n in 0..10 {
        deque.push_back(DropCounter::new(&rc, n));
    }
    assert_eq!(rc.get(), 0);
    drop(deque);
    assert_eq!(rc.get(), 10);
}

#[test]
fn deque_drop_after_pops_releases_what_is_left() {
    let rc = std::rc::Rc::default();
    let mut deque = LinkedDeque::new();
    for n in 0..10 {
        if n % 2 == 0 {
            deque.push_back(DropCounter::new(&rc, n));
        } else {
            deque.push_front(DropCounter::new(&rc, n));
        }
    }
    let kept = deque.pop_front().unwrap();
    drop(deque.pop_back());
    assert_eq!(rc.get(), 1);
    deque.push_back(DropCounter::new(&rc, 10));
    drop(deque.pop_front());
    assert_eq!(rc.get(), 2);
    drop(deque);
    assert_eq!(rc.get(), 10);
    drop(kept);
    assert_eq!(rc.get(), 11);
}

#[test]
fn deque_drop_of_emptied_deque_releases_nothing_twice() {
    let rc = std::rc::Rc::default();
    let mut deque = LinkedDeque::new();
    for n in 0..3 {
        deque.push_front(DropCounter::new(&rc, n));
    }
    while let Some(elem) = deque.pop_back() {
        drop(elem);
    }
    assert_eq!(rc.get(), 3);
    drop(deque);
    assert_eq!(rc.get(), 3);
}

#[test]
fn deque_into_iter_drop_releases_what_was_not_handed_out() {
    let rc = std::rc::Rc::default();
    let mut deque = LinkedDeque::new();
    for n in 0..6 {
        deque.push_back(DropCounter::new(&rc, n));
    }
    let mut iter = deque.into_iter();
    drop(iter.next());
    drop(iter.next_back());
    assert_eq!(rc.get(), 2);
    drop(iter);
    assert_eq!(rc.get(), 6);
}

#[test]
fn deque_drop_of_long_chain() {
    let mut deque = LinkedDeque::new();
    for n in 0..1_000_000u32 {
        deque.push_back(n);
    }
    assert_eq!(deque.len(), 1_000_000);
    drop(deque);
}
