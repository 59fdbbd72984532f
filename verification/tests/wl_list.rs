use wlz::wrapper::wl::{Link, List, ListPool, Listener, Signal};

fn listener(pool: &mut ListPool, notify: u64) -> Listener<()> {
    let l = Listener::empty(pool);
    l.init(pool, notify);
    l
}

fn notified(signal: &Signal<()>, pool: &mut ListPool) -> Vec<u64> {
    let em = signal.emit(pool);
    let mut out = Vec::new();
    while let Some((_link, notify)) = em.next(pool) {
        out.push(notify);
    }
    out
}

/// The nodes of the ring of `i`, read along the `next` links.
fn ring(pool: &ListPool, i: usize) -> Vec<usize> {
    let mut out = vec![i];
    let mut cur = pool.get_link(i).next.unwrap();
    while cur != i {
        out.push(cur);
        cur = pool.get_link(cur).next.unwrap();
    }
    out
}

#[test]
fn signal_notifies_in_order_of_adding() {
    let mut pool = ListPool::new();
    let signal = Signal::<()>::empty(&mut pool);
    signal.init(&mut pool);
    let a = listener(&mut pool, 10);
    let b = listener(&mut pool, 20);
    let c = listener(&mut pool, 30);
    signal.add(&mut pool, &a);
    signal.add(&mut pool, &b);
    signal.add(&mut pool, &c);
    assert_eq!(notified(&signal, &mut pool), vec![10, 20, 30]);
    assert_eq!(ring(&pool, signal.node()), vec![signal.node(), a.node(), b.node(), c.node()]);
}

#[test]
fn emission_gives_listener_nodes() {
    let mut pool = ListPool::new();
    let signal = Signal::<()>::empty(&mut pool);
    signal.init(&mut pool);
    let a = listener(&mut pool, 10);
    signal.add(&mut pool, &a);
    let em = signal.emit(&mut pool);
    assert_eq!(em.next(&mut pool), Some((a.node(), 10)));
    assert_eq!(em.next(&mut pool), None);
    // the cursor and end nodes are out of the ring again
    assert_eq!(ring(&pool, signal.node()), vec![signal.node(), a.node()]);
}

#[test]
fn empty_signal_notifies_nobody() {
    let mut pool = ListPool::new();
    let signal = Signal::<()>::empty(&mut pool);
    signal.init(&mut pool);
    assert!(notified(&signal, &mut pool).is_empty());
}

#[test]
fn add_then_release_restores_listeners() {
    let mut pool = ListPool::new();
    let signal = Signal::<()>::empty(&mut pool);
    signal.init(&mut pool);
    let a = listener(&mut pool, 1);
    signal.add(&mut pool, &a);
    let before = ring(&pool, signal.node());
    let b = listener(&mut pool, 2);
    signal.add(&mut pool, &b);
    assert_eq!(notified(&signal, &mut pool), vec![1, 2]);
    b.release(&mut pool);
    assert_eq!(ring(&pool, signal.node()), before);
    assert_eq!(notified(&signal, &mut pool), vec![1]);
}

#[test]
fn release_during_emission_skips_listener() {
    let mut pool = ListPool::new();
    let signal = Signal::<()>::empty(&mut pool);
    signal.init(&mut pool);
    let a = listener(&mut pool, 1);
    let b = listener(&mut pool, 2);
    let c = listener(&mut pool, 3);
    signal.add(&mut pool, &a);
    signal.add(&mut pool, &b);
    signal.add(&mut pool, &c);
    let em = signal.emit(&mut pool);
    let mut out = Vec::new();
    let mut c = Some(c);
    while let Some((_link, notify)) = em.next(&mut pool) {
        out.push(notify);
        if notify == 1 {
            c.take().unwrap().release(&mut pool);
        }
    }
    assert_eq!(out, vec![1, 2]);
}

#[test]
fn add_during_emission_waits_for_next_emission() {
    let mut pool = ListPool::new();
    let signal = Signal::<()>::empty(&mut pool);
    signal.init(&mut pool);
    let a = listener(&mut pool, 1);
    signal.add(&mut pool, &a);
    let d = listener(&mut pool, 4);
    let em = signal.emit(&mut pool);
    let mut out = Vec::new();
    while let Some((_link, notify)) = em.next(&mut pool) {
        out.push(notify);
        signal.add(&mut pool, &d);
    }
    assert_eq!(out, vec![1]);
    assert_eq!(notified(&signal, &mut pool), vec![1, 4]);
}

#[test]
fn listener_new_has_uninitialised_link() {
    let mut pool = ListPool::new();
    let signal = Signal::<()>::empty(&mut pool);
    signal.init(&mut pool);
    let l: Listener<()> = Listener::new(&mut pool, 7);
    assert_eq!(pool.get_link(l.node()), Link { prev: None, next: None });
    signal.add(&mut pool, &l);
    assert_eq!(notified(&signal, &mut pool), vec![7]);
}

#[test]
fn list_links_are_null_then_a_ring_then_null() {
    let mut pool = ListPool::new();
    let head = List::empty(&mut pool);
    let h = head.node();
    assert_eq!(pool.get_link(h), Link { prev: None, next: None });
    head.init(&mut pool);
    assert_eq!(pool.get_link(h), Link { prev: Some(h), next: Some(h) });
    let x = List::empty(&mut pool);
    let xn = x.node();
    head.insert(&mut pool, &x);
    assert_eq!(pool.get_link(xn), Link { prev: Some(h), next: Some(h) });
    assert_eq!(pool.get_link(h), Link { prev: Some(xn), next: Some(xn) });
    x.release(&mut pool);
    assert_eq!(pool.get_link(xn), Link { prev: None, next: None });
    assert_eq!(pool.get_link(h), Link { prev: Some(h), next: Some(h) });
}

#[test]
fn list_insert_goes_right_after() {
    let mut pool = ListPool::new();
    let head = List::empty(&mut pool);
    head.init(&mut pool);
    let x = List::empty(&mut pool);
    let y = List::empty(&mut pool);
    head.insert(&mut pool, &x);
    head.insert(&mut pool, &y);
    assert_eq!(ring(&pool, head.node()), vec![head.node(), y.node(), x.node()]);
    assert_eq!(pool.len(), 3);
}

#[test]
fn init_of_a_linked_list_only_changes_its_own_links() {
    let mut pool = ListPool::new();
    let head = List::empty(&mut pool);
    head.init(&mut pool);
    let a = List::empty(&mut pool);
    head.insert(&mut pool, &a);
    let h = head.node();
    let n = a.node();
    assert_eq!(pool.get_link(h), Link { prev: Some(n), next: Some(n) });
    a.init(&mut pool);
    assert_eq!(pool.get_link(n), Link { prev: Some(n), next: Some(n) });
    // the head still points at the re-initialised node
    assert_eq!(pool.get_link(h), Link { prev: Some(n), next: Some(n) });
}

#[test]
fn init_of_a_lone_list_keeps_it_empty() {
    let mut pool = ListPool::new();
    let signal = Signal::<()>::empty(&mut pool);
    signal.init(&mut pool);
    signal.init(&mut pool);
    let s = signal.node();
    assert_eq!(pool.get_link(s), Link { prev: Some(s), next: Some(s) });
    assert_eq!(notified(&signal, &mut pool), Vec::<u64>::new());
}
