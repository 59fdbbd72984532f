use wlz::wrapper::wl::{ListPool, Listener, Signal};

struct Data {
    a: u32,
    b: usize,
    c: Box<u32>,
}

impl Data {
    fn selftest(&self) {
        assert_eq!(self.a, 0);
        assert_eq!(self.b, 1);
        assert_eq!(*self.c, 2);
    }
}

const WITH_DATA_TEST_CB: u64 = 1;
const WITHOUT_DATA_TEST_CB: u64 = 2;
const DESTROY_CB: u64 = 3;

struct ListenerTest {
    num_a: u32,
    num_b: u32,
    with_data_test: Option<Listener<Data>>,
    without_data_test: Option<Listener<()>>,
    destroy: Option<Listener<()>>,
    num_c: u32,
    num_d: u32,
    counter: u32,
}

impl ListenerTest {
    /// The listeners get their callbacks first, then the fields are set.
    fn initialize(pool: &mut ListPool) -> ListenerTest {
        let with_data_test = Listener::empty(pool);
        with_data_test.init(pool, WITH_DATA_TEST_CB);
        let without_data_test = Listener::empty(pool);
        without_data_test.init(pool, WITHOUT_DATA_TEST_CB);
        let destroy = Listener::empty(pool);
        destroy.init(pool, DESTROY_CB);
        let mut lt = ListenerTest {
            num_a: 9,
            num_b: 9,
            with_data_test: Some(with_data_test),
            without_data_test: Some(without_data_test),
            destroy: Some(destroy),
            num_c: 9,
            num_d: 9,
            counter: 9,
        };
        lt.init();
        lt
    }

    fn init(&mut self) {
        self.num_a = 0;
        self.num_b = 1;
        self.num_c = 2;
        self.num_d = 3;
        self.reset_counter();
    }

    fn selftest(&self) {
        assert_eq!(self.num_a, 0);
        assert_eq!(self.num_b, 1);
        assert_eq!(self.num_c, 2);
        assert_eq!(self.num_d, 3);
    }

    fn reset_counter(&mut self) {
        self.counter = 0;
    }

    fn increment_counter(&mut self) {
        self.counter += 1;
    }

    fn with_data_test_cb(&mut self, data: &mut Data) {
        self.selftest();
        data.selftest();
    }

    fn without_data_test_cb(&mut self) {
        self.selftest();
        self.increment_counter();
    }

    /// Dropping the object drops its listeners, which leave their signals.
    fn destroy_cb(&mut self, pool: &mut ListPool) {
        self.with_data_test.take().unwrap().release(pool);
        self.without_data_test.take().unwrap().release(pool);
        self.destroy.take().unwrap().release(pool);
    }

    /// What the trampolines do: call the callback that the listener names.
    fn dispatch(&mut self, pool: &mut ListPool, notify: u64) -> u64 {
        match notify {
            WITHOUT_DATA_TEST_CB => self.without_data_test_cb(),
            DESTROY_CB => self.destroy_cb(pool),
            _ => panic!("unexpected listener"),
        }
        notify
    }
}

fn emit_all(signal: &Signal<()>, pool: &mut ListPool, lt: &mut ListenerTest) -> Vec<u64> {
    let em = signal.emit(pool);
    let mut called = Vec::new();
    while let Some((_link, notify)) = em.next(pool) {
        called.push(lt.dispatch(pool, notify));
    }
    called
}

#[test]
fn trampoline_test() {
    // setup
    let mut pool = ListPool::new();
    let mut lt = ListenerTest::initialize(&mut pool);
    let signal = Signal::<()>::empty(&mut pool);
    signal.init(&mut pool);
    signal.add(&mut pool, lt.without_data_test.as_ref().unwrap());

    // do emit signal to do method call
    let called = emit_all(&signal, &mut pool, &mut lt);
    assert_eq!(called, vec![WITHOUT_DATA_TEST_CB]);
}

#[test]
fn multiple_listener_calls() {
    let mut pool = ListPool::new();
    let mut lt = ListenerTest::initialize(&mut pool);
    let signal = Signal::<()>::empty(&mut pool);
    signal.init(&mut pool);
    signal.add(&mut pool, lt.without_data_test.as_ref().unwrap());

    // do emit signal to do method call
    for _ in 0..7 {
        emit_all(&signal, &mut pool, &mut lt);
    }

    assert_eq!(lt.counter, 7);
}

#[test]
fn trampoline_with_data() {
    let mut pool = ListPool::new();
    let mut lt = ListenerTest::initialize(&mut pool);
    let signal = Signal::<Data>::empty(&mut pool);
    signal.init(&mut pool);
    signal.add(&mut pool, lt.with_data_test.as_ref().unwrap());

    let mut data = Data { a: 0, b: 1, c: Box::new(2) };

    // do emit signal to do method call
    let em = signal.emit_arg(&mut pool);
    let mut calls = 0;
    while let Some((_link, notify)) = em.next(&mut pool) {
        assert_eq!(notify, WITH_DATA_TEST_CB);
        lt.with_data_test_cb(&mut data);
        calls += 1;
    }
    assert_eq!(calls, 1);
}

#[test]
fn destruction_pattern() {
    let mut pool = ListPool::new();
    let mut lt = ListenerTest::initialize(&mut pool);
    let signal = Signal::<()>::empty(&mut pool);
    signal.init(&mut pool);
    signal.add(&mut pool, lt.destroy.as_ref().unwrap());

    // do emit signal to do method call
    let called = emit_all(&signal, &mut pool, &mut lt);
    assert_eq!(called, vec![DESTROY_CB]);

    // Dropping the object dropped its lists, which took them out of the
    // signal: emitting again calls nothing.
    let called = emit_all(&signal, &mut pool, &mut lt);
    assert!(called.is_empty());
}
