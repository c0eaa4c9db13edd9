use broadcast_ring::cursor::QueueClient;

fn get_incrementor() -> impl Iterator<Item = u32> {
    std::iter::successors(Some(1), |n| Some(n + 1))
}

#[derive(Debug, Default, Clone)]
struct Chomp(Option<u32>);

impl Chomp {
    fn eat(&mut self, u: u32) {
        println!("{:?}", (u, self.0));
        match self.0 {
            None => (),
            Some(x) if x == u - 1 => (),
            Some(_) => panic!(),
        }
        self.0 = Some(u);
    }
}

fn write(q: &QueueClient<u32>, data_iter: &mut impl Iterator<Item = u32>, n: u32) {
    for _ in 0..n {
        q.push(data_iter.next().unwrap());
    }
}

fn read(q: &mut QueueClient<u32>, ch: &mut Chomp, n: u32) {
    for _ in 0..n {
        ch.eat(q.next_blocking());
    }
}

#[test]
fn single_threaded_single_client() {
    let q = &mut QueueClient::new_queue(100);
    let di = &mut get_incrementor();
    let ch = &mut Chomp::default();
    write(q, di, 20);
    read(q, ch, 20);
    write(q, di, 30);
    read(q, ch, 20);
    write(q, di, 40);
    read(q, ch, 50);
    assert_eq!(q.next(), None);
    write(q, di, 1);
    read(q, ch, 1);
}

#[test]
fn single_threaded_multi_client() {
    let q1 = &mut QueueClient::new_queue(100);
    let q2 = &mut Clone::clone(q1);
    let di = &mut get_incrementor();
    let c1 = &mut Chomp::default();
    let c2 = &mut Chomp::default();

    // each cursor on its own
    write(q1, di, 20);
    read(q1, c1, 20);
    read(q2, c2, 20);

    // taking turns
    write(q1, di, 20);
    read(q2, c2, 20);
    write(q2, di, 20);
    read(q1, c1, 20);
    read(q2, c2, 20);
    read(q1, c1, 20);

    assert_eq!(q1.next(), None);
    write(q1, di, 1);
    read(q1, c1, 1);
    read(q2, c2, 1);

    assert_eq!(q2.next(), None);
    write(q2, di, 1);
    read(q2, c2, 1);
    read(q1, c1, 1);

    assert_eq!(q2.next(), None);
    assert_eq!(q1.next(), None);

    write(q1, di, 500);
    // 562 written so far; a catch-up with margin 1 lands 127 behind the
    // write pointer
    assert_eq!(q2.next(), Some(62 + 500 - 127 + 1));
    assert_eq!(q1.latest(), 62 + 500);
}
