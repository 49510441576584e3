use cycler::atomic_cycler::{build_multiple_reader, build_single_reader};
use cycler::{ReadAccess, StaticRefHolder, WriteAccess};

#[derive(Clone, Eq, PartialEq, Debug)]
struct TestData {
    test1: usize,
    test2: String,
    test3: Box<usize>,
}

impl Default for TestData {
    fn default() -> Self {
        Self { test1: 0, test2: "Start".to_string(), test3: Box::new(100) }
    }
}

impl ReadAccess for TestData {
    type Read = Self;

    fn read_view(self) -> Self {
        self
    }

    fn read_data(&self) -> &Self::Read {
        self
    }
}

impl WriteAccess for TestData {
    type Write = Self;

    fn write_view(self) -> Self {
        self
    }

    fn write_data(&self) -> &Self::Write {
        self
    }

    fn write_data_mut(&mut self) -> &mut Self::Write {
        self
    }
}

/// A stored type whose read view is a strict subset of its write view: the
/// writer sees the whole record, readers only the body.
#[derive(Clone, PartialEq, Debug)]
struct Doc {
    body: String,
    revisions: usize,
}

impl ReadAccess for Doc {
    type Read = String;

    fn read_view(self) -> String {
        self.body
    }

    fn read_data(&self) -> &String {
        &self.body
    }
}

impl WriteAccess for Doc {
    type Write = Self;

    fn write_view(self) -> Self {
        self
    }

    fn write_data(&self) -> &Self {
        self
    }

    fn write_data_mut(&mut self) -> &mut Self {
        self
    }
}

#[test]
fn default_test() {
    let (mut cycler, mut writer, mut reader) =
        build_single_reader((TestData::default(), TestData::default(), TestData::default()));
    assert_eq!(writer.currently_writing(), 1);
    assert_eq!(cycler.len(), 3);
    assert_eq!(cycler.num_readers(), 1);
    assert_eq!(cycler.most_up_to_date(), 0);
    let new_data = TestData { test1: 100, test2: "Test2".to_string(), test3: Box::new(1002) };
    writer.write_data_mut(&mut cycler).clone_from(&new_data);
    assert_eq!(*reader.read_data(&cycler), TestData::default());
    writer.write_next(&mut cycler);
    assert_eq!(cycler.most_up_to_date(), 1);
    assert_eq!(writer.currently_writing(), 2);
    assert_eq!(*writer.write_data(&cycler), new_data);
    assert_eq!(*reader.read_data(&cycler), TestData::default());
    reader.read_latest(&mut cycler);
    assert_eq!(*reader.read_data(&cycler), new_data);
    reader.read_latest(&mut cycler);
    assert_eq!(*reader.read_data(&cycler), new_data);
}

#[test]
fn mod_default_test() {
    let (mut cycler, mut writer, mut reader) =
        cycler::build_single_reader((TestData::default(), TestData::default(), TestData::default()));
    assert_eq!(writer.currently_writing(), 1);
    assert_eq!(cycler.len(), 3);
    assert_eq!(cycler.num_readers(), 1);
    assert_eq!(cycler.most_up_to_date(), 0);
    let new_data = TestData { test1: 100, test2: "Test2".to_string(), test3: Box::new(1002) };
    writer.write_data_mut(&mut cycler).clone_from(&new_data);
    assert_eq!(*reader.read_data(&cycler), TestData::default());
    writer.write_next(&mut cycler);
    assert_eq!(cycler.most_up_to_date(), 1);
    assert_eq!(writer.currently_writing(), 2);
    assert_eq!(*writer.write_data(&cycler), new_data);
    assert_eq!(*reader.read_data(&cycler), TestData::default());
    reader.read_latest(&mut cycler);
    assert_eq!(*reader.read_data(&cycler), new_data);
    reader.read_latest(&mut cycler);
    assert_eq!(*reader.read_data(&cycler), new_data);
}

#[test]
fn multi_reader_publication_count() {
    let (mut cycler, mut writer, mut readers) = build_multiple_reader(vec![0usize; 5]);
    assert_eq!(readers.len(), 3);
    assert_eq!(cycler.num_readers(), 3);
    let mut prev_recent = cycler.most_up_to_date();
    for k in 1..=10usize {
        *writer.write_data_mut(&mut cycler) = k;
        writer.write_next(&mut cycler);
        let recent = cycler.most_up_to_date();
        assert_ne!(recent, prev_recent);
        assert!((recent as usize) < 5);
        prev_recent = recent;
        for reader in readers.iter_mut() {
            reader.read_latest(&mut cycler);
            assert_eq!(*reader.read_data(&cycler), k);
        }
    }
}

#[test]
fn lagging_reader_keeps_original_value() {
    let (mut cycler, mut writer, reader) =
        build_single_reader(("orig".to_string(), "orig".to_string(), "orig".to_string()));
    let mut touched = [false, false, false];
    for k in 1..=6usize {
        *writer.write_data_mut(&mut cycler) = format!("v{}", k);
        let before = writer.currently_writing();
        writer.write_next(&mut cycler);
        let after = writer.currently_writing();
        assert_ne!(before, after);
        touched[after as usize] = true;
    }
    assert!(touched[1] && touched[2]);
    assert!(!touched[0]);
    assert_eq!(*reader.read_data(&cycler), "orig");
}

#[test]
fn projection_round_trip() {
    let (mut cycler, mut writer, mut reader) = build_single_reader((
        Doc { body: "a".to_string(), revisions: 0 },
        Doc { body: "a".to_string(), revisions: 0 },
        Doc { body: "a".to_string(), revisions: 0 },
    ));
    {
        let buffer = writer.write_data_mut(&mut cycler);
        buffer.body = "committed".to_string();
        buffer.revisions = 41;
    }
    writer.write_next(&mut cycler);
    reader.read_latest(&mut cycler);
    assert_eq!(*reader.read_data(&cycler), "committed");
    {
        let buffer = writer.write_data_mut(&mut cycler);
        buffer.body = "in progress".to_string();
        buffer.revisions = 42;
    }
    assert_eq!(*reader.read_data(&cycler), "committed");
    writer.write_next(&mut cycler);
    assert_eq!(*reader.read_data(&cycler), "committed");
    reader.read_latest(&mut cycler);
    assert_eq!(*reader.read_data(&cycler), "in progress");
}

#[test]
fn reader_sees_monotone_sequence() {
    let (mut cycler, mut writer, mut reader) = build_single_reader((0usize, 0usize, 0usize));
    let mut last_seen = 0usize;
    for k in 1..=7usize {
        *writer.write_data_mut(&mut cycler) = k;
        writer.write_next(&mut cycler);
        if k % 2 == 0 {
            reader.read_latest(&mut cycler);
            let seen = *reader.read_data(&cycler);
            assert!(seen >= last_seen);
            assert_eq!(seen, k);
            last_seen = seen;
        }
    }
}

#[test]
fn snapshot_stable_between_switches() {
    let (mut cycler, mut writer, mut reader) = build_single_reader((10usize, 10usize, 10usize));
    reader.read_latest(&mut cycler);
    let before = *reader.read_data(&cycler);
    *writer.write_data_mut(&mut cycler) = 77;
    writer.write_next(&mut cycler);
    *writer.write_data_mut(&mut cycler) = 88;
    writer.write_next(&mut cycler);
    assert_eq!(*reader.read_data(&cycler), before);
    reader.read_latest(&mut cycler);
    assert_eq!(*reader.read_data(&cycler), 88);
}

#[test]
fn smallest_and_largest_pools() {
    let (mut small, mut w_small, mut r_small) = build_multiple_reader(vec![1usize, 1, 1]);
    assert_eq!(small.num_readers(), 1);
    *w_small.write_data_mut(&mut small) = 2;
    w_small.write_next(&mut small);
    r_small[0].read_latest(&mut small);
    assert_eq!(*r_small[0].read_data(&small), 2);

    let (mut large, mut w_large, mut r_large) = build_multiple_reader(vec![0usize; 255]);
    assert_eq!(large.num_readers(), 253);
    assert_eq!(r_large.len(), 253);
    *w_large.write_data_mut(&mut large) = 5;
    w_large.write_next(&mut large);
    for reader in r_large.iter_mut() {
        reader.read_latest(&mut large);
        assert_eq!(*reader.read_data(&large), 5);
    }
}

#[test]
fn publish_with_explicit_copy_functions() {
    let (mut cycler, mut writer, mut reader) = build_single_reader((1usize, 1usize, 1usize));
    *writer.write_data_mut(&mut cycler) = 2;
    writer.write_next_fn(&mut cycler, |x: &usize| *x);
    reader.read_latest(&mut cycler);
    assert_eq!(*reader.read_data(&cycler), 2);
    assert_eq!(*writer.write_data(&cycler), 2);

    *writer.write_data_mut(&mut cycler) = 3;
    writer.write_next_fn_impl(&mut cycler, |x: &usize| x + 10);
    reader.read_latest(&mut cycler);
    assert_eq!(*reader.read_data(&cycler), 3);
    assert_eq!(*writer.write_data(&cycler), 13);

    *writer.write_data_mut(&mut cycler) = 4;
    writer.write_next_mut_fn(&mut cycler, |x: &usize| (*x, x + 100));
    reader.read_latest(&mut cycler);
    assert_eq!(*reader.read_data(&cycler), 104);
    assert_eq!(*writer.write_data(&cycler), 4);

    *writer.write_data_mut(&mut cycler) = 6;
    writer.write_next_mut_fn_impl(&mut cycler, |x: &usize| (x + 1, *x));
    reader.read_latest(&mut cycler);
    assert_eq!(*reader.read_data(&cycler), 6);
    assert_eq!(*writer.write_data(&cycler), 7);
}

#[test]
fn convenience_builders() {
    let (mut cycler, mut writer, mut reader) =
        cycler::build_single_reader_cloned("seed".to_string());
    assert_eq!(cycler.len(), 3);
    assert_eq!(*reader.read_data(&cycler), "seed");
    *writer.write_data_mut(&mut cycler) = "next".to_string();
    writer.write_next(&mut cycler);
    reader.read_latest(&mut cycler);
    assert_eq!(*reader.read_data(&cycler), "next");

    let (cycler2, writer2, readers2) = cycler::build_multiple_reader_cloned(9usize, 3);
    assert_eq!(cycler2.len(), 5);
    assert_eq!(readers2.len(), 3);
    assert_eq!(*writer2.write_data(&cycler2), 9);

    let (cycler3, _writer3, reader3) = cycler::build_single_reader_default::<usize>();
    assert_eq!(*reader3.read_data(&cycler3), 0);

    let (cycler4, _writer4, readers4) = cycler::build_multiple_reader_default::<usize>(2);
    assert_eq!(cycler4.len(), 4);
    assert_eq!(*readers4[0].read_data(&cycler4), 0);
}

#[test]
fn holder_keeps_value() {
    let holder = StaticRefHolder::new(Box::new("alive".to_string()));
    drop(holder);
}
