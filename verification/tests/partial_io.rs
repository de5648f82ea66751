use incomplete_file::chooser::CycleChooser;
use incomplete_file::chooser::RngChooser;
use incomplete_file::chooser::SpanChooser;
use incomplete_file::partial::PartialFile;
use incomplete_file::stream::MemStream;
use incomplete_file::stream::SeekFrom;

use rand::Rng;

fn random_data(len: usize) -> Vec<u8> {
    let mut rng = rand::thread_rng();
    let mut data = vec![0u8; len];
    for b in data.iter_mut() {
        *b = rng.gen();
    }
    data
}

fn read_test_i(sz: usize) {
    // data the stream starts out holding
    let random_data = random_data(sz);

    let mut reader = PartialFile::new(
        MemStream::from_vec(random_data.clone()),
        RngChooser::from_entropy(),
    );

    // read it all in in chunks
    let mut offset = 0;

    loop {
        let mut buffer = vec![0u8; 320];
        let mut total_read = 0;

        loop {
            assert!(total_read <= 320);
            if total_read == 320 {
                break;
            }

            let n = reader.read(&mut buffer, total_read, 320 - total_read);
            if n == 0 {
                // EOF
                break;
            }

            total_read += n;
        }

        assert_eq!(total_read, 320);

        assert_eq!(random_data[offset..(offset + 320)], buffer);

        offset += 320;

        if offset == sz {
            break;
        }
    }
}

#[test]
fn read_test() {
    for sz in 1..=64 {
        read_test_i(320 * sz);
    }
}

fn write_test_i(sz: usize) {
    let random_data = random_data(sz);

    let mut writer = PartialFile::new(MemStream::new(), RngChooser::from_entropy());
    writer.write_all(&random_data);

    // read back and compare
    let actual_data = writer.into_inner().into_vec();

    assert_eq!(random_data, actual_data);
}

#[test]
fn write_test() {
    for sz in 1..=64 {
        write_test_i(320 * sz);
    }
}

#[test]
fn seeded_write_counts() {
    // a fixed seed, a 50-byte buffer, ten thousand writes: every
    // returned count lies in [1, 49]
    let mut file = PartialFile::new(MemStream::new(), RngChooser::from_seed(42));
    let buf = vec![7u8; 50];
    for _ in 0..10_000 {
        let n = file.write(&buf, 0, 50);
        assert!(n >= 1);
        assert!(n <= 49);
    }
}

#[test]
fn truncation_bound_on_reads() {
    let data = random_data(4096);
    let mut reader = PartialFile::new(
        MemStream::from_vec(data),
        RngChooser::from_entropy(),
    );
    let mut buffer = vec![0u8; 100];
    loop {
        let n = reader.read(&mut buffer, 0, 100);
        if n == 0 {
            // only end-of-stream yields an empty read
            break;
        }
        assert!(n >= 1);
        assert!(n < 100);
    }
}

#[test]
fn pass_through_at_length_one() {
    let mut file = PartialFile::new(MemStream::from_vec(vec![5u8, 6u8]), CycleChooser::new());

    // a one-byte read forwards unmodified and never draws a span
    let mut buffer = vec![0u8; 1];
    let n = file.read(&mut buffer, 0, 1);
    assert_eq!(n, 1);
    assert_eq!(buffer[0], 5u8);
    assert_eq!(file.chooser_ref().round, 0);

    // a one-byte write likewise
    let n = file.write(&vec![9u8], 0, 1);
    assert_eq!(n, 1);
    assert_eq!(file.chooser_ref().round, 0);

    // a two-byte request does draw
    file.seek(SeekFrom::Start(0)).unwrap();
    let mut buffer = vec![0u8; 2];
    let n = file.read(&mut buffer, 0, 2);
    assert_eq!(n, 1);
    assert_eq!(file.chooser_ref().round, 1);
}

#[test]
fn cycle_chooser_exact_spans() {
    // the cycling chooser picks 1 + round % (len - 1): the write counts
    // of a five-byte request cycle through 1, 2, 3, 4, 1, ...
    let mut file = PartialFile::new(MemStream::new(), CycleChooser::new());
    let buf = vec![1u8; 5];
    let expected = [1usize, 2, 3, 4, 1, 2];
    for want in expected {
        let n = file.write(&buf, 0, 5);
        assert_eq!(n, want);
    }
}

#[test]
fn zero_read_only_at_eof() {
    let mut file = PartialFile::new(MemStream::from_vec(vec![1u8, 2, 3]), RngChooser::from_entropy());
    let mut buffer = vec![0u8; 2];
    let mut total = 0;
    loop {
        let n = file.read(&mut buffer, 0, 2);
        if total < 3 {
            // data remains: a return of zero would be a truncation
            // artifact, which must never happen
            assert!(n >= 1);
        } else {
            assert_eq!(n, 0);
            break;
        }
        total += n;
    }
    assert_eq!(total, 3);
}

#[test]
fn zero_length_request() {
    let mut file = PartialFile::new(MemStream::from_vec(vec![1u8, 2, 3]), RngChooser::from_entropy());
    let mut buffer = vec![0u8; 4];
    assert_eq!(file.read(&mut buffer, 0, 0), 0);
    assert_eq!(file.write(&buffer, 0, 0), 0);
    assert_eq!(file.byte_len(), 3);
}

#[test]
fn seek_and_flush_fidelity() {
    let data = random_data(1024);
    let mut file = PartialFile::new(MemStream::new(), RngChooser::from_entropy());
    file.write_all(&data);

    // flush loses nothing
    file.flush();
    assert_eq!(file.byte_len(), 1024);

    // seeking to an offset and reading yields the bytes the original
    // data holds at that offset
    let pos = file.seek(SeekFrom::Start(100)).unwrap();
    assert_eq!(pos, 100);
    let mut buffer = vec![0u8; 50];
    let n = file.read_full(&mut buffer, 0, 50);
    assert_eq!(n, 50);
    assert_eq!(&buffer[..], &data[100..150]);

    // relative and end-relative seeks land where they should
    let pos = file.seek(SeekFrom::Current(-50)).unwrap();
    assert_eq!(pos, 100);
    let pos = file.seek(SeekFrom::End(-24)).unwrap();
    assert_eq!(pos, 1000);
    let n = file.read_full(&mut buffer, 0, 50);
    assert_eq!(n, 24);
    assert_eq!(&buffer[..24], &data[1000..1024]);
}

#[test]
fn empty_round_trip() {
    let mut file = PartialFile::new(MemStream::new(), RngChooser::from_entropy());
    let empty: Vec<u8> = Vec::new();
    file.write_all(&empty);
    assert_eq!(file.byte_len(), 0);
    let mut buffer = vec![0u8; 8];
    assert_eq!(file.read_full(&mut buffer, 0, 8), 0);
}

#[test]
fn rng_chooser_spans_in_bounds() {
    let mut chooser = RngChooser::from_entropy();
    for len in 2..64usize {
        let t = chooser.choose_span(len);
        assert!(t >= 1);
        assert!(t < len);
    }
}
