//! Tests of the data file: append, random-offset read, read-only
//! enforcement and cursor independence.
use kvlog::datafile::DataFile;
use kvlog::error::Error;

#[test]
fn test_datafile() {
    let mut datafile = DataFile::new(false);
    assert_eq!(datafile.write(b"k", b"v", 1).unwrap(), 38);
}

#[test]
fn write_then_read_scenario() {
    let mut df = DataFile::new(false);
    assert_eq!(df.fd.whandle_pos(), 0);
    let n1 = df.write(b"a", b"1", 1000).unwrap();
    assert_eq!(n1, 38);
    assert_eq!(df.fd.whandle_pos(), 38);
    let n2 = df.write(b"bb", b"22", 2000).unwrap();
    assert_eq!(n2, 40);
    assert_eq!(df.fd.whandle_pos(), 78);

    let first = df.read(0, 38).unwrap();
    assert_eq!(first.timestamp, 1000);
    assert_eq!(first.key, b"a");
    assert_eq!(first.value, b"1");

    let second = df.read(38, 40).unwrap();
    assert_eq!(second.timestamp, 2000);
    assert_eq!(second.key, b"bb");
    assert_eq!(second.value, b"22");

    // one byte short of the first record: caught, never a bad entry
    match df.read(0, 37) {
        Err(Error::ChecksumMismatch { .. }) | Err(Error::Truncated { .. }) => {}
        other => panic!("short read gave {:?}", other),
    }
}

#[test]
fn zero_length_fields_round_trip() {
    let mut df = DataFile::new(false);
    let n = df.write(b"", b"", 0).unwrap();
    assert_eq!(n, 36);
    let entry = df.read(0, 36).unwrap();
    assert_eq!(entry.timestamp, 0);
    assert_eq!(entry.key, b"");
    assert_eq!(entry.value, b"");
}

#[test]
fn read_only_file_rejects_writes() {
    let mut df = DataFile::new(true);
    assert!(matches!(df.write(b"k", b"v", 7), Err(Error::ReadOnly)));
    // nothing was appended
    assert_eq!(df.fd.whandle_pos(), 0);

    df.set_read_only(false);
    assert_eq!(df.write(b"k", b"v", 7).unwrap(), 38);
    assert_eq!(df.fd.whandle_pos(), 38);

    df.set_read_only(true);
    assert!(matches!(df.write(b"x", b"y", 8), Err(Error::ReadOnly)));
    assert_eq!(df.fd.whandle_pos(), 38);
}

#[test]
fn cursors_are_independent() {
    // the same prior record is read the same whether a later append
    // happens before or after the read, and the append lands at the same
    // offset either way
    let mut df_read_first = DataFile::new(false);
    df_read_first.write(b"a", b"1", 1000).unwrap();
    let mut df_write_first = DataFile::new(false);
    df_write_first.write(b"a", b"1", 1000).unwrap();

    let read_a = df_read_first.read(0, 38).unwrap();
    let n_a = df_read_first.write(b"bb", b"22", 2000).unwrap();

    let n_b = df_write_first.write(b"bb", b"22", 2000).unwrap();
    let read_b = df_write_first.read(0, 38).unwrap();

    assert_eq!(n_a, n_b);
    assert_eq!(read_a.crc, read_b.crc);
    assert_eq!(read_a.timestamp, read_b.timestamp);
    assert_eq!(read_a.key, read_b.key);
    assert_eq!(read_a.value, read_b.value);
    assert_eq!(df_read_first.fd.whandle_pos(), df_write_first.fd.whandle_pos());
    assert_eq!(df_read_first.fd.rhandle_pos(), df_write_first.fd.rhandle_pos());
}

#[test]
fn read_past_end_is_a_length_mismatch() {
    let mut df = DataFile::new(false);
    df.write(b"a", b"1", 1000).unwrap();
    assert!(matches!(
        df.read(100, 38),
        Err(Error::LengthMismatch { requested: 38, available: 0 })
    ));
    assert!(matches!(
        df.read(0, 39),
        Err(Error::LengthMismatch { requested: 39, available: 38 })
    ));
}

#[test]
fn reads_move_only_the_read_cursor() {
    let mut df = DataFile::new(false);
    df.write(b"a", b"1", 1000).unwrap();
    assert_eq!(df.fd.rhandle_pos(), 0);
    df.read(0, 38).unwrap();
    assert_eq!(df.fd.rhandle_pos(), 38);
    assert_eq!(df.fd.whandle_pos(), 38);
    df.read(2, 10).ok();
    assert_eq!(df.fd.rhandle_pos(), 12);
    assert_eq!(df.fd.whandle_pos(), 38);
}
