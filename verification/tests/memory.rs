use vea::vea_sim::error::Result;
use vea::vea_sim::memory::MemGuard;

#[test]
fn read_write_load_reset() -> Result<()> {
    let mut m = MemGuard::new();
    m.clear();

    // never written reads as zero
    assert_eq!(m.read(0x1000, 8)?, 0);

    // big endian round trip at each width
    m.write(0x2000, 1, 0xAB)?;
    assert_eq!(m.read(0x2000, 1)?, 0xAB);

    m.write(0x2010, 2, 0x1234)?;
    assert_eq!(m.read(0x2010, 2)?, 0x1234);
    assert_eq!(m.read(0x2010, 1)?, 0x12); // most significant byte sits first

    m.write(0x2020, 4, 0xDEAD_BEEF)?;
    assert_eq!(m.read(0x2020, 4)?, 0xDEAD_BEEF);

    m.write(0x2030, 8, 0x0123_4567_89AB_CDEF)?;
    assert_eq!(m.read(0x2030, 8)?, 0x0123_4567_89AB_CDEF);
    assert_eq!(m.read(0x2034, 4)?, 0x89AB_CDEF); // low word of that store

    // a write only touches the bytes it names
    m.write(0x3000, 2, 0xFFFF)?;
    assert_eq!(m.read(0x2FFF, 1)?, 0);
    assert_eq!(m.read(0x3002, 1)?, 0);

    // bulk image load
    m.load(0x4000, &[0xCA, 0xFE, 0xBA, 0xBE])?;
    assert_eq!(m.read(0x4000, 4)?, 0xCAFE_BABE);

    // an access that straddles a page boundary still round trips
    m.write(0xFFFE, 8, 0x1122_3344_5566_7788)?;
    assert_eq!(m.read(0xFFFE, 8)?, 0x1122_3344_5566_7788);
    assert_eq!(m.read(0x1_0000, 2)?, 0x3344); // the bytes that landed in page 1

    m.clear();
    assert_eq!(m.read(0x2030, 8)?, 0);
    assert_eq!(m.read(0x4000, 4)?, 0);
    Ok(())
}

#[test]
fn rejects_unsupported_width() {
    assert!(MemGuard::new().read(0, 3).is_err());
}

#[test]
fn rejects_access_past_the_top() {
    assert!(MemGuard::new().read(u64::MAX, 8).is_err());
}

#[test]
fn pages_are_mapped_only_by_writes_and_loads_since_the_last_clear() {
    let mut m = MemGuard::new();
    assert!(!m.is_mapped(0x1_2345));
    assert_eq!(m.read(0x1_2345, 8).unwrap(), 0);
    assert!(!m.is_mapped(0x1_2345), "a read maps nothing");
    m.write(0x1_fffe, 4, 0xdead_beef).unwrap();
    assert!(m.is_mapped(0x1_0000) && m.is_mapped(0x2_0000));
    assert!(!m.is_mapped(0x3_0000));
    m.load(0x3_0010, &[1, 2, 3]).unwrap();
    assert!(m.is_mapped(0x3_ffff));
    assert_eq!(m.stats().pages, 3);
    m.clear();
    for a in [0u64, 0x1_0000, 0x2_0000, 0x3_0000] {
        assert!(!m.is_mapped(a));
        assert_eq!(m.read(a, 8).unwrap(), 0);
    }
    let s = m.stats();
    assert_eq!((s.pages, s.bytes, s.high), (0, 0, 0));
}
