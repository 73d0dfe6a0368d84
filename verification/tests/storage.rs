use dbkit_engine::allocator::{Allocator, ChainedArena, HeapAllocator, OwnedChunk, MIN_ALIGN};
use dbkit_engine::error::DBError;
use dbkit_engine::math::{decimal_string, round_down, round_up};
use dbkit_engine::types::{
    bool_from_le_bytes, bool_to_le_bytes, i32_from_le_bytes, i32_to_le_bytes, i64_from_le_bytes,
    i64_to_le_bytes, raw_from_bytes, raw_to_bytes, RawData, Type,
};

#[test]
fn empty_chunk() {
    let c = OwnedChunk::empty();
    assert!(c.is_null());
    assert_eq!(c.len(), 0);
    assert_eq!(c.align, MIN_ALIGN);

    let mut c = OwnedChunk::empty();
    match c.resize(8) {
        Some(DBError::Memory) => (),
        other => panic!("expected Memory error, got {:?}", other),
    }
}

// Allocating zero bytes and releasing the chunk must not crash.
#[test]
fn allocate_zero_and_release() {
    let alloc = HeapAllocator {};
    let mut c = alloc.allocate(0).unwrap();
    assert!(!c.is_null());
    assert_eq!(c.len(), 0);
    alloc.putback(&mut c);
    assert!(c.is_null());
}

#[test]
fn allocate_aligned_bookkeeping() {
    let alloc = HeapAllocator {};
    let c = alloc.allocate_aligned(100, 64).unwrap();
    assert_eq!(c.len(), 100);
    assert_eq!(c.align, 64);
    // Fresh memory is zero-initialised.
    assert!(c.data.as_ref().unwrap().iter().all(|b| *b == 0));
}

#[test]
fn chunk_resize_preserves_prefix() {
    let alloc = HeapAllocator {};
    let mut c = alloc.allocate(4).unwrap();
    c.data.as_mut().unwrap()[0] = 7;
    c.data.as_mut().unwrap()[3] = 9;
    assert!(c.resize(8).is_none());
    assert_eq!(c.len(), 8);
    assert_eq!(c.data.as_ref().unwrap()[0], 7);
    assert_eq!(c.data.as_ref().unwrap()[3], 9);
    assert_eq!(c.data.as_ref().unwrap()[7], 0);
    assert!(c.resize(2).is_none());
    assert_eq!(c.len(), 2);
    assert_eq!(c.data.as_ref().unwrap()[0], 7);
}

// Bytes appended to the arena stay unchanged while later appends grow it.
#[test]
fn arena_append_stability() {
    let alloc = HeapAllocator {};
    let mut arena = ChainedArena::new(&alloc, 32, 64);

    let first: Vec<u8> = (0..40u8).collect();
    let loc1 = arena.append(first.as_slice()).unwrap();
    let second: Vec<u8> = (100..130u8).collect();
    let loc2 = arena.append(second.as_slice()).unwrap();
    // The first chunk could not hold the second value, so a new chunk
    // was opened; the old location is untouched.
    assert_ne!(loc1.0, loc2.0);

    let third: Vec<u8> = (200..220u8).collect();
    arena.append(third.as_slice()).unwrap();

    assert_eq!(arena.get(loc1.0, loc1.1, first.len()).unwrap(), first);
    assert_eq!(arena.get(loc2.0, loc2.1, second.len()).unwrap(), second);
}

// A single value larger than the arena's cap always fails with
// MemoryLimit and performs no partial write.
#[test]
fn arena_append_over_limit() {
    let alloc = HeapAllocator {};
    let mut arena = ChainedArena::new(&alloc, 32, 64);

    let small: Vec<u8> = vec![1, 2, 3];
    let loc = arena.append(small.as_slice()).unwrap();

    let big: Vec<u8> = vec![9; 65];
    match arena.append(big.as_slice()) {
        Err(DBError::MemoryLimit) => (),
        other => panic!("expected MemoryLimit, got {:?}", other),
    }

    // The earlier value is still there, and an in-limit append works.
    assert_eq!(arena.get(loc.0, loc.1, small.len()).unwrap(), small);
    let ok: Vec<u8> = vec![4; 64];
    assert!(arena.append(ok.as_slice()).is_ok());
}

#[test]
fn arena_get_out_of_bounds() {
    let alloc = HeapAllocator {};
    let mut arena = ChainedArena::new(&alloc, 32, 64);
    arena.append(&[1, 2, 3]).unwrap();
    match arena.get(5, 0, 1) {
        Err(DBError::RowOutOfBounds) => (),
        other => panic!("expected RowOutOfBounds, got {:?}", other),
    }
    match arena.get(0, 30, 10) {
        Err(DBError::RowOutOfBounds) => (),
        other => panic!("expected RowOutOfBounds, got {:?}", other),
    }
}

#[test]
fn rounding() {
    assert_eq!(round_up(0, 1024), 0);
    assert_eq!(round_up(1, 1024), 1024);
    assert_eq!(round_up(1024, 1024), 1024);
    assert_eq!(round_up(1025, 1024), 2048);
    assert_eq!(round_down(1025, 1024), 1024);
    assert_eq!(round_down(1024, 1024), 1024);
    assert_eq!(round_down(1023, 1024), 0);
}

#[test]
fn decimal_rendering() {
    assert_eq!(decimal_string(0), "0");
    assert_eq!(decimal_string(7), "7");
    assert_eq!(decimal_string(10), "10");
    assert_eq!(decimal_string(1234), "1234");
    assert_eq!(decimal_string(1000001), "1000001");
}

#[test]
fn type_metadata() {
    assert_eq!(Type::UINT32.name(), "UINT32");
    assert_eq!(Type::TEXT.name(), "TEXT");
    assert_eq!(Type::UINT32.size_of(), 4);
    assert_eq!(Type::UINT64.size_of(), 8);
    assert_eq!(Type::INT32.size_of(), 4);
    assert_eq!(Type::INT64.size_of(), 8);
    assert_eq!(Type::FLOAT32.size_of(), 4);
    assert_eq!(Type::FLOAT64.size_of(), 8);
    assert_eq!(Type::BOOLEAN.size_of(), 1);
    assert_eq!(Type::TEXT.size_of(), 24);
    assert_eq!(Type::BLOB.size_of(), 24);
    assert!(Type::TEXT.is_varlen());
    assert!(Type::BLOB.is_varlen());
    assert!(!Type::BOOLEAN.is_varlen());
}

#[test]
fn type_parsing() {
    assert!(matches!(Type::from_str("UINT32"), Ok(Type::UINT32)));
    assert!(matches!(Type::from_str("BLOB"), Ok(Type::BLOB)));
    match Type::from_str("DECIMAL") {
        Err(DBError::UnknownType(s)) => assert_eq!(s, "DECIMAL"),
        other => panic!("expected UnknownType, got {:?}", other),
    }
}

#[test]
fn signed_codec_roundtrip() {
    for v in [0i32, 1, -1, 12345, -12345, i32::MAX, i32::MIN] {
        let b = i32_to_le_bytes(v);
        assert_eq!(b.len(), 4);
        assert_eq!(i32_from_le_bytes(b.as_slice()), v);
    }
    for v in [0i64, 1, -1, 1234567890123, -1234567890123, i64::MAX, i64::MIN] {
        let b = i64_to_le_bytes(v);
        assert_eq!(b.len(), 8);
        assert_eq!(i64_from_le_bytes(b.as_slice()), v);
    }
    for v in [true, false] {
        let b = bool_to_le_bytes(v);
        assert_eq!(bool_from_le_bytes(b.as_slice()), v);
    }
    let rec = RawData { chunk: 3, offset: 17, size: 4096 };
    let b = raw_to_bytes(&rec);
    assert_eq!(b.len(), 24);
    assert_eq!(raw_from_bytes(b.as_slice()), rec);
}
