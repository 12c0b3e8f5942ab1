use rsa_pkcs1::error::Unspecified;
use rsa_pkcs1::rsa::PositiveInteger;
use std::cell::RefCell;

/// Stands in for the arithmetic engine: it hands out handles from 1 on, keeps
/// the bytes of each live number, and counts what it allocated and freed.
struct Engine {
    live: RefCell<Vec<(usize, Vec<u8>)>>,
    calls: RefCell<usize>,
    allocated: RefCell<usize>,
    freed: RefCell<usize>,
    fail: bool,
}

impl Engine {
    fn new() -> Engine {
        Engine {
            live: RefCell::new(Vec::new()),
            calls: RefCell::new(0),
            allocated: RefCell::new(0),
            freed: RefCell::new(0),
            fail: false,
        }
    }

    /// An engine that is out of memory.
    fn failing() -> Engine {
        Engine { fail: true, ..Engine::new() }
    }

    fn allocate(&self, bytes: &[u8]) -> usize {
        *self.calls.borrow_mut() += 1;
        if self.fail {
            return 0;
        }
        let raw = *self.allocated.borrow() + 1;
        *self.allocated.borrow_mut() = raw;
        self.live.borrow_mut().push((raw, bytes.to_vec()));
        raw
    }

    fn free(&self, raw: usize) {
        assert_ne!(raw, 0, "freed null");
        let at = self.live.borrow().iter().position(|(live, _)| *live == raw);
        let at = at.expect("freed a handle that is not live");
        self.live.borrow_mut().remove(at);
        *self.freed.borrow_mut() += 1;
    }

    fn bytes_of(&self, raw: usize) -> Vec<u8> {
        let live = self.live.borrow();
        live.iter().find(|(live, _)| *live == raw).expect("not live").1.clone()
    }

    fn calls(&self) -> usize {
        *self.calls.borrow()
    }

    fn allocated(&self) -> usize {
        *self.allocated.borrow()
    }

    fn freed(&self) -> usize {
        *self.freed.borrow()
    }
}

/// Destroys an integer as its owner does: what it still owns goes back to the
/// engine.
fn destroy(engine: &Engine, mut integer: PositiveInteger) {
    if let Some(raw) = integer.release() {
        engine.free(raw);
    }
}

fn from_be_bytes(engine: &Engine, bytes: &[u8]) -> Result<PositiveInteger, Unspecified> {
    PositiveInteger::from_be_bytes(untrusted::Input::from(bytes), |bytes| engine.allocate(bytes))
}

fn from_der(engine: &Engine, reader: &mut untrusted::Reader) -> Result<PositiveInteger, Unspecified> {
    PositiveInteger::from_der(reader, |bytes| engine.allocate(bytes))
}

#[test]
fn test_positive_integer_from_be_bytes_empty() {
    let engine = Engine::new();
    // Empty values are rejected.
    assert!(from_be_bytes(&engine, &[]).is_err());
}

#[test]
fn test_positive_integer_from_be_bytes_zero() {
    let engine = Engine::new();
    // The zero value is rejected.
    assert!(from_be_bytes(&engine, &[0]).is_err());
    // A zero with a leading zero is rejected.
    assert!(from_be_bytes(&engine, &[0, 0]).is_err());
    // A non-zero value with a leading zero is rejected.
    assert!(from_be_bytes(&engine, &[0, 1]).is_err());
    // A non-zero value with no leading zeros is accepted.
    assert!(from_be_bytes(&engine, &[1]).is_ok());
    // A non-zero value with that ends in a zero byte is accepted.
    assert!(from_be_bytes(&engine, &[1, 0]).is_ok());
}

#[test]
fn the_engine_is_not_asked_for_what_is_rejected() {
    let engine = Engine::new();
    for bytes in [&[][..], &[0], &[0, 0], &[0, 1], &[0, 0x80, 0x01]] {
        assert!(from_be_bytes(&engine, bytes).is_err());
    }
    assert_eq!(engine.calls(), 0);
    assert_eq!(engine.allocated(), 0);
}

#[test]
fn the_engine_gets_the_bytes_of_the_input() {
    let engine = Engine::new();
    let bytes = [0x01, 0x00, 0x01, 0xff, 0x00];
    let integer = from_be_bytes(&engine, &bytes).unwrap();
    assert_eq!(engine.calls(), 1);
    let raw = *integer.as_ref();
    assert_ne!(raw, 0);
    assert_eq!(engine.bytes_of(raw), bytes.to_vec());
    destroy(&engine, integer);
}

#[test]
fn a_first_byte_with_the_high_bit_set_is_accepted() {
    let engine = Engine::new();
    let integer = from_be_bytes(&engine, &[0x80]).unwrap();
    assert_eq!(engine.bytes_of(*integer.as_ref()), vec![0x80]);
    destroy(&engine, integer);
    assert_eq!(engine.allocated(), engine.freed());
}

#[test]
fn a_failed_allocation_is_an_error_and_frees_nothing() {
    let engine = Engine::failing();
    assert!(from_be_bytes(&engine, &[1]).is_err());
    assert!(from_be_bytes(&engine, &[1, 0]).is_err());
    assert_eq!(engine.calls(), 2);
    assert_eq!(engine.allocated(), 0);
    assert_eq!(engine.freed(), 0);
}

#[test]
fn as_ref_leaves_the_handle_with_the_integer() {
    let engine = Engine::new();
    let mut integer = from_be_bytes(&engine, &[7]).unwrap();
    let raw = *integer.as_ref();
    assert_eq!(*integer.as_ref(), raw);
    assert_eq!(integer.release(), Some(raw));
    engine.free(raw);
    assert_eq!(engine.allocated(), engine.freed());
}

#[test]
fn destroying_frees_once() {
    let engine = Engine::new();
    let integer = from_be_bytes(&engine, &[1, 2, 3]).unwrap();
    assert_eq!((engine.allocated(), engine.freed()), (1, 0));
    destroy(&engine, integer);
    assert_eq!((engine.allocated(), engine.freed()), (1, 1));
}

#[test]
fn releasing_twice_releases_once() {
    let engine = Engine::new();
    let mut integer = from_be_bytes(&engine, &[1, 2, 3]).unwrap();
    let first = integer.release();
    assert_eq!(first, Some(1));
    assert_eq!(integer.release(), None);
    assert_eq!(integer.release(), None);
    engine.free(first.unwrap());
    destroy(&engine, integer);
    assert_eq!((engine.allocated(), engine.freed()), (1, 1));
}

#[test]
fn into_raw_hands_the_handle_over() {
    let engine = Engine::new();
    let mut integer = from_be_bytes(&engine, &[0x0b]).unwrap();
    let expected = *integer.as_ref();
    let raw = integer.into_raw();
    assert_eq!(raw, expected);
    assert_eq!(engine.bytes_of(raw), vec![0x0b]);
    // Destroying the integer now frees nothing: the caller owns the number.
    assert_eq!(integer.release(), None);
    destroy(&engine, integer);
    assert_eq!((engine.allocated(), engine.freed()), (1, 0));
    engine.free(raw);
    assert_eq!((engine.allocated(), engine.freed()), (1, 1));
}

#[test]
fn an_integer_owns_its_handle_until_it_gives_it_up() {
    let engine = Engine::new();
    let mut integer = from_be_bytes(&engine, &[9]).unwrap();
    assert!(integer.owns_handle());
    let raw = integer.into_raw();
    assert!(!integer.owns_handle());
    engine.free(raw);

    let mut integer = from_be_bytes(&engine, &[9]).unwrap();
    assert!(integer.owns_handle());
    let released = integer.release().unwrap();
    assert!(!integer.owns_handle());
    engine.free(released);
    assert_eq!((engine.allocated(), engine.freed()), (2, 2));
}

#[test]
fn each_integer_owns_its_own_handle() {
    let engine = Engine::new();
    let a = from_be_bytes(&engine, &[1]).unwrap();
    let b = from_be_bytes(&engine, &[2]).unwrap();
    assert_ne!(*a.as_ref(), *b.as_ref());
    assert_eq!(engine.bytes_of(*a.as_ref()), vec![1]);
    assert_eq!(engine.bytes_of(*b.as_ref()), vec![2]);
    destroy(&engine, a);
    destroy(&engine, b);
    assert_eq!((engine.allocated(), engine.freed()), (2, 2));
}

#[test]
fn from_der_reads_one_integer() {
    let engine = Engine::new();
    let bytes = [0x02, 0x03, 0x01, 0x00, 0x01, 0x02, 0x01, 0x03];
    let mut reader = untrusted::Reader::new(untrusted::Input::from(&bytes));
    let e = from_der(&engine, &mut reader).unwrap();
    assert_eq!(engine.bytes_of(*e.as_ref()), vec![0x01, 0x00, 0x01]);
    let three = from_der(&engine, &mut reader).unwrap();
    assert_eq!(engine.bytes_of(*three.as_ref()), vec![0x03]);
    assert!(reader.at_end());
    destroy(&engine, e);
    destroy(&engine, three);
    assert_eq!((engine.allocated(), engine.freed()), (2, 2));
}

#[test]
fn from_der_rejects_without_asking_the_engine() {
    let engine = Engine::new();
    for bytes in [
        &[][..],
        &[0x02, 0x00],
        &[0x02, 0x01, 0x00],
        &[0x02, 0x02, 0x00, 0x01],
        &[0x02, 0x02, 0x01],
        &[0x03, 0x01, 0x01],
        &[0x02, 0x81, 0x01, 0x01],
    ] {
        let mut reader = untrusted::Reader::new(untrusted::Input::from(bytes));
        assert!(from_der(&engine, &mut reader).is_err(), "{:?}", bytes);
    }
    assert_eq!(engine.calls(), 0);
}

#[test]
fn a_parse_that_fails_late_frees_what_it_allocated() {
    // Two integers are wanted and the second is malformed: the first was
    // allocated and is destroyed on the way out.
    let engine = Engine::new();
    let bytes = [0x02, 0x01, 0x05, 0x02, 0x01, 0x00];
    let parsed = {
        let mut reader = untrusted::Reader::new(untrusted::Input::from(&bytes));
        match from_der(&engine, &mut reader) {
            Ok(first) => match from_der(&engine, &mut reader) {
                Ok(second) => Ok((first, second)),
                Err(e) => {
                    destroy(&engine, first);
                    Err(e)
                }
            },
            Err(e) => Err(e),
        }
    };
    assert!(parsed.is_err());
    assert_eq!((engine.allocated(), engine.freed()), (1, 1));
}

#[test]
fn allocations_and_frees_match_on_every_path() {
    let engine = Engine::new();
    let inputs: [&[u8]; 7] = [&[], &[0], &[0, 1], &[1], &[1, 0], &[0xff, 0xff], &[0x80]];
    for (i, bytes) in inputs.iter().enumerate() {
        if let Ok(mut integer) = from_be_bytes(&engine, bytes) {
            if i % 2 == 0 {
                let raw = integer.into_raw();
                destroy(&engine, integer);
                engine.free(raw);
            } else {
                destroy(&engine, integer);
            }
        }
    }
    assert_eq!(engine.allocated(), 4);
    assert_eq!(engine.freed(), 4);
}
