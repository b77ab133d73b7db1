use akasha::page::{Page, PageError, PAGE_SIZE};
use akasha::value::{Tuple, Value};

fn header(p: &Page) -> (usize, usize) {
    let n = u16::from_le_bytes([p.data[0], p.data[1]]) as usize;
    let f = u16::from_le_bytes([p.data[2], p.data[3]]) as usize;
    (n, f)
}

#[test]
fn new_page_is_empty() {
    let p = Page::new(3);
    assert_eq!(p.index, 3);
    assert_eq!(header(&p), (0, PAGE_SIZE));
    assert_eq!(p.available_space(), PAGE_SIZE - 4);
    assert!(p.get_tuple(0).is_none());
}

#[test]
fn insert_then_get_reads_back() {
    let mut p = Page::new(0);
    let t0 = Tuple(vec![Value::Text("Alice".into()), Value::Int(30)]);
    let t1 = Tuple(vec![Value::Text("Bob".into()), Value::Int(25)]);
    assert_eq!(p.insert_tuple(&t0), Ok(0));
    assert_eq!(p.insert_tuple(&t1), Ok(1));
    let len0 = t0.to_bytes().len();
    let len1 = t1.to_bytes().len();
    assert_eq!(header(&p), (2, PAGE_SIZE - len0 - len1));
    assert_eq!(p.available_space(), PAGE_SIZE - len0 - len1 - 4 - 8);
    let back = p.get_tuple(1).expect("slot 1");
    assert!(matches!(&back.0[0], Value::Text(s) if s == "Bob"));
    assert!(matches!(back.0[1], Value::Int(25)));
    let back0 = p.get_tuple(0).expect("slot 0");
    assert!(matches!(&back0.0[0], Value::Text(s) if s == "Alice"));
    assert!(p.get_tuple(2).is_none());
}

#[test]
fn full_exactly_when_gap_is_short() {
    // A blob of n bytes encodes to n + 3 bytes and needs 4 more for its slot.
    let mut p = Page::new(0);
    let gap = p.available_space();
    let too_big = Tuple(vec![Value::Blob(vec![1; gap - 4 - 3 + 1])]);
    assert_eq!(p.insert_tuple(&too_big), Err(PageError::Full));
    assert_eq!(header(&p), (0, PAGE_SIZE));
    let fits = Tuple(vec![Value::Blob(vec![1; gap - 4 - 3])]);
    assert_eq!(p.insert_tuple(&fits), Ok(0));
    assert_eq!(p.available_space(), 0);
    assert_eq!(p.insert_tuple(&Tuple(vec![])), Err(PageError::Full));
}

#[test]
fn from_bytes_repairs_a_zero_page() {
    let p = Page::from_bytes(7, vec![0u8; PAGE_SIZE]);
    assert_eq!(p.index, 7);
    assert_eq!(header(&p), (0, PAGE_SIZE));
}

#[test]
fn from_bytes_keeps_a_valid_page() {
    let mut p = Page::new(1);
    p.insert_tuple(&Tuple(vec![Value::Int(1)])).unwrap();
    let bytes = p.to_bytes();
    let q = Page::from_bytes(1, bytes.clone());
    assert_eq!(q.data, bytes);
    assert!(matches!(q.get_tuple(0).unwrap().0[0], Value::Int(1)));
}

#[test]
fn from_bytes_keeps_an_impossible_header() {
    let mut bytes = vec![0u8; PAGE_SIZE];
    bytes[0] = 0xFF;
    bytes[1] = 0x0F;
    bytes[2] = 0x10;
    let p = Page::from_bytes(0, bytes.clone());
    assert_eq!(header(&p), (4095, 16));
    assert!(!p.has_valid_header());
    assert_eq!(p.to_bytes(), bytes);
}

#[test]
fn init_new_clears_the_page() {
    let mut p = Page::new(0);
    p.insert_tuple(&Tuple(vec![Value::Int(9)])).unwrap();
    p.init_new();
    assert_eq!(header(&p), (0, PAGE_SIZE));
    assert!(p.data[4..].iter().all(|b| *b == 0));
}

#[test]
fn from_bytes_repair_keeps_other_bytes() {
    let mut bytes = vec![0u8; PAGE_SIZE];
    bytes[100] = 7;
    bytes[2] = 0xFF;
    bytes[3] = 0xFF;
    let p = Page::from_bytes(0, bytes);
    assert_eq!(header(&p), (0, PAGE_SIZE));
    assert_eq!(p.data[100], 7);
}
