use muadb::bytes::Bytes;
use muadb::data_buffer::SBuf;
use muadb::data_buffer::VBuf;
use muadb::data_schema::DSchema;
use muadb::data_schema::I32;
use muadb::data_schema::I64;
use muadb::data_schema::NumOf;
use muadb::data_schema::Pad;
use muadb::data_schema::Pair;
use rand::Rng;
use rand::SeedableRng;
use rand_xoshiro::Xoroshiro128Plus;

#[test]
fn pad_num() {
    assert!(Pad::NUM == 0);
}

#[test]
fn push_pop_repeat() {
    let mut rng = Xoroshiro128Plus::seed_from_u64(7788);
    let mut x = vec![];
    let mut y = Bytes::new();
    for _j in 0..100 {
        for _i in 0..rng.gen_range(0..4096) {
            assert!(
                &x[..] == y.slice(0, y.len()),
                "{:?} != {:?}",
                &x[..],
                y.slice(0, y.len())
            );
            let x = x.pop();
            let y = y.pop();
            assert!(x == y, "{x:?} != {y:?}");
        }
        for _i in 0..rng.gen_range(0..4096) {
            let n = rng.gen::<u8>();
            x.push(n);
            y.push(n);
            assert!(
                &x[..] == y.slice(0, y.len()),
                "{:?} != {:?}",
                &x[..],
                y.slice(0, y.len())
            );
        }
    }
}

#[test]
fn fill_push_pop_repeat() {
    let mut rng = Xoroshiro128Plus::seed_from_u64(7788);
    let mut x = vec![7; 1049];
    let mut y = Bytes::filled(1049, 7u8);
    for _j in 0..100 {
        for _i in 0..rng.gen_range(0..4096) {
            assert!(
                &x[..] == y.slice(0, y.len()),
                "{:?} != {:?}",
                &x[..],
                y.slice(0, y.len())
            );
            let x = x.pop();
            let y = y.pop();
            assert!(x == y, "{x:?} != {y:?}");
        }
        for _i in 0..rng.gen_range(0..4096) {
            let n = rng.gen::<u8>();
            x.push(n);
            y.push(n);
            assert!(
                &x[..] == y.slice(0, y.len()),
                "{:?} != {:?}",
                &x[..],
                y.slice(0, y.len())
            );
        }
    }
}

#[test]
fn bytes_pad_and_extend() {
    let mut b = Bytes::new();
    b.push(1);
    b.pad(8);
    assert_eq!(b.len(), 8);
    b.extend(&[2, 3]);
    assert_eq!(b.slice(0, 10), &[1, 0, 0, 0, 0, 0, 0, 0, 2, 3]);
    // Already aligned: nothing added.
    b.pad(2);
    assert_eq!(b.len(), 10);
}

#[test]
fn bytes_counter_mode() {
    let mut c = Bytes::new_as_usize();
    assert_eq!(c.as_u64(), 0);
    c.add(3);
    c.add(4);
    assert_eq!(c.as_u64(), 7);
}

#[test]
fn scalar_buffer_is_zeroed() {
    let schema = DSchema::from_primitive::<I64>();
    let s = SBuf::new(schema);
    assert_eq!(s.buffer.len(), 8);
    assert_eq!(s.buffer.slice(0, 8), &[0u8; 8]);
}

#[test]
fn vector_buffer_has_one_column_per_leaf() {
    let i32s = I32::encode(&[]);
    let i64s = I64::encode(&[]);
    let pair = Pair::encode(&[i32s.as_ref(), i64s.as_ref()]);
    let v = VBuf::new(pair);
    assert_eq!(v.buffer.len(), 2);
}
