use ex_tokenizers::bytes::le_bytes_to_u32s;
use ex_tokenizers::encoding::{Encoding, EncodingError};

fn strings(xs: &[&str]) -> Vec<String> {
    xs.iter().map(|s| s.to_string()).collect()
}

fn sample5() -> Encoding {
    Encoding::new(
        strings(&["a", "b", "c", "d", "e"]),
        vec![1, 2, 3, 4, 5],
        vec![0, 0, 0, 0, 0],
        vec![1, 1, 1, 1, 1],
        vec![0, 0, 0, 0, 0],
        vec![(0, 1), (1, 2), (2, 3), (3, 4), (4, 5)],
    )
}

fn sample3() -> Encoding {
    Encoding::new(
        strings(&["a", "b", "c"]),
        vec![1, 2, 3],
        vec![0, 0, 0],
        vec![1, 1, 1],
        vec![0, 0, 0],
        vec![(0, 1), (1, 2), (2, 3)],
    )
}

#[test]
fn truncate_right_keeps_prefix() {
    let e = sample5();
    let t = e.truncate(3, 0, "right").unwrap();
    assert_eq!(t.get_ids(), vec![1, 2, 3]);
    assert_eq!(t.get_tokens(), strings(&["a", "b", "c"]));
    assert_eq!(t.get_offsets(), vec![(0, 1), (1, 2), (2, 3)]);
    assert_eq!(t.len(), 3);
}

#[test]
fn truncate_left_keeps_suffix() {
    let e = sample5();
    let t = e.truncate(3, 0, "left").unwrap();
    assert_eq!(t.get_ids(), vec![3, 4, 5]);
    assert_eq!(t.get_tokens(), strings(&["c", "d", "e"]));
    assert_eq!(t.get_offsets(), vec![(2, 3), (3, 4), (4, 5)]);
}

#[test]
fn truncate_to_zero_keeps_nothing() {
    let e = sample5();
    let t = e.truncate(0, 0, "right").unwrap();
    assert_eq!(t.len(), 0);
    assert_eq!(t.get_ids(), Vec::<u32>::new());
}

#[test]
fn truncate_noop_when_max_len_covers() {
    let e = sample5();
    for d in ["left", "right"] {
        for max_len in [5usize, 6, 100] {
            let t = e.truncate(max_len, 0, d).unwrap();
            assert_eq!(t.get_tokens(), e.get_tokens());
            assert_eq!(t.get_ids(), e.get_ids());
            assert_eq!(t.get_type_ids(), e.get_type_ids());
            assert_eq!(t.get_attention_mask(), e.get_attention_mask());
            assert_eq!(t.get_special_tokens_mask(), e.get_special_tokens_mask());
            assert_eq!(t.get_offsets(), e.get_offsets());
        }
    }
}

#[test]
fn truncate_stride_does_not_change_kept_window() {
    let e = sample5();
    let t0 = e.truncate(3, 0, "right").unwrap();
    let t2 = e.truncate(3, 2, "right").unwrap();
    assert_eq!(t0.get_ids(), t2.get_ids());
    assert_eq!(t0.get_tokens(), t2.get_tokens());
}

#[test]
fn truncate_invalid_direction() {
    let e = sample5();
    let r = e.truncate(3, 0, "up");
    assert_eq!(r.err(), Some(EncodingError::InvalidArgument));
    // the source encoding is untouched
    assert_eq!(e.get_ids(), vec![1, 2, 3, 4, 5]);
}

#[test]
fn pad_right_appends_entries() {
    let e = sample3();
    let p = e.pad(5, 0, 0, "[PAD]", "right").unwrap();
    assert_eq!(p.get_ids(), vec![1, 2, 3, 0, 0]);
    assert_eq!(p.get_attention_mask(), vec![1, 1, 1, 0, 0]);
    assert_eq!(p.get_special_tokens_mask(), vec![0, 0, 0, 1, 1]);
    assert_eq!(p.get_tokens(), strings(&["a", "b", "c", "[PAD]", "[PAD]"]));
    assert_eq!(p.get_type_ids(), vec![0, 0, 0, 0, 0]);
    assert_eq!(p.get_offsets(), vec![(0, 1), (1, 2), (2, 3), (0, 0), (0, 0)]);
    assert_eq!(p.len(), 5);
}

#[test]
fn pad_left_prepends_entries() {
    let e = sample3();
    let p = e.pad(5, 7, 9, "[PAD]", "left").unwrap();
    assert_eq!(p.get_ids(), vec![7, 7, 1, 2, 3]);
    assert_eq!(p.get_attention_mask(), vec![0, 0, 1, 1, 1]);
    assert_eq!(p.get_special_tokens_mask(), vec![1, 1, 0, 0, 0]);
    assert_eq!(p.get_tokens(), strings(&["[PAD]", "[PAD]", "a", "b", "c"]));
    assert_eq!(p.get_type_ids(), vec![9, 9, 0, 0, 0]);
    assert_eq!(p.get_offsets(), vec![(0, 0), (0, 0), (0, 1), (1, 2), (2, 3)]);
}

#[test]
fn pad_noop_when_target_not_larger() {
    let e = sample3();
    for d in ["left", "right"] {
        for target in [0usize, 2, 3] {
            let p = e.pad(target, 0, 0, "[PAD]", d).unwrap();
            assert_eq!(p.get_tokens(), e.get_tokens());
            assert_eq!(p.get_ids(), e.get_ids());
            assert_eq!(p.get_type_ids(), e.get_type_ids());
            assert_eq!(p.get_attention_mask(), e.get_attention_mask());
            assert_eq!(p.get_special_tokens_mask(), e.get_special_tokens_mask());
            assert_eq!(p.get_offsets(), e.get_offsets());
        }
    }
}

#[test]
fn pad_invalid_direction() {
    let e = sample5();
    let r = e.pad(5, 0, 0, "x", "down");
    assert_eq!(r.err(), Some(EncodingError::InvalidArgument));
    assert_eq!(e.get_ids(), vec![1, 2, 3, 4, 5]);
    assert_eq!(e.len(), 5);
}

#[test]
fn u32_export_exact_bytes() {
    let e = sample3();
    let b = e.get_u32_ids();
    assert_eq!(b.len(), 4 * e.len());
    assert_eq!(b, vec![1, 0, 0, 0, 2, 0, 0, 0, 3, 0, 0, 0]);
}

#[test]
fn u32_export_round_trip() {
    let e = Encoding::new(
        strings(&["x", "y", "z"]),
        vec![1, 0x0102_0304, u32::MAX],
        vec![0, 1, 2],
        vec![1, 1, 0],
        vec![0, 0, 1],
        vec![(0, 1), (1, 2), (0, 0)],
    );
    assert_eq!(le_bytes_to_u32s(&e.get_u32_ids()), vec![1, 0x0102_0304, u32::MAX]);
    assert_eq!(le_bytes_to_u32s(&e.get_u32_type_ids()), vec![0, 1, 2]);
    assert_eq!(le_bytes_to_u32s(&e.get_u32_attention_mask()), vec![1, 1, 0]);
    assert_eq!(le_bytes_to_u32s(&e.get_u32_special_tokens_mask()), vec![0, 0, 1]);
}

#[test]
fn u32_export_empty() {
    let e = Encoding::new(strings(&[]), vec![], vec![], vec![], vec![], vec![]);
    assert_eq!(e.get_u32_ids(), Vec::<u8>::new());
    assert_eq!(le_bytes_to_u32s(&e.get_u32_ids()), Vec::<u32>::new());
}

#[test]
fn length_queries_consistent() {
    let e = sample5();
    for enc in [
        e.truncate(2, 0, "left").unwrap(),
        e.pad(8, 0, 0, "[PAD]", "right").unwrap(),
        e,
    ] {
        let n = enc.len();
        assert_eq!(enc.n_tokens(), n);
        assert_eq!(enc.get_tokens().len(), n);
        assert_eq!(enc.get_ids().len(), n);
        assert_eq!(enc.get_type_ids().len(), n);
        assert_eq!(enc.get_attention_mask().len(), n);
        assert_eq!(enc.get_special_tokens_mask().len(), n);
        assert_eq!(enc.get_offsets().len(), n);
        assert_eq!(enc.get_u32_ids().len(), 4 * n);
    }
}

#[test]
fn accessors_are_snapshots() {
    let e = sample3();
    let ids_before = e.get_ids();
    let _derived = e.pad(6, 0, 0, "[PAD]", "right").unwrap();
    // deriving new encodings never mutates the source or earlier snapshots
    assert_eq!(ids_before, vec![1, 2, 3]);
    assert_eq!(e.get_ids(), vec![1, 2, 3]);
}
