use safe_drive::msg::{PointField, PointFieldSequence, UInt16, UInt16Sequence, FLOAT32, INT8};

#[test]
fn uint16_zero_initialised() {
    let m = UInt16::new().unwrap();
    assert_eq!(m.data, 0);
}

#[test]
fn uint16_sequence_len_and_contents() {
    let mut s = UInt16Sequence::new(4).unwrap();
    {
        let view = s.as_slice().unwrap();
        assert_eq!(view.len(), 4);
        assert!(view.iter().all(|m| m.data == 0));
    }
    {
        let view = s.as_slice_mut().unwrap();
        view[2].data = 77;
    }
    assert_eq!(s.as_slice().unwrap()[2].data, 77);
}

#[test]
fn point_field_zero_initialised() {
    let f = PointField::new().unwrap();
    assert_eq!(f.name, "");
    assert_eq!(f.offset, 0);
    assert_eq!(f.datatype, 0);
    assert_eq!(f.count, 0);
    assert_ne!(INT8, FLOAT32);
}

#[test]
fn point_field_sequence_len() {
    let s = PointFieldSequence::new(3).unwrap();
    assert_eq!(s.as_slice().unwrap().len(), 3);
    let empty = PointFieldSequence::new(0).unwrap();
    assert_eq!(empty.as_slice().unwrap().len(), 0);
}
