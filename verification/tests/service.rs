use am_renderer::service::{
    frame_payload, FramePackage, load_error_status, mutation_error_status, BAD_REQUEST, INTERNAL_SERVER_ERROR,
    NOT_FOUND,
};

#[test]
fn load_failure_statuses() {
    assert_eq!(load_error_status("Query returned no rows"), NOT_FOUND);
    assert_eq!(load_error_status("error: QueryReturnedNoRows here"), NOT_FOUND);
    assert_eq!(load_error_status("database is locked"), INTERNAL_SERVER_ERROR);
    assert_eq!(load_error_status(""), INTERNAL_SERVER_ERROR);
    assert_eq!(NOT_FOUND, 404);
    assert_eq!(INTERNAL_SERVER_ERROR, 500);
}

#[test]
fn mutation_failure_statuses() {
    assert_eq!(mutation_error_status("Project not found"), NOT_FOUND);
    assert_eq!(mutation_error_status("Layer not found"), NOT_FOUND);
    assert_eq!(mutation_error_status("Unknown property: foo"), BAD_REQUEST);
    assert_eq!(mutation_error_status("layer not found"), BAD_REQUEST);
    assert_eq!(BAD_REQUEST, 400);
}

#[test]
fn frame_payload_is_big_endian_number_then_image() {
    let data = [9u8, 8, 7];
    let p = frame_payload(5, &data);
    assert_eq!(p, vec![0, 0, 0, 5, 9, 8, 7]);
    for f in [0u32, 1, 255, 256, 65_535, 0x0102_0304, u32::MAX] {
        let p = frame_payload(f, &data);
        let mut want = f.to_be_bytes().to_vec();
        want.extend_from_slice(&data);
        assert_eq!(p, want);
        assert_eq!(u32::from_be_bytes([p[0], p[1], p[2], p[3]]), f);
        assert_eq!(&p[4..], &data[..]);
    }
    assert_eq!(frame_payload(7, &[]), vec![0, 0, 0, 7]);
}

#[test]
fn frame_package_payload() {
    let pkg = FramePackage { frame: 0x0A0B_0C0D, data: vec![1, 2] };
    assert_eq!(pkg.payload(), vec![0x0A, 0x0B, 0x0C, 0x0D, 1, 2]);
    assert_eq!(pkg.clone().frame, 0x0A0B_0C0D);
}
