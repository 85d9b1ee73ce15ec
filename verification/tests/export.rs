use am_renderer::export::{export_plan, frame_file_name};

#[test]
fn frame_names_are_zero_padded_to_six_digits() {
    for i in [0u32, 1, 9, 10, 99, 123, 99_999, 100_000, 999_999, 1_000_000, 1_234_567, u32::MAX] {
        assert_eq!(frame_file_name(i), format!("frame_{:06}.png", i));
    }
    assert_eq!(frame_file_name(42), "frame_000042.png");
}

#[test]
fn export_plan_defaults_to_all_frames() {
    let plan = export_plan(None, None, 4, false);
    assert_eq!(plan, vec![(0, 0), (1, 1), (2, 2), (3, 3)]);
}

#[test]
fn export_plan_range_and_renumbering() {
    assert_eq!(export_plan(Some(2), Some(5), 10, false), vec![(2, 2), (3, 3), (4, 4)]);
    assert_eq!(export_plan(Some(2), Some(5), 10, true), vec![(2, 0), (3, 1), (4, 2)]);
    assert_eq!(export_plan(Some(8), Some(50), 10, true), vec![(8, 0), (9, 1)]);
    assert_eq!(export_plan(Some(5), Some(5), 10, false), vec![]);
    assert_eq!(export_plan(Some(7), Some(3), 10, false), vec![]);
    assert_eq!(export_plan(Some(12), None, 10, false), vec![]);
    assert_eq!(export_plan(None, None, 0, true), vec![]);
}

#[test]
fn every_exported_frame_gets_its_own_file() {
    for reindex in [false, true] {
        let plan = export_plan(Some(3), Some(40), 30, reindex);
        let mut names: Vec<String> = plan.iter().map(|(_, i)| frame_file_name(*i)).collect();
        let n = names.len();
        assert_eq!(n, 27);
        names.sort();
        names.dedup();
        assert_eq!(names.len(), n);
        for (k, (_, i)) in plan.iter().enumerate() {
            let name = frame_file_name(*i);
            let digits = &name[6..name.len() - 4];
            assert_eq!(digits.parse::<u32>().unwrap(), *i);
            if reindex {
                assert_eq!(*i as usize, k);
            }
        }
    }
}
