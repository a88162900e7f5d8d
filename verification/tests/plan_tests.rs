use gpu_dispatch::plan::{DispatchPlan, Pass, Workgroups};

#[test]
fn workgroup_count_is_the_product_of_the_axes() {
    assert_eq!(Workgroups { x: 1, y: 512, z: 1 }.count(), 512);
    assert_eq!(Workgroups { x: 2, y: 3, z: 4 }.count(), 24);
    assert_eq!(Workgroups { x: 7, y: 0, z: 9 }.count(), 0);
    assert_eq!(
        Workgroups { x: u32::MAX, y: u32::MAX, z: u32::MAX }.count(),
        79_228_162_458_924_105_385_300_197_375u128
    );
}

#[test]
fn column_plan_has_one_pass_per_column() {
    let plan = DispatchPlan::per_column(1024, 512);
    assert_eq!(plan.len(), 1024);
    for column in 0..1024usize {
        let pass = plan.pass(column).unwrap();
        assert_eq!(pass.workgroups, Workgroups { x: 1, y: 512, z: 1 });
        assert_eq!(pass.payload, Some((column as u32).to_ne_bytes().to_vec()));
    }
    assert!(plan.pass(1024).is_none());
}

#[test]
fn column_plan_covers_the_image_exactly() {
    let plan = DispatchPlan::per_column(1024, 512);
    assert_eq!(plan.total_work(), Some(524_288));
    assert!(plan.covers(524_288));
    assert!(!plan.covers(524_287));
    assert!(!plan.covers(524_289));
    assert!(!plan.has_idle_pass());
}

#[test]
fn column_plan_of_no_columns_is_empty() {
    let plan = DispatchPlan::per_column(0, 512);
    assert_eq!(plan.len(), 0);
    assert_eq!(plan.total_work(), Some(0));
    assert!(plan.covers(0));
}

#[test]
fn column_plan_of_empty_columns_is_flagged() {
    let plan = DispatchPlan::per_column(3, 0);
    assert_eq!(plan.len(), 3);
    assert!(plan.has_idle_pass());
    assert_eq!(plan.total_work(), Some(0));
}

#[test]
fn single_pass_plan_covers_the_buffer() {
    let plan = DispatchPlan::single_pass(4);
    assert_eq!(plan.len(), 1);
    assert_eq!(
        plan.pass(0),
        Some(&Pass { workgroups: Workgroups { x: 4, y: 1, z: 1 }, payload: None })
    );
    assert!(plan.covers(4));
    assert!(!plan.covers(5));
}

#[test]
fn pushed_passes_keep_their_order() {
    let mut plan = DispatchPlan::new();
    assert_eq!(plan.len(), 0);
    plan.push(Pass { workgroups: Workgroups { x: 1, y: 1, z: 1 }, payload: Some(vec![7]) });
    plan.push(Pass { workgroups: Workgroups { x: 2, y: 2, z: 2 }, payload: None });
    plan.push(Pass { workgroups: Workgroups { x: 0, y: 5, z: 5 }, payload: Some(vec![9, 9]) });
    assert_eq!(plan.len(), 3);
    assert_eq!(plan.pass(0).unwrap().payload, Some(vec![7]));
    assert_eq!(plan.pass(1).unwrap().workgroups, Workgroups { x: 2, y: 2, z: 2 });
    assert_eq!(plan.pass(2).unwrap().payload, Some(vec![9, 9]));
    assert_eq!(plan.total_work(), Some(9));
    assert!(plan.has_idle_pass());
}

#[test]
fn total_work_of_huge_passes_is_exact() {
    let mut plan = DispatchPlan::new();
    let huge = Workgroups { x: u32::MAX, y: u32::MAX, z: u32::MAX };
    for _ in 0..5 {
        plan.push(Pass { workgroups: huge, payload: None });
    }
    assert_eq!(plan.total_work(), Some(5 * 79_228_162_458_924_105_385_300_197_375u128));
    assert!(!plan.covers(u64::MAX));
}

#[test]
fn payload_of_a_column_is_its_number_in_host_byte_order() {
    let plan = DispatchPlan::per_column(70_000, 1);
    let payload = plan.pass(66_051).unwrap().payload.clone().unwrap();
    assert_eq!(payload.len(), 4);
    assert_eq!(u32::from_ne_bytes([payload[0], payload[1], payload[2], payload[3]]), 66_051);
    let little = vec![0x03u8, 0x02, 0x01, 0x00];
    let big = vec![0x00u8, 0x01, 0x02, 0x03];
    assert!(payload == little || payload == big);
}
