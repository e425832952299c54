use datafusion_exec::file_type::ConfigFileType;
use datafusion_exec::plan::{
    format_of_plan, registration_for, CreationAction, CreationEvent, CreationPhase, PlanCreation,
    PlanShape, Registration,
};

type Shape = PlanShape<String, u8>;
type Event = CreationEvent<String, u8, String>;
type Action = CreationAction<String, u8, String>;

fn table() -> Shape {
    PlanShape::CreateExternalTable {
        location: "s3://bucket/path/".to_string(),
        file_type: "PARQUET".to_string(),
        options: 7,
    }
}

fn copy() -> Shape {
    PlanShape::Copy {
        output_url: "gcs://bucket/out.csv".to_string(),
        extension: "csv".to_string(),
        options: 8,
    }
}

#[test]
fn tables_register_their_location() {
    for resolve_region in [false, true] {
        let (creation, action) =
            PlanCreation::new(resolve_region).step(Event::Planned(Ok(table())));
        assert_eq!(creation.phase, CreationPhase::Registering);
        assert_eq!(
            action,
            Action::Register(Registration {
                location: "s3://bucket/path/".to_string(),
                options: 7,
                format: Some(ConfigFileType::PARQUET),
                resolve_region,
            })
        );
    }
}

#[test]
fn copies_never_resolve_the_region() {
    for resolve_region in [false, true] {
        let (_, action) = PlanCreation::new(resolve_region).step(Event::Planned(Ok(copy())));
        assert_eq!(
            action,
            Action::Register(Registration {
                location: "gcs://bucket/out.csv".to_string(),
                options: 8,
                format: Some(ConfigFileType::CSV),
                resolve_region: false,
            })
        );
    }
}

#[test]
fn other_plans_need_no_registration() {
    for plan in
        [Shape::Explain, Shape::DescribeTable, Shape::Analyze, Shape::Other]
    {
        assert_eq!(format_of_plan(&plan), None);
        let (creation, action) = PlanCreation::new(true).step(Event::Planned(Ok(plan)));
        assert_eq!(creation.phase, CreationPhase::Done);
        assert_eq!(action, Action::Finish(Ok(())));
    }
}

#[test]
fn registration_comes_before_the_plan() {
    let (creation, _) = PlanCreation::new(false).step(Event::Planned(Ok(copy())));
    let (done, action) = creation.step(Event::Registered(Ok(())));
    assert_eq!(action, Action::Finish(Ok(())));
    assert_eq!(done.phase, CreationPhase::Done);
    let (_, action) = creation.step(Event::Registered(Err("no store".to_string())));
    assert_eq!(action, Action::Finish(Err("no store".to_string())));
    let (same, action) = done.step(Event::Registered(Ok(())));
    assert_eq!((same, action), (done, Action::Unexpected));
}

#[test]
fn planning_error_is_the_outcome() {
    let (creation, action) =
        PlanCreation::new(false).step(Event::Planned(Err("no table".to_string())));
    assert_eq!(creation.phase, CreationPhase::Done);
    assert_eq!(action, Action::Finish(Err("no table".to_string())));
}

#[test]
fn custom_formats_have_none() {
    let plan: Shape = PlanShape::CreateExternalTable {
        location: "x".to_string(),
        file_type: "ARROW".to_string(),
        options: 0,
    };
    assert_eq!(format_of_plan(&plan), None);
    let place = registration_for(plan, true, None).unwrap();
    assert_eq!(place.format, None);
    assert!(place.resolve_region);
}
