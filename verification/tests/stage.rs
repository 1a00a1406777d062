use alsacoin::models::stage::Stage;

#[test]
fn test_stage_parse() {
    let valid_stage_a = "testing";

    let res = Stage::parse(valid_stage_a);
    assert!(res.is_ok());

    let valid_stage_b = res.unwrap();
    assert_eq!(valid_stage_a, valid_stage_b.to_string());

    let invalid_stage = "test";

    let res = Stage::parse(invalid_stage);
    assert!(res.is_err());
}

#[test]
fn stage_names_round_trip() {
    for stage in [Stage::Development, Stage::Testing, Stage::Production] {
        assert_eq!(Stage::parse(&stage.to_string()).unwrap(), stage);
    }
    assert_eq!(Stage::default(), Stage::Development);
    assert!(matches!(Stage::parse("Production"), Err(alsacoin::models::error::Error::InvalidStage)));
}
