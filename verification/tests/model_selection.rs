use maxstable::model::{parse_model_type, select_model, ModelError, ModelKind};

#[test]
fn accepts_class_and_short_names() {
    assert_eq!(parse_model_type("SmithModel"), Some(ModelKind::Smith));
    assert_eq!(parse_model_type("smith"), Some(ModelKind::Smith));
    assert_eq!(parse_model_type("SchlatherModel"), Some(ModelKind::Schlather));
    assert_eq!(parse_model_type("schlather"), Some(ModelKind::Schlather));
    assert_eq!(parse_model_type("BrownResnickModel"), Some(ModelKind::BrownResnick));
    assert_eq!(parse_model_type("brownresnick"), Some(ModelKind::BrownResnick));
}

#[test]
fn rejects_other_spellings() {
    assert_eq!(parse_model_type("Smith"), None);
    assert_eq!(parse_model_type("brown_resnick"), None);
    assert_eq!(parse_model_type(""), None);
    assert_eq!(parse_model_type("smith "), None);
}

#[test]
fn parameter_counts() {
    assert_eq!(ModelKind::Smith.param_count(), 4);
    assert_eq!(ModelKind::Schlather.param_count(), 2);
    assert_eq!(ModelKind::BrownResnick.param_count(), 2);
}

#[test]
fn selects_model_with_right_param_count() {
    assert_eq!(select_model("smith", 4), Ok(ModelKind::Smith));
    assert_eq!(select_model("SchlatherModel", 2), Ok(ModelKind::Schlather));
    assert_eq!(select_model("brownresnick", 2), Ok(ModelKind::BrownResnick));
}

#[test]
fn wrong_param_count_is_refused() {
    assert_eq!(select_model("SmithModel", 2), Err(ModelError::WrongParamCount(ModelKind::Smith)));
    assert_eq!(select_model("schlather", 4), Err(ModelError::WrongParamCount(ModelKind::Schlather)));
    assert_eq!(select_model("BrownResnickModel", 0), Err(ModelError::WrongParamCount(ModelKind::BrownResnick)));
}

#[test]
fn unknown_name_is_refused_whatever_the_params() {
    assert_eq!(select_model("gauss", 2), Err(ModelError::UnknownModelType));
    assert_eq!(select_model("gauss", 4), Err(ModelError::UnknownModelType));
    assert_eq!(select_model("gauss", 0), Err(ModelError::UnknownModelType));
}

#[test]
fn refusal_messages() {
    assert_eq!(ModelError::UnknownModelType.message(), "unknown model_type");
    assert_eq!(
        ModelError::WrongParamCount(ModelKind::Smith).message(),
        "SmithModel needs 4 covariance params"
    );
    assert_eq!(
        ModelError::WrongParamCount(ModelKind::Schlather).message(),
        "SchlatherModel needs 2 params"
    );
    assert_eq!(
        ModelError::WrongParamCount(ModelKind::BrownResnick).message(),
        "BrownResnickModel needs 2 params"
    );
}
