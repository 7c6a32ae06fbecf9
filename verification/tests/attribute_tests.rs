use weaver_semconv::attribute::{
    BasicRequirementLevelSpec, PrimitiveOrArrayTypeSpec, RequirementLevel, TemplateTypeSpec,
};

#[test]
fn test_requirement_level_spec_display() {
    assert_eq!(
        RequirementLevel::Basic(BasicRequirementLevelSpec::Required).to_string(),
        "required"
    );
    assert_eq!(
        RequirementLevel::Basic(BasicRequirementLevelSpec::Recommended).to_string(),
        "recommended"
    );
    assert_eq!(
        RequirementLevel::Basic(BasicRequirementLevelSpec::OptIn).to_string(),
        "opt-in"
    );
    assert_eq!(
        RequirementLevel::ConditionallyRequired {
            text: "condition".to_owned()
        }
        .to_string(),
        "conditionally required (condition: condition)"
    );
    assert_eq!(
        RequirementLevel::Recommended {
            text: "recommendation".to_owned()
        }
        .to_string(),
        "recommended (recommendation)"
    );
    assert_eq!(
        RequirementLevel::OptIn {
            text: "recommendation".to_owned()
        }
        .to_string(),
        "opt in (recommendation)"
    );
}

#[test]
fn test_basic_requirement_level_spec_display() {
    assert_eq!(BasicRequirementLevelSpec::Required.to_string(), "required");
    assert_eq!(BasicRequirementLevelSpec::Recommended.to_string(), "recommended");
    assert_eq!(BasicRequirementLevelSpec::OptIn.to_string(), "opt-in");
}

#[test]
fn test_primitive_or_array_type_spec_display() {
    assert_eq!(PrimitiveOrArrayTypeSpec::Boolean.to_string(), "boolean");
    assert_eq!(PrimitiveOrArrayTypeSpec::Int.to_string(), "int");
    assert_eq!(PrimitiveOrArrayTypeSpec::Double.to_string(), "double");
    assert_eq!(PrimitiveOrArrayTypeSpec::String.to_string(), "string");
    assert_eq!(PrimitiveOrArrayTypeSpec::Strings.to_string(), "string[]");
    assert_eq!(PrimitiveOrArrayTypeSpec::Ints.to_string(), "int[]");
    assert_eq!(PrimitiveOrArrayTypeSpec::Doubles.to_string(), "double[]");
    assert_eq!(PrimitiveOrArrayTypeSpec::Booleans.to_string(), "boolean[]");
    assert_eq!(PrimitiveOrArrayTypeSpec::Any.to_string(), "any");
}

#[test]
fn test_template_type_spec_display() {
    assert_eq!(TemplateTypeSpec::Boolean.to_string(), "template[boolean]");
    assert_eq!(TemplateTypeSpec::Int.to_string(), "template[int]");
    assert_eq!(TemplateTypeSpec::Double.to_string(), "template[double]");
    assert_eq!(TemplateTypeSpec::String.to_string(), "template[string]");
    assert_eq!(TemplateTypeSpec::Strings.to_string(), "template[string[]]");
    assert_eq!(TemplateTypeSpec::Ints.to_string(), "template[int[]]");
    assert_eq!(TemplateTypeSpec::Doubles.to_string(), "template[double[]]");
    assert_eq!(TemplateTypeSpec::Booleans.to_string(), "template[boolean[]]");
    assert_eq!(TemplateTypeSpec::Any.to_string(), "template[any]");
}

#[test]
fn test_is_compatible() {
    assert!(PrimitiveOrArrayTypeSpec::Boolean.is_compatible(&PrimitiveOrArrayTypeSpec::Boolean));
    assert!(!PrimitiveOrArrayTypeSpec::Boolean.is_compatible(&PrimitiveOrArrayTypeSpec::Int));
    assert!(PrimitiveOrArrayTypeSpec::Int.is_compatible(&PrimitiveOrArrayTypeSpec::Int));
    assert!(PrimitiveOrArrayTypeSpec::Int.is_compatible(&PrimitiveOrArrayTypeSpec::Any));
    assert!(PrimitiveOrArrayTypeSpec::Any.is_compatible(&PrimitiveOrArrayTypeSpec::Double));
    assert!(PrimitiveOrArrayTypeSpec::Any.is_compatible(&PrimitiveOrArrayTypeSpec::Any));
}

#[test]
fn compatibility_is_symmetric_on_examples() {
    let all = [
        PrimitiveOrArrayTypeSpec::Boolean,
        PrimitiveOrArrayTypeSpec::Int,
        PrimitiveOrArrayTypeSpec::Double,
        PrimitiveOrArrayTypeSpec::String,
        PrimitiveOrArrayTypeSpec::Any,
        PrimitiveOrArrayTypeSpec::Strings,
    ];
    for a in all.iter() {
        for b in all.iter() {
            assert_eq!(a.is_compatible(b), b.is_compatible(a));
        }
        assert!(a.is_compatible(a));
    }
}
