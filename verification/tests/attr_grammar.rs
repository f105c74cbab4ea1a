use fatality::attr::{attribute_kind, Attr, AttrError, AttributeKind, ResolutionMode};

#[test]
fn parse_attr_blank() {
    let result = Attr::parse("");
    assert!(matches!(result, Ok(_)));
    assert_eq!(result, Ok(Attr { splitable: false }));
}

#[test]
fn parse_attr_splitable() {
    let result = Attr::parse("splitable");
    assert!(matches!(result, Ok(_)));
    assert_eq!(result, Ok(Attr { splitable: true }));
}

#[test]
fn parse_attr_resmode_forward() {
    let result = ResolutionMode::parse("forward").unwrap();
    assert!(matches!(result, ResolutionMode::Forward));
}

#[test]
fn parse_attr_err() {
    let result = Attr::parse("xyz");
    assert!(matches!(result, Err(_)));
    assert_eq!(result, Err(AttrError::UnexpectedToken));
}

#[test]
fn parse_full_attr() {
    let result = ResolutionMode::from_attribute("#[fatal(forward)]").unwrap();
    assert!(matches!(result, Ok(ResolutionMode::Forward)));
}

#[test]
fn attr_ignores_surrounding_whitespace() {
    assert_eq!(Attr::parse("  \n"), Ok(Attr { splitable: false }));
    assert_eq!(Attr::parse(" splitable\t"), Ok(Attr { splitable: true }));
}

#[test]
fn attr_refuses_more_than_one_word() {
    assert_eq!(Attr::parse("splitable splitable"), Err(AttrError::UnexpectedToken));
    assert_eq!(Attr::parse("splitable,"), Err(AttrError::UnexpectedToken));
    assert_eq!(Attr::parse("splitables"), Err(AttrError::UnexpectedToken));
}

#[test]
fn resolution_modes() {
    assert_eq!(ResolutionMode::parse("true"), Ok(ResolutionMode::WithExplicitBool(true)));
    assert_eq!(ResolutionMode::parse(" false "), Ok(ResolutionMode::WithExplicitBool(false)));
    assert_eq!(ResolutionMode::parse(""), Err(AttrError::ExpectedResolutionMode));
    assert_eq!(ResolutionMode::parse("fwd"), Err(AttrError::ExpectedResolutionMode));
}

#[test]
fn fatal_attribute_forms() {
    assert_eq!(ResolutionMode::from_attribute("#[fatal]"), Some(Ok(ResolutionMode::Fatal)));
    assert_eq!(
        ResolutionMode::from_attribute("# [fatal (true)]"),
        Some(Ok(ResolutionMode::WithExplicitBool(true)))
    );
    assert_eq!(
        ResolutionMode::from_attribute("# [fatal (false)]"),
        Some(Ok(ResolutionMode::WithExplicitBool(false)))
    );
    assert_eq!(
        ResolutionMode::from_attribute("#[fatal()]"),
        Some(Err(AttrError::ExpectedResolutionMode))
    );
    assert_eq!(
        ResolutionMode::from_attribute("#[fatal = true]"),
        Some(Err(AttrError::ExpectedResolutionMode))
    );
    assert_eq!(ResolutionMode::from_attribute("#[error(transparent)]"), None);
    assert_eq!(ResolutionMode::from_attribute("#[fatality]"), None);
}

#[test]
fn attribute_kinds() {
    assert_eq!(attribute_kind("# [error (transparent)]"), AttributeKind::Transparent);
    assert_eq!(attribute_kind("#[error(\"X={0}\")]"), AttributeKind::Other);
    assert_eq!(attribute_kind("#[source]"), AttributeKind::Source);
    assert_eq!(attribute_kind("#[from]"), AttributeKind::From);
    assert_eq!(attribute_kind("#[source = 1]"), AttributeKind::Other);
    assert_eq!(attribute_kind("# [doc = r\" text\"]"), AttributeKind::Other);
    assert_eq!(attribute_kind("#[fatal(maybe)]"), AttributeKind::MalformedFatal);
    assert_eq!(attribute_kind("fatal"), AttributeKind::Other);
    assert_eq!(attribute_kind("#fatal"), AttributeKind::Other);
    assert_eq!(attribute_kind(""), AttributeKind::Other);
    // a longer path is not the `fatal` attribute
    assert_eq!(attribute_kind("# [fatal :: x]"), AttributeKind::Other);
    assert_eq!(attribute_kind("#[source::inner]"), AttributeKind::Other);
}
